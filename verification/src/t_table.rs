//! Fixed-size transposition table. Each slot holds two 64-bit words: a
//! key word and a payload word, with the discipline `key == hash XOR
//! payload`. A probe that finds a slot violating that equation, or a
//! payload without its validity flag, reports a miss; so a probe never
//! returns anything but a payload some store wrote together with its hash.
//!
//! The payload packs a validity flag, a depth byte, the entry kind, the
//! table move and a score into one word; packing and unpacking are proved
//! inverse to one another.

use vstd::prelude::*;

use crate::eval::Evaluation;
use crate::eval::SCORE_LIMIT;
use crate::moves::MoveData;
use crate::moves::NO_PROMOTION;

verus! {

/// How a stored score bounds the true score of its position.
#[derive(Debug, Copy, Clone, PartialEq, Eq, Structural)]
pub enum EntryType {
    LowerBound,
    Exact,
    UpperBound,
}

/// Bias added to a score before packing, so the packed field is
/// non-negative; the score range fits 24 bits under this bias.
pub const SCORE_BIAS: i64 = 8_388_608;

pub open spec fn entry_code(t: EntryType) -> u64 {
    match t {
        EntryType::LowerBound => 0,
        EntryType::Exact => 1,
        EntryType::UpperBound => 2,
    }
}

/// One analysed position, as stored in the table.
#[derive(Debug, Copy, Clone, PartialEq, Eq, Structural)]
pub struct Analysis {
    pub exists: bool,
    pub depth: u8,
    pub entry_type: EntryType,
    pub score: Evaluation,
    pub table_move: MoveData,
}

impl Analysis {
    pub open spec fn wf(self) -> bool {
        &&& self.score.wf()
        &&& -1_100_000 <= self.score.val() <= 1_100_000
        &&& self.table_move.wf()
    }

    pub fn new(depth: u32, entry_type: EntryType, score: Evaluation, table_move: MoveData) -> (r:
        Self)
        requires
            score.wf(),
            table_move.wf(),
        ensures
            r.wf(),
            r.exists,
            r.depth as u32 == if depth <= 255 {
                depth
            } else {
                255u32
            },
            r.entry_type == entry_type,
            // scores beyond the engine's score range are clamped on storage
            r.score.val() == if score.val() > 1_100_000 {
                1_100_000int
            } else if score.val() < -1_100_000 {
                -1_100_000int
            } else {
                score.val()
            },
            -1_100_000 <= score.val() <= 1_100_000 ==> r.score == score,
            r.table_move == table_move,
    {
        let depth_u8: u8 = if depth <= 255 {
            depth as u8
        } else {
            255
        };
        let sc = if score.raw() > 1_100_000 {
            Evaluation::new(1_100_000)
        } else if score.raw() < -1_100_000 {
            Evaluation::new(-1_100_000)
        } else {
            score
        };
        proof {
            crate::eval::lemma_val_injective(sc, score);
        }
        Analysis { exists: true, depth: depth_u8, entry_type, score: sc, table_move }
    }

    /// The empty slot value.
    pub fn zero() -> (r: Self)
        ensures
            r.wf(),
            !r.exists,
            r == Self::zero_spec(),
    {
        Analysis {
            exists: false,
            depth: 0,
            entry_type: EntryType::LowerBound,
            score: Evaluation::new(0),
            table_move: MoveData::new(0, 0, NO_PROMOTION),
        }
    }

    pub open spec fn zero_spec() -> Analysis {
        Analysis {
            exists: false,
            depth: 0,
            entry_type: EntryType::LowerBound,
            score: Evaluation::of_val(0),
            table_move: MoveData { from: 0, to: 0, promotion: NO_PROMOTION },
        }
    }

    pub fn depth(&self) -> (r: u32)
        ensures
            r == self.depth,
    {
        self.depth as u32
    }

    pub fn entry_type(&self) -> (r: EntryType)
        ensures
            r == self.entry_type,
    {
        self.entry_type
    }

    pub fn score(&self) -> (r: Evaluation)
        ensures
            r == self.score,
    {
        self.score
    }

    pub fn table_move(&self) -> (r: MoveData)
        ensures
            r == self.table_move,
    {
        self.table_move
    }
}

/// The packed payload word of an analysis: validity bit, depth byte,
/// entry kind, move fields, then the biased score.
pub open spec fn pack_spec(a: Analysis) -> u64 {
    (if a.exists {
        1u64
    } else {
        0u64
    }) | ((a.depth as u64) << 1) | (entry_code(a.entry_type) << 9) | ((a.table_move.from
        as u64) << 11) | ((a.table_move.to as u64) << 17) | ((a.table_move.promotion as u64) << 23)
        | (((a.score.val() + SCORE_BIAS) as u64) << 26)
}


/// The packed word yields back each field under its mask and shift.
proof fn lemma_pack_fields(p: u64, v: u64, d: u64, code: u64, f: u64, t: u64, pr: u64, biased: u64)
    requires
        p == v | (d << 1) | (code << 9) | (f << 11) | (t << 17) | (pr << 23) | (biased << 26),
        v <= 1,
        d <= 255,
        code <= 2,
        f <= 63,
        t <= 63,
        pr <= 6,
        biased < 0x1000000,
    ensures
        p & 1 == v,
        (p >> 1) & 0xff == d,
        (p >> 9) & 3 == code,
        (p >> 11) & 63 == f,
        (p >> 17) & 63 == t,
        (p >> 23) & 7 == pr,
        (p >> 26) & 0xffffff == biased,
{
    assert((v | (d << 1) | (code << 9) | (f << 11) | (t << 17) | (pr << 23) | (biased << 26)) & 1
        == v && ((v | (d << 1) | (code << 9) | (f << 11) | (t << 17) | (pr << 23) | (biased
        << 26)) >> 1) & 0xff == d && ((v | (d << 1) | (code << 9) | (f << 11) | (t << 17) | (pr
        << 23) | (biased << 26)) >> 9) & 3 == code && ((v | (d << 1) | (code << 9) | (f << 11) | (t
        << 17) | (pr << 23) | (biased << 26)) >> 11) & 63 == f && ((v | (d << 1) | (code << 9) | (f
        << 11) | (t << 17) | (pr << 23) | (biased << 26)) >> 17) & 63 == t && ((v | (d << 1) | (
    code << 9) | (f << 11) | (t << 17) | (pr << 23) | (biased << 26)) >> 23) & 7 == pr && ((v | (d
        << 1) | (code << 9) | (f << 11) | (t << 17) | (pr << 23) | (biased << 26)) >> 26)
        & 0xffffff == biased) by (bit_vector)
        requires
            v <= 1,
            d <= 255,
            code <= 2,
            f <= 63,
            t <= 63,
            pr <= 6,
            biased < 0x1000000,
    ;
}

/// Applies `lemma_pack_fields` to a well-formed analysis and its packed
/// form.
proof fn lemma_pack_fields_of(a: Analysis)
    requires
        a.wf(),
    ensures
        pack_spec(a) & 1 == if a.exists {
            1u64
        } else {
            0u64
        },
        (pack_spec(a) >> 1) & 0xff == a.depth as u64,
        (pack_spec(a) >> 9) & 3 == entry_code(a.entry_type),
        (pack_spec(a) >> 11) & 63 == a.table_move.from as u64,
        (pack_spec(a) >> 17) & 63 == a.table_move.to as u64,
        (pack_spec(a) >> 23) & 7 == a.table_move.promotion as u64,
        (pack_spec(a) >> 26) & 0xffffff == (a.score.val() + SCORE_BIAS) as u64,
{
    let v: u64 = if a.exists {
        1u64
    } else {
        0u64
    };
    lemma_pack_fields(
        pack_spec(a),
        v,
        a.depth as u64,
        entry_code(a.entry_type),
        a.table_move.from as u64,
        a.table_move.to as u64,
        a.table_move.promotion as u64,
        (a.score.val() + SCORE_BIAS) as u64,
    );
}

/// Builds the payload word of an analysis.
fn pack(a: &Analysis) -> (r: u64)
    requires
        a.wf(),
    ensures
        r == pack_spec(*a),
        r & 1 == 1 <==> a.exists,
{
    let valid: u64 = if a.exists {
        1
    } else {
        0
    };
    let code: u64 = match a.entry_type {
        EntryType::LowerBound => 0,
        EntryType::Exact => 1,
        EntryType::UpperBound => 2,
    };
    let biased: u64 = (a.score.raw() as i64 + SCORE_BIAS) as u64;
    let r = valid | ((a.depth as u64) << 1) | (code << 9) | ((a.table_move.from as u64) << 11) | ((
    a.table_move.to as u64) << 17) | ((a.table_move.promotion as u64) << 23) | (biased << 26);
    proof {
        lemma_pack_fields_of(*a);
    }
    r
}

/// Recovers the analysis whose packed form is `p`. The ghost witness
/// carries the fields; the body recomputes them from the word and the
/// proof shows they agree.
fn unpack_checked(p: u64, Ghost(a): Ghost<Analysis>) -> (r: Analysis)
    requires
        a.wf(),
        a.exists,
        p == pack_spec(a),
    ensures
        r == a,
{
    proof {
        lemma_pack_fields_of(a);
    }
    let depth: u8 = ((p >> 1) & 0xff) as u8;
    let code: u64 = (p >> 9) & 3;
    let entry_type = if code == 0 {
        EntryType::LowerBound
    } else if code == 1 {
        EntryType::Exact
    } else {
        EntryType::UpperBound
    };
    let from: u8 = ((p >> 11) & 63) as u8;
    let to: u8 = ((p >> 17) & 63) as u8;
    let promotion: u8 = ((p >> 23) & 7) as u8;
    let biased: u64 = (p >> 26) & 0xffffff;
    let score_raw: i64 = biased as i64 - SCORE_BIAS;
    let score = Evaluation::new(score_raw as i32);
    proof {
        crate::eval::lemma_val_injective(score, a.score);
    }
    Analysis {
        exists: true,
        depth,
        entry_type,
        score,
        table_move: MoveData { from, to, promotion },
    }
}

/// Whether a new analysis may replace an incumbent: deeper entries and
/// cut or exact entries are favoured.
pub open spec fn do_replace_spec(a: Analysis, b: Analysis) -> bool {
    a.depth + bonus_spec(a.entry_type) >= (b.depth + bonus_spec(b.entry_type)) / 2
}

pub open spec fn bonus_spec(t: EntryType) -> int {
    if t is UpperBound {
        0
    } else {
        2
    }
}

/// Whether a store wins its slot: empty slots are always taken.
pub open spec fn should_replace_spec(slot: Option<(u64, Analysis)>, a: Analysis) -> bool {
    match slot {
        None => true,
        Some((h, b)) => do_replace_spec(a, b),
    }
}

/// A power of two: the slot counts the table can have, so that the index
/// mask selects every slot uniformly.
pub open spec fn is_pow2(n: int) -> bool
    decreases n,
{
    if n <= 0 {
        false
    } else if n == 1 {
        true
    } else {
        n % 2 == 0 && is_pow2(n / 2)
    }
}

/// One table slot: the key word and the payload word.
#[derive(Debug)]
pub struct Entry {
    pub hash: u64,
    pub analysis: u64,
}

impl Entry {
    fn zeroed() -> (r: Self)
        ensures
            r.hash == 0,
            r.analysis == 0,
    {
        Entry { hash: 0, analysis: 0 }
    }

    fn zero(&mut self)
        ensures
            final(self).hash == 0,
            final(self).analysis == 0,
    {
        self.hash = 0;
        self.analysis = 0;
    }

    /// Writes the two words of a slot.
    pub fn set_new(&mut self, hash: u64, entry: u64)
        ensures
            final(self).hash == hash,
            final(self).analysis == entry,
    {
        self.hash = hash;
        self.analysis = entry;
    }
}

proof fn lemma_xor_cancel(p: u64, x: u64, y: u64)
    ensures
        (p ^ x == y ^ p) <==> (x == y),
{
    assert((p ^ x == y ^ p) <==> (x == y)) by (bit_vector);
}

proof fn lemma_xor_comm(x: u64, y: u64)
    ensures
        x ^ y == y ^ x,
{
    assert(x ^ y == y ^ x) by (bit_vector);
}

/// The transposition table: a power-of-two array of slots indexed by the
/// low bits of the position hash.
pub struct TranspositionTable {
    table: Vec<Entry>,
    mask: u64,
    logical: Ghost<Seq<Option<(u64, Analysis)>>>,
}

impl TranspositionTable {
    /// The logical content of slot `i`: `None` for an empty slot, or the
    /// hash and analysis of the store that last won it.
    pub closed spec fn slot(&self, i: int) -> Option<(u64, Analysis)> {
        self.logical@[i]
    }

    pub closed spec fn slots(&self) -> int {
        self.logical@.len() as int
    }

    /// The raw words of slot `i`, as a reader would load them.
    pub closed spec fn words(&self, i: int) -> (u64, u64) {
        (self.table@[i].hash, self.table@[i].analysis)
    }

    pub closed spec fn index_spec(&self, hash: u64) -> int {
        (hash & self.mask) as int
    }

    /// The slot discipline: an empty slot is all zeroes; a full slot holds
    /// the packed analysis and its hash XOR-folded with it.
    pub closed spec fn wf(&self) -> bool {
        &&& self.table@.len() == self.logical@.len()
        &&& 1 <= self.table@.len() <= 0x2000_0000
        &&& self.mask as int == self.table@.len() - 1
        &&& forall|i: int|
            0 <= i < self.logical@.len() ==> match #[trigger] self.logical@[i] {
                None => self.table@[i].hash == 0 && self.table@[i].analysis == 0,
                Some((h, a)) => a.wf() && a.exists && self.table@[i].analysis == pack_spec(a)
                    && self.table@[i].hash == h ^ pack_spec(a),
            }
    }

    /// What a probe of `hash` finds: the analysis stored under exactly
    /// that hash in the slot the hash selects, if any.
    pub open spec fn lookup_spec(&self, hash: u64) -> Option<Analysis> {
        match self.slot(self.index_spec(hash)) {
            Some((h, a)) => if h == hash {
                Some(a)
            } else {
                None
            },
            None => None,
        }
    }

    /// Builds a table of `size` slots rounded up to the next power of two,
    /// all empty.
    pub fn new(size: usize) -> (r: Self)
        requires
            1 <= size <= 0x1000_0000,
        ensures
            r.wf(),
            forall|i: int| 0 <= i < r.slots() ==> #[trigger] r.slot(i) is None,
            r.slots() >= size,
            is_pow2(r.slots()),
            r.slots() == 1 || r.slots() / 2 < size,
    {
        let mut n: usize = 1;
        while n < size
            invariant
                1 <= n < 0x2000_0000,
                size <= 0x1000_0000,
                is_pow2(n as int),
                n == 1 || n / 2 < size,
            decreases 2 * size - n,
        {
            n = n * 2;
        }
        let mut table: Vec<Entry> = Vec::new();
        let mut i: usize = 0;
        while i < n
            invariant
                i == table@.len(),
                i <= n,
                forall|j: int|
                    0 <= j < i ==> (#[trigger] table@[j]).hash == 0 && table@[j].analysis == 0,
            decreases n - i,
        {
            table.push(Entry::zeroed());
            i += 1;
        }
        let ghost logical = Seq::new(n as nat, |j: int| None::<(u64, Analysis)>);
        TranspositionTable { table, mask: (n - 1) as u64, logical: Ghost(logical) }
    }

    /// The slot index of a hash: its low bits.
    pub fn index(&self, hash: u64) -> (r: usize)
        requires
            self.wf(),
        ensures
            r == self.index_spec(hash),
            0 <= r < self.slots(),
    {
        let idx = hash & self.mask;
        proof {
            let m = self.mask;
            assert(hash & m <= m) by (bit_vector);
        }
        idx as usize
    }

    /// Probes the table. A hit is exactly an analysis that a store wrote
    /// under this very hash; a slot whose words fail the XOR discipline or
    /// whose validity flag is clear is a miss.
    pub fn get(&self, hash: u64) -> (r: Option<Analysis>)
        requires
            self.wf(),
        ensures
            r == self.lookup_spec(hash),
            r matches Some(a) ==> {
                &&& a.wf()
                &&& a.exists
                &&& self.words(self.index_spec(hash)).1 == pack_spec(a)
                &&& self.words(self.index_spec(hash)).0 == hash ^ pack_spec(a)
            },
    {
        let idx = self.index(hash);
        let key = self.table[idx].hash;
        let data = self.table[idx].analysis;
        if data ^ hash == key && data & 1 == 1 {
            proof {
                match self.logical@[idx as int] {
                    None => {
                        assert(data == 0);
                        assert(0u64 ^ hash == hash) by (bit_vector);
                        assert(0u64 & 1 == 0) by (bit_vector);
                        assert(false);
                    },
                    Some((h, a)) => {
                        lemma_xor_cancel(data, hash, h);
                        lemma_pack_fields_of(a);
                        lemma_xor_comm(hash, pack_spec(a));
                    },
                }
            }
            let ghost a = self.logical@[idx as int]->Some_0.1;
            Some(unpack_checked(data, Ghost(a)))
        } else {
            proof {
                match self.logical@[idx as int] {
                    Some((h, a)) => {
                        if h == hash {
                            lemma_pack_fields_of(a);
                            lemma_xor_comm(hash, pack_spec(a));
                        }
                    },
                    None => {},
                }
            }
            None
        }
    }

    /// Stores an analysis under a hash. The slot is written when it is
    /// empty or when the replacement policy favours the newcomer; the two
    /// words written are the packed payload and the hash XOR-folded with
    /// it.
    pub fn set(&mut self, hash: u64, entry: Analysis)
        requires
            old(self).wf(),
            entry.wf(),
            entry.exists,
        ensures
            final(self).wf(),
            final(self).slots() == old(self).slots(),
            forall|h: u64| #[trigger]
                final(self).index_spec(h) == old(self).index_spec(h),
            should_replace_spec(old(self).slot(old(self).index_spec(hash)), entry)
                ==> final(self).slot(old(self).index_spec(hash)) == Some((hash, entry)),
            !should_replace_spec(old(self).slot(old(self).index_spec(hash)), entry)
                ==> final(self).slot(old(self).index_spec(hash))
                == old(self).slot(old(self).index_spec(hash)),
            forall|j: int|
                0 <= j < old(self).slots() && j != old(self).index_spec(hash)
                    ==> #[trigger] final(self).slot(j) == old(self).slot(j),
    {
        let idx = self.index(hash);
        let data = self.table[idx].analysis;
        let replace: bool;
        if data & 1 == 0 {
            proof {
                match self.logical@[idx as int] {
                    Some((h, a)) => {
                        lemma_pack_fields_of(a);
                    },
                    None => {},
                }
            }
            replace = true;
        } else {
            proof {
                match self.logical@[idx as int] {
                    None => {
                        assert(0u64 & 1 == 0) by (bit_vector);
                        assert(false);
                    },
                    Some((h, a)) => {},
                }
            }
            let ghost b = self.logical@[idx as int]->Some_0.1;
            proof {
                lemma_pack_fields_of(b);
            }
            let inc_depth: u32 = ((data >> 1) & 0xff) as u32;
            let inc_code: u64 = (data >> 9) & 3;
            let inc_bonus: u32 = if inc_code == 2 {
                0
            } else {
                2
            };
            let new_bonus: u32 = match entry.entry_type {
                EntryType::UpperBound => 0,
                _ => 2,
            };
            let new_depth: u32 = entry.depth as u32;
            replace = new_depth + new_bonus >= (inc_depth + inc_bonus) / 2;
        }
        if replace {
            let packed = pack(&entry);
            self.table[idx].set_new(hash ^ packed, packed);
            proof {
                self.logical@ = self.logical@.update(idx as int, Some((hash, entry)));
                assert(hash ^ packed == hash ^ pack_spec(entry));
            }
        }
    }

    /// Empties every slot.
    pub fn clean(&mut self)
        requires
            old(self).wf(),
        ensures
            final(self).wf(),
            final(self).slots() == old(self).slots(),
            forall|i: int| 0 <= i < final(self).slots() ==> #[trigger] final(self).slot(i) is None,
    {
        let mut i: usize = 0;
        let n = self.table.len();
        while i < n
            invariant
                n == self.table@.len(),
                self.logical@.len() == n,
                i <= n,
                self.mask as int == n - 1,
                n >= 1,
                forall|j: int|
                    0 <= j < i ==> (#[trigger] self.table@[j]).hash == 0 && self.table@[j].analysis
                        == 0 && self.logical@[j] is None,
                forall|j: int|
                    i <= j < n ==> match #[trigger] self.logical@[j] {
                        None => self.table@[j].hash == 0 && self.table@[j].analysis == 0,
                        Some((h, a)) => a.wf() && a.exists && self.table@[j].analysis == pack_spec(
                            a,
                        ) && self.table@[j].hash == h ^ pack_spec(a),
                    },
            decreases n - i,
        {
            self.table[i].zero();
            proof {
                self.logical@ = self.logical@.update(i as int, None);
            }
            i += 1;
        }
    }

    /// A scheduling hint in the original interface; nothing observable
    /// happens.
    pub fn prefetch(&self, _hash: u64) {
    }
}

/// Law: a store that wins its slot is what the next probe of the same
/// hash returns, and a probe never returns anything but the exact pair a
/// store wrote.
pub proof fn lemma_store_round_trip(t: &TranspositionTable, hash: u64, a: Analysis)
    requires
        t.wf(),
        t.slot(t.index_spec(hash)) == Some((hash, a)),
    ensures
        t.lookup_spec(hash) == Some(a),
{
}

} // verus!
