//! History heuristic tables: butterfly history, capture history, the
//! counter-move table and the two-move (counter-move) history.
//!
//! On a beta cutoff with bonus `b = depth * depth` (updates are skipped
//! beyond depth 20) the cutoff move's slot moves toward `+MAX_VALUE` by
//! `b - b * value / MAX_VALUE`, and every quiet that failed to cut off
//! moves toward `-MAX_VALUE` by `b + b * value / MAX_VALUE`. Every slot
//! provably stays within `[-MAX_VALUE, MAX_VALUE]`.

use vstd::prelude::*;

use crate::moves::MoveData;

verus! {

/// Greatest magnitude a history score can reach.
pub const MAX_VALUE: i32 = 512;

const SQUARE_COUNT: usize = 64;
const PIECE_COUNT: usize = 12;

/// Flat index of a `(side, piece, destination)` key.
pub open spec fn key_index(color: u8, piece: u8, to: u8) -> int {
    (color * 6 + piece) * 64 + to
}

/// Signed decay term `b * value / MAX_VALUE`, with division truncating
/// toward zero as the executable code computes it.
pub open spec fn decay(v: int, b: int) -> int {
    if v >= 0 {
        b * v / (MAX_VALUE as int)
    } else {
        -(b * (-v) / (MAX_VALUE as int))
    }
}

/// New value of the cutoff move's slot.
pub open spec fn bump_up(v: int, b: int) -> int {
    v + b - decay(v, b)
}

/// New value of a failed quiet's slot.
pub open spec fn bump_down(v: int, b: int) -> int {
    v - b - decay(v, b)
}

/// Law: one history update keeps a slot within `[-MAX_VALUE, MAX_VALUE]`
/// whenever the bonus comes from a depth of at most 20.
pub proof fn lemma_bump_in_range(v: int, b: int)
    requires
        -MAX_VALUE <= v <= MAX_VALUE,
        0 <= b <= 400,
    ensures
        -MAX_VALUE <= bump_up(v, b) <= MAX_VALUE,
        -MAX_VALUE <= bump_down(v, b) <= MAX_VALUE,
{
    lemma_bump_up_range(v, b);
    lemma_bump_up_range(-v, b);
    assert(decay(-v, b) == -decay(v, b)) by {
        if v > 0 {
            assert(b * -(-v) == b * v) by (nonlinear_arith);
            assert(decay(-v, b) == -(b * v / 512));
            assert(decay(v, b) == b * v / 512);
        } else if v < 0 {
            assert(decay(-v, b) == b * (-v) / 512);
            assert(decay(v, b) == -(b * (-v) / 512));
        } else {
            assert(b * 0 == 0) by (nonlinear_arith);
        }
    }
    assert(bump_down(v, b) == -bump_up(-v, b));
}

proof fn lemma_bump_up_range(v: int, b: int)
    requires
        -MAX_VALUE <= v <= MAX_VALUE,
        0 <= b <= 400,
    ensures
        -MAX_VALUE <= bump_up(v, b) <= MAX_VALUE,
{
    if v >= 0 {
        assert(b * v >= 512 * (b + v - 512)) by (nonlinear_arith)
            requires
                0 <= v <= 512 && 0 <= b <= 512,
        ;
        assert(b * v / 512 >= b + v - 512) by (nonlinear_arith)
            requires
                b * v >= 512 * (b + v - 512),
        ;
        assert(0 <= b * v <= 512 * b) by (nonlinear_arith)
            requires
                0 <= v <= 512 && 0 <= b,
        ;
        assert(0 <= b * v / 512 <= b) by (nonlinear_arith)
            requires
                0 <= b * v <= 512 * b,
        ;
    } else {
        let u = -v;
        assert(0 <= b * u <= 512 * u) by (nonlinear_arith)
            requires
                0 < u && 0 <= b <= 512,
        ;
        assert(0 <= b * u / 512 <= u) by (nonlinear_arith)
            requires
                0 <= b * u <= 512 * u,
        ;
        assert(0 <= b * u <= 512 * b) by (nonlinear_arith)
            requires
                0 <= u <= 512 && 0 <= b,
        ;
        assert(b * u / 512 <= b) by (nonlinear_arith)
            requires
                0 <= b * u <= 512 * b,
        ;
    }
}

/// A sequence of slot updates, one `bump_down` per failed quiet, applied
/// in order.
pub open spec fn apply_fails(t: Seq<i16>, idxs: Seq<int>, b: int) -> Seq<i16>
    decreases idxs.len(),
{
    if idxs.len() == 0 {
        t
    } else {
        let prev = apply_fails(t, idxs.drop_last(), b);
        let i = idxs.last();
        if 0 <= i < prev.len() {
            prev.update(i, bump_down(prev[i] as int, b) as i16)
        } else {
            prev
        }
    }
}

/// All slots of a table stay within the history range.
pub open spec fn table_in_range(t: Seq<i16>) -> bool {
    forall|i: int| 0 <= i < t.len() ==> -MAX_VALUE <= #[trigger] t[i] <= MAX_VALUE
}

proof fn lemma_apply_fails_range(t: Seq<i16>, idxs: Seq<int>, b: int)
    requires
        table_in_range(t),
        0 <= b <= 400,
    ensures
        table_in_range(apply_fails(t, idxs, b)),
        apply_fails(t, idxs, b).len() == t.len(),
    decreases idxs.len(),
{
    if idxs.len() > 0 {
        lemma_apply_fails_range(t, idxs.drop_last(), b);
        let prev = apply_fails(t, idxs.drop_last(), b);
        let i = idxs.last();
        if 0 <= i < prev.len() {
            lemma_bump_in_range(prev[i] as int, b);
        }
    }
}

/// Executes one `bump_up` or `bump_down` on a slot.
fn bump_slot(table: &mut Vec<i16>, idx: usize, b: u32, up: bool)
    requires
        table_in_range(old(table)@),
        idx < old(table)@.len(),
        b <= 400,
    ensures
        final(table)@ == old(table)@.update(
            idx as int,
            if up {
                bump_up(old(table)@[idx as int] as int, b as int) as i16
            } else {
                bump_down(old(table)@[idx as int] as int, b as int) as i16
            },
        ),
        table_in_range(final(table)@),
{
    let v = table[idx];
    let mag: u32 = if v >= 0 {
        v as u32
    } else {
        (-(v as i32)) as u32
    };
    assert(0 <= b * mag <= 400 * 512) by (nonlinear_arith)
        requires
            0 <= b <= 400 && 0 <= mag <= 512,
    ;
    let dec: u32 = b * mag / 512;
    proof {
        lemma_bump_in_range(v as int, b as int);
        if v >= 0 {
            assert(dec as int == decay(v as int, b as int));
        } else {
            assert(dec as int == -decay(v as int, b as int));
        }
    }
    let new_v: i32 = if up {
        if v >= 0 {
            v as i32 + b as i32 - dec as i32
        } else {
            v as i32 + b as i32 + dec as i32
        }
    } else {
        if v >= 0 {
            v as i32 - b as i32 - dec as i32
        } else {
            v as i32 - b as i32 + dec as i32
        }
    };
    table.set(idx, new_v as i16);
}

/// Butterfly history: `(side, piece, destination) -> score`. The capture
/// history is a second instance of this table.
#[derive(Debug, Clone)]
pub struct HistoryTable {
    table: Vec<i16>,
}

impl HistoryTable {
    pub closed spec fn view(&self) -> Seq<i16> {
        self.table@
    }

    pub open spec fn wf(&self) -> bool {
        &&& self@.len() == 768
        &&& table_in_range(self@)
    }

    pub fn new() -> (r: Self)
        ensures
            r.wf(),
            forall|i: int| 0 <= i < 768 ==> r@[i] == 0,
    {
        let mut table: Vec<i16> = Vec::new();
        let mut i: usize = 0;
        while i < 768
            invariant
                i == table@.len(),
                i <= 768,
                forall|j: int| 0 <= j < i ==> table@[j] == 0,
            decreases 768 - i,
        {
            table.push(0);
            i += 1;
        }
        HistoryTable { table }
    }

    pub fn get(&self, color: u8, piece: u8, to: u8) -> (r: i16)
        requires
            self.wf(),
            color < 2,
            piece < 6,
            to < 64,
        ensures
            r == self@[key_index(color, piece, to)],
            -MAX_VALUE <= r <= MAX_VALUE,
    {
        let idx = (color as usize * 6 + piece as usize) * 64 + to as usize;
        self.table[idx]
    }

    /// Records a beta cutoff at depth `amt`: rewards the cutoff move and
    /// penalizes the quiets in `fails` (as `(piece, destination)` keys), in
    /// order. A no-op beyond depth 20. Every slot stays in
    /// `[-MAX_VALUE, MAX_VALUE]`.
    pub fn cutoff(&mut self, color: u8, piece: u8, to: u8, fails: &Vec<(u8, u8)>, amt: u32)
        requires
            old(self).wf(),
            color < 2,
            piece < 6,
            to < 64,
            forall|i: int|
                0 <= i < fails@.len() ==> (#[trigger] fails@[i]).0 < 6 && fails@[i].1 < 64,
        ensures
            final(self).wf(),
            amt > 20 ==> final(self)@ == old(self)@,
            amt <= 20 ==> final(self)@ == apply_fails(
                old(self)@.update(
                    key_index(color, piece, to),
                    bump_up(old(self)@[key_index(color, piece, to)] as int, amt * amt) as i16,
                ),
                fails@.map_values(|f: (u8, u8)| key_index(color, f.0, f.1)),
                amt * amt,
            ),
    {
        if amt > 20 {
            return ;
        }
        assert(amt * amt <= 400) by (nonlinear_arith)
            requires
                amt <= 20,
        ;
        let b: u32 = amt * amt;
        let idx = (color as usize * 6 + piece as usize) * 64 + to as usize;
        bump_slot(&mut self.table, idx, b, true);
        let ghost start = self.table@;
        let ghost idxs = fails@.map_values(|f: (u8, u8)| key_index(color, f.0, f.1));
        let mut i: usize = 0;
        while i < fails.len()
            invariant
                i <= fails@.len(),
                idxs == fails@.map_values(|f: (u8, u8)| key_index(color, f.0, f.1)),
                forall|k: int|
                    0 <= k < fails@.len() ==> (#[trigger] fails@[k]).0 < 6 && fails@[k].1 < 64,
                color < 2,
                table_in_range(start),
                start.len() == 768,
                b <= 400,
                self.table@ == apply_fails(start, idxs.take(i as int), b as int),
            decreases fails@.len() - i,
        {
            proof {
                lemma_apply_fails_range(start, idxs.take(i as int), b as int);
            }
            assert(self.table@.len() == 768);
            let f = fails[i];
            let fidx = (color as usize * 6 + f.0 as usize) * 64 + f.1 as usize;
            assert(fidx as int == idxs[i as int]);
            assert(idxs.take(i as int + 1).drop_last() =~= idxs.take(i as int));
            assert(idxs.take(i as int + 1).last() == idxs[i as int]);
            bump_slot(&mut self.table, fidx, b, false);
            i += 1;
            assert(self.table@ == apply_fails(start, idxs.take(i as int), b as int));
        }
        assert(idxs.take(fails@.len() as int) =~= idxs);
        proof {
            lemma_apply_fails_range(start, idxs, b as int);
        }
    }
}

/// Counter-move table: the most recent quiet reply that refuted the
/// opponent's previous move, keyed by `(side, previous piece, previous
/// destination)`.
#[derive(Debug, Clone)]
pub struct CounterMoveTable {
    table: Vec<Option<MoveData>>,
}

impl CounterMoveTable {
    pub closed spec fn view(&self) -> Seq<Option<MoveData>> {
        self.table@
    }

    pub open spec fn wf(&self) -> bool {
        self@.len() == 768
    }

    pub fn new() -> (r: Self)
        ensures
            r.wf(),
            forall|i: int| 0 <= i < 768 ==> r@[i] is None,
    {
        let mut table: Vec<Option<MoveData>> = Vec::new();
        let mut i: usize = 0;
        while i < 768
            invariant
                i == table@.len(),
                i <= 768,
                forall|j: int| 0 <= j < i ==> table@[j] is None,
            decreases 768 - i,
        {
            table.push(None);
            i += 1;
        }
        CounterMoveTable { table }
    }

    pub fn get(&self, color: u8, piece: u8, to: u8) -> (r: Option<MoveData>)
        requires
            self.wf(),
            color < 2,
            piece < 6,
            to < 64,
        ensures
            r == self@[key_index(color, piece, to)],
    {
        let idx = (color as usize * 6 + piece as usize) * 64 + to as usize;
        self.table[idx]
    }

    /// Stores the cutoff move as the counter of the previous move; only the
    /// latest counter is kept. A no-op beyond depth 20.
    pub fn cutoff(&mut self, color: u8, piece: u8, to: u8, cutoff_move: MoveData, amt: u32)
        requires
            old(self).wf(),
            color < 2,
            piece < 6,
            to < 64,
        ensures
            final(self).wf(),
            amt > 20 ==> final(self)@ == old(self)@,
            amt <= 20 ==> final(self)@ == old(self)@.update(
                key_index(color, piece, to),
                Some(cutoff_move),
            ),
    {
        if amt > 20 {
            return ;
        }
        let idx = (color as usize * 6 + piece as usize) * 64 + to as usize;
        self.table.set(idx, Some(cutoff_move));
    }
}

/// Flat index of a `(side, previous piece, previous destination, piece,
/// destination)` key.
pub open spec fn pair_index(color: u8, piece_0: u8, to_0: u8, piece_1: u8, to_1: u8) -> int {
    ((color * 6 + piece_0) * 64 + to_0) * 384 + piece_1 * 64 + to_1
}

/// Counter-move history: a history score over consecutive move pairs.
#[derive(Debug, Clone)]
pub struct DoubleMoveHistory {
    table: Vec<i16>,
}

impl DoubleMoveHistory {
    pub closed spec fn view(&self) -> Seq<i16> {
        self.table@
    }

    pub open spec fn wf(&self) -> bool {
        &&& self@.len() == 294912
        &&& table_in_range(self@)
    }

    pub fn new() -> (r: Self)
        ensures
            r.wf(),
            forall|i: int| 0 <= i < 294912 ==> r@[i] == 0,
    {
        let mut table: Vec<i16> = Vec::new();
        let mut i: usize = 0;
        while i < 294912
            invariant
                i == table@.len(),
                i <= 294912,
                forall|j: int| 0 <= j < i ==> table@[j] == 0,
            decreases 294912 - i,
        {
            table.push(0);
            i += 1;
        }
        DoubleMoveHistory { table }
    }

    pub fn get(&self, color: u8, piece_0: u8, to_0: u8, piece_1: u8, to_1: u8) -> (r: i16)
        requires
            self.wf(),
            color < 2,
            piece_0 < 6,
            to_0 < 64,
            piece_1 < 6,
            to_1 < 64,
        ensures
            r == self@[pair_index(color, piece_0, to_0, piece_1, to_1)],
            -MAX_VALUE <= r <= MAX_VALUE,
    {
        let idx = ((color as usize * 6 + piece_0 as usize) * 64 + to_0 as usize) * 384 + piece_1
            as usize * 64 + to_1 as usize;
        self.table[idx]
    }

    /// Records a beta cutoff for the `(previous move, cutoff move)` pair
    /// and penalizes the failed quiet pairs, in order. A no-op beyond
    /// depth 20. Every slot stays in `[-MAX_VALUE, MAX_VALUE]`.
    pub fn cutoff(
        &mut self,
        color: u8,
        prev_piece: u8,
        prev_to: u8,
        piece: u8,
        to: u8,
        fails: &Vec<(u8, u8)>,
        amt: u32,
    )
        requires
            old(self).wf(),
            color < 2,
            prev_piece < 6,
            prev_to < 64,
            piece < 6,
            to < 64,
            forall|i: int|
                0 <= i < fails@.len() ==> (#[trigger] fails@[i]).0 < 6 && fails@[i].1 < 64,
        ensures
            final(self).wf(),
            amt > 20 ==> final(self)@ == old(self)@,
            amt <= 20 ==> final(self)@ == apply_fails(
                old(self)@.update(
                    pair_index(color, prev_piece, prev_to, piece, to),
                    bump_up(
                        old(self)@[pair_index(color, prev_piece, prev_to, piece, to)] as int,
                        amt * amt,
                    ) as i16,
                ),
                fails@.map_values(
                    |f: (u8, u8)| pair_index(color, prev_piece, prev_to, f.0, f.1),
                ),
                amt * amt,
            ),
    {
        if amt > 20 {
            return ;
        }
        assert(amt * amt <= 400) by (nonlinear_arith)
            requires
                amt <= 20,
        ;
        let b: u32 = amt * amt;
        let idx = ((color as usize * 6 + prev_piece as usize) * 64 + prev_to as usize) * 384
            + piece as usize * 64 + to as usize;
        bump_slot(&mut self.table, idx, b, true);
        let ghost start = self.table@;
        let ghost idxs = fails@.map_values(
            |f: (u8, u8)| pair_index(color, prev_piece, prev_to, f.0, f.1),
        );
        let mut i: usize = 0;
        while i < fails.len()
            invariant
                i <= fails@.len(),
                idxs == fails@.map_values(
                    |f: (u8, u8)| pair_index(color, prev_piece, prev_to, f.0, f.1),
                ),
                forall|k: int|
                    0 <= k < fails@.len() ==> (#[trigger] fails@[k]).0 < 6 && fails@[k].1 < 64,
                color < 2 && prev_piece < 6 && prev_to < 64,
                table_in_range(start),
                start.len() == 294912,
                b <= 400,
                self.table@ == apply_fails(start, idxs.take(i as int), b as int),
            decreases fails@.len() - i,
        {
            proof {
                lemma_apply_fails_range(start, idxs.take(i as int), b as int);
            }
            assert(self.table@.len() == 294912);
            let f = fails[i];
            let fidx = ((color as usize * 6 + prev_piece as usize) * 64 + prev_to as usize) * 384
                + f.0 as usize * 64 + f.1 as usize;
            assert(fidx as int == idxs[i as int]);
            assert(idxs.take(i as int + 1).drop_last() =~= idxs.take(i as int));
            assert(idxs.take(i as int + 1).last() == idxs[i as int]);
            bump_slot(&mut self.table, fidx, b, false);
            i += 1;
            assert(self.table@ == apply_fails(start, idxs.take(i as int), b as int));
        }
        assert(idxs.take(fails@.len() as int) =~= idxs);
        proof {
            lemma_apply_fails_range(start, idxs, b as int);
        }
    }
}

} // verus!
