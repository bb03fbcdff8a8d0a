//! Staged move ordering. Moves are produced lazily, heuristically best
//! first: the hash move, then winning captures by capture history and
//! static exchange, then killers, the counter move and cached threat
//! refutations, then the remaining moves by history score. Every emitted
//! move is legal in the generator's position, no move comes out twice,
//! and - unless the caller asks to skip quiets - exhaustion means every
//! legal move came out.

use vstd::prelude::*;
use vstd::set_lib::lemma_len_subset;

use crate::board::board_clone;
use crate::board::board_colors;
use crate::board::board_legal_moves;
use crate::board::board_piece_on;
use crate::board::board_stm;
use crate::board::color_on_of;
use crate::board::colors_of;
use crate::board::legal_of;
use crate::board::piece_on_of;
use crate::board::stm_of;
use crate::h_table::DoubleMoveHistory;
use crate::h_table::HistoryTable;
use crate::move_entry::MoveEntry;
use crate::moves::MoveData;
use crate::moves::QUEEN;
use crate::see::see;

verus! {

/// Captures are only emitted from the winning-captures stage while their
/// score is above this.
pub const SCORE_THRESHOLD: i32 = -1024;

/// Penalty put on a capture whose static exchange turns out negative.
pub const LOSING_CAPTURE: i32 = -4096;

/// Ordering score of a queen promotion.
pub const QUEEN_PROMO_SCORE: i32 = 1_900_000;

/// Ordering score of an under-promotion.
pub const UNDER_PROMO_SCORE: i32 = -1_900_000;

#[derive(Debug, Copy, Clone, PartialEq, Eq, Structural)]
enum GenType {
    PvMove,
    CalcCaptures,
    Captures,
    GenQuiet,
    Killer,
    CounterMove,
    ThreatMove,
    Quiet,
}

spec fn stage_ord(g: GenType) -> int {
    match g {
        GenType::PvMove => 0,
        GenType::CalcCaptures => 1,
        GenType::Captures => 2,
        GenType::GenQuiet => 3,
        GenType::Killer => 4,
        GenType::CounterMove => 5,
        GenType::ThreatMove => 6,
        GenType::Quiet => 7,
    }
}

type QEntry = (MoveData, i32, Option<i32>);

pub open spec fn is_cap_m(enemy: u64, m: MoveData) -> bool {
    (enemy >> (m.to as u64)) & 1 == 1
}

spec fn q_has(queue: Seq<QEntry>, m: MoveData) -> bool {
    exists|i: int| 0 <= i < queue.len() && (#[trigger] queue[i]).0 == m
}

spec fn covered_m(
    emitted: Set<MoveData>,
    queue: Seq<QEntry>,
    ord: int,
    enemy: u64,
    m: MoveData,
) -> bool {
    ||| emitted.contains(m)
    ||| q_has(queue, m)
    ||| (ord <= 1 && is_cap_m(enemy, m))
    ||| (ord <= 3 && !is_cap_m(enemy, m))
}

/// Every legal move of the board is in the list, each entry is legal and
/// carries a piece of the side to move, and there are no duplicates.
spec fn moves_ok(board: cozy_chess::Board, moves: Seq<MoveData>) -> bool {
    &&& moves.len() <= 256
    &&& moves.no_duplicates()
    &&& forall|i: int|
        0 <= i < moves.len() ==> (#[trigger] moves[i]).wf() && legal_of(board, moves[i])
            && piece_on_of(board, moves[i].from) is Some && color_on_of(board, moves[i].from)
            == Some(stm_of(board))
    &&& forall|m: MoveData| m.wf() && legal_of(board, m) ==> moves.contains(m)
}

/// Queue entries are pending legal moves: distinct, unemitted, bounded.
spec fn queue_ok_c(queue: Seq<QEntry>, moves: Seq<MoveData>, emitted: Set<MoveData>) -> bool {
    &&& forall|i: int| 0 <= i < queue.len() ==> moves.contains((#[trigger] queue[i]).0)
    &&& forall|i: int, j: int|
        0 <= i < j < queue.len() ==> (#[trigger] queue[i]).0 != (#[trigger] queue[j]).0
    &&& forall|i: int| 0 <= i < queue.len() ==> !emitted.contains((#[trigger] queue[i]).0)
    &&& forall|i: int| 0 <= i < queue.len() ==> -2_000_000 <= (#[trigger] queue[i]).1 <= 2_000_000
}

/// The emitted set is a set of list moves of bounded size.
spec fn emitted_ok_c(emitted: Set<MoveData>, moves: Seq<MoveData>) -> bool {
    &&& emitted.finite()
    &&& emitted.subset_of(moves.to_set())
    &&& emitted.len() <= moves.len()
}

/// Every list move is emitted, queued, or pending in a later stage.
spec fn coverage_ok(
    moves: Seq<MoveData>,
    emitted: Set<MoveData>,
    queue: Seq<QEntry>,
    ord: int,
    enemy: u64,
) -> bool {
    forall|i: int|
        0 <= i < moves.len() ==> covered_m(emitted, queue, ord, enemy, #[trigger] moves[i])
}

/// Before quiets are generated, only the hash move and captures can have
/// been emitted.
spec fn emitted_caps_ok(emitted: Set<MoveData>, pv: Option<MoveData>, enemy: u64) -> bool {
    forall|m: MoveData| #[trigger] emitted.contains(m) ==> (pv == Some(m) || is_cap_m(enemy, m))
}

/// Before captures are generated, only the hash move can have been
/// emitted.
spec fn emitted_pv_ok(emitted: Set<MoveData>, pv: Option<MoveData>) -> bool {
    forall|m: MoveData| #[trigger] emitted.contains(m) ==> pv == Some(m)
}

/// During the capture stages the queue holds captures only.
spec fn queue_caps_ok(queue: Seq<QEntry>, enemy: u64) -> bool {
    forall|i: int| 0 <= i < queue.len() ==> is_cap_m(enemy, (#[trigger] queue[i]).0)
}

/// Coverage survives a stage step that keeps the pending classes alive.
proof fn lemma_coverage_ord(
    moves: Seq<MoveData>,
    emitted: Set<MoveData>,
    queue: Seq<QEntry>,
    a: int,
    b: int,
    enemy: u64,
)
    requires
        coverage_ok(moves, emitted, queue, a, enemy),
        a <= b,
        a <= 1 ==> b <= 1,
        a <= 3 ==> b <= 3,
    ensures
        coverage_ok(moves, emitted, queue, b, enemy),
{
    assert forall|i: int|
        0 <= i < moves.len() implies covered_m(emitted, queue, b, enemy, #[trigger] moves[i]) by {
        assert(covered_m(emitted, queue, a, enemy, moves[i]));
    }
}

/// Finds a move in a list.
fn find_move(list: &Vec<MoveData>, m: MoveData) -> (r: Option<usize>)
    ensures
        r matches Some(i) ==> i < list@.len() && list@[i as int] == m,
        r is None ==> !list@.contains(m),
{
    let mut i: usize = 0;
    while i < list.len()
        invariant
            i <= list@.len(),
            forall|j: int| 0 <= j < i ==> list@[j] != m,
        decreases list@.len() - i,
    {
        if list[i] == m {
            return Some(i);
        }
        i += 1;
    }
    None
}

pub struct OrderedMoveGen {
    board: cozy_chess::Board,
    stm: u8,
    enemy: u64,
    moves: Vec<MoveData>,
    pv_move: Option<MoveData>,
    counter_move: Option<MoveData>,
    prev_move: Option<MoveData>,
    threat_moves: MoveEntry,
    killer_moves: MoveEntry,
    killer_at: usize,
    threat_at: usize,
    gen_type: GenType,
    queue: Vec<QEntry>,
    skip: bool,
    emitted: Ghost<Set<MoveData>>,
}

impl OrderedMoveGen {
    pub closed spec fn board_spec(&self) -> cozy_chess::Board {
        self.board
    }

    /// The moves handed out so far.
    pub closed spec fn emitted(&self) -> Set<MoveData> {
        self.emitted@
    }

    pub closed spec fn skip_quiets_spec(&self) -> bool {
        self.skip
    }

    /// How many legal moves the position has.
    pub closed spec fn moves_len(&self) -> int {
        self.moves@.len() as int
    }

    /// The hash move the pipeline was seeded with.
    pub closed spec fn pv_spec(&self) -> Option<MoveData> {
        self.pv_move
    }

    /// Whether no move has been asked for yet.
    pub closed spec fn at_start(&self) -> bool {
        self.gen_type == GenType::PvMove
    }

    /// Whether the pipeline stands in the good-capture stage.
    pub closed spec fn in_capture_stage(&self) -> bool {
        self.gen_type == GenType::Captures
    }

    spec fn ord(&self) -> int {
        stage_ord(self.gen_type)
    }

    pub closed spec fn wf_gen(&self) -> bool {
        &&& self.stm < 2
        &&& self.stm == stm_of(self.board)
        &&& self.enemy == colors_of(self.board, (1 - self.stm) as u8)
        &&& moves_ok(self.board, self.moves@)
        &&& queue_ok_c(self.queue@, self.moves@, self.emitted@)
        &&& emitted_ok_c(self.emitted@, self.moves@)
        &&& (self.ord() == 0 ==> self.emitted@ =~= Set::<MoveData>::empty() && self.queue@.len()
            == 0)
        &&& (self.ord() >= 1 ==> match self.pv_move {
            Some(p) => self.emitted@.contains(p),
            None => true,
        })
        &&& (self.ord() <= 3 ==> emitted_caps_ok(self.emitted@, self.pv_move, self.enemy))
        &&& (self.ord() <= 1 ==> emitted_pv_ok(self.emitted@, self.pv_move))
        &&& (self.ord() <= 2 ==> queue_caps_ok(self.queue@, self.enemy))
        &&& forall|i: int|
            0 <= i < self.queue@.len() ==> ((#[trigger] self.queue@[i]).2 matches Some(sv)
                ==> sv == crate::see::see_spec(self.board, self.queue@[i].0))
        &&& coverage_ok(self.moves@, self.emitted@, self.queue@, self.ord(), self.enemy)
        &&& self.killer_at <= 2
        &&& self.threat_at <= 2
        &&& self.killer_moves.wf()
        &&& self.threat_moves.wf()
        &&& (self.prev_move matches Some(pm) ==> pm.wf())
    }

    /// Facts of a well-formed pipeline that callers reason with.
    pub proof fn lemma_gen_facts(&self)
        requires
            self.wf_gen(),
        ensures
            self.emitted().finite(),
            self.emitted().len() <= self.moves_len(),
            0 <= self.moves_len() <= 256,
    {
    }

    /// Starts the pipeline for a position, with the hash move, counter
    /// move, previous move and the per-ply killer and threat stacks.
    pub fn new(
        board: &cozy_chess::Board,
        pv_move: Option<MoveData>,
        counter_move: Option<MoveData>,
        prev_move: Option<MoveData>,
        threat_moves: MoveEntry,
        killer_moves: MoveEntry,
    ) -> (r: Self)
        requires
            prev_move matches Some(m) ==> m.wf(),
            threat_moves.wf(),
            killer_moves.wf(),
        ensures
            r.wf_gen(),
            r.board_spec() == *board,
            r.emitted() =~= Set::<MoveData>::empty(),
            !r.skip_quiets_spec(),
            r.moves_len() <= 256,
            r.at_start(),
            r.pv_spec() == pv_move,
    {
        let stm = board_stm(board);
        let enemy = board_colors(board, 1 - stm);
        let moves = board_legal_moves(board);
        let ghost em: Set<MoveData> = Set::empty();
        let r = OrderedMoveGen {
            board: board_clone(board),
            stm,
            enemy,
            moves,
            pv_move,
            counter_move,
            prev_move,
            threat_moves,
            killer_moves,
            killer_at: 0,
            threat_at: 0,
            gen_type: GenType::PvMove,
            queue: Vec::new(),
            skip: false,
            emitted: Ghost(em),
        };
        proof {
            lemma_len_subset(r.emitted@, r.moves@.to_set());
            r.moves@.lemma_cardinality_of_set();
        }
        r
    }

    /// Tells the pipeline to drop the remaining quiet stages.
    pub fn set_skip_quiets(&mut self, skip: bool)
        requires
            old(self).wf_gen(),
        ensures
            final(self).wf_gen(),
            final(self).skip_quiets_spec() == skip,
            final(self).emitted() == old(self).emitted(),
            final(self).board_spec() == old(self).board_spec(),
            final(self).moves_len() == old(self).moves_len(),
    {
        self.skip = skip;
    }

    pub fn skip_quiets(&self) -> (r: bool)
        ensures
            r == self.skip_quiets_spec(),
    {
        self.skip
    }

    /// Removes queue entry `i` and hands its move out.
    fn emit_at(&mut self, i: usize) -> (r: MoveData)
        requires
            old(self).wf_gen(),
            i < old(self).queue@.len(),
            stage_ord(old(self).gen_type) >= 2,
            stage_ord(old(self).gen_type) != 3,
        ensures
            final(self).wf_gen(),
            r == old(self).queue@[i as int].0,
            emit_post(*old(self), *final(self), r),
            final(self).board_spec() == old(self).board_spec(),
            final(self).moves@ == old(self).moves@,
            final(self).moves_len() == old(self).moves_len(),
            final(self).skip_quiets_spec() == old(self).skip_quiets_spec(),
            final(self).gen_type == old(self).gen_type,
            final(self).pv_move == old(self).pv_move,
            final(self).killer_at == old(self).killer_at,
            final(self).threat_at == old(self).threat_at,
    {
        let ghost oldq = self.queue@;
        let ghost oldem = self.emitted@;
        let entry = self.queue.swap_remove(i);
        let m = entry.0;
        proof {
            assert(self.moves@.contains(m));
            assert(!oldem.contains(m));
            if stage_ord(self.gen_type) == 2 {
                assert(is_cap_m(self.enemy, oldq[i as int].0));
            }
            self.emitted@ = self.emitted@.insert(m);
            self.moves@.unique_seq_to_set();
            lemma_len_subset(self.emitted@, self.moves@.to_set());
            assert(forall|k: int|
                0 <= k < self.queue@.len() ==> (#[trigger] self.queue@[k]) == oldq[k]
                    || self.queue@[k] == oldq.last());
            assert forall|k: int|
                0 <= k < self.moves@.len() implies covered_m(
                self.emitted@,
                self.queue@,
                self.ord(),
                self.enemy,
                #[trigger] self.moves@[k],
            ) by {
                let mk = self.moves@[k];
                assert(covered_m(oldem, oldq, self.ord(), self.enemy, mk));
                if self.emitted@.contains(mk) {
                } else if q_has(oldq, mk) {
                    let wit = choose|q: int| 0 <= q < oldq.len() && (#[trigger] oldq[q]).0 == mk;
                    assert(mk != m);
                    assert(wit != i);
                    if wit == oldq.len() - 1 {
                        assert(self.queue@[i as int].0 == mk);
                        assert(q_has(self.queue@, mk));
                    } else {
                        assert(self.queue@[wit].0 == mk);
                        assert(q_has(self.queue@, mk));
                    }
                }
            }
        }
        m
    }

    /// Generates and scores the captures into the queue.
    fn stage_captures(&mut self, c_hist: &HistoryTable)
        requires
            old(self).wf_gen(),
            old(self).gen_type == GenType::CalcCaptures,
            c_hist.wf(),
        ensures
            final(self).wf_gen(),
            final(self).gen_type == GenType::Captures,
            final(self).moves@ == old(self).moves@,
            final(self).emitted() == old(self).emitted(),
            final(self).board_spec() == old(self).board_spec(),
            final(self).moves_len() == old(self).moves_len(),
            final(self).skip_quiets_spec() == old(self).skip_quiets_spec(),
            final(self).pv_move == old(self).pv_move,
    {
        let n = self.moves.len();
        let mut i: usize = 0;
        while i < n
            invariant
                self.wf_gen(),
                self.gen_type == GenType::CalcCaptures,
                n == self.moves@.len(),
                i <= n,
                c_hist.wf(),
                self.board == old(self).board,
                self.moves@ == old(self).moves@,
                self.emitted@ == old(self).emitted@,
                self.skip == old(self).skip,
                self.pv_move == old(self).pv_move,
                self.stm == old(self).stm,
                self.enemy == old(self).enemy,
                self.killer_at == old(self).killer_at,
                self.threat_at == old(self).threat_at,
                self.killer_moves == old(self).killer_moves,
                self.threat_moves == old(self).threat_moves,
                self.counter_move == old(self).counter_move,
                self.prev_move == old(self).prev_move,
                forall|k: int|
                    0 <= k < i && is_cap_m(self.enemy, #[trigger] self.moves@[k]) ==> (
                    self.emitted@.contains(self.moves@[k]) || q_has(self.queue@, self.moves@[k])),
            decreases n - i,
        {
            let m = self.moves[i];
            let same_as_pv = match self.pv_move {
                Some(pv) => m == pv,
                None => false,
            };
            let is_cap = (self.enemy >> (m.to as u64)) & 1 == 1;
            if !same_as_pv && is_cap && !self.in_queue_exec(m) {
                let piece = match board_piece_on(&self.board, m.from) {
                    Some(p) => p,
                    None => 0,
                };
                let hscore = c_hist.get(self.stm, piece, m.to) as i32;
                let s = see(&self.board, m);
                let score = hscore + 32 * s;
                let ghost before = self.queue@;
                self.queue.push((m, score, None));
                proof {
                    assert(self.queue@.last().0 == m);
                    assert(forall|q: int| 0 <= q < before.len() ==> self.queue@[q] == before[q]);
                    assert(!self.emitted@.contains(m));
                    assert forall|k: int|
                        0 <= k < self.moves@.len() implies covered_m(
                        self.emitted@,
                        self.queue@,
                        self.ord(),
                        self.enemy,
                        #[trigger] self.moves@[k],
                    ) by {
                        let mk = self.moves@[k];
                        assert(covered_m(self.emitted@, before, self.ord(), self.enemy, mk));
                        if mk == m {
                            assert(self.queue@[self.queue@.len() - 1].0 == m);
                            assert(q_has(self.queue@, mk));
                        } else if q_has(before, mk) {
                            let wit = choose|q: int|
                                0 <= q < before.len() && (#[trigger] before[q]).0 == mk;
                            assert(self.queue@[wit].0 == mk);
                            assert(q_has(self.queue@, mk));
                        }
                    }
                }
            }
            i += 1;
        }
        self.gen_type = GenType::Captures;
        proof {
            assert forall|k: int|
                0 <= k < self.moves@.len() implies covered_m(
                self.emitted@,
                self.queue@,
                self.ord(),
                self.enemy,
                #[trigger] self.moves@[k],
            ) by {
                let mk = self.moves@[k];
                if is_cap_m(self.enemy, mk) {
                    assert(self.emitted@.contains(mk) || q_has(self.queue@, mk));
                }
            }
        }
    }

    /// Generates and scores the quiet moves into the queue. Queen
    /// promotions rank first, under-promotions last, other quiets by
    /// history and counter-move history.
    fn stage_quiets(&mut self, hist: &HistoryTable, cm_hist: &DoubleMoveHistory)
        requires
            old(self).wf_gen(),
            old(self).gen_type == GenType::GenQuiet,
            hist.wf(),
            cm_hist.wf(),
        ensures
            final(self).wf_gen(),
            final(self).gen_type == GenType::Killer,
            final(self).moves@ == old(self).moves@,
            final(self).emitted() == old(self).emitted(),
            final(self).board_spec() == old(self).board_spec(),
            final(self).moves_len() == old(self).moves_len(),
            final(self).skip_quiets_spec() == old(self).skip_quiets_spec(),
            final(self).pv_move == old(self).pv_move,
    {
        let prev_key: Option<(u8, u8)> = match self.prev_move {
            Some(pm) => {
                let pp = match board_piece_on(&self.board, pm.to) {
                    Some(p) => p,
                    None => 5,
                };
                Some((pp, pm.to))
            },
            None => None,
        };
        let n = self.moves.len();
        let mut i: usize = 0;
        while i < n
            invariant
                self.wf_gen(),
                self.gen_type == GenType::GenQuiet,
                n == self.moves@.len(),
                i <= n,
                hist.wf(),
                cm_hist.wf(),
                prev_key matches Some((pp, pt)) ==> pp < 6 && pt < 64,
                self.board == old(self).board,
                self.moves@ == old(self).moves@,
                self.emitted@ == old(self).emitted@,
                self.skip == old(self).skip,
                self.pv_move == old(self).pv_move,
                self.stm == old(self).stm,
                self.enemy == old(self).enemy,
                self.killer_at == old(self).killer_at,
                self.threat_at == old(self).threat_at,
                self.killer_moves == old(self).killer_moves,
                self.threat_moves == old(self).threat_moves,
                self.counter_move == old(self).counter_move,
                self.prev_move == old(self).prev_move,
                forall|k: int|
                    0 <= k < i && !is_cap_m(self.enemy, #[trigger] self.moves@[k]) ==> (
                    self.emitted@.contains(self.moves@[k]) || q_has(self.queue@, self.moves@[k])),
            decreases n - i,
        {
            let m = self.moves[i];
            let same_as_pv = match self.pv_move {
                Some(pv) => m == pv,
                None => false,
            };
            let is_cap = (self.enemy >> (m.to as u64)) & 1 == 1;
            if !same_as_pv && !is_cap && !self.in_queue_exec(m) {
                let score: i32;
                if m.promotion == QUEEN {
                    score = QUEEN_PROMO_SCORE;
                } else if m.promotion < 6 {
                    score = UNDER_PROMO_SCORE;
                } else {
                    let piece = match board_piece_on(&self.board, m.from) {
                        Some(p) => p,
                        None => 0,
                    };
                    let base = hist.get(self.stm, piece, m.to) as i32;
                    let cmh = match prev_key {
                        Some((pp, pt)) => cm_hist.get(self.stm, pp, pt, piece, m.to) as i32,
                        None => 0,
                    };
                    score = base + cmh;
                }
                let ghost before = self.queue@;
                self.queue.push((m, score, None));
                proof {
                    assert(self.queue@.last().0 == m);
                    assert(forall|q: int| 0 <= q < before.len() ==> self.queue@[q] == before[q]);
                    assert(!self.emitted@.contains(m));
                    assert forall|k: int|
                        0 <= k < self.moves@.len() implies covered_m(
                        self.emitted@,
                        self.queue@,
                        self.ord(),
                        self.enemy,
                        #[trigger] self.moves@[k],
                    ) by {
                        let mk = self.moves@[k];
                        assert(covered_m(self.emitted@, before, self.ord(), self.enemy, mk));
                        if mk == m {
                            assert(self.queue@[self.queue@.len() - 1].0 == m);
                            assert(q_has(self.queue@, mk));
                        } else if q_has(before, mk) {
                            let wit = choose|q: int|
                                0 <= q < before.len() && (#[trigger] before[q]).0 == mk;
                            assert(self.queue@[wit].0 == mk);
                            assert(q_has(self.queue@, mk));
                        }
                    }
                }
            }
            i += 1;
        }
        self.gen_type = GenType::Killer;
        proof {
            assert forall|k: int|
                0 <= k < self.moves@.len() implies covered_m(
                self.emitted@,
                self.queue@,
                self.ord(),
                self.enemy,
                #[trigger] self.moves@[k],
            ) by {
                let mk = self.moves@[k];
                if !is_cap_m(self.enemy, mk) {
                    assert(self.emitted@.contains(mk) || q_has(self.queue@, mk));
                } else {
                    assert(covered_m(self.emitted@, self.queue@, 3, self.enemy, mk));
                }
            }
        }
    }

    /// Whether a move is already queued.
    fn in_queue_exec(&self, m: MoveData) -> (r: bool)
        ensures
            r == q_has(self.queue@, m),
    {
        let mut i: usize = 0;
        while i < self.queue.len()
            invariant
                i <= self.queue@.len(),
                forall|j: int| 0 <= j < i ==> (#[trigger] self.queue@[j]).0 != m,
            decreases self.queue@.len() - i,
        {
            if self.queue[i].0 == m {
                return true;
            }
            i += 1;
        }
        false
    }

    /// Finds a move in the queue.
    fn queue_index_of(&self, m: MoveData) -> (r: Option<usize>)
        ensures
            r matches Some(i) ==> i < self.queue@.len() && self.queue@[i as int].0 == m,
    {
        let mut i: usize = 0;
        while i < self.queue.len()
            invariant
                i <= self.queue@.len(),
            decreases self.queue@.len() - i,
        {
            if self.queue[i].0 == m {
                return Some(i);
            }
            i += 1;
        }
        None
    }

    /// Picks the winning capture with the best score above the threshold,
    /// lazily resolving static exchange and pushing losing captures down.
    fn pick_capture(&mut self) -> (r: Option<usize>)
        requires
            old(self).wf_gen(),
        ensures
            final(self).wf_gen(),
            final(self).emitted() == old(self).emitted(),
            final(self).board_spec() == old(self).board_spec(),
            final(self).moves@ == old(self).moves@,
            final(self).moves_len() == old(self).moves_len(),
            final(self).skip_quiets_spec() == old(self).skip_quiets_spec(),
            final(self).gen_type == old(self).gen_type,
            final(self).pv_move == old(self).pv_move,
            final(self).killer_at == old(self).killer_at,
            final(self).threat_at == old(self).threat_at,
            r matches Some(i) ==> i < final(self).queue@.len() && (final(self).queue@[i
                as int].2 matches Some(sv) && sv >= 0),
    {
        let mut max = SCORE_THRESHOLD;
        let mut best: Option<usize> = None;
        let mut idx: usize = 0;
        let n = self.queue.len();
        while idx < n
            invariant
                self.wf_gen(),
                n == self.queue@.len(),
                idx <= n,
                self.board == old(self).board,
                self.moves@ == old(self).moves@,
                self.emitted@ == old(self).emitted@,
                self.skip == old(self).skip,
                self.gen_type == old(self).gen_type,
                self.pv_move == old(self).pv_move,
                self.killer_at == old(self).killer_at,
                self.threat_at == old(self).threat_at,
                self.killer_moves == old(self).killer_moves,
                self.threat_moves == old(self).threat_moves,
                self.counter_move == old(self).counter_move,
                self.prev_move == old(self).prev_move,
                self.stm == old(self).stm,
                self.enemy == old(self).enemy,
                best matches Some(b) ==> b < n && ((#[trigger] self.queue@[b as int]).2 matches Some(
                    bsv,
                ) && bsv >= 0),
                SCORE_THRESHOLD <= max <= 2_000_000,
            decreases n - idx,
        {
            let entry = self.queue[idx];
            if entry.1 > max {
                let see_score = match entry.2 {
                    Some(s) => s,
                    None => see(&self.board, entry.0),
                };
                let ghost before = self.queue@;
                let ghost oldem = self.emitted@;
                if see_score < 0 {
                    self.queue.set(idx, (entry.0, entry.1 + LOSING_CAPTURE, Some(see_score)));
                } else {
                    self.queue.set(idx, (entry.0, entry.1, Some(see_score)));
                    max = entry.1;
                    best = Some(idx);
                }
                proof {
                    assert(self.queue@[idx as int].0 == before[idx as int].0);
                    assert(forall|q: int|
                        0 <= q < before.len() && q != idx ==> self.queue@[q] == before[q]);
                    assert forall|k: int|
                        0 <= k < self.moves@.len() implies covered_m(
                        self.emitted@,
                        self.queue@,
                        self.ord(),
                        self.enemy,
                        #[trigger] self.moves@[k],
                    ) by {
                        let mk = self.moves@[k];
                        assert(covered_m(oldem, before, self.ord(), self.enemy, mk));
                        if q_has(before, mk) {
                            let wit = choose|q: int|
                                0 <= q < before.len() && (#[trigger] before[q]).0 == mk;
                            assert(self.queue@[wit].0 == mk);
                            assert(q_has(self.queue@, mk));
                        }
                    }
                }
            }
            idx += 1;
        }
        best
    }

    /// Picks the best-scored queue entry, if any.
    fn pick_best(&self) -> (r: Option<usize>)
        ensures
            r matches Some(i) ==> i < self.queue@.len(),
            r is None ==> self.queue@.len() == 0,
    {
        let mut max: i32 = 0;
        let mut best: Option<usize> = None;
        let mut idx: usize = 0;
        let n = self.queue.len();
        while idx < n
            invariant
                n == self.queue@.len(),
                idx <= n,
                best matches Some(b) ==> b < n,
                n > 0 && idx > 0 ==> best is Some,
            decreases n - idx,
        {
            let entry = self.queue[idx];
            let none_yet = match best {
                Some(_) => false,
                None => true,
            };
            if none_yet || entry.1 > max {
                max = entry.1;
                best = Some(idx);
            }
            idx += 1;
        }
        best
    }

    /// The next move in heuristic order, or `None` when the pipeline is
    /// exhausted (or quiets are being skipped).
    pub fn next(
        &mut self,
        hist: &HistoryTable,
        c_hist: &HistoryTable,
        cm_hist: &DoubleMoveHistory,
    ) -> (r: Option<MoveData>)
        requires
            old(self).wf_gen(),
            hist.wf(),
            c_hist.wf(),
            cm_hist.wf(),
        ensures
            final(self).wf_gen(),
            final(self).board_spec() == old(self).board_spec(),
            final(self).moves_len() == old(self).moves_len(),
            final(self).skip_quiets_spec() == old(self).skip_quiets_spec(),
            r matches Some(m) ==> emit_post(*old(self), *final(self), m),
            r is None ==> final(self).emitted() == old(self).emitted(),
            (r is None && !old(self).skip_quiets_spec()) ==> forall|m: MoveData|
                m.wf() && legal_of(old(self).board_spec(), m) ==> final(self).emitted().contains(
                    m,
                ),
            // a legal hash move is the first move out
            (old(self).at_start() && (old(self).pv_spec() matches Some(pv) && pv.wf() && legal_of(
                old(self).board_spec(),
                pv,
            ))) ==> r == old(self).pv_spec(),
            // the good-capture stage never hands out a capture that loses
            // material by the exchange ledger
            r matches Some(m2) ==> (final(self).in_capture_stage() ==> crate::see::see_spec(
                old(self).board_spec(),
                m2,
            ) >= 0),
            // once quiets are being skipped, everything after the hash
            // move is a capture
            r matches Some(m3) ==> ((old(self).skip_quiets_spec() && !old(self).at_start())
                ==> q_is_capture(old(self).board_spec(), m3)),
    {
        if self.gen_type == GenType::PvMove {
            self.gen_type = GenType::CalcCaptures;
            proof {
                lemma_coverage_ord(self.moves@, self.emitted@, self.queue@, 0, 1, self.enemy);
            }
            match self.pv_move {
                Some(pv) => {
                    match find_move(&self.moves, pv) {
                        Some(pvi) => {
                            proof {
                                assert(self.moves@[pvi as int] == pv);
                                assert(self.moves@.contains(pv));
                                assert(self.moves@[pvi as int].wf());
                                self.emitted@ = self.emitted@.insert(pv);
                                self.moves@.unique_seq_to_set();
                                lemma_len_subset(self.emitted@, self.moves@.to_set());
                            }
                            return Some(pv);
                        },
                        None => {
                            proof {
                                assert(!self.moves@.contains(pv));
                                assert(!(pv.wf() && legal_of(self.board, pv)));
                            }
                            self.pv_move = None;
                        },
                    }
                },
                None => {},
            }
        }
        if self.gen_type == GenType::CalcCaptures {
            self.stage_captures(c_hist);
        }
        if self.gen_type == GenType::Captures {
            match self.pick_capture() {
                Some(i) => {
                    let m = self.emit_at(i);
                    return Some(m);
                },
                None => {
                    self.gen_type = GenType::GenQuiet;
                    proof {
                        lemma_coverage_ord(
                            self.moves@,
                            self.emitted@,
                            self.queue@,
                            2,
                            3,
                            self.enemy,
                        );
                    }
                },
            }
        }
        if self.gen_type == GenType::GenQuiet {
            if self.skip {
                return None;
            }
            self.stage_quiets(hist, cm_hist);
        }
        if self.gen_type == GenType::Killer {
            if self.skip {
                return None;
            }
            while self.killer_at < self.killer_moves.len()
                invariant
                    self.wf_gen(),
                    self.gen_type == GenType::Killer,
                    self.emitted@ == old(self).emitted@,
                    self.board == old(self).board,
                    self.moves@ == old(self).moves@,
                    self.skip == old(self).skip,
                    !self.skip,
                    !(old(self).at_start() && (old(self).pv_spec() matches Some(pv) && pv.wf()
                        && legal_of(old(self).board_spec(), pv))),
                decreases self.killer_moves@.len() - self.killer_at,
            {
                let k = self.killer_moves.get(self.killer_at);
                self.killer_at = self.killer_at + 1;
                match k {
                    Some(km) => {
                        match self.queue_index_of(km) {
                            Some(i) => {
                                let m = self.emit_at(i);
                                return Some(m);
                            },
                            None => {},
                        }
                    },
                    None => {},
                }
            }
            self.gen_type = GenType::CounterMove;
            proof {
                lemma_coverage_ord(self.moves@, self.emitted@, self.queue@, 4, 5, self.enemy);
            }
        }
        if self.gen_type == GenType::CounterMove {
            if self.skip {
                return None;
            }
            self.gen_type = GenType::ThreatMove;
            proof {
                lemma_coverage_ord(self.moves@, self.emitted@, self.queue@, 5, 6, self.enemy);
            }
            match self.counter_move {
                Some(cm) => {
                    match self.queue_index_of(cm) {
                        Some(i) => {
                            let m = self.emit_at(i);
                            return Some(m);
                        },
                        None => {},
                    }
                },
                None => {},
            }
        }
        if self.gen_type == GenType::ThreatMove {
            if self.skip {
                return None;
            }
            while self.threat_at < self.threat_moves.len()
                invariant
                    self.wf_gen(),
                    self.gen_type == GenType::ThreatMove,
                    self.emitted@ == old(self).emitted@,
                    self.board == old(self).board,
                    self.moves@ == old(self).moves@,
                    self.skip == old(self).skip,
                    !self.skip,
                    !(old(self).at_start() && (old(self).pv_spec() matches Some(pv) && pv.wf()
                        && legal_of(old(self).board_spec(), pv))),
                decreases self.threat_moves@.len() - self.threat_at,
            {
                let t = self.threat_moves.get(self.threat_at);
                self.threat_at = self.threat_at + 1;
                match t {
                    Some(tm) => {
                        match self.queue_index_of(tm) {
                            Some(i) => {
                                let m = self.emit_at(i);
                                return Some(m);
                            },
                            None => {},
                        }
                    },
                    None => {},
                }
            }
            self.gen_type = GenType::Quiet;
            proof {
                lemma_coverage_ord(self.moves@, self.emitted@, self.queue@, 6, 7, self.enemy);
            }
        }
        if self.skip {
            return None;
        }
        match self.pick_best() {
            Some(i) => {
                let m = self.emit_at(i);
                Some(m)
            },
            None => {
                proof {
                    assert forall|m: MoveData|
                        m.wf() && legal_of(self.board, m) implies self.emitted@.contains(m) by {
                        assert(self.moves@.contains(m));
                        let k = choose|k: int| 0 <= k < self.moves@.len() && self.moves@[k] == m;
                        assert(covered_m(
                            self.emitted@,
                            self.queue@,
                            self.ord(),
                            self.enemy,
                            self.moves@[k],
                        ));
                    }
                }
                None
            },
        }
    }
}

/// What one emission does: the move is legal, fresh, and recorded.
pub open spec fn emit_post(pre: OrderedMoveGen, post: OrderedMoveGen, m: MoveData) -> bool {
    &&& m.wf()
    &&& legal_of(pre.board_spec(), m)
    &&& piece_on_of(pre.board_spec(), m.from) is Some
    &&& color_on_of(pre.board_spec(), m.from) == Some(stm_of(pre.board_spec()))
    &&& !pre.emitted().contains(m)
    &&& post.emitted() == pre.emitted().insert(m)
    &&& post.emitted().len() == pre.emitted().len() + 1
    &&& post.emitted().len() <= post.moves_len()
}

#[derive(Debug, Copy, Clone, PartialEq, Eq, Structural)]
pub enum QSearchGenType {
    CalcCaptures,
    Captures,
}

/// Whether a move takes an opponent piece on a board.
pub open spec fn q_is_capture(b: cozy_chess::Board, m: MoveData) -> bool {
    is_cap_m(colors_of(b, (1 - stm_of(b)) as u8), m)
}

/// The ordering score of a capture: its capture-history entry plus
/// thirty-two times its static exchange value.
pub open spec fn q_score_of(hist: Seq<i16>, b: cozy_chess::Board, m: MoveData) -> int {
    hist[crate::h_table::key_index(
        stm_of(b),
        piece_on_of(b, m.from)->Some_0,
        m.to,
    )] + 32 * crate::see::see_spec(b, m)
}

/// Finds a move in a queue.
fn queue_find(queue: &Vec<QEntry>, m: MoveData) -> (r: bool)
    ensures
        r == q_has(queue@, m),
{
    let mut i: usize = 0;
    while i < queue.len()
        invariant
            i <= queue@.len(),
            forall|j: int| 0 <= j < i ==> (#[trigger] queue@[j]).0 != m,
        decreases queue@.len() - i,
    {
        if queue[i].0 == m {
            return true;
        }
        i += 1;
    }
    false
}

/// The quiescence generator: captures only, scored by capture history and
/// static exchange; captures that lose material are never emitted, and
/// every winning or even capture comes out exactly once.
pub struct QuiescenceSearchMoveGen {
    board: cozy_chess::Board,
    stm: u8,
    enemy: u64,
    gen_type: QSearchGenType,
    queue: Vec<QEntry>,
    emitted: Ghost<Set<MoveData>>,
    hist0: Ghost<Seq<i16>>,
}

impl QuiescenceSearchMoveGen {
    pub closed spec fn board_spec(&self) -> cozy_chess::Board {
        self.board
    }

    /// The captures handed out so far.
    pub closed spec fn emitted_q(&self) -> Set<MoveData> {
        self.emitted@
    }

    /// The capture-history view the queued captures were scored with: the
    /// table passed to the first `next` call.
    pub closed spec fn hist_spec(&self) -> Seq<i16> {
        self.hist0@
    }

    /// Whether no capture has been asked for yet.
    pub closed spec fn at_fill(&self) -> bool {
        self.gen_type == QSearchGenType::CalcCaptures
    }

    /// A bound that shrinks with every emission: pending generation plus
    /// the queued captures.
    pub closed spec fn budget(&self) -> int {
        self.queue@.len() + if self.gen_type == QSearchGenType::CalcCaptures {
            257int
        } else {
            0int
        }
    }

    pub closed spec fn wf_q(&self) -> bool {
        &&& self.stm < 2
        &&& self.stm == stm_of(self.board)
        &&& self.enemy == colors_of(self.board, (1 - self.stm) as u8)
        &&& forall|i: int|
            0 <= i < self.queue@.len() ==> {
                let m = (#[trigger] self.queue@[i]).0;
                &&& m.wf()
                &&& legal_of(self.board, m)
                &&& piece_on_of(self.board, m.from) is Some
                &&& color_on_of(self.board, m.from) == Some(stm_of(self.board))
                &&& is_cap_m(self.enemy, m)
                &&& !self.emitted@.contains(m)
            }
        &&& forall|i: int|
            0 <= i < self.queue@.len() ==> ((#[trigger] self.queue@[i]).2 matches Some(sv)
                && sv == crate::see::see_spec(self.board, self.queue@[i].0))
        &&& forall|i: int|
            0 <= i < self.queue@.len() ==> ((#[trigger] self.queue@[i]).2 matches Some(sv)
                && -crate::see::SEE_LIMIT <= sv <= crate::see::SEE_LIMIT)
        &&& forall|i: int|
            0 <= i < self.queue@.len() ==> (#[trigger] self.queue@[i]).1 == q_score_of(
                self.hist0@,
                self.board,
                self.queue@[i].0,
            )
        &&& forall|i: int, j: int|
            0 <= i < j < self.queue@.len() ==> (#[trigger] self.queue@[i]).0 != (
            #[trigger] self.queue@[j]).0
        &&& (self.gen_type == QSearchGenType::CalcCaptures ==> self.queue@.len() == 0
            && self.emitted@ =~= Set::<MoveData>::empty())
        &&& (self.gen_type == QSearchGenType::Captures ==> forall|m: MoveData|
            m.wf() && legal_of(self.board, m) && is_cap_m(self.enemy, m)
                ==> #[trigger] self.emitted@.contains(m) || q_has(self.queue@, m))
    }

    pub fn new(board: &cozy_chess::Board) -> (r: Self)
        ensures
            r.wf_q(),
            r.board_spec() == *board,
            r.emitted_q() =~= Set::<MoveData>::empty(),
            r.at_fill(),
            0 <= r.budget() <= 257,
    {
        let stm = board_stm(board);
        let enemy = board_colors(board, 1 - stm);
        let ghost em: Set<MoveData> = Set::empty();
        let ghost h0: Seq<i16> = Seq::empty();
        QuiescenceSearchMoveGen {
            board: board_clone(board),
            stm,
            enemy,
            gen_type: QSearchGenType::CalcCaptures,
            queue: Vec::new(),
            emitted: Ghost(em),
            hist0: Ghost(h0),
        }
    }

    /// The next capture worth trying, with its static exchange score, in
    /// decreasing heuristic order. Every emission takes an opponent piece,
    /// does not lose material by the exchange ledger, comes out only
    /// once, and carries the greatest ordering score among the remaining
    /// winning captures; `None` means every remaining capture loses
    /// material.
    #[verifier::rlimit(100)]
    #[verifier::spinoff_prover]
    pub fn next(&mut self, c_hist: &HistoryTable) -> (r: Option<(MoveData, i32)>)
        requires
            old(self).wf_q(),
            c_hist.wf(),
        ensures
            final(self).wf_q(),
            final(self).board_spec() == old(self).board_spec(),
            0 <= final(self).budget(),
            r matches Some((m, sv)) ==> {
                &&& m.wf()
                &&& legal_of(old(self).board_spec(), m)
                &&& piece_on_of(old(self).board_spec(), m.from) is Some
                &&& color_on_of(old(self).board_spec(), m.from) == Some(
                    stm_of(old(self).board_spec()),
                )
                &&& q_is_capture(old(self).board_spec(), m)
                &&& sv == crate::see::see_spec(old(self).board_spec(), m)
                &&& sv >= 0
                &&& -crate::see::SEE_LIMIT <= sv <= crate::see::SEE_LIMIT
                &&& !old(self).emitted_q().contains(m)
                &&& final(self).emitted_q() == old(self).emitted_q().insert(m)
                &&& final(self).budget() < old(self).budget()
            },
            r is None ==> final(self).emitted_q() == old(self).emitted_q() && final(self).budget()
                <= old(self).budget(),
            r is None ==> forall|m: MoveData|
                m.wf() && legal_of(old(self).board_spec(), m) && q_is_capture(
                    old(self).board_spec(),
                    m,
                ) ==> #[trigger] final(self).emitted_q().contains(m) || crate::see::see_spec(
                    old(self).board_spec(),
                    m,
                ) < 0,
            // the first call scores the captures with the table it was
            // handed; later calls keep those scores
            final(self).hist_spec() == if old(self).at_fill() {
                c_hist@
            } else {
                old(self).hist_spec()
            },
            // the emission maximizes capture history plus thirty-two
            // times the exchange value among the remaining winning
            // captures
            r matches Some((m, sv)) ==> forall|m2: MoveData|
                m2.wf() && legal_of(old(self).board_spec(), m2) && q_is_capture(
                    old(self).board_spec(),
                    m2,
                ) && !old(self).emitted_q().contains(m2) && crate::see::see_spec(
                    old(self).board_spec(),
                    m2,
                ) >= 0 ==> #[trigger] q_score_of(
                    final(self).hist_spec(),
                    old(self).board_spec(),
                    m2,
                ) <= q_score_of(final(self).hist_spec(), old(self).board_spec(), m),
    {
        if self.gen_type == QSearchGenType::CalcCaptures {
            proof {
                self.hist0@ = c_hist@;
            }
            let moves = board_legal_moves(&self.board);
            let n = moves.len();
            let mut i: usize = 0;
            while i < n
                invariant
                    self.stm < 2,
                    self.stm == stm_of(self.board),
                    self.enemy == colors_of(self.board, (1 - self.stm) as u8),
                    self.gen_type == QSearchGenType::CalcCaptures,
                    self.emitted@ =~= Set::<MoveData>::empty(),
                    n == moves@.len(),
                    n <= 256,
                    i <= n,
                    c_hist.wf(),
                    self.board == old(self).board,
                    self.hist0@ == c_hist@,
                    moves_ok(self.board, moves@),
                    self.queue@.len() <= i,
                    forall|k: int|
                        0 <= k < self.queue@.len() ==> {
                            let m = (#[trigger] self.queue@[k]).0;
                            &&& m.wf()
                            &&& legal_of(self.board, m)
                            &&& piece_on_of(self.board, m.from) is Some
                            &&& color_on_of(self.board, m.from) == Some(stm_of(self.board))
                            &&& is_cap_m(self.enemy, m)
                            &&& !self.emitted@.contains(m)
                        },
                    forall|k: int|
                        0 <= k < self.queue@.len() ==> ((#[trigger] self.queue@[k]).2 matches Some(
                            svv,
                        ) && svv == crate::see::see_spec(self.board, self.queue@[k].0)),
                    forall|k: int|
                        0 <= k < self.queue@.len() ==> ((#[trigger] self.queue@[k]).2 matches Some(
                            sv,
                        ) && -crate::see::SEE_LIMIT <= sv <= crate::see::SEE_LIMIT),
                    forall|k: int|
                        0 <= k < self.queue@.len() ==> (#[trigger] self.queue@[k]).1 == q_score_of(
                            self.hist0@,
                            self.board,
                            self.queue@[k].0,
                        ),
                    forall|k: int, l: int|
                        0 <= k < l < self.queue@.len() ==> (#[trigger] self.queue@[k]).0 != (
                        #[trigger] self.queue@[l]).0,
                    forall|k: int|
                        0 <= k < i && is_cap_m(self.enemy, #[trigger] moves@[k]) ==> q_has(
                            self.queue@,
                            moves@[k],
                        ),
                decreases n - i,
            {
                let m = moves[i];
                let is_cap = (self.enemy >> (m.to as u64)) & 1 == 1;
                if is_cap && !queue_find(&self.queue, m) {
                    let piece = match board_piece_on(&self.board, m.from) {
                        Some(p) => p,
                        None => 0,
                    };
                    let hscore = c_hist.get(self.stm, piece, m.to) as i32;
                    let sv = see(&self.board, m);
                    let score = hscore + 32 * sv;
                    let ghost before = self.queue@;
                    self.queue.push((m, score, Some(sv)));
                    proof {
                        assert(self.queue@.last().0 == m);
                        assert(forall|q: int|
                            0 <= q < before.len() ==> self.queue@[q] == before[q]);
                        assert forall|k: int|
                            0 <= k < i + 1 && is_cap_m(self.enemy, #[trigger] moves@[k]) implies q_has(
                            self.queue@,
                            moves@[k],
                        ) by {
                            let mk = moves@[k];
                            if mk == m {
                                assert(self.queue@[self.queue@.len() - 1].0 == m);
                                assert(q_has(self.queue@, mk));
                            } else if q_has(before, mk) {
                                let wit = choose|q: int|
                                    0 <= q < before.len() && (#[trigger] before[q]).0 == mk;
                                assert(self.queue@[wit].0 == mk);
                                assert(q_has(self.queue@, mk));
                            }
                        }
                    }
                }
                i += 1;
            }
            self.gen_type = QSearchGenType::Captures;
            proof {
                assert forall|m: MoveData|
                    m.wf() && legal_of(self.board, m) && is_cap_m(self.enemy, m) implies #[trigger] self.emitted@.contains(
                    m,
                ) || q_has(self.queue@, m) by {
                    assert(moves@.contains(m));
                    let k = choose|k: int| 0 <= k < moves@.len() && moves@[k] == m;
                    assert(is_cap_m(self.enemy, moves@[k]));
                }
            }
        }
        let mut max: i32 = 0;
        let mut best: Option<usize> = None;
        let mut idx: usize = 0;
        let n = self.queue.len();
        while idx < n
            invariant
                self.wf_q(),
                self.gen_type == QSearchGenType::Captures,
                n == self.queue@.len(),
                idx <= n,
                best matches Some(b) ==> b < n && ((#[trigger] self.queue@[b as int]).2 matches Some(
                    bsv,
                ) && bsv >= 0) && max == self.queue@[b as int].1,
                best matches Some(b2) ==> forall|k: int|
                    0 <= k < idx && ((#[trigger] self.queue@[k]).2 matches Some(ksv) && ksv >= 0)
                        ==> self.queue@[k].1 <= self.queue@[b2 as int].1,
                best is None ==> forall|k: int|
                    0 <= k < idx ==> ((#[trigger] self.queue@[k]).2 matches Some(sv) && sv < 0),
            decreases n - idx,
        {
            let entry = self.queue[idx];
            let none_yet = match best {
                Some(_) => false,
                None => true,
            };
            if none_yet || entry.1 > max {
                let sv = match entry.2 {
                    Some(v) => v,
                    None => 0,
                };
                if sv >= 0 {
                    max = entry.1;
                    best = Some(idx);
                }
            }
            idx += 1;
        }
        match best {
            Some(i) => {
                let ghost oldq = self.queue@;
                let ghost oldem = self.emitted@;
                let entry = self.queue.swap_remove(i);
                let m = entry.0;
                let sv = match entry.2 {
                    Some(v) => v,
                    None => 0,
                };
                proof {
                    // the pick was maximal by ordering score over the
                    // remaining winning captures, all of which sit in the
                    // queue
                    assert forall|m2: MoveData|
                        m2.wf() && legal_of(self.board, m2) && is_cap_m(self.enemy, m2)
                            && !oldem.contains(m2) && crate::see::see_spec(self.board, m2)
                            >= 0 implies #[trigger] q_score_of(self.hist0@, self.board, m2)
                        <= q_score_of(self.hist0@, self.board, m) by {
                        assert(q_has(oldq, m2));
                        let wit = choose|q: int|
                            0 <= q < oldq.len() && (#[trigger] oldq[q]).0 == m2;
                        assert(oldq[wit].2 matches Some(wsv) && wsv == crate::see::see_spec(
                            self.board,
                            m2,
                        ));
                        assert(oldq[wit].1 == q_score_of(self.hist0@, self.board, m2));
                        assert(oldq[wit].1 <= oldq[i as int].1);
                    }
                    self.emitted@ = self.emitted@.insert(m);
                    assert(forall|k: int|
                        0 <= k < self.queue@.len() ==> (#[trigger] self.queue@[k]) == oldq[k]
                            || self.queue@[k] == oldq.last());
                    assert forall|mm: MoveData|
                        mm.wf() && legal_of(self.board, mm) && is_cap_m(
                            self.enemy,
                            mm,
                        ) implies #[trigger] self.emitted@.contains(mm) || q_has(
                        self.queue@,
                        mm,
                    ) by {
                        if oldem.contains(mm) || mm == m {
                        } else if q_has(oldq, mm) {
                            let wit = choose|q: int|
                                0 <= q < oldq.len() && (#[trigger] oldq[q]).0 == mm;
                            assert(mm != m);
                            assert(wit != i);
                            if wit == oldq.len() - 1 {
                                assert(self.queue@[i as int].0 == mm);
                                assert(q_has(self.queue@, mm));
                            } else {
                                assert(self.queue@[wit].0 == mm);
                                assert(q_has(self.queue@, mm));
                            }
                        }
                    }
                }
                Some((m, sv))
            },
            None => {
                proof {
                    assert forall|m: MoveData|
                        m.wf() && legal_of(self.board, m) && is_cap_m(
                            self.enemy,
                            m,
                        ) implies #[trigger] self.emitted@.contains(m) || crate::see::see_spec(
                        self.board,
                        m,
                    ) < 0 by {
                        if !self.emitted@.contains(m) {
                            assert(q_has(self.queue@, m));
                            let wit = choose|q: int|
                                0 <= q < self.queue@.len() && (#[trigger] self.queue@[q]).0 == m;
                            assert(self.queue@[wit].2 matches Some(wsv) && wsv
                                == crate::see::see_spec(self.board, m));
                        }
                    }
                }
                None
            },
        }
    }
}

} // verus!
