//! The negamax search: recursive alpha-beta with transposition cutoffs,
//! reverse futility and null-move pruning, internal iterative reduction,
//! singular extensions with multi-cut, futility, history and late-move
//! pruning, late-move reductions, and a capture-only quiescence search at
//! the horizon.
//!
//! The contracts state: the position comes back exactly as it went in; the
//! returned score stays in range; any move returned with a score strictly
//! inside the window is legal in the node's position; and at the root,
//! whenever a legal move exists the search returns one.

use vstd::prelude::*;

use crate::board::board_checkers;
use crate::board::board_colors;
use crate::board::board_piece_on;
use crate::board::board_stm;
use crate::board::checkers_of;
use crate::board::legal_of;
use crate::eval::lemma_descend_antimonotone;
use crate::eval::Evaluation;
use crate::eval::MATE;
use crate::move_entry::MoveEntry;
use crate::move_gen::OrderedMoveGen;
use crate::move_gen::QuiescenceSearchMoveGen;
use crate::moves::MoveData;
use crate::params::MAX_PLY;
use crate::position::lemma_push_pop_view;
use crate::position::popcount;
use crate::position::Position;
use crate::runner::LocalContext;
use crate::runner::SharedContext;
use crate::runner::State;
use crate::t_table::Analysis;
use crate::t_table::EntryType;

verus! {

/// Kings and one other piece class must remain for null-move pruning.
pub const MIN_PIECE_CNT: u32 = 2;

/// The window kind of a node: principal variation, zero window, or zero
/// window with null-move pruning disabled.
#[derive(Debug, Copy, Clone, PartialEq, Eq, Structural)]
pub enum SearchKind {
    Pv,
    Zw,
    NoNm,
}

/// Compile-time selection of the window kind.
pub trait SearchType {
    spec fn kind_spec() -> SearchKind;

    fn kind() -> (r: SearchKind)
        ensures
            r == Self::kind_spec(),
    ;
}

/// The principal-variation kind.
pub struct Pv;

/// The zero-window kind.
pub struct Zw;

/// The zero-window kind with null-move pruning disabled.
pub struct NoNm;

impl SearchType for Pv {
    open spec fn kind_spec() -> SearchKind {
        SearchKind::Pv
    }

    fn kind() -> (r: SearchKind) {
        SearchKind::Pv
    }
}

impl SearchType for Zw {
    open spec fn kind_spec() -> SearchKind {
        SearchKind::Zw
    }

    fn kind() -> (r: SearchKind) {
        SearchKind::Zw
    }
}

impl SearchType for NoNm {
    open spec fn kind_spec() -> SearchKind {
        SearchKind::NoNm
    }

    fn kind() -> (r: SearchKind) {
        SearchKind::NoNm
    }
}

/// Bound on the window handed to a node at this ply.
pub open spec fn window_bound(ply: int) -> int {
    1_150_000 + 2 * ply
}

/// Bound on the score a node at this ply returns.
pub open spec fn result_bound(ply: int) -> int {
    1_160_000 + 2 * (MAX_PLY - ply)
}

/// The network's static evaluation of a position's current ply.
pub open spec fn static_eval_of(p: Position) -> int {
    crate::nnue::ff_spec(
        p.nnue().weights_spec(),
        p.nnue().acc_at(p.len()),
        crate::board::stm_of(p.board_spec()),
        0,
    )
}

/// What the shared table answers for a position.
pub open spec fn tt_probe_of(s: SharedContext, p: Position) -> Option<Analysis> {
    s.t_table.lookup_spec(crate::board::hash_of(p.board_spec()))
}

/// Whether a stored entry alone settles a quiescence node on this window.
pub open spec fn q_tt_cutoff(e: Analysis, alpha: int, beta: int) -> bool {
    match e.entry_type {
        EntryType::Exact => true,
        EntryType::LowerBound => e.score.val() >= beta,
        EntryType::UpperBound => e.score.val() <= alpha,
    }
}

/// A quiescence node past its depth budget or the ply cap: it answers
/// the static evaluation.
pub open spec fn q_horizon(p: Position, ply: int, target_ply: int) -> bool {
    ply >= target_ply || ply >= MAX_PLY || p.len() >= MAX_PLY
}

/// The search touches the shared context only through table stores: the
/// coefficients, the reduction tables, the time control and the table's
/// shape all come back unchanged.
pub open spec fn shared_frame(pre: SharedContext, post: SharedContext) -> bool {
    &&& post.params == pre.params
    &&& post.lmr_lookup == pre.lmr_lookup
    &&& post.lmp_lookup == pre.lmp_lookup
    &&& post.time == pre.time
    &&& post.start == pre.start
    &&& post.t_table.slots() == pre.t_table.slots()
    &&& forall|h: u64| #[trigger] post.t_table.index_spec(h) == pre.t_table.index_spec(h)
}

/// A node leaves the stack entries below it alone and restores its own
/// excluded move.
pub open spec fn stack_frame(pre: LocalContext, post: LocalContext, ply: int) -> bool {
    &&& post.search_stack@[ply].skip_move == pre.search_stack@[ply].skip_move
    &&& forall|i: int| 0 <= i < ply ==> post.search_stack@[i] == pre.search_stack@[i]
}

/// Whether a stored entry is deep enough and bounds the right side of the
/// window to settle a zero-window node.
pub open spec fn tt_cutoff_at(e: Analysis, ply: int, target_ply: int, alpha: int, beta: int) -> bool {
    &&& ply + e.depth >= target_ply
    &&& match e.entry_type {
        EntryType::Exact => true,
        EntryType::LowerBound => e.score.val() >= beta,
        EntryType::UpperBound => e.score.val() <= alpha,
    }
}

/// The guard of the search's draw answer: away from the root, the rules
/// force a draw here.
pub open spec fn draw_at(p: Position, ply: int) -> bool {
    ply != 0 && crate::position::forced_draw_spec(p.board_spec(), p.stack_hashes(), ply)
}

/// The main search's horizon: it delegates to the quiescence search.
pub open spec fn main_horizon(p: Position, ply: int, target_ply: int) -> bool {
    ply >= target_ply || ply >= MAX_PLY || p.len() >= MAX_PLY
}

/// The abort answer: the sentinel score with the searcher's flag raised.
/// The clock is outside the specification, so clauses about a node's
/// answer always allow this exit.
pub open spec fn abort_exit(l: LocalContext, r: (Option<MoveData>, Evaluation)) -> bool {
    r.0 is None && r.1.val() == -(crate::eval::WINDOW_LIMIT as int) && l.abort
}

/// The evaluation-is-improving test: two plies ago the same side stood
/// worse.
pub open spec fn improving_at(l: LocalContext, p: Position, ply: int) -> bool {
    ply >= 2 && checkers_of(p.board_spec()) == 0 && static_eval_of(p) > l.search_stack@[ply
        - 2].eval.val()
}

/// The remaining depth a node searches at: one less than asked when it
/// has no table entry and at least four plies remain (internal iterative
/// reduction).
pub open spec fn iir_target(sc: SharedContext, p: Position, ply: int, target_ply: int) -> int {
    if tt_probe_of(sc, p) is None && target_ply - ply >= 4 {
        target_ply - 1
    } else {
        target_ply
    }
}

/// The record a node stores: `Analysis::new`'s clamps applied to its
/// depth and score.
pub open spec fn stored_record(depth: int, t: EntryType, score: int, m: MoveData) -> Analysis {
    Analysis {
        exists: true,
        depth: (if depth <= 255 {
            depth
        } else {
            255
        }) as u8,
        entry_type: t,
        score: Evaluation::of_val(
            if score > 1_100_000 {
                1_100_000
            } else if score < -1_100_000 {
                -1_100_000
            } else {
                score
            },
        ),
        table_move: m,
    }
}

/// After a store, the slot the hash selects holds the record - or kept an
/// incumbent that the replacement policy preferred.
pub open spec fn slot_after_store(t: crate::t_table::TranspositionTable, hash: u64, e: Analysis) -> bool {
    match t.slot(t.index_spec(hash)) {
        Some((h2, e2)) => (h2 == hash && e2 == e) || !crate::t_table::do_replace_spec(e, e2),
        None => false,
    }
}

/// `Analysis::new`'s result under its clamps is exactly the stored
/// record.
proof fn lemma_store_matches(a: Analysis, depth: int, t: EntryType, score: int, m: MoveData)
    requires
        a.exists,
        a.depth as int == if depth <= 255 {
            depth
        } else {
            255int
        },
        0 <= depth,
        a.entry_type == t,
        a.score.val() == if score > 1_100_000 {
            1_100_000int
        } else if score < -1_100_000 {
            -1_100_000int
        } else {
            score
        },
        a.table_move == m,
    ensures
        a == stored_record(depth, t, score, m),
{
    let cl = if score > 1_100_000 {
        1_100_000int
    } else if score < -1_100_000 {
        -1_100_000int
    } else {
        score
    };
    crate::eval::lemma_of_val(cl);
    crate::eval::lemma_val_injective(a.score, Evaluation::of_val(cl));
    assert(a.depth == stored_record(depth, t, score, m).depth);
}

/// The reverse-futility answer is owed: a quiet zero-window node whose
/// static evaluation clears beta by the depth margin.
pub open spec fn rev_fut_at(
    l: LocalContext,
    sc: SharedContext,
    p: Position,
    ply: int,
    target_ply: int,
    beta: int,
) -> bool {
    &&& checkers_of(p.board_spec()) == 0
    &&& sc.params.do_rev_fp_flag
    &&& target_ply - ply < sc.params.rev_f_prune_depth
    &&& static_eval_of(p) + (if improving_at(l, p, ply) {
        50int
    } else {
        0int
    }) - (sc.params.rev_fp.base + sc.params.rev_fp.factor * (target_ply - ply)) >= beta
}

/// Reads one search-stack entry.
fn stack_at(local: &LocalContext, ply: usize) -> (r: State)
    requires
        local.wf_local(),
        ply < MAX_PLY + 2,
    ensures
        r == local.search_stack@[ply as int],
        r.wf(),
{
    local.search_stack[ply]
}

/// Writes one search-stack entry.
fn set_stack(local: &mut LocalContext, ply: usize, st: State)
    requires
        old(local).wf_local(),
        ply < MAX_PLY + 2,
        st.wf(),
    ensures
        final(local).wf_local(),
        final(local).search_stack@ == old(local).search_stack@.update(ply as int, st),
        *final(local) == (LocalContext { search_stack: final(local).search_stack, ..*old(local) }),
{
    local.search_stack.set(ply, st);
}

/// Replaces a killer-stack entry.
fn killer_push(local: &mut LocalContext, ply: usize, m: MoveData)
    requires
        old(local).wf_local(),
        ply < MAX_PLY + 3,
        m.wf(),
    ensures
        final(local).wf_local(),
        *final(local) == (LocalContext { k_table: final(local).k_table, ..*old(local) }),
{
    let mut e = local.k_table[ply].duplicate();
    e.push(m);
    local.k_table.set(ply, e);
}

/// Replaces a threat-stack entry.
fn threat_push(local: &mut LocalContext, ply: usize, m: MoveData)
    requires
        old(local).wf_local(),
        ply < MAX_PLY + 3,
        m.wf(),
    ensures
        final(local).wf_local(),
        *final(local) == (LocalContext { threat_table: final(local).threat_table, ..*old(local) }),
{
    let mut e = local.threat_table[ply].duplicate();
    e.push(m);
    local.threat_table.set(ply, e);
}

/// Clears a killer and a threat stack entry.
fn clear_entries(local: &mut LocalContext, ply: usize)
    requires
        old(local).wf_local(),
        ply < MAX_PLY + 3,
    ensures
        final(local).wf_local(),
        final(local).search_stack@ == old(local).search_stack@,
        *final(local) == (LocalContext {
            k_table: final(local).k_table,
            threat_table: final(local).threat_table,
            ..*old(local)
        }),
{
    local.k_table.set(ply, MoveEntry::new());
    local.threat_table.set(ply, MoveEntry::new());
}

/// The low-depth history pruning margin, `-MAX_VALUE * depth^2 / 64`.
fn hp_margin(depth: u32) -> (r: i32)
    requires
        1 <= depth <= 8,
    ensures
        -520 <= r <= 0,
{
    proof {
        assert(depth * depth <= 64) by (nonlinear_arith)
            requires
                0 <= depth <= 8,
        ;
    }
    let dd = (depth * depth) as i32;
    -(crate::h_table::MAX_VALUE * dd / 64)
}

/// Division truncating toward zero, for history-based reductions.
fn div_trunc(a: i32, d: i32) -> (r: i32)
    requires
        1 <= d <= 100_000,
        -1_000_000 <= a <= 1_000_000,
    ensures
        -1_000_000 <= r <= 1_000_000,
        a >= 0 ==> 0 <= r <= a,
        a < 0 ==> a <= r <= 0,
{
    let neg = a < 0;
    let mag: u32 = if neg {
        (-a) as u32
    } else {
        a as u32
    };
    let q = mag / (d as u32);
    if neg {
        -(q as i32)
    } else {
        q as i32
    }
}

/// Entry point of the negamax search under a compile-time window kind.
pub fn search<S: SearchType>(
    position: &mut Position,
    local_context: &mut LocalContext,
    shared_context: &mut SharedContext,
    ply: u32,
    target_ply: u32,
    alpha: Evaluation,
    beta: Evaluation,
) -> (r: (Option<MoveData>, Evaluation))
    requires
        old(position).wf(),
        old(position).len() >= ply,
        ply <= MAX_PLY,
        target_ply <= 10_000 + 2 * ply,
        old(local_context).wf_local(),
        old(shared_context).wf_shared(),
        alpha.wf(),
        beta.wf(),
        alpha.val() < beta.val(),
        -window_bound(ply as int) <= alpha.val(),
        beta.val() <= window_bound(ply as int),
        S::kind_spec() != SearchKind::Pv ==> beta.val() == alpha.val() + 1,
        ply == 0 ==> S::kind_spec() == SearchKind::Pv && target_ply >= 1 && old(
            local_context,
        ).search_stack@[0].skip_move is None && old(position).len() < MAX_PLY,
    ensures
        final(position).wf(),
        final(position).view() == old(position).view(),
        final(position).board_spec() == old(position).board_spec(),
        final(position).len() == old(position).len(),
        final(local_context).wf_local(),
        final(shared_context).wf_shared(),
        shared_frame(*old(shared_context), *final(shared_context)),
        stack_frame(*old(local_context), *final(local_context), ply as int),
        r.1.wf(),
        -result_bound(ply as int) <= r.1.val() <= result_bound(ply as int),
        r.0 matches Some(m) ==> m.wf() && (alpha.val() < r.1.val() < beta.val() ==> legal_of(
            old(position).board_spec(),
            m,
        )) && (ply == 0 ==> legal_of(old(position).board_spec(), m)),
        ply == 0 && (exists|m: MoveData|
            m.wf() && legal_of(old(position).board_spec(), m)) ==> r.0 is Some,
    decreases MAX_PLY - ply, 2int, (if target_ply >= ply {
        target_ply - ply
    } else {
        0int
    }),
{
    search_node(S::kind(), position, local_context, shared_context, ply, target_ply, alpha, beta)
}

/// The negamax search over an explicit window kind.
#[verifier::rlimit(100)]
#[verifier::spinoff_prover]
pub fn search_node(
    kind: SearchKind,
    position: &mut Position,
    local_context: &mut LocalContext,
    shared_context: &mut SharedContext,
    ply: u32,
    target_ply: u32,
    alpha: Evaluation,
    beta: Evaluation,
) -> (r: (Option<MoveData>, Evaluation))
    requires
        old(position).wf(),
        old(position).len() >= ply,
        ply <= MAX_PLY,
        target_ply <= 10_000 + 2 * ply,
        old(local_context).wf_local(),
        old(shared_context).wf_shared(),
        alpha.wf(),
        beta.wf(),
        alpha.val() < beta.val(),
        -window_bound(ply as int) <= alpha.val(),
        beta.val() <= window_bound(ply as int),
        kind != SearchKind::Pv ==> beta.val() == alpha.val() + 1,
        ply == 0 ==> kind == SearchKind::Pv && target_ply >= 1 && old(
            local_context,
        ).search_stack@[0].skip_move is None && old(position).len() < MAX_PLY,
    ensures
        final(position).wf(),
        final(position).view() == old(position).view(),
        final(position).board_spec() == old(position).board_spec(),
        final(position).len() == old(position).len(),
        final(local_context).wf_local(),
        final(shared_context).wf_shared(),
        shared_frame(*old(shared_context), *final(shared_context)),
        stack_frame(*old(local_context), *final(local_context), ply as int),
        r.1.wf(),
        -result_bound(ply as int) <= r.1.val() <= result_bound(ply as int),
        r.0 matches Some(m) ==> m.wf() && (alpha.val() < r.1.val() < beta.val() ==> legal_of(
            old(position).board_spec(),
            m,
        )) && (ply == 0 ==> legal_of(old(position).board_spec(), m)),
        ply == 0 && (exists|m: MoveData|
            m.wf() && legal_of(old(position).board_spec(), m)) ==> r.0 is Some,
        // a deep-enough stored bound ends a zero-window node with the
        // stored move and score, unless the clock cut the node first
        (kind != SearchKind::Pv && old(local_context).search_stack@[ply as int].skip_move is None
            && !draw_at(*old(position), ply as int) && !main_horizon(
            *old(position),
            ply as int,
            target_ply as int,
        ) && (tt_probe_of(*old(shared_context), *old(position)) matches Some(e) && tt_cutoff_at(
            e,
            ply as int,
            target_ply as int,
            alpha.val(),
            beta.val(),
        ))) ==> ((tt_probe_of(*old(shared_context), *old(position)) matches Some(e2) && r == (
        Some(e2.table_move), e2.score)) || abort_exit(*final(local_context), r)),
        // with no table cutoff, a quiet zero-window node whose static
        // evaluation clears beta by the reverse-futility margin answers
        // that evaluation, under the same clock escape
        (kind != SearchKind::Pv && old(local_context).search_stack@[ply as int].skip_move is None
            && !draw_at(*old(position), ply as int) && !main_horizon(
            *old(position),
            ply as int,
            target_ply as int,
        ) && !(tt_probe_of(*old(shared_context), *old(position)) matches Some(e3) && tt_cutoff_at(
            e3,
            ply as int,
            target_ply as int,
            alpha.val(),
            beta.val(),
        )) && rev_fut_at(
            *old(local_context),
            *old(shared_context),
            *old(position),
            ply as int,
            target_ply as int,
            beta.val(),
        )) ==> ((r.0 is None && r.1.val() == static_eval_of(*old(position))) || abort_exit(
            *final(local_context),
            r,
        )),
        // a forced draw away from the root answers zero at once
        draw_at(*old(position), ply as int) ==> ((r.0 is None && r.1.val() == 0) || abort_exit(
            *final(local_context),
            r,
        )),
        // with no legal move outside the excluded one, the node answers
        // the stalemate zero or the mated-in-zero encoding (a null-move
        // probe may instead settle the stalemate case at or above beta)
        (old(local_context).search_stack@[ply as int].skip_move is None && !draw_at(
            *old(position),
            ply as int,
        ) && !main_horizon(*old(position), ply as int, target_ply as int) && !(tt_probe_of(
            *old(shared_context),
            *old(position),
        ) matches Some(e7) && tt_cutoff_at(
            e7,
            ply as int,
            target_ply as int,
            alpha.val(),
            beta.val(),
        )) && !rev_fut_at(
            *old(local_context),
            *old(shared_context),
            *old(position),
            ply as int,
            target_ply as int,
            beta.val(),
        ) && (forall|m: MoveData|
            !(m.wf() && legal_of(old(position).board_spec(), m)))) ==> (abort_exit(
            *final(local_context),
            r,
        ) || (r.0 is None && (r.1.val() == (if checkers_of(old(position).board_spec()) == 0 {
            0int
        } else {
            -(MATE as int)
        }) || r.1.val() >= beta.val()))),
        // a completed node (in-window or fail-low answer with a move, no
        // clock stop) leaves its Exact or UpperBound record in the slot
        // its hash selects, up to the replacement policy
        r.0 matches Some(m4) ==> ((old(local_context).search_stack@[ply as int].skip_move is None
            && !draw_at(*old(position), ply as int) && !main_horizon(
            *old(position),
            ply as int,
            target_ply as int,
        ) && !(tt_probe_of(*old(shared_context), *old(position)) matches Some(e4) && tt_cutoff_at(
            e4,
            ply as int,
            target_ply as int,
            alpha.val(),
            beta.val(),
        )) && !final(local_context).abort && r.1.val() < beta.val()) ==> slot_after_store(
            final(shared_context).t_table,
            crate::board::hash_of(old(position).board_spec()),
            stored_record(
                iir_target(*old(shared_context), *old(position), ply as int, target_ply as int)
                    - ply,
                if r.1.val() > alpha.val() {
                    EntryType::Exact
                } else {
                    EntryType::UpperBound
                },
                r.1.val(),
                m4,
            ),
        )),
        // a fail-high likewise leaves its LowerBound record - unless it is
        // the multi-cut answer, recognizable as the stored score less
        // three times the remaining depth, which stores nothing
        r.0 matches Some(m5) ==> ((old(local_context).search_stack@[ply as int].skip_move is None
            && !draw_at(*old(position), ply as int) && !main_horizon(
            *old(position),
            ply as int,
            target_ply as int,
        ) && !(tt_probe_of(*old(shared_context), *old(position)) matches Some(e5) && tt_cutoff_at(
            e5,
            ply as int,
            target_ply as int,
            alpha.val(),
            beta.val(),
        )) && !final(local_context).abort && r.1.val() >= beta.val()) ==> (slot_after_store(
            final(shared_context).t_table,
            crate::board::hash_of(old(position).board_spec()),
            stored_record(
                iir_target(*old(shared_context), *old(position), ply as int, target_ply as int)
                    - ply,
                EntryType::LowerBound,
                r.1.val(),
                m5,
            ),
        ) || (tt_probe_of(*old(shared_context), *old(position)) matches Some(e6) && r.1.val()
            == e6.score.val() - 3 * (iir_target(
            *old(shared_context),
            *old(position),
            ply as int,
            target_ply as int,
        ) - ply)))),
    decreases MAX_PLY - ply, 1int, (if target_ply >= ply {
        target_ply - ply
    } else {
        0int
    }),
{
    let is_pv = kind == SearchKind::Pv;
    if ply != 0 && shared_context.abort_search(local_context.nodes) {
        local_context.trigger_abort();
        return (None, Evaluation::min());
    }
    local_context.update_sel_depth(ply);
    if ply != 0 && position.forced_draw(ply) {
        local_context.increment_nodes();
        return (None, Evaluation::new(0));
    }
    // at depth zero, delegate to the quiescence search
    if ply >= target_ply || ply >= MAX_PLY || position.len_at_cap() {
        let qd = shared_context.params.get_q_search_depth();
        let s = q_search(
            position,
            local_context,
            shared_context,
            ply,
            ply + qd,
            alpha,
            beta,
        );
        return (None, s);
    }
    let skip_move: Option<MoveData> = stack_at(local_context, ply as usize).skip_move;
    let tt_entry: Option<Analysis> = if skip_move.is_some() {
        None
    } else {
        shared_context.t_table.get(position.hash())
    };
    local_context.increment_nodes();
    let mut best_move: Option<MoveData> = None;
    let initial_alpha = alpha;
    let mut cur_alpha = alpha;
    let mut tply = target_ply;
    let mut depth = tply - ply;

    // transposition cutoff: a deep enough stored bound ends a zero-window
    // node at once
    match tt_entry {
        Some(entry) => {
            if local_context.tt_hits < u64::MAX {
                local_context.tt_hits = local_context.tt_hits + 1;
            }
            best_move = Some(entry.table_move());
            if !is_pv && ply + entry.depth() >= tply {
                let score = entry.score();
                match entry.entry_type() {
                    EntryType::Exact => {
                        return (best_move, score);
                    },
                    EntryType::LowerBound => {
                        if score.raw() >= beta.raw() {
                            return (best_move, score);
                        }
                    },
                    EntryType::UpperBound => {
                        if score.raw() <= cur_alpha.raw() {
                            return (best_move, score);
                        }
                    },
                }
            }
        },
        None => {
            if local_context.tt_misses < u64::MAX {
                local_context.tt_misses = local_context.tt_misses + 1;
            }
        },
    }
    let in_check = board_checkers(position.board()) != 0;
    let eval: Evaluation = if skip_move.is_none() {
        position.get_eval()
    } else {
        stack_at(local_context, ply as usize).eval
    };
    let st0 = stack_at(local_context, ply as usize);
    set_stack(
        local_context,
        ply as usize,
        State { eval, move_played: st0.move_played, skip_move: st0.skip_move },
    );
    let improving: bool = if ply < 2 || in_check {
        false
    } else {
        eval.raw() > stack_at(local_context, ply as usize - 2).eval.raw()
    };
    if !is_pv && !in_check && skip_move.is_none() {
        // reverse futility: an evaluation far above beta stands in for a
        // search
        let do_rev_f = shared_context.params.do_rev_fp() && shared_context.params.do_rev_f_prune(
            depth,
        );
        if do_rev_f {
            let f_margin = shared_context.params.get_rev_fp().threshold(depth);
            let bonus: i32 = if improving {
                50
            } else {
                0
            };
            if eval.offset(bonus - f_margin).raw() >= beta.raw() {
                return (None, eval);
            }
        }
        // null move: hand the opponent the move and search reduced; a
        // refutation that still clears beta prunes the node, and the
        // opponent's best reply is kept as a threat hint one ply deeper
        let pawns = popcount(crate::board::board_pieces(position.board(), 0));
        let occ = popcount(crate::board::board_occupied(position.board()));
        let only_pawns = MIN_PIECE_CNT + pawns == occ;
        let do_null = shared_context.params.do_nmp(depth) && kind == SearchKind::Zw && !only_pawns;
        if do_null && eval.raw() >= beta.raw() {
            let ghost pre_null = *position;
            if position.null_move() {
                let ghost post_null = *position;
                proof {
                    assert(position.history().len() == pre_null.history().len() + 1);
                    assert(position.len() == pre_null.len() + 1);
                    post_null.lemma_pos_facts();
                    pre_null.lemma_pos_facts();
                }
                let st = stack_at(local_context, ply as usize);
                set_stack(
                    local_context,
                    ply as usize,
                    State { eval: st.eval, move_played: None, skip_move: st.skip_move },
                );
                let zw = beta.descend();
                let diff: u32 = if eval.raw() >= beta.raw() {
                    (eval.raw() - beta.raw()) as u32
                } else {
                    0
                };
                let reduction = shared_context.params.get_nmp().reduction(depth) + diff / 200;
                let base_target: u32 = if tply > reduction {
                    tply - reduction
                } else {
                    0
                };
                let r_target: u32 = if base_target > ply + 2 {
                    base_target
                } else {
                    ply + 2
                };
                let (threat_move, search_score) = search_node(
                    SearchKind::NoNm,
                    position,
                    local_context,
                    shared_context,
                    ply + 1,
                    r_target,
                    zw,
                    zw.offset(1),
                );
                match threat_move {
                    Some(tm) => {
                        threat_push(local_context, ply as usize + 1, tm);
                    },
                    None => {},
                }
                let ghost mid = *position;
                position.unmake_move();
                proof {
                    mid.lemma_pos_facts();
                    assert(mid.nnue().accs().take(mid.nnue().head_spec() + 1)
                        == post_null.nnue().accs().take(post_null.nnue().head_spec() + 1));
                    crate::position::lemma_take_sub(
                        mid.nnue().accs(),
                        post_null.nnue().accs(),
                        pre_null.nnue().head_spec() + 1,
                        mid.nnue().head_spec() + 1,
                    );
                    lemma_push_pop_view(
                        pre_null,
                        mid,
                        *position,
                        crate::board::after_null_of(pre_null.board_spec()),
                        pre_null.nnue().grid_at(pre_null.nnue().head_spec()),
                    );
                }
                let score = search_score.ascend();
                if score.raw() >= beta.raw() {
                    return (None, score);
                }
            }
        }
    }
    // internal iterative reduction: without a table move, deep nodes are
    // searched one ply shallower
    if tt_entry.is_none() && depth >= 4 {
        depth = depth - 1;
        tply = tply - 1;
    }
    clear_entries(local_context, ply as usize + 2);
    let threat_entry: MoveEntry = if ply > 1 {
        local_context.threat_table[ply as usize].duplicate()
    } else {
        MoveEntry::new()
    };
    let killer_entry: MoveEntry = local_context.k_table[ply as usize].duplicate();
    let prev_move: Option<MoveData> = if ply != 0 {
        stack_at(local_context, ply as usize - 1).move_played
    } else {
        None
    };
    let stm = board_stm(position.board());
    let enemy = board_colors(position.board(), 1 - stm);
    let counter_move: Option<MoveData> = match prev_move {
        Some(pm) => {
            let prev_piece = match board_piece_on(position.board(), pm.to) {
                Some(p) => p,
                None => 5,
            };
            local_context.cm_table.get(stm, prev_piece, pm.to)
        },
        None => None,
    };
    let mut move_gen = OrderedMoveGen::new(
        position.board(),
        best_move,
        counter_move,
        prev_move,
        threat_entry,
        killer_entry,
    );
    let mut moves_seen: usize = 0;
    let mut move_exists = false;
    let mut highest: Option<Evaluation> = None;
    let mut quiets: Vec<(u8, u8)> = Vec::new();
    let mut captures: Vec<(u8, u8)> = Vec::new();
    let mut done = false;
    let ghost entry_pos = *old(position);
    proof {
        broadcast use vstd::set::group_set_axioms;

        assert(position.view() == entry_pos.view());
        move_gen.lemma_gen_facts();
    }
    while !done
        invariant
            entry_pos == *old(position),
            position.wf(),
            position.view() == entry_pos.view(),
            position.board_spec() == entry_pos.board_spec(),
            position.len() == entry_pos.len(),
            ply <= entry_pos.len() < MAX_PLY,
            local_context.wf_local(),
            shared_context.wf_shared(),
            move_gen.wf_gen(),
            move_gen.board_spec() == entry_pos.board_spec(),
            move_gen.moves_len() <= 256,
            move_gen.emitted().len() <= move_gen.moves_len(),
            moves_seen <= move_gen.emitted().len(),
            ply < MAX_PLY,
            ply < tply,
            tply <= target_ply,
            tply <= 10_000 + 2 * ply,
            depth == tply - ply,
            1 <= depth,
            initial_alpha == alpha,
            skip_move is None ==> tply as int == iir_target(
                *old(shared_context),
                entry_pos,
                ply as int,
                target_ply as int,
            ),
            highest matches Some(h2) ==> h2.val() < beta.val(),
            stm < 2,
            cur_alpha.wf(),
            beta.wf(),
            initial_alpha.wf(),
            cur_alpha.val() < beta.val(),
            initial_alpha.val() <= cur_alpha.val(),
            -window_bound(ply as int) <= initial_alpha.val(),
            -window_bound(ply as int) <= cur_alpha.val() <= result_bound(ply as int),
            beta.val() <= window_bound(ply as int),
            !is_pv ==> beta.val() == initial_alpha.val() + 1,
            is_pv == (kind == SearchKind::Pv),
            ply == 0 ==> kind == SearchKind::Pv && skip_move is None,
            skip_move matches Some(sm) ==> sm.wf(),
            shared_frame(*old(shared_context), *shared_context),
            skip_move == old(local_context).search_stack@[ply as int].skip_move,
            local_context.search_stack@[ply as int].skip_move == skip_move,
            skip_move is Some ==> tt_entry is None,
            tt_entry == if skip_move is Some {
                None
            } else {
                tt_probe_of(*old(shared_context), entry_pos)
            },
            in_check == (checkers_of(entry_pos.board_spec()) != 0),
            !draw_at(entry_pos, ply as int),
            skip_move is None ==> eval.val() == static_eval_of(entry_pos),
            !is_pv && skip_move is None ==> !(tt_probe_of(
                *old(shared_context),
                entry_pos,
            ) matches Some(e) && tt_cutoff_at(
                e,
                ply as int,
                target_ply as int,
                alpha.val(),
                beta.val(),
            )),
            !is_pv && skip_move is None ==> !rev_fut_at(
                *old(local_context),
                *old(shared_context),
                entry_pos,
                ply as int,
                target_ply as int,
                beta.val(),
            ),
            forall|i: int|
                0 <= i < ply ==> local_context.search_stack@[i] == old(
                    local_context,
                ).search_stack@[i],
            prev_move matches Some(pm) ==> pm.wf(),
            eval.wf(),
            best_move matches Some(m) ==> m.wf(),
            highest matches Some(h) ==> h.wf() && -result_bound(ply as int) <= h.val()
                <= result_bound(ply as int),
            highest matches Some(h) ==> (best_move matches Some(bm) && bm.wf() && legal_of(
                entry_pos.board_spec(),
                bm,
            )),
            move_exists ==> highest is Some,
            moves_seen >= 1 ==> highest is Some,
            forall|i: int|
                0 <= i < quiets@.len() ==> (#[trigger] quiets@[i]).0 < 6 && quiets@[i].1 < 64,
            forall|i: int|
                0 <= i < captures@.len() ==> (#[trigger] captures@[i]).0 < 6 && captures@[i].1
                    < 64,
            done && !move_gen.skip_quiets_spec() ==> (forall|m: MoveData|
                m.wf() && legal_of(entry_pos.board_spec(), m) ==> move_gen.emitted().contains(m)),
            ply == 0 && !move_exists ==> !move_gen.skip_quiets_spec(),
            ply == 0 && !move_exists ==> move_gen.emitted().len() == 0,
            tt_entry matches Some(e) ==> e.wf(),
        decreases (move_gen.moves_len() - move_gen.emitted().len()) + (if done {
            0int
        } else {
            1int
        }),
    {
        let nxt = move_gen.next(
            &local_context.h_table,
            &local_context.ch_table,
            &local_context.cm_hist,
        );
        let make_move: MoveData;
        match nxt {
            None => {
                done = true;
                continue ;
            },
            Some(m) => {
                make_move = m;
            },
        }
        let skip_this = match skip_move {
            Some(sm) => sm == make_move,
            None => false,
        };
        if skip_this {
            continue ;
        }
        move_exists = true;
        let is_capture = (enemy >> (make_move.to as u64)) & 1 == 1;
        let piece = match board_piece_on(position.board(), make_move.from) {
            Some(p) => p,
            None => 0,
        };
        let h_score: i32 = if is_capture {
            local_context.ch_table.get(stm, piece, make_move.to) as i32
        } else {
            local_context.h_table.get(stm, piece, make_move.to) as i32
        };
        let cmh_score: Option<i32> = match prev_move {
            Some(pm) => {
                let prev_piece = match board_piece_on(position.board(), pm.to) {
                    Some(p) => p,
                    None => 5,
                };
                Some(local_context.cm_hist.get(stm, prev_piece, pm.to, piece, make_move.to) as i32)
            },
            None => None,
        };
        let mut extension: u32 = 0;
        let score: Evaluation;
        if moves_seen == 0 {
            // singular verification: when the table move seems forced, try
            // to beat it with every other move at reduced depth; if nothing
            // comes close, extend it, and if even the reduced bound clears
            // beta, cut at once
            match tt_entry {
                Some(entry) => {
                    let sing_ok = entry.table_move() == make_move && ply != 0 && depth >= 7
                        && !entry.score().is_mate() && entry.depth() + 2 >= depth && (
                    entry.entry_type() == EntryType::LowerBound || entry.entry_type()
                        == EntryType::Exact);
                    if sing_ok {
                        proof {
                            assert(depth == tply - ply);
                            assert(tply <= 10_000 + 2 * ply);
                            assert(ply < 128);
                            assert(depth <= 10_128);
                        }
                        let reduced_plies = ply + depth / 2 - 1;
                        let d3: i32 = depth as i32;
                        proof {
                            assert(-2_000_000 <= -3 * d3 <= 2_000_000) by (nonlinear_arith)
                                requires
                                    0 <= d3 <= 10_128,
                            ;
                        }
                        let s_beta = entry.score().offset(-3 * d3);
                        let stk = stack_at(local_context, ply as usize);
                        set_stack(
                            local_context,
                            ply as usize,
                            State {
                                eval: stk.eval,
                                move_played: stk.move_played,
                                skip_move: Some(make_move),
                            },
                        );
                        let (_, s_score) = search_node(
                            if kind == SearchKind::Pv {
                                SearchKind::Zw
                            } else if kind == SearchKind::Zw {
                                SearchKind::Zw
                            } else {
                                SearchKind::NoNm
                            },
                            position,
                            local_context,
                            shared_context,
                            ply,
                            reduced_plies,
                            s_beta.offset(-1),
                            s_beta,
                        );
                        let stk2 = stack_at(local_context, ply as usize);
                        set_stack(
                            local_context,
                            ply as usize,
                            State {
                                eval: stk2.eval,
                                move_played: stk2.move_played,
                                skip_move: None,
                            },
                        );
                        proof {
                            assert(local_context.search_stack@[ply as int].skip_move
                                == skip_move);
                        }
                        if s_score.raw() < s_beta.raw() {
                            extension = extension + 1;
                        } else if s_beta.raw() >= beta.raw() {
                            // multi-cut
                            proof {
                                assert(s_beta.val() == entry.score.val() - 3 * (tply - ply));
                            }
                            return (Some(make_move), s_beta);
                        }
                    }
                },
                None => {},
            }
            let ghost pre_make = *position;
            position.make_move(make_move);
            let ghost post_make = *position;
            proof {
                assert(position.history().len() == pre_make.history().len() + 1);
                assert(position.len() == pre_make.len() + 1);
                post_make.lemma_pos_facts();
                pre_make.lemma_pos_facts();
            }
            let st = stack_at(local_context, ply as usize);
            set_stack(
                local_context,
                ply as usize,
                State { eval: st.eval, move_played: Some(make_move), skip_move: st.skip_move },
            );
            if board_checkers(position.board()) != 0 {
                extension = extension + 1;
            }
            let (ca, cb) = if is_pv {
                proof {
                    lemma_descend_antimonotone(cur_alpha.val(), beta.val());
                }
                (beta.descend(), cur_alpha.descend())
            } else {
                let z = beta.descend();
                (z, z.offset(1))
            };
            let (_, child) = search_node(
                kind,
                position,
                local_context,
                shared_context,
                ply + 1,
                tply + extension,
                ca,
                cb,
            );
            let ghost mid = *position;
            position.unmake_move();
            proof {
                mid.lemma_pos_facts();
                assert(mid.nnue().accs().take(mid.nnue().head_spec() + 1)
                    == post_make.nnue().accs().take(post_make.nnue().head_spec() + 1));
                crate::position::lemma_take_sub(
                    mid.nnue().accs(),
                    post_make.nnue().accs(),
                    pre_make.nnue().head_spec() + 1,
                    mid.nnue().head_spec() + 1,
                );
                lemma_push_pop_view(
                    pre_make,
                    mid,
                    *position,
                    crate::board::after_of(pre_make.board_spec(), make_move),
                    crate::nnue::grid_after(pre_make.board_spec(), make_move),
                );
            }
            score = child.ascend();
        } else {
            // forward pruning of late moves, none of it at
            // principal-variation nodes
            let do_fp = !is_pv && !is_capture && shared_context.params.do_fp() && depth <= 7;
            if do_fp {
                let fpv = shared_context.params.get_fp();
                let d7: i32 = depth as i32;
                proof {
                    assert(0 <= fpv * d7 <= 70_000) by (nonlinear_arith)
                        requires
                            0 <= fpv <= 10_000 && 0 <= d7 <= 7,
                    ;
                }
                let margin = fpv * d7;
                if eval.offset(margin).raw() < cur_alpha.raw() {
                    move_gen.set_skip_quiets(true);
                    continue ;
                }
            }
            let do_hp = !is_pv && depth <= 8 && eval.raw() <= cur_alpha.raw();
            if do_hp {
                if h_score < hp_margin(depth) {
                    continue ;
                }
            }
            let do_cmh_p = !is_pv && depth <= 2 && eval.raw() <= cur_alpha.raw();
            if do_cmh_p && !is_capture {
                match cmh_score {
                    Some(cs) => {
                        if cs < hp_margin(depth) {
                            continue ;
                        }
                    },
                    None => {},
                }
            }
            if !is_pv && shared_context.params.do_lmp() && !move_gen.skip_quiets()
                && !is_capture {
                let lmp_bound = shared_context.lmp_lookup.get(
                    depth as usize,
                    if improving {
                        1
                    } else {
                        0
                    },
                );
                if quiets.len() >= lmp_bound {
                    move_gen.set_skip_quiets(true);
                    continue ;
                }
            }
            let do_see_prune = !is_pv && !in_check && depth <= 7;
            if do_see_prune {
                let sv = crate::see::see(position.board(), make_move);
                let fpv = shared_context.params.get_fp();
                let d7: i32 = depth as i32;
                proof {
                    assert(0 <= fpv * d7 <= 70_000) by (nonlinear_arith)
                        requires
                            0 <= fpv <= 10_000 && 0 <= d7 <= 7,
                    ;
                }
                let margin = fpv * d7;
                if eval.offset(sv + margin).raw() < cur_alpha.raw() {
                    continue ;
                }
            }
            let ghost pre_make = *position;
            position.make_move(make_move);
            let ghost post_make = *position;
            proof {
                assert(position.history().len() == pre_make.history().len() + 1);
                assert(position.len() == pre_make.len() + 1);
                post_make.lemma_pos_facts();
                pre_make.lemma_pos_facts();
            }
            let st = stack_at(local_context, ply as usize);
            set_stack(
                local_context,
                ply as usize,
                State { eval: st.eval, move_played: Some(make_move), skip_move: st.skip_move },
            );
            if board_checkers(position.board()) != 0 {
                extension = extension + 1;
            }
            // late-move reduction: search late quiets shallower first, and
            // re-search deeper only when they surprise
            let mut reduction: i32 = 0;
            if shared_context.params.do_lmr(depth) {
                let looked = shared_context.lmr_lookup.get(depth as usize, moves_seen);
                reduction = if looked > 1000 {
                    1000
                } else {
                    looked as i32
                };
                reduction = reduction - div_trunc(
                    h_score,
                    shared_context.params.get_h_reduce_div(),
                );
                if is_pv {
                    reduction = reduction - 1;
                }
                if improving {
                    reduction = reduction - 1;
                }
                let dcap = (depth - 1) as i32;
                if reduction > dcap {
                    reduction = dcap;
                }
                if reduction < 0 {
                    reduction = 0;
                }
            }
            let lmr_ply: u32 = if (tply as i32) - reduction > 0 {
                ((tply as i32) - reduction) as u32
            } else {
                0
            };
            let zw = cur_alpha.descend();
            let (_, lmr_child) = search_node(
                if kind == SearchKind::Pv {
                    SearchKind::Zw
                } else if kind == SearchKind::Zw {
                    SearchKind::Zw
                } else {
                    SearchKind::NoNm
                },
                position,
                local_context,
                shared_context,
                ply + 1,
                lmr_ply + extension,
                zw.offset(-1),
                zw,
            );
            let mut sc = lmr_child.ascend();
            if lmr_ply < tply && sc.raw() > cur_alpha.raw() {
                let (_, zw_child) = search_node(
                    if kind == SearchKind::Pv {
                        SearchKind::Zw
                    } else if kind == SearchKind::Zw {
                        SearchKind::Zw
                    } else {
                        SearchKind::NoNm
                    },
                    position,
                    local_context,
                    shared_context,
                    ply + 1,
                    tply + extension,
                    zw.offset(-1),
                    zw,
                );
                sc = zw_child.ascend();
            }
            if is_pv && sc.raw() > cur_alpha.raw() {
                proof {
                    lemma_descend_antimonotone(cur_alpha.val(), beta.val());
                }
                let (_, pv_child) = search_node(
                    kind,
                    position,
                    local_context,
                    shared_context,
                    ply + 1,
                    tply + extension,
                    beta.descend(),
                    cur_alpha.descend(),
                );
                sc = pv_child.ascend();
            }
            let ghost mid = *position;
            position.unmake_move();
            proof {
                mid.lemma_pos_facts();
                assert(mid.nnue().accs().take(mid.nnue().head_spec() + 1)
                    == post_make.nnue().accs().take(post_make.nnue().head_spec() + 1));
                crate::position::lemma_take_sub(
                    mid.nnue().accs(),
                    post_make.nnue().accs(),
                    pre_make.nnue().head_spec() + 1,
                    mid.nnue().head_spec() + 1,
                );
                lemma_push_pop_view(
                    pre_make,
                    mid,
                    *position,
                    crate::board::after_of(pre_make.board_spec(), make_move),
                    crate::nnue::grid_after(pre_make.board_spec(), make_move),
                );
            }
            score = sc;
        }
        moves_seen = moves_seen + 1;
        let improved = match highest {
            Some(h) => score.raw() > h.raw(),
            None => true,
        };
        if improved {
            highest = Some(score);
            best_move = Some(make_move);
        }
        if score.raw() > cur_alpha.raw() {
            if score.raw() >= beta.raw() {
                // beta cutoff: reward the move in the heuristics, punish
                // the quiets that failed, and store a lower bound
                if skip_move.is_none() && !local_context.abort {
                    if !is_capture {
                        killer_push(local_context, ply as usize, make_move);
                        local_context.h_table.cutoff(stm, piece, make_move.to, &quiets, depth);
                        match prev_move {
                            Some(pm) => {
                                let prev_piece = match board_piece_on(position.board(), pm.to) {
                                    Some(p) => p,
                                    None => 5,
                                };
                                local_context.cm_table.cutoff(
                                    stm,
                                    prev_piece,
                                    pm.to,
                                    make_move,
                                    depth,
                                );
                                local_context.cm_hist.cutoff(
                                    stm,
                                    prev_piece,
                                    pm.to,
                                    piece,
                                    make_move.to,
                                    &quiets,
                                    depth,
                                );
                            },
                            None => {},
                        }
                    } else {
                        local_context.ch_table.cutoff(stm, piece, make_move.to, &captures, depth);
                    }
                    let analysis = Analysis::new(
                        depth,
                        EntryType::LowerBound,
                        score,
                        make_move,
                    );
                    shared_context.t_table.set(position.hash(), analysis);
                    proof {
                        lemma_store_matches(
                            analysis,
                            iir_target(
                                *old(shared_context),
                                entry_pos,
                                ply as int,
                                target_ply as int,
                            ) - ply,
                            EntryType::LowerBound,
                            score.val(),
                            make_move,
                        );
                    }
                }
                return (Some(make_move), score);
            }
            cur_alpha = score;
        }
        if is_capture {
            if captures.len() < 64 {
                captures.push((piece, make_move.to));
            }
        } else {
            if quiets.len() < 64 {
                quiets.push((piece, make_move.to));
            }
        }
    }
    if !move_exists {
        // no legal move outside the excluded one: mate or stalemate
        proof {
            if ply == 0 {
                if exists|m: MoveData| m.wf() && legal_of(entry_pos.board_spec(), m) {
                    let m = choose|m: MoveData|
                        m.wf() && legal_of(entry_pos.board_spec(), m);
                    assert(move_gen.emitted().contains(m));
                    assert(move_gen.emitted().len() >= 1) by {
                        broadcast use vstd::set::group_set_axioms;

                        move_gen.lemma_gen_facts();
                        assert(Set::<MoveData>::empty().insert(m).subset_of(move_gen.emitted()));
                        assert(Set::<MoveData>::empty().insert(m).len() == 1);
                        vstd::set_lib::lemma_len_subset(
                            Set::empty().insert(m),
                            move_gen.emitted(),
                        );
                    }
                    assert(false);
                }
            }
        }
        if board_checkers(position.board()) == 0 {
            return (None, Evaluation::new(0));
        } else {
            return (None, Evaluation::new_checkmate(-1));
        }
    }
    let highest_score = match highest {
        Some(h) => h,
        None => Evaluation::new(0),
    };
    if skip_move.is_none() && !local_context.abort {
        match best_move {
            Some(fm) => {
                let entry_type = if highest_score.raw() > initial_alpha.raw() {
                    EntryType::Exact
                } else {
                    EntryType::UpperBound
                };
                let analysis = Analysis::new(depth, entry_type, highest_score, fm);
                shared_context.t_table.set(position.hash(), analysis);
                proof {
                    lemma_store_matches(
                        analysis,
                        iir_target(
                            *old(shared_context),
                            entry_pos,
                            ply as int,
                            target_ply as int,
                        ) - ply,
                        entry_type,
                        highest_score.val(),
                        fm,
                    );
                }
            },
            None => {},
        }
    }
    (best_move, highest_score)
}

/// The quiescence search: negamax over captures only (with a stand-pat
/// bound when not in check), so the horizon evaluation is not fooled by a
/// hanging piece.
#[verifier::rlimit(100)]
#[verifier::spinoff_prover]
pub fn q_search(
    position: &mut Position,
    local_context: &mut LocalContext,
    shared_context: &mut SharedContext,
    ply: u32,
    target_ply: u32,
    alpha: Evaluation,
    beta: Evaluation,
) -> (r: Evaluation)
    requires
        old(position).wf(),
        old(position).len() >= ply,
        ply <= MAX_PLY,
        target_ply <= 10_000 + 2 * ply,
        old(local_context).wf_local(),
        old(shared_context).wf_shared(),
        alpha.wf(),
        beta.wf(),
        alpha.val() < beta.val(),
        -window_bound(ply as int) <= alpha.val(),
        beta.val() <= window_bound(ply as int),
    ensures
        final(position).wf(),
        final(position).view() == old(position).view(),
        final(position).board_spec() == old(position).board_spec(),
        final(position).len() == old(position).len(),
        final(local_context).wf_local(),
        final(shared_context).wf_shared(),
        shared_frame(*old(shared_context), *final(shared_context)),
        final(local_context).search_stack@ == old(local_context).search_stack@,
        r.wf(),
        -result_bound(ply as int) <= r.val() <= result_bound(ply as int),
        // at the horizon, the static evaluation is the answer and nothing
        // is searched or stored
        q_horizon(*old(position), ply as int, target_ply as int) ==> r.val() == static_eval_of(
            *old(position),
        ) && *final(shared_context) == *old(shared_context),
        // a stored entry good for this window ends the node with its score
        (!q_horizon(*old(position), ply as int, target_ply as int) && (tt_probe_of(
            *old(shared_context),
            *old(position),
        ) matches Some(e) && q_tt_cutoff(e, alpha.val(), beta.val()))) ==> (tt_probe_of(
            *old(shared_context),
            *old(position),
        ) matches Some(e2) && r == e2.score),
        // with no horizon, no table cutoff and the side to move not in
        // check, a stand-pat at or above beta is returned as is
        (!q_horizon(*old(position), ply as int, target_ply as int) && !(tt_probe_of(
            *old(shared_context),
            *old(position),
        ) matches Some(e3) && q_tt_cutoff(e3, alpha.val(), beta.val())) && checkers_of(
            old(position).board_spec(),
        ) == 0 && static_eval_of(*old(position)) >= beta.val()) ==> r.val() == static_eval_of(
            *old(position),
        ),
        // likewise, a stand-pat hopelessly below alpha (the delta margin)
        // prunes the node to the stand-pat score
        (!q_horizon(*old(position), ply as int, target_ply as int) && !(tt_probe_of(
            *old(shared_context),
            *old(position),
        ) matches Some(e4) && q_tt_cutoff(e4, alpha.val(), beta.val())) && checkers_of(
            old(position).board_spec(),
        ) == 0 && old(shared_context).params.do_dp_flag && static_eval_of(*old(position))
            + old(shared_context).params.delta_margin < alpha.val()) ==> r.val()
            == static_eval_of(*old(position)),
    decreases MAX_PLY - ply, 0int, 0int,
{
    local_context.increment_nodes();
    local_context.update_sel_depth(ply);
    if ply >= target_ply || ply >= MAX_PLY || position.len_at_cap() {
        return position.get_eval();
    }
    let initial_alpha = alpha;
    let mut cur_alpha = alpha;
    let tt_entry = shared_context.t_table.get(position.hash());
    match tt_entry {
        Some(entry) => {
            match entry.entry_type() {
                EntryType::LowerBound => {
                    if entry.score().raw() >= beta.raw() {
                        return entry.score();
                    }
                },
                EntryType::Exact => {
                    return entry.score();
                },
                EntryType::UpperBound => {
                    if entry.score().raw() <= cur_alpha.raw() {
                        return entry.score();
                    }
                },
            }
        },
        None => {},
    }
    let in_check = board_checkers(position.board()) != 0;
    let stand_pat = position.get_eval();
    let mut highest: Option<Evaluation> = None;
    let mut best_move: Option<MoveData> = None;
    if !in_check {
        if shared_context.params.do_dp() {
            let delta = shared_context.params.get_delta();
            if stand_pat.offset(delta).raw() < cur_alpha.raw() {
                return stand_pat;
            }
        }
        if stand_pat.raw() > cur_alpha.raw() {
            cur_alpha = stand_pat;
            highest = Some(stand_pat);
            if stand_pat.raw() >= beta.raw() {
                return stand_pat;
            }
        }
    }
    let stm = board_stm(position.board());
    let enemy = board_colors(position.board(), 1 - stm);
    let mut move_gen = QuiescenceSearchMoveGen::new(position.board());
    let mut done = false;
    let ghost entry_pos = *old(position);
    while !done
        invariant
            entry_pos == *old(position),
            position.wf(),
            position.view() == entry_pos.view(),
            position.board_spec() == entry_pos.board_spec(),
            position.len() == entry_pos.len(),
            ply <= entry_pos.len() < MAX_PLY,
            local_context.wf_local(),
            shared_context.wf_shared(),
            move_gen.wf_q(),
            move_gen.board_spec() == entry_pos.board_spec(),
            move_gen.budget() >= 0,
            shared_frame(*old(shared_context), *shared_context),
            local_context.search_stack@ == old(local_context).search_stack@,
            ply < MAX_PLY,
            target_ply <= 10_000 + 2 * ply,
            cur_alpha.wf(),
            beta.wf(),
            initial_alpha.wf(),
            initial_alpha == alpha,
            stand_pat.wf(),
            -8000 <= stand_pat.val() <= 8000,
            stand_pat.val() == static_eval_of(entry_pos),
            cur_alpha.val() < beta.val(),
            initial_alpha.val() <= cur_alpha.val(),
            -window_bound(ply as int) <= cur_alpha.val() <= result_bound(ply as int),
            -window_bound(ply as int) <= initial_alpha.val(),
            beta.val() <= window_bound(ply as int),
            ply < target_ply,
            in_check == (checkers_of(entry_pos.board_spec()) != 0),
            !(tt_probe_of(*old(shared_context), entry_pos) matches Some(e) && q_tt_cutoff(
                e,
                alpha.val(),
                beta.val(),
            )),
            !in_check ==> stand_pat.val() < beta.val(),
            (!in_check && old(shared_context).params.do_dp_flag) ==> stand_pat.val() + old(
                shared_context,
            ).params.delta_margin >= alpha.val(),
            highest matches Some(h) ==> h.wf() && -result_bound(ply as int) <= h.val()
                <= result_bound(ply as int),
            best_move matches Some(m) ==> m.wf(),
        decreases move_gen.budget() + (if done {
            0int
        } else {
            1int
        }),
    {
        let nxt = move_gen.next(&local_context.ch_table);
        let (make_move, sv): (MoveData, i32) = match nxt {
            None => {
                done = true;
                continue ;
            },
            Some(p) => p,
        };
        let is_capture = (enemy >> (make_move.to as u64)) & 1 == 1;
        if in_check || is_capture {
            // a static exchange far above beta settles the node at once
            if stand_pat.offset(sv - 200).raw() > beta.raw() {
                return beta;
            }
            let ghost pre_make = *position;
            position.make_move(make_move);
            let ghost post_make = *position;
            proof {
                assert(position.history().len() == pre_make.history().len() + 1);
                assert(position.len() == pre_make.len() + 1);
                post_make.lemma_pos_facts();
                pre_make.lemma_pos_facts();
                lemma_descend_antimonotone(cur_alpha.val(), beta.val());
            }
            let child = q_search(
                position,
                local_context,
                shared_context,
                ply + 1,
                target_ply,
                beta.descend(),
                cur_alpha.descend(),
            );
            let ghost mid = *position;
            position.unmake_move();
            proof {
                mid.lemma_pos_facts();
                assert(mid.nnue().accs().take(mid.nnue().head_spec() + 1)
                    == post_make.nnue().accs().take(post_make.nnue().head_spec() + 1));
                crate::position::lemma_take_sub(
                    mid.nnue().accs(),
                    post_make.nnue().accs(),
                    pre_make.nnue().head_spec() + 1,
                    mid.nnue().head_spec() + 1,
                );
                lemma_push_pop_view(
                    pre_make,
                    mid,
                    *position,
                    crate::board::after_of(pre_make.board_spec(), make_move),
                    crate::nnue::grid_after(pre_make.board_spec(), make_move),
                );
            }
            let score = child.ascend();
            let improved = match highest {
                Some(h) => score.raw() > h.raw(),
                None => true,
            };
            if improved {
                highest = Some(score);
                best_move = Some(make_move);
            }
            if score.raw() > cur_alpha.raw() {
                cur_alpha = score;
                if score.raw() >= beta.raw() {
                    let analysis = Analysis::new(0, EntryType::LowerBound, score, make_move);
                    shared_context.t_table.set(position.hash(), analysis);
                    return score;
                }
            }
        }
    }
    match (best_move, highest) {
        (Some(bm), Some(h)) => {
            let entry_type = if h.raw() > initial_alpha.raw() {
                EntryType::Exact
            } else {
                EntryType::UpperBound
            };
            let analysis = Analysis::new(0, entry_type, h, bm);
            shared_context.t_table.set(position.hash(), analysis);
            h
        },
        (_, Some(h)) => h,
        _ => cur_alpha,
    }
}

} // verus!
