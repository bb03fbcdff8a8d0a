//! The per-search state: the context shared by a search (transposition
//! table, reduction tables, coefficients, time control) and the local
//! context each searcher owns (heuristic tables, the search stack, killer
//! and threat stacks, counters), plus the iterative-deepening driver.

use vstd::prelude::*;

use crate::eval::Evaluation;
use crate::h_table::CounterMoveTable;
use crate::h_table::DoubleMoveHistory;
use crate::h_table::HistoryTable;
use crate::lookup::LookUp;
use crate::move_entry::MoveEntry;
use crate::moves::MoveData;
use crate::params::MAX_PLY;
use crate::params::SearchParams;
use crate::position::Position;
use crate::t_table::TranspositionTable;
use crate::time::duration_millis;
use crate::time::instant_elapsed;
use crate::time::ConstDepth;
use crate::time::ConstTime;
use crate::time::ManualAbort;
use crate::time::TimeManager;
use crate::window::Window;

verus! {

/// The time control of a search: one of the concrete strategies.
pub enum TimeControl {
    Depth(ConstDepth),
    FixedTime(ConstTime),
    Manual(ManualAbort),
}

impl TimeControl {
    pub fn abort(&self, elapsed_millis: u64, depth: u32, nodes: u64) -> bool {
        match self {
            TimeControl::Depth(t) => t.abort(elapsed_millis, depth, nodes),
            TimeControl::FixedTime(t) => t.abort(elapsed_millis, depth, nodes),
            TimeControl::Manual(t) => t.abort(elapsed_millis, depth, nodes),
        }
    }

    pub fn initiate(&self, time_left_millis: u64, board: &cozy_chess::Board) {
        match self {
            TimeControl::Depth(t) => t.initiate(time_left_millis, board),
            TimeControl::FixedTime(t) => t.initiate(time_left_millis, board),
            TimeControl::Manual(t) => t.initiate(time_left_millis, board),
        }
    }

    pub fn deepen(
        &self,
        thread: u8,
        depth: u32,
        nodes: u64,
        eval: Evaluation,
        best_move: MoveData,
        elapsed_millis: u64,
    ) {
        match self {
            TimeControl::Depth(t) => t.deepen(thread, depth, nodes, eval, best_move, elapsed_millis),
            TimeControl::FixedTime(t) => t.deepen(
                thread,
                depth,
                nodes,
                eval,
                best_move,
                elapsed_millis,
            ),
            TimeControl::Manual(t) => t.deepen(
                thread,
                depth,
                nodes,
                eval,
                best_move,
                elapsed_millis,
            ),
        }
    }

    pub fn clear(&self) {
        match self {
            TimeControl::Depth(t) => t.clear(),
            TimeControl::FixedTime(t) => t.clear(),
            TimeControl::Manual(t) => t.clear(),
        }
    }
}

/// What every searcher shares: the transposition table, the reduction and
/// pruning tables, the coefficients and the time control.
pub struct SharedContext {
    pub start: std::time::Instant,
    pub time: TimeControl,
    pub t_table: TranspositionTable,
    pub lmr_lookup: LookUp<u32>,
    pub lmp_lookup: LookUp<usize>,
    pub params: SearchParams,
}

impl SharedContext {
    pub open spec fn wf_shared(&self) -> bool {
        &&& self.t_table.wf()
        &&& self.lmr_lookup.wf()
        &&& self.lmp_lookup.wf()
        &&& self.params.wf()
    }

    /// Polls the time control.
    pub fn abort_absolute(&self, depth: u32, nodes: u64) -> bool {
        let d = instant_elapsed(&self.start);
        self.time.abort(duration_millis(&d), depth, nodes)
    }

    /// The per-node abort poll.
    pub fn abort_search(&self, nodes: u64) -> bool {
        let d = instant_elapsed(&self.start);
        self.time.abort(duration_millis(&d), 0, nodes)
    }

    pub fn get_t_table(&self) -> (r: &TranspositionTable)
        ensures
            *r == self.t_table,
    {
        &self.t_table
    }

    pub fn get_lmr_lookup(&self) -> (r: &LookUp<u32>)
        ensures
            *r == self.lmr_lookup,
    {
        &self.lmr_lookup
    }

    pub fn get_lmp_lookup(&self) -> (r: &LookUp<usize>)
        ensures
            *r == self.lmp_lookup,
    {
        &self.lmp_lookup
    }
}

/// One entry of the search stack: the static evaluation at that ply, the
/// move played from it, and the move a verification search excludes.
#[derive(Debug, Clone, Copy)]
pub struct State {
    pub eval: Evaluation,
    pub move_played: Option<MoveData>,
    pub skip_move: Option<MoveData>,
}

impl State {
    pub open spec fn wf(&self) -> bool {
        &&& self.eval.wf()
        &&& (self.move_played matches Some(m) ==> m.wf())
        &&& (self.skip_move matches Some(m) ==> m.wf())
    }
}

/// What one searcher owns: its aspiration window, heuristic tables, the
/// search stack and the killer and threat stacks.
pub struct LocalContext {
    pub window: Window,
    pub tt_hits: u64,
    pub tt_misses: u64,
    pub eval: Evaluation,
    pub search_stack: Vec<State>,
    pub sel_depth: u32,
    pub h_table: HistoryTable,
    pub ch_table: HistoryTable,
    pub cm_table: CounterMoveTable,
    pub cm_hist: DoubleMoveHistory,
    pub k_table: Vec<MoveEntry>,
    pub threat_table: Vec<MoveEntry>,
    pub nodes: u64,
    pub abort: bool,
}

impl LocalContext {
    pub open spec fn wf_local(&self) -> bool {
        &&& self.window.wf()
        &&& self.eval.wf()
        &&& self.h_table.wf()
        &&& self.ch_table.wf()
        &&& self.cm_table.wf()
        &&& self.cm_hist.wf()
        &&& self.search_stack@.len() == MAX_PLY + 2
        &&& forall|i: int|
            0 <= i < self.search_stack@.len() ==> (#[trigger] self.search_stack@[i]).wf()
        &&& self.k_table@.len() == MAX_PLY + 3
        &&& forall|i: int| 0 <= i < self.k_table@.len() ==> (#[trigger] self.k_table@[i]).wf()
        &&& self.threat_table@.len() == MAX_PLY + 3
        &&& forall|i: int|
            0 <= i < self.threat_table@.len() ==> (#[trigger] self.threat_table@[i]).wf()
    }

    pub fn new(window: Window) -> (r: Self)
        requires
            window.wf(),
        ensures
            r.wf_local(),
            !r.abort,
    {
        let mut search_stack: Vec<State> = Vec::new();
        let blank = State { eval: Evaluation::new(0), move_played: None, skip_move: None };
        let mut i: usize = 0;
        while i < MAX_PLY as usize + 2
            invariant
                i == search_stack@.len(),
                i <= MAX_PLY + 2,
                blank.wf(),
                forall|j: int| 0 <= j < i ==> (#[trigger] search_stack@[j]).wf(),
            decreases MAX_PLY + 2 - i,
        {
            search_stack.push(blank);
            i += 1;
        }
        let mut k_table: Vec<MoveEntry> = Vec::new();
        let mut threat_table: Vec<MoveEntry> = Vec::new();
        let mut j: usize = 0;
        while j < MAX_PLY as usize + 3
            invariant
                j == k_table@.len(),
                j == threat_table@.len(),
                j <= MAX_PLY + 3,
                forall|k: int| 0 <= k < j ==> (#[trigger] k_table@[k]).wf(),
                forall|k: int| 0 <= k < j ==> (#[trigger] threat_table@[k]).wf(),
            decreases MAX_PLY + 3 - j,
        {
            k_table.push(MoveEntry::new());
            threat_table.push(MoveEntry::new());
            j += 1;
        }
        LocalContext {
            window,
            tt_hits: 0,
            tt_misses: 0,
            eval: Evaluation::new(0),
            search_stack,
            sel_depth: 0,
            h_table: HistoryTable::new(),
            ch_table: HistoryTable::new(),
            cm_table: CounterMoveTable::new(),
            cm_hist: DoubleMoveHistory::new(),
            k_table,
            threat_table,
            nodes: 0,
            abort: false,
        }
    }

    pub fn get_h_table(&self) -> (r: &HistoryTable)
        ensures
            *r == self.h_table,
    {
        &self.h_table
    }

    pub fn get_ch_table(&self) -> (r: &HistoryTable)
        ensures
            *r == self.ch_table,
    {
        &self.ch_table
    }

    pub fn get_cm_table(&self) -> (r: &CounterMoveTable)
        ensures
            *r == self.cm_table,
    {
        &self.cm_table
    }

    pub fn get_cm_hist(&self) -> (r: &DoubleMoveHistory)
        ensures
            *r == self.cm_hist,
    {
        &self.cm_hist
    }

    /// Raises the deepest ply seen.
    pub fn update_sel_depth(&mut self, ply: u32)
        requires
            old(self).wf_local(),
        ensures
            final(self).wf_local(),
            *final(self) == (LocalContext { sel_depth: final(self).sel_depth, ..*old(self) }),
    {
        if ply > self.sel_depth {
            self.sel_depth = ply;
        }
    }

    /// Counts one node, saturating.
    pub fn increment_nodes(&mut self)
        requires
            old(self).wf_local(),
        ensures
            final(self).wf_local(),
            *final(self) == (LocalContext { nodes: final(self).nodes, ..*old(self) }),
    {
        if self.nodes < u64::MAX {
            self.nodes = self.nodes + 1;
        }
    }

    /// Marks this searcher as aborted.
    pub fn trigger_abort(&mut self)
        requires
            old(self).wf_local(),
        ensures
            final(self).wf_local(),
            final(self).abort,
            *final(self) == (LocalContext { abort: true, ..*old(self) }),
    {
        self.abort = true;
    }

    pub fn abort(&self) -> (r: bool)
        ensures
            r == self.abort,
    {
        self.abort
    }
}

/// Integer base-two logarithm, capped at 63, for the reduction tables.
pub open spec fn log2_spec(x: int) -> int
    decreases x,
{
    if x <= 1 {
        0
    } else {
        let t = 1 + log2_spec(x / 2);
        if t > 63 {
            63
        } else {
            t
        }
    }
}

fn ilog2(x: usize) -> (r: u32)
    ensures
        r == log2_spec(x as int),
        r <= 63,
    decreases x,
{
    if x <= 1 {
        0
    } else {
        let t = 1 + ilog2(x / 2);
        if t > 63 {
            63
        } else {
            t
        }
    }
}

/// One entry of the late-move-reduction table.
pub open spec fn lmr_entry_spec(d: int, m: int) -> int {
    if d == 0 || m == 0 {
        0
    } else {
        log2_spec(d) * log2_spec(m) / 2
    }
}

/// One row of the late-move-pruning table: the quiet-move bound, halved
/// when the evaluation is not improving.
pub open spec fn lmp_entry_spec(d: int, improving: int) -> int {
    let x = 40 + 2 * d * d;
    if improving == 1 {
        x
    } else {
        x / 2
    }
}

/// The standard late-move-reduction table: grows with the logarithms of
/// the depth and of the move number.
pub fn default_lmr_table() -> (r: Vec<Vec<u32>>)
    ensures
        r@.len() == 32,
        r@[0].len() == 64,
        forall|i: int| 0 <= i < r@.len() ==> (#[trigger] r@[i])@.len() == 64,
        forall|i: int, j: int|
            0 <= i < 32 && 0 <= j < 64 ==> (#[trigger] r@[i]@[j]) == lmr_entry_spec(i, j),
{
    let mut rows: Vec<Vec<u32>> = Vec::new();
    let mut d: usize = 0;
    while d < 32
        invariant
            d == rows@.len(),
            d <= 32,
            forall|i: int| 0 <= i < d ==> (#[trigger] rows@[i])@.len() == 64,
            forall|i: int, j: int|
                0 <= i < d && 0 <= j < 64 ==> (#[trigger] rows@[i]@[j]) == lmr_entry_spec(i, j),
        decreases 32 - d,
    {
        let mut row: Vec<u32> = Vec::new();
        let mut m: usize = 0;
        while m < 64
            invariant
                m == row@.len(),
                m <= 64,
                d <= 31,
                forall|j: int| 0 <= j < m ==> (#[trigger] row@[j]) == lmr_entry_spec(d as int, j),
            decreases 64 - m,
        {
            let v: u32 = if d == 0 || m == 0 {
                0
            } else {
                let a = ilog2(d);
                let b = ilog2(m);
                proof {
                    assert(a * b <= 63 * 63) by (nonlinear_arith)
                        requires
                            a <= 63 && b <= 63,
                    ;
                }
                a * b / 2
            };
            row.push(v);
            m += 1;
        }
        rows.push(row);
        d += 1;
    }
    rows
}

/// The standard late-move-pruning table: a quadratic move-count bound,
/// halved when the evaluation is not improving.
pub fn default_lmp_table() -> (r: Vec<Vec<usize>>)
    ensures
        r@.len() == 32,
        r@[0].len() == 2,
        forall|i: int| 0 <= i < r@.len() ==> (#[trigger] r@[i])@.len() == 2,
        forall|i: int, j: int|
            0 <= i < 32 && 0 <= j < 2 ==> (#[trigger] r@[i]@[j]) == lmp_entry_spec(i, j),
{
    let mut rows: Vec<Vec<usize>> = Vec::new();
    let mut d: usize = 0;
    while d < 32
        invariant
            d == rows@.len(),
            d <= 32,
            forall|i: int| 0 <= i < d ==> (#[trigger] rows@[i])@.len() == 2,
            forall|i: int, j: int|
                0 <= i < d && 0 <= j < 2 ==> (#[trigger] rows@[i]@[j]) == lmp_entry_spec(i, j),
        decreases 32 - d,
    {
        proof {
            assert(d * d <= 31 * 31) by (nonlinear_arith)
                requires
                    0 <= d <= 31,
            ;
        }
        let x: usize = 40 + 2 * (d * d);
        let mut row: Vec<usize> = Vec::new();
        row.push(x / 2);
        row.push(x);
        rows.push(row);
        proof {
            let di = d as int;
            assert(2 * (di * di) == 2 * di * di) by (nonlinear_arith);
            assert(rows@[di]@[0] == lmp_entry_spec(di, 0));
            assert(rows@[di]@[1] == lmp_entry_spec(di, 1));
        }
        d += 1;
    }
    rows
}

/// Clears the excluded move of the root stack entry before a root search.
fn clear_root_skip(local: &mut LocalContext)
    requires
        old(local).wf_local(),
    ensures
        final(local).wf_local(),
        final(local).search_stack@[0].skip_move is None,
{
    let st0 = local.search_stack[0];
    let fresh = State { eval: st0.eval, move_played: st0.move_played, skip_move: None };
    local.search_stack.set(0, fresh);
}

/// One search worker's full state: the shared structures, the local
/// heuristics and the position. The verified driver runs one worker; an
/// embedder may run several, each with its own runner, sharing only the
/// time control's stop flag.
pub struct AbRunner {
    pub shared_context: SharedContext,
    pub local_context: LocalContext,
    pub position: Position,
    /// One record per completed iteration of the last search: the depth,
    /// its score and the node count - the progress feed of the embedder's
    /// information line.
    pub progress: Vec<(u32, Evaluation, u64)>,
}

impl AbRunner {
    pub open spec fn wf_runner(&self) -> bool {
        &&& self.shared_context.wf_shared()
        &&& self.local_context.wf_local()
        &&& self.position.wf()
    }

    /// Builds a runner on a starting board with the given evaluator
    /// weights and time control.
    pub fn new(
        board: cozy_chess::Board,
        weights: crate::nnue::NnueWeights,
        time: TimeControl,
    ) -> (r: Self)
        requires
            weights.wf(),
        ensures
            r.wf_runner(),
            r.position.board_spec() == board,
    {
        let lmr_rows = default_lmr_table();
        let lmp_rows = default_lmp_table();
        let shared_context = SharedContext {
            start: crate::time::instant_now(),
            time,
            t_table: TranspositionTable::new(65536),
            lmr_lookup: LookUp::new(lmr_rows),
            lmp_lookup: LookUp::new(lmp_rows),
            params: SearchParams::new(),
        };
        let local_context = LocalContext::new(
            Window::new(25, 3, 2, 5),
        );
        let position = Position::new(board, weights);
        AbRunner { shared_context, local_context, position, progress: Vec::new() }
    }

    /// Whether the current position has any legal move.
    pub fn has_legal_move(&self) -> (r: bool)
        ensures
            r == exists|m: MoveData|
                m.wf() && crate::board::legal_of(self.position.board_spec(), m),
    {
        let moves = crate::board::board_legal_moves(self.position.board());
        if moves.len() > 0 {
            proof {
                assert(moves@[0].wf() && crate::board::legal_of(
                    self.position.board_spec(),
                    moves@[0],
                ));
            }
            true
        } else {
            proof {
                assert forall|m: MoveData|
                    m.wf() && crate::board::legal_of(self.position.board_spec(), m) implies false by {
                    assert(moves@.contains(m));
                }
            }
            false
        }
    }

    /// Iterative deepening with aspiration windows: searches at increasing
    /// depth until the time control calls a stop, re-searching with a
    /// widened window after each aspiration failure and falling back to
    /// the full window - which cannot fail - after `fail_cnt` failures.
    /// When an iteration past the first is cut short by the time control,
    /// its partial result is discarded: the last fully-completed
    /// iteration's move, score and window survive. Returns the best move
    /// (always legal in the current position), its score, the depth
    /// reached and the nodes counted. The verified driver is one worker;
    /// an embedder runs further workers as whole runners of their own and
    /// ignores their answers, so `threads` is advisory here.
    pub fn search(&mut self, threads: u8) -> (r: (MoveData, Evaluation, u32, u64))
        requires
            old(self).wf_runner(),
            old(self).position.len() < MAX_PLY,
            exists|m: MoveData|
                m.wf() && crate::board::legal_of(old(self).position.board_spec(), m),
        ensures
            final(self).wf_runner(),
            final(self).position.board_spec() == old(self).position.board_spec(),
            crate::board::legal_of(old(self).position.board_spec(), r.0),
            r.0.wf(),
            r.1.wf(),
            -crate::search::result_bound(0) <= r.1.val() <= crate::search::result_bound(0),
            // the answer is the last completed iteration's: its score
            // heads the progress record
            final(self).progress@.len() >= 1,
            final(self).progress@.last().1 == r.1,
    {
        let _unused = threads;
        self.local_context.abort = false;
        self.progress = Vec::new();
        let mut depth: u32 = 1;
        let mut best: Option<(MoveData, Evaluation)> = None;
        let mut nodes: u64 = 0;
        let mut stop = false;
        let fail_limit = self.shared_context.params.get_fail_cnt() as u32;
        let ghost root_board = self.position.board_spec();
        while !stop && depth <= MAX_PLY
            invariant
                self.wf_runner(),
                self.position.board_spec() == root_board,
                self.position.view() == old(self).position.view(),
                root_board == old(self).position.board_spec(),
                exists|m: MoveData| m.wf() && crate::board::legal_of(root_board, m),
                self.position.len() < MAX_PLY,
                1 <= depth,
                depth == 1 ==> !stop,
                fail_limit <= 255,
                depth > 1 ==> (best matches Some(b) && b.0.wf() && crate::board::legal_of(
                    root_board,
                    b.0,
                ) && b.1.wf()),
                best matches Some(b) ==> b.0.wf() && crate::board::legal_of(root_board, b.0)
                    && b.1.wf() && -crate::search::result_bound(0) <= b.1.val()
                    <= crate::search::result_bound(0) && self.progress@.len() >= 1
                    && self.progress@.last().1 == b.1,
            decreases MAX_PLY + 1 - depth + (if stop {
                0int
            } else {
                1int
            }),
        {
            let mut fail_cnt: u32 = 0;
            self.local_context.window.reset();
            let mut iteration_done = false;
            while !iteration_done
                invariant
                    self.wf_runner(),
                    self.position.board_spec() == root_board,
                    self.position.view() == old(self).position.view(),
                    exists|m: MoveData| m.wf() && crate::board::legal_of(root_board, m),
                    self.position.len() < MAX_PLY,
                    1 <= depth <= MAX_PLY,
                    fail_limit <= 255,
                    fail_cnt <= fail_limit + 1,
                    depth > 1 ==> (best matches Some(b) && b.0.wf() && crate::board::legal_of(
                        root_board,
                        b.0,
                    ) && b.1.wf()),
                    iteration_done ==> (best matches Some(b) && b.0.wf() && crate::board::legal_of(
                        root_board,
                        b.0,
                    ) && b.1.wf()),
                    best matches Some(b) ==> b.0.wf() && crate::board::legal_of(root_board, b.0)
                        && b.1.wf() && -crate::search::result_bound(0) <= b.1.val()
                        <= crate::search::result_bound(0) && self.progress@.len() >= 1
                        && self.progress@.last().1 == b.1,
                decreases fail_limit + 1 - fail_cnt + (if iteration_done {
                    0int
                } else {
                    1int
                }),
            {
                let use_narrow = match best {
                    Some(b) => b.1.raw() < 1000 && b.1.raw() > -1000 && depth > 4 && fail_cnt
                        < fail_limit,
                    None => false,
                };
                let (alpha, beta) = if use_narrow {
                    self.local_context.window.get()
                } else {
                    (Evaluation::min(), Evaluation::max())
                };
                clear_root_skip(&mut self.local_context);
                let (mv, score) = crate::search::search::<crate::search::Pv>(
                    &mut self.position,
                    &mut self.local_context,
                    &mut self.shared_context,
                    0,
                    depth,
                    alpha,
                    beta,
                );
                nodes = self.local_context.nodes;
                if depth > 1 && self.local_context.abort {
                    // the iteration was cut short: its result is partial
                    // and is discarded; the window, the stored eval and
                    // `best` keep the last completed iteration's values
                    stop = true;
                    iteration_done = true;
                } else if (score.raw() > alpha.raw() && score.raw() < beta.raw())
                    || score.is_mate() {
                    self.local_context.window.set(score);
                    self.local_context.eval = score;
                    match mv {
                        Some(m) => {
                            best = Some((m, score));
                            self.progress.push((depth, score, nodes));
                        },
                        None => {},
                    }
                    proof {
                        assert(mv is Some);
                    }
                    iteration_done = true;
                } else {
                    self.local_context.window.set(score);
                    self.local_context.eval = score;
                    fail_cnt = fail_cnt + 1;
                    if score.raw() <= alpha.raw() {
                        self.local_context.window.fail_low();
                    } else {
                        self.local_context.window.fail_high();
                    }
                    proof {
                        // the full window cannot fail: a score at or past
                        // either full bound is in the mate range and ends
                        // the iteration above
                        if !use_narrow {
                            assert(score.val() <= alpha.val() || score.val() >= beta.val());
                            assert(Evaluation::is_mate_spec(score.val()));
                            assert(false);
                        }
                    }
                }
            }
            match best {
                Some(b) => {
                    self.shared_context.time.deepen(
                        0,
                        depth,
                        nodes,
                        b.1,
                        b.0,
                        self.elapsed_millis(),
                    );
                },
                None => {},
            }
            if depth > 1 && self.shared_context.abort_absolute(depth, nodes) {
                stop = true;
            }
            if depth == MAX_PLY {
                stop = true;
            }
            depth = depth + 1;
        }
        match best {
            Some(b) => (b.0, b.1, depth, nodes),
            None => {
                proof {
                    assert(false);
                }
                (MoveData::new(0, 0, 6), Evaluation::new(0), depth, nodes)
            },
        }
    }

    fn elapsed_millis(&self) -> u64 {
        let d = instant_elapsed(&self.shared_context.start);
        duration_millis(&d)
    }

    /// Rebuilds the transposition table with `hash_mb * 65536` slots
    /// (rounded up to a power of two), all empty.
    pub fn hash(&mut self, hash_mb: usize)
        requires
            old(self).wf_runner(),
            1 <= hash_mb <= 4096,
        ensures
            final(self).wf_runner(),
            final(self).position == old(self).position,
            final(self).shared_context.t_table.slots() >= hash_mb * 65536,
            crate::t_table::is_pow2(final(self).shared_context.t_table.slots()),
            forall|i: int|
                0 <= i < final(self).shared_context.t_table.slots()
                    ==> #[trigger] final(self).shared_context.t_table.slot(i) is None,
    {
        let entries = hash_mb * 65536;
        self.shared_context.t_table = TranspositionTable::new(entries);
    }

    /// The network's evaluation of the current position.
    pub fn raw_eval(&mut self) -> (r: Evaluation)
        requires
            old(self).wf_runner(),
        ensures
            *final(self) == *old(self),
            r.wf(),
            r.val() == crate::nnue::ff_spec(
                old(self).position.nnue().weights_spec(),
                old(self).position.nnue().acc_at(old(self).position.len()),
                crate::board::stm_of(old(self).position.board_spec()),
                0,
            ),
    {
        self.position.get_eval()
    }

    /// Clears the transposition table between games.
    pub fn new_game(&mut self)
        requires
            old(self).wf_runner(),
        ensures
            final(self).wf_runner(),
            final(self).position == old(self).position,
            final(self).shared_context.t_table.slots()
                == old(self).shared_context.t_table.slots(),
            forall|i: int|
                0 <= i < final(self).shared_context.t_table.slots()
                    ==> #[trigger] final(self).shared_context.t_table.slot(i) is None,
    {
        self.shared_context.t_table.clean();
    }

    /// Resets the game to a new starting board: the move stack and the
    /// evaluator restart from it.
    pub fn set_board(&mut self, board: cozy_chess::Board)
        requires
            old(self).wf_runner(),
        ensures
            final(self).wf_runner(),
            final(self).position.board_spec() == board,
            final(self).position.len() == 0,
    {
        self.position.set_board(board);
    }

    /// Plays a move on the current position, if it is legal; answers
    /// whether it was.
    pub fn make_move(&mut self, make_move: MoveData) -> (r: bool)
        requires
            old(self).wf_runner(),
            old(self).position.len() < MAX_PLY,
            make_move.wf(),
        ensures
            final(self).wf_runner(),
            r == crate::board::legal_of(old(self).position.board_spec(), make_move),
    {
        if crate::board::board_is_legal(self.position.board(), make_move) {
            self.position.make_move(make_move);
            true
        } else {
            false
        }
    }

    pub fn get_position(&self) -> (r: &Position)
        ensures
            *r == self.position,
    {
        &self.position
    }

    pub fn get_board(&self) -> (r: &cozy_chess::Board)
        ensures
            *r == self.position.board_spec(),
    {
        self.position.board()
    }
}

} // verus!
