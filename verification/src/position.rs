//! The search's view of the game: the current board, the stack of prior
//! boards for unmake and repetition detection, and the incremental
//! evaluator, kept in lockstep. Unmaking a move provably restores the
//! position to exactly what it was.

use vstd::prelude::*;

use crate::board::board_checkers;
use crate::board::board_clone;
use crate::board::board_color_on;
use crate::board::board_halfmove;
use crate::board::board_hash;
use crate::board::board_null_move;
use crate::board::board_occupied;
use crate::board::board_piece_on;
use crate::board::board_pieces;
use crate::board::board_play;
use crate::board::board_stm;
use crate::board::checkers_of;
use crate::board::color_on_of;
use crate::board::halfmove_of;
use crate::board::hash_of;
use crate::board::legal_of;
use crate::board::occupied_of;
use crate::board::piece_on_of;
use crate::board::pieces_of;
use crate::board::stm_of;
use crate::board::after_of;
use crate::board::after_null_of;
use crate::eval::Evaluation;
use crate::moves::MoveData;
use crate::nnue::Accumulator;
use crate::nnue::Grid;
use crate::nnue::NnueWeights;
use crate::nnue::ff_spec;
use crate::nnue::grid_after;
use crate::nnue::grid_of;
use crate::nnue::move_eval_spec;
use crate::nnue::Nnue;
use crate::params::MAX_PLY;

verus! {

/// Count of set bits among the low `n` bits.
pub open spec fn pop_spec(x: u64, n: int) -> int
    decreases n,
{
    if n <= 0 {
        0
    } else {
        pop_spec(x, n - 1) + ((x >> ((n - 1) as u64)) & 1)
    }
}

/// Counts the set bits of a word.
pub fn popcount(x: u64) -> (r: u32)
    ensures
        r == pop_spec(x, 64),
        r <= 64,
{
    let mut cnt: u32 = 0;
    let mut i: u32 = 0;
    while i < 64
        invariant
            i <= 64,
            cnt == pop_spec(x, i as int),
            cnt <= i,
        decreases 64 - i,
    {
        let sh = i as u64;
        proof {
            assert((x >> sh) & 1 <= 1) by (bit_vector);
        }
        cnt = cnt + ((x >> sh) & 1) as u32;
        i += 1;
    }
    cnt
}

/// Two bare kings, or two kings and one minor piece.
pub open spec fn insufficient_spec(b: cozy_chess::Board) -> bool {
    ||| pop_spec(occupied_of(b), 64) == 2
    ||| (pop_spec(occupied_of(b), 64) == 3 && (pieces_of(b, 3) | pieces_of(b, 4) | pieces_of(b, 0))
        == 0)
}

/// How many entries of a hash sequence equal `h`.
pub open spec fn count_hash(hs: Seq<u64>, h: u64) -> int
    decreases hs.len(),
{
    if hs.len() == 0 {
        0
    } else {
        count_hash(hs.drop_last(), h) + if hs.last() == h {
            1int
        } else {
            0int
        }
    }
}

/// The repetition rule over the stack of prior hashes: the current hash
/// appears among the last `ply` predecessors (excluding the immediate
/// one), or at least twice before that window.
pub open spec fn repetition_spec(hs: Seq<u64>, h: u64, ply: int) -> bool {
    let n = hs.len() as int;
    let lo = if n - 1 - ply >= 0 {
        n - 1 - ply
    } else {
        0
    };
    ||| exists|i: int| lo <= i <= n - 2 && #[trigger] hs[i] == h
    ||| count_hash(hs.take(lo), h) >= 2
}

/// A draw by the rules the search checks without moving: insufficient
/// material, the fifty-move rule, or repetition.
pub open spec fn forced_draw_spec(b: cozy_chess::Board, hs: Seq<u64>, ply: int) -> bool {
    ||| insufficient_spec(b)
    ||| halfmove_of(b) >= 100
    ||| repetition_spec(hs, hash_of(b), ply)
}

pub struct Position {
    current: cozy_chess::Board,
    boards: Vec<cozy_chess::Board>,
    evaluator: Nnue,
}

impl Position {
    /// The current board.
    pub closed spec fn board_spec(&self) -> cozy_chess::Board {
        self.current
    }

    /// The prior boards, oldest first.
    pub closed spec fn stack(&self) -> Seq<cozy_chess::Board> {
        self.boards@
    }

    /// Every board of the line, the current one last.
    pub open spec fn history(&self) -> Seq<cozy_chess::Board> {
        self.stack().push(self.board_spec())
    }

    pub closed spec fn nnue(&self) -> Nnue {
        self.evaluator
    }

    /// The hashes of the prior boards.
    pub open spec fn stack_hashes(&self) -> Seq<u64> {
        self.stack().map_values(|bb: cozy_chess::Board| hash_of(bb))
    }

    /// The position's logical state: its line of boards and the
    /// evaluator's state.
    pub open spec fn view(&self) -> (
        Seq<cozy_chess::Board>,
        (NnueWeights, int, Seq<Grid>, Seq<Accumulator>),
    ) {
        (self.history(), self.nnue().view())
    }

    /// The invariant: the evaluator sits at one accumulator per board of
    /// the line, and each tracked placement is its board's placement.
    pub closed spec fn wf(&self) -> bool {
        &&& self.evaluator.wf()
        &&& self.evaluator.head_spec() == self.boards@.len()
        &&& forall|p: int|
            0 <= p <= self.boards@.len() ==> self.evaluator.grid_at(p) == grid_of(
                #[trigger] self.history()[p],
            )
    }

    /// Plies played since the root.
    pub open spec fn len(&self) -> int {
        self.stack().len() as int
    }

    pub fn new(board: cozy_chess::Board, weights: NnueWeights) -> (r: Self)
        requires
            weights.wf(),
        ensures
            r.wf(),
            r.board_spec() == board,
            r.len() == 0,
    {
        let mut evaluator = Nnue::new(weights);
        evaluator.reset(&board);
        Position { current: board, boards: Vec::new(), evaluator }
    }

    /// Replaces the game with a new starting board.
    pub fn set_board(&mut self, board: cozy_chess::Board)
        requires
            old(self).wf(),
        ensures
            final(self).wf(),
            final(self).board_spec() == board,
            final(self).len() == 0,
    {
        self.current = board;
        self.boards = Vec::new();
        self.evaluator.reset(&self.current);
        proof {
            assert(self.history()[0] == self.current);
        }
    }

    /// Rebuilds the evaluator from the current board.
    pub fn reset(&mut self)
        requires
            old(self).wf(),
            old(self).len() == 0,
        ensures
            final(self).wf(),
            final(self).board_spec() == old(self).board_spec(),
            final(self).len() == 0,
    {
        self.evaluator.reset(&self.current);
    }

    /// Whether the ply stack has reached the preallocated limit.
    pub fn len_at_cap(&self) -> (r: bool)
        requires
            self.wf(),
        ensures
            r == (self.len() >= MAX_PLY),
    {
        proof {
            self.lemma_pos_facts();
        }
        self.boards.len() >= MAX_PLY as usize
    }

    pub fn board(&self) -> (r: &cozy_chess::Board)
        ensures
            *r == self.board_spec(),
    {
        &self.current
    }

    pub fn hash(&self) -> (r: u64)
        ensures
            r == hash_of(self.board_spec()),
    {
        board_hash(&self.current)
    }

    pub fn half_ply(&self) -> (r: u8)
        ensures
            r == halfmove_of(self.board_spec()),
            r <= 100,
    {
        board_halfmove(&self.current)
    }

    /// Whether the rules force a draw here, looking `ply` plies back for
    /// a repetition inside the search and twice as far before it.
    pub fn forced_draw(&self, ply: u32) -> (r: bool)
        ensures
            r == forced_draw_spec(self.board_spec(), self.stack_hashes(), ply as int),
    {
        if self.insufficient_material() || self.half_ply() >= 100 {
            return true;
        }
        let h = self.hash();
        let n = self.boards.len();
        let lo: usize = if n >= 1 && n - 1 >= ply as usize {
            n - 1 - ply as usize
        } else {
            0
        };
        let top: usize = if n >= 1 {
            n - 1
        } else {
            0
        };
        let ghost hs = self.stack_hashes();
        proof {
            let splo = if n as int - 1 - ply >= 0 {
                n as int - 1 - ply
            } else {
                0
            };
            assert(lo as int == splo);
        }
        let mut i: usize = lo;
        while i < top
            invariant
                hs == self.stack_hashes(),
                hs.len() == n,
                n >= 1 ==> top == n - 1,
                n == 0 ==> top == 0,
                lo <= i <= top || i == lo,
                h == hash_of(self.board_spec()),
                lo as int == (if n as int - 1 - ply as int >= 0 {
                    n as int - 1 - ply as int
                } else {
                    0
                }),
                forall|j: int| lo <= j < i ==> #[trigger] hs[j] != h,
            decreases top - i,
        {
            if board_hash(&self.boards[i]) == h {
                assert(hs[i as int] == h);
                return true;
            }
            i += 1;
        }
        let mut cnt: usize = 0;
        let mut k: usize = 0;
        while k < lo
            invariant
                hs == self.stack_hashes(),
                hs.len() == n,
                lo <= n,
                k <= lo,
                h == hash_of(self.board_spec()),
                lo as int == (if n as int - 1 - ply as int >= 0 {
                    n as int - 1 - ply as int
                } else {
                    0
                }),
                forall|j: int| lo <= j <= n - 2 ==> #[trigger] hs[j] != h,
                cnt == count_hash(hs.take(k as int), h),
                cnt <= k,
            decreases lo - k,
        {
            assert(hs.take(k as int + 1).drop_last() =~= hs.take(k as int));
            if board_hash(&self.boards[k]) == h {
                cnt += 1;
            }
            k += 1;
        }
        cnt >= 2
    }

    /// Tries to pass the turn; succeeds exactly when not in check.
    pub fn null_move(&mut self) -> (r: bool)
        requires
            old(self).wf(),
            old(self).len() < MAX_PLY,
        ensures
            final(self).wf(),
            r == (checkers_of(old(self).board_spec()) == 0),
            r ==> final(self).history() == old(self).history().push(
                after_null_of(old(self).board_spec()),
            ) && final(self).board_spec() == after_null_of(old(self).board_spec()),
            r ==> final(self).nnue().weights_spec() == old(self).nnue().weights_spec(),
            r ==> final(self).nnue().head_spec() == old(self).nnue().head_spec() + 1,
            r ==> final(self).nnue().grids_seq() == old(self).nnue().grids_seq().push(
                old(self).nnue().grid_at(old(self).nnue().head_spec()),
            ),
            r ==> final(self).nnue().accs().take(old(self).nnue().head_spec() + 1) == old(
                self,
            ).nnue().accs().take(old(self).nnue().head_spec() + 1),
            !r ==> *final(self) == *old(self),
    {
        match board_null_move(&self.current) {
            Some(nb) => {
                proof {
                    self.evaluator.lemma_wf_facts();
                    let len = self.boards@.len() as int;
                    assert(self.history()[len] == self.current);
                    assert(self.evaluator.grid_at(len) == grid_of(self.history()[len]));
                }
                self.evaluator.null_move();
                let prev = board_clone(&self.current);
                self.boards.push(prev);
                self.current = nb;
                proof {
                    assert(final(self).history() =~= old(self).history().push(
                        after_null_of(old(self).board_spec()),
                    ));
                    let oldlen = old(self).boards@.len() as int;
                    let ghost pushed = old(self).evaluator.grids_seq().push(
                        old(self).evaluator.grid_at(oldlen),
                    );
                    assert(self.evaluator.grids_seq() == pushed);
                    assert forall|p: int| 0 <= p <= self.boards@.len() implies self.evaluator.grid_at(
                        p,
                    ) == grid_of(#[trigger] self.history()[p]) by {
                        if p <= oldlen {
                            assert(self.history()[p] == old(self).history()[p]);
                            assert(pushed[p] == old(self).evaluator.grids_seq()[p]);
                        } else {
                            assert(self.history()[p] == self.current);
                            assert(pushed[p] == old(self).evaluator.grid_at(oldlen));
                        }
                    }
                }
                true
            },
            None => false,
        }
    }

    /// Plays a legal move: the board goes onto the stack, the evaluator
    /// advances one ply.
    pub fn make_move(&mut self, make_move: MoveData)
        requires
            old(self).wf(),
            old(self).len() < MAX_PLY,
            make_move.wf(),
            legal_of(old(self).board_spec(), make_move),
            piece_on_of(old(self).board_spec(), make_move.from) is Some,
            color_on_of(old(self).board_spec(), make_move.from) == Some(
                stm_of(old(self).board_spec()),
            ),
        ensures
            final(self).wf(),
            make_rel(*old(self), *final(self), make_move),
    {
        proof {
            self.evaluator.lemma_wf_facts();
            let len = self.boards@.len() as int;
            assert(self.history()[len] == self.current);
            assert(self.evaluator.grid_at(len) == grid_of(self.history()[len]));
        }
        self.evaluator.make_move(&self.current, make_move);
        let prev = board_clone(&self.current);
        self.boards.push(prev);
        board_play(&mut self.current, make_move);
        proof {
            assert(final(self).history() =~= old(self).history().push(
                after_of(old(self).board_spec(), make_move),
            ));
            let oldlen = old(self).boards@.len() as int;
            let ghost pushed = old(self).evaluator.grids_seq().push(
                grid_after(old(self).board_spec(), make_move),
            );
            assert(self.evaluator.grids_seq() == pushed);
            assert forall|p: int| 0 <= p <= self.boards@.len() implies self.evaluator.grid_at(p)
                == grid_of(#[trigger] self.history()[p]) by {
                if p <= oldlen {
                    assert(self.history()[p] == old(self).history()[p]);
                    assert(pushed[p] == old(self).evaluator.grids_seq()[p]);
                } else {
                    assert(self.history()[p] == self.current);
                    assert(pushed[p] == grid_after(old(self).board_spec(), make_move));
                }
            }
        }
    }

    /// Takes the last move (or null move) back: the position is exactly
    /// what it was before it.
    pub fn unmake_move(&mut self)
        requires
            old(self).wf(),
            old(self).len() >= 1,
        ensures
            final(self).wf(),
            unmake_rel(*old(self), *final(self)),
    {
        proof {
            self.evaluator.lemma_wf_facts();
        }
        self.evaluator.unmake_move();
        let prev = self.boards.pop().unwrap();
        self.current = prev;
        proof {
            assert(final(self).history() =~= old(self).history().drop_last());
            assert(final(self).stack() =~= old(self).stack().drop_last());
            let ghost dropped = old(self).evaluator.grids_seq().drop_last();
            assert(self.evaluator.grids_seq() == dropped);
            assert forall|p: int| 0 <= p <= self.boards@.len() implies self.evaluator.grid_at(p)
                == grid_of(#[trigger] self.history()[p]) by {
                assert(self.history()[p] == old(self).history()[p]);
                assert(dropped[p] == old(self).evaluator.grids_seq()[p]);
            }
        }
    }

    /// The network's evaluation of the current position, from the side to
    /// move.
    pub fn get_eval(&self) -> (r: Evaluation)
        requires
            self.wf(),
        ensures
            r.val() == ff_spec(
                self.nnue().weights_spec(),
                self.nnue().acc_at(self.len()),
                stm_of(self.board_spec()),
                0,
            ),
            r.wf(),
            !Evaluation::is_mate_spec(r.val()),
    {
        proof {
            self.evaluator.lemma_wf_facts();
        }
        let stm = board_stm(&self.current);
        let v = self.evaluator.feed_forward(stm, 0);
        Evaluation::new(v)
    }

    /// The policy net's score of one move in the current position.
    pub fn get_move_eval(&self, make_move: MoveData) -> (r: i32)
        requires
            self.wf(),
            make_move.wf(),
            piece_on_of(self.board_spec(), make_move.from) is Some,
        ensures
            r == move_eval_spec(
                self.nnue().weights_spec(),
                self.nnue().acc_at(self.len()),
                stm_of(self.board_spec()),
                piece_on_of(self.board_spec(), make_move.from)->Some_0,
                make_move.to,
            ),
    {
        proof {
            self.evaluator.lemma_wf_facts();
        }
        let stm = board_stm(&self.current);
        let piece = match board_piece_on(&self.current, make_move.from) {
            Some(p) => p,
            None => 0,
        };
        self.evaluator.evaluate_move(stm, piece, make_move.to)
    }

    /// Two bare kings, or two kings and one minor piece: no mate can be
    /// forced.
    pub fn insufficient_material(&self) -> (r: bool)
        ensures
            r == insufficient_spec(self.board_spec()),
    {
        let occ = popcount(board_occupied(&self.current));
        if occ == 2 {
            true
        } else if occ == 3 {
            let heavy = board_pieces(&self.current, 3) | board_pieces(&self.current, 4)
                | board_pieces(&self.current, 0);
            heavy == 0
        } else {
            false
        }
    }
}

/// How a position after `make_move` relates to the one before it.
pub open spec fn make_rel(pre: Position, post: Position, m: MoveData) -> bool {
    &&& post.history() == pre.history().push(after_of(pre.board_spec(), m))
    &&& post.board_spec() == after_of(pre.board_spec(), m)
    &&& post.nnue().weights_spec() == pre.nnue().weights_spec()
    &&& post.nnue().head_spec() == pre.nnue().head_spec() + 1
    &&& post.nnue().grids_seq() == pre.nnue().grids_seq().push(
        grid_after(pre.board_spec(), m),
    )
    &&& post.nnue().accs().take(pre.nnue().head_spec() + 1) == pre.nnue().accs().take(
        pre.nnue().head_spec() + 1,
    )
}

/// How a position after `unmake_move` relates to the one before it.
pub open spec fn unmake_rel(pre: Position, post: Position) -> bool {
    &&& post.history() == pre.history().drop_last()
    &&& post.board_spec() == pre.stack().last()
    &&& post.nnue().weights_spec() == pre.nnue().weights_spec()
    &&& post.nnue().head_spec() == pre.nnue().head_spec() - 1
    &&& post.nnue().grids_seq() == pre.nnue().grids_seq().drop_last()
    &&& post.nnue().accs() == pre.nnue().accs()
}

/// Shape facts of a well-formed position.
impl Position {
    pub proof fn lemma_pos_facts(&self)
        requires
            self.wf(),
        ensures
            self.nnue().accs().len() == MAX_PLY + 1,
            self.nnue().grids_seq().len() == self.len() + 1,
            self.nnue().head_spec() == self.len(),
            0 <= self.len() <= MAX_PLY,
            self.history().len() == self.len() + 1,
    {
        self.evaluator.lemma_wf_facts();
    }
}

/// A prefix of an agreed prefix agrees.
pub proof fn lemma_take_sub(s1: Seq<Accumulator>, s2: Seq<Accumulator>, a: int, b: int)
    requires
        0 <= a <= b <= s1.len(),
        b <= s2.len(),
        s1.take(b) == s2.take(b),
    ensures
        s1.take(a) == s2.take(a),
{
    assert forall|i: int| 0 <= i < a implies s1.take(a)[i] == s2.take(a)[i] by {
        assert(s1.take(b)[i] == s1[i]);
        assert(s2.take(b)[i] == s2[i]);
    }
    assert(s1.take(a) =~= s2.take(a));
}

/// After a ply was pushed (a move or a null move) and a recursion that kept
/// the position's view, unmaking restores the view exactly.
pub proof fn lemma_push_pop_view(
    pre: Position,
    mid: Position,
    post: Position,
    b: cozy_chess::Board,
    g: Grid,
)
    requires
        mid.history() == pre.history().push(b),
        mid.nnue().weights_spec() == pre.nnue().weights_spec(),
        mid.nnue().head_spec() == pre.nnue().head_spec() + 1,
        mid.nnue().grids_seq() == pre.nnue().grids_seq().push(g),
        mid.nnue().accs().take(pre.nnue().head_spec() + 1) == pre.nnue().accs().take(
            pre.nnue().head_spec() + 1,
        ),
        unmake_rel(mid, post),
    ensures
        post.view() == pre.view(),
        post.board_spec() == pre.board_spec(),
        post.len() == pre.len(),
{
    assert(post.history() =~= pre.history());
    assert(post.nnue().grids_seq() =~= pre.nnue().grids_seq());
    assert(post.nnue().accs() == mid.nnue().accs());
    assert(post.nnue().head_spec() == pre.nnue().head_spec());
    assert(post.nnue().accs().take(post.nnue().head_spec() + 1) == mid.nnue().accs().take(
        pre.nnue().head_spec() + 1,
    ));
    assert(post.nnue().accs().take(post.nnue().head_spec() + 1) =~= pre.nnue().accs().take(
        pre.nnue().head_spec() + 1,
    ));
    assert(pre.history().push(b).drop_last() =~= pre.history());
    assert(mid.stack() =~= pre.history());
    assert(pre.history().last() == pre.board_spec());
    assert(post.board_spec() == mid.stack().last());
    assert(post.history().len() == pre.history().len());
}

/// Law: a move made and then unmade leaves the position - board, move
/// stack and accumulator state - exactly as it was.
pub proof fn lemma_make_unmake_round_trip(p0: Position, p1: Position, p2: Position, m: MoveData)
    requires
        p0.wf(),
        make_rel(p0, p1, m),
        unmake_rel(p1, p2),
    ensures
        p2.view() == p0.view(),
{
    assert(p2.history() =~= p0.history());
    assert(p2.nnue().grids_seq() =~= p0.nnue().grids_seq());
    assert(p2.nnue().accs().take(p2.nnue().head_spec() + 1) =~= p0.nnue().accs().take(
        p0.nnue().head_spec() + 1,
    ));
}

} // verus!
