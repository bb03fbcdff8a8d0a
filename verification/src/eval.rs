//! Centipawn scores with a reserved range for mate scores.
//!
//! Values above `MATE_BOUND` encode "side to move mates in k plies"
//! (`MATE - k`); values below `-MATE_BOUND` encode being mated
//! (`-MATE + k`). Two shift operations move a score across one ply of the
//! negamax tree: the sign flips and a mate distance grows by one.

use vstd::prelude::*;

verus! {

/// Score representing mate in 0 plies.
pub const MATE: i32 = 1_000_000;
/// Scores with magnitude above this bound are mate scores.
pub const MATE_BOUND: i32 = 999_000;
/// Magnitude of the full-window bounds handed to the root search.
pub const WINDOW_LIMIT: i32 = 1_001_000;
/// No score ever leaves this range.
pub const SCORE_LIMIT: i32 = 2_000_000;

/// A fixed-point evaluation in centipawns, or a mate score.
#[derive(Clone, Copy, Debug, PartialEq, Eq, Structural)]
pub struct Evaluation {
    value: i32,
}

impl Evaluation {
    /// The raw score as a mathematical integer.
    pub closed spec fn val(self) -> int {
        self.value as int
    }

    /// Every evaluation the engine builds stays within `SCORE_LIMIT`.
    pub open spec fn wf(self) -> bool {
        -SCORE_LIMIT <= self.val() <= SCORE_LIMIT
    }

    /// Whether a raw score is in the mate range.
    pub open spec fn is_mate_spec(v: int) -> bool {
        v > MATE_BOUND || v < -MATE_BOUND
    }

    /// A window bound seen from the child node: negated, mate distances
    /// stretched by one ply.
    pub open spec fn descend_spec(v: int) -> int {
        if v > MATE_BOUND {
            -v - 1
        } else if v < -MATE_BOUND {
            -v + 1
        } else {
            -v
        }
    }

    /// A child score seen from the parent node: negated, mate distances
    /// stretched by one ply.
    pub open spec fn ascend_spec(v: int) -> int {
        if v > MATE_BOUND {
            -v + 1
        } else if v < -MATE_BOUND {
            -v - 1
        } else {
            -v
        }
    }

    /// The evaluation with the given raw score.
    pub closed spec fn of_val(v: int) -> Evaluation {
        Evaluation { value: v as i32 }
    }

    pub fn new(value: i32) -> (r: Self)
        requires
            -SCORE_LIMIT <= value <= SCORE_LIMIT,
        ensures
            r.val() == value,
            r.wf(),
            r == Evaluation::of_val(value as int),
    {
        Evaluation { value }
    }

    pub fn raw(&self) -> (r: i32)
        ensures
            r == self.val(),
    {
        self.value
    }

    /// The least score: below every mate score, used as the full-window
    /// lower bound and as the sentinel returned on abort.
    pub fn min() -> (r: Self)
        ensures
            r.val() == -WINDOW_LIMIT,
            r.wf(),
    {
        Evaluation { value: -WINDOW_LIMIT }
    }

    /// The greatest score: the full-window upper bound.
    pub fn max() -> (r: Self)
        ensures
            r.val() == WINDOW_LIMIT,
            r.wf(),
    {
        Evaluation { value: WINDOW_LIMIT }
    }

    pub fn is_mate(&self) -> (r: bool)
        ensures
            r == Self::is_mate_spec(self.val()),
    {
        self.value > MATE_BOUND || self.value < -MATE_BOUND
    }

    /// Mate score `plies` away. A non-negative argument means the side to
    /// move delivers mate in that many plies; `-1 - k` means the side to
    /// move is mated in `k` plies.
    pub fn new_checkmate(plies: i32) -> (r: Self)
        requires
            -129 <= plies <= 128,
        ensures
            plies >= 0 ==> r.val() == MATE - plies,
            plies < 0 ==> r.val() == -MATE + (-plies - 1),
            r.wf(),
            Self::is_mate_spec(r.val()),
    {
        if plies >= 0 {
            Evaluation { value: MATE - plies }
        } else {
            Evaluation { value: -MATE + (-plies - 1) }
        }
    }

    /// This score plus a centipawn offset.
    pub fn offset(&self, d: i32) -> (r: Self)
        requires
            self.wf(),
            -2_000_000 <= d <= 2_000_000,
        ensures
            r.val() == self.val() + d,
    {
        Evaluation { value: self.value + d }
    }

    /// Turn a window bound of this node into the matching bound of a child
    /// node, one ply deeper.
    pub fn descend(&self) -> (r: Self)
        requires
            self.wf(),
            self.val() < SCORE_LIMIT,
            self.val() > -SCORE_LIMIT,
        ensures
            r.val() == Self::descend_spec(self.val()),
    {
        if self.value > MATE_BOUND {
            Evaluation { value: -self.value - 1 }
        } else if self.value < -MATE_BOUND {
            Evaluation { value: -self.value + 1 }
        } else {
            Evaluation { value: -self.value }
        }
    }

    /// Turn a child's score into this node's score, one ply higher.
    pub fn ascend(&self) -> (r: Self)
        requires
            self.wf(),
            self.val() < SCORE_LIMIT,
            self.val() > -SCORE_LIMIT,
        ensures
            r.val() == Self::ascend_spec(self.val()),
    {
        if self.value > MATE_BOUND {
            Evaluation { value: -self.value + 1 }
        } else if self.value < -MATE_BOUND {
            Evaluation { value: -self.value - 1 }
        } else {
            Evaluation { value: -self.value }
        }
    }
}

impl PartialOrd for Evaluation {
    fn partial_cmp(&self, other: &Evaluation) -> (r: Option<core::cmp::Ordering>) {
        if self.value < other.value {
            Some(core::cmp::Ordering::Less)
        } else if self.value == other.value {
            Some(core::cmp::Ordering::Equal)
        } else {
            Some(core::cmp::Ordering::Greater)
        }
    }
}

impl vstd::std_specs::cmp::PartialOrdSpecImpl for Evaluation {
    open spec fn obeys_partial_cmp_spec() -> bool {
        true
    }

    open spec fn partial_cmp_spec(&self, other: &Evaluation) -> Option<core::cmp::Ordering> {
        if self.val() < other.val() {
            Some(core::cmp::Ordering::Less)
        } else if self.val() == other.val() {
            Some(core::cmp::Ordering::Equal)
        } else {
            Some(core::cmp::Ordering::Greater)
        }
    }
}

/// The child-window shift reverses order: a tighter bound above becomes a
/// tighter bound below.
pub proof fn lemma_descend_antimonotone(x: int, y: int)
    requires
        x < y,
    ensures
        Evaluation::descend_spec(y) < Evaluation::descend_spec(x),
{
}

/// Two evaluations are the same value exactly when their raw scores agree.
pub proof fn lemma_val_injective(a: Evaluation, b: Evaluation)
    ensures
        (a.val() == b.val()) <==> (a == b),
{
}

/// `of_val` returns the evaluation whose raw score is its argument, for
/// any score the 32-bit representation can hold.
pub proof fn lemma_of_val(v: int)
    requires
        -0x8000_0000 <= v < 0x8000_0000,
    ensures
        Evaluation::of_val(v).val() == v,
{
}

/// Law: the two ply shifts invert one another, so a score carried down into
/// a child window and read back is unchanged. The inverse in the other
/// direction holds away from the score one past the mate bound, a value no
/// mate encoding or window bound ever takes (mate scores keep a magnitude
/// of at least `MATE - 2 * MAX_PLY`).
pub proof fn lemma_shift_round_trip(v: int)
    requires
        -SCORE_LIMIT < v < SCORE_LIMIT,
    ensures
        Evaluation::ascend_spec(Evaluation::descend_spec(v)) == v,
        v != MATE_BOUND + 1 && v != -MATE_BOUND - 1 ==> Evaluation::descend_spec(
            Evaluation::ascend_spec(v),
        ) == v,
{
}

/// Law: mate distances shift by exactly one ply per level, with the sign
/// flipped. A child mated in `k` plies means the parent mates in `k + 1`;
/// a child mating in `k` plies means the parent is mated in `k + 1`.
pub proof fn lemma_mate_distance_shift(k: int)
    requires
        0 <= k < 500,
    ensures
        Evaluation::ascend_spec(-MATE + k) == MATE - (k + 1),
        Evaluation::ascend_spec(MATE - k) == -MATE + (k + 1),
        Evaluation::is_mate_spec(-MATE + k) && Evaluation::is_mate_spec(MATE - k),
{
}

} // verus!
