//! Incrementally updated integer neural-network evaluator. One accumulator
//! per possible ply is preallocated; `head` indexes the current one. Every
//! accumulator provably equals the feature transformer applied to its
//! ply's piece placement: playing a move copies the head accumulator and
//! applies the per-feature deltas of the move, and unmaking a move just
//! steps `head` back.

use vstd::prelude::*;

use crate::board::color_on_of;
use crate::board::piece_on_of;
use crate::params::MAX_PLY;

verus! {

/// A piece placement: square index to `(color, piece)`.
pub type Grid = Seq<Option<(u8, u8)>>;

/// Greatest magnitude of any single weight or bias.
pub const WEIGHT_BOUND: i32 = 0x10_0000;

/// Greatest magnitude of an accumulator component: a bias plus 64
/// feature weights.
pub const ACC_BOUND: i32 = 65 * 0x10_0000;

pub open spec fn grid_wf(g: Grid) -> bool {
    &&& g.len() == 64
    &&& forall|s: int|
        0 <= s < 64 ==> match #[trigger] g[s] {
            Some((c, p)) => c < 2 && p < 6,
            None => true,
        }
}

/// The empty placement.
pub open spec fn empty_grid() -> Grid {
    Seq::new(64, |s: int| None)
}

/// The placement a board reports through its square queries.
pub open spec fn grid_of(b: cozy_chess::Board) -> Grid {
    Seq::new(
        64,
        |s: int|
            match (piece_on_of(b, s as u8), color_on_of(b, s as u8)) {
                (Some(p), Some(c)) => Some((c, p)),
                _ => None,
            },
    )
}

/// The board square seen from the black perspective: ranks flipped.
pub open spec fn mirror_spec(s: int) -> int {
    (7 - s / 8) * 8 + s % 8
}

/// The feature index of a piece for one perspective (0 white, 1 black):
/// the square, offset by piece kind and color, with square and color
/// mirrored for black.
pub open spec fn feat(persp: u8, c: u8, p: u8, s: int) -> int {
    if persp == 0 {
        (c * 6 + p) * 64 + s
    } else {
        ((1 - c) * 6 + p) * 64 + mirror_spec(s)
    }
}

/// A weight table: `rows` rows of `cols` columns, all entries bounded.
pub open spec fn tbl_wf(t: Seq<Seq<i32>>, rows: int, cols: int) -> bool {
    &&& t.len() == rows
    &&& forall|i: int| 0 <= i < rows ==> (#[trigger] t[i]).len() == cols
    &&& forall|i: int, j: int|
        0 <= i < rows && 0 <= j < cols ==> -WEIGHT_BOUND <= #[trigger] t[i][j] <= WEIGHT_BOUND
}

/// A bias row: `cols` bounded entries.
pub open spec fn row_wf(t: Seq<i32>, cols: int) -> bool {
    &&& t.len() == cols
    &&& forall|j: int| 0 <= j < cols ==> -WEIGHT_BOUND <= #[trigger] t[j] <= WEIGHT_BOUND
}

/// What a placed piece contributes to one accumulator component.
pub open spec fn placed_weight(t: Seq<Seq<i32>>, persp: u8, v: Option<(u8, u8)>, s: int, j: int) -> int {
    match v {
        Some((c, p)) => t[feat(persp, c, p, s)][j] as int,
        None => 0,
    }
}

/// The feature-transformer sum over the first `n` squares of a placement.
pub open spec fn feature_sum(t: Seq<Seq<i32>>, g: Grid, persp: u8, n: int, j: int) -> int
    decreases n,
{
    if n <= 0 {
        0
    } else {
        feature_sum(t, g, persp, n - 1, j) + placed_weight(t, persp, g[n - 1], n - 1, j)
    }
}

/// Every feature index is a valid row of a 768-row table.
pub proof fn lemma_feat_range(persp: u8, c: u8, p: u8, s: int)
    requires
        persp < 2,
        c < 2,
        p < 6,
        0 <= s < 64,
    ensures
        0 <= feat(persp, c, p, s) < 768,
        0 <= mirror_spec(s) < 64,
{
    assert(0 <= s / 8 <= 7);
    assert(0 <= s % 8 <= 7);
}

/// The transformer sum over `n` squares is at most `n` weights.
pub proof fn lemma_sum_bound(t: Seq<Seq<i32>>, g: Grid, persp: u8, n: int, j: int, cols: int)
    requires
        tbl_wf(t, 768, cols),
        grid_wf(g),
        persp < 2,
        0 <= j < cols,
        0 <= n <= 64,
    ensures
        -n * WEIGHT_BOUND <= feature_sum(t, g, persp, n, j) <= n * WEIGHT_BOUND,
    decreases n,
{
    if n > 0 {
        lemma_sum_bound(t, g, persp, n - 1, j, cols);
        match g[n - 1] {
            Some((c, p)) => {
                lemma_feat_range(persp, c, p, n - 1);
            },
            None => {},
        }
    }
}

/// Changing one square changes the transformer sum by the difference of
/// the contributions on that square.
pub proof fn lemma_sum_update(
    t: Seq<Seq<i32>>,
    g: Grid,
    persp: u8,
    n: int,
    j: int,
    s: int,
    v: Option<(u8, u8)>,
)
    requires
        grid_wf(g),
        0 <= s < 64,
        0 <= n <= 64,
    ensures
        feature_sum(t, g.update(s, v), persp, n, j) == feature_sum(t, g, persp, n, j) + if s < n {
            placed_weight(t, persp, v, s, j) - placed_weight(t, persp, g[s], s, j)
        } else {
            0
        },
    decreases n,
{
    if n > 0 {
        lemma_sum_update(t, g, persp, n - 1, j, s, v);
    }
}

/// The weights of the evaluator: the feature transformer, the dense
/// output layer, the per-bucket piece-square sums, and the small
/// move-scoring (policy) net.
#[derive(Debug, Clone)]
pub struct NnueWeights {
    pub ft_w: Vec<Vec<i32>>,
    pub ft_b: Vec<i32>,
    pub out_w: Vec<Vec<i32>>,
    pub out_b: Vec<i32>,
    pub psqt_w: Vec<Vec<i32>>,
    pub pol_w: Vec<Vec<i32>>,
    pub pol_b: Vec<i32>,
    pub pol_out_w: Vec<Vec<i32>>,
    pub pol_out_b: Vec<i32>,
}

pub open spec fn view2(t: Vec<Vec<i32>>) -> Seq<Seq<i32>> {
    t@.map_values(|row: Vec<i32>| row@)
}

impl NnueWeights {
    pub open spec fn mid(&self) -> int {
        self.ft_b@.len() as int
    }

    pub open spec fn buckets(&self) -> int {
        self.out_b@.len() as int
    }

    pub open spec fn pol_mid(&self) -> int {
        self.pol_b@.len() as int
    }

    pub open spec fn wf(&self) -> bool {
        &&& 1 <= self.mid() <= 2048
        &&& 1 <= self.buckets() <= 32
        &&& 1 <= self.pol_mid() <= 2048
        &&& tbl_wf(view2(self.ft_w), 768, self.mid())
        &&& row_wf(self.ft_b@, self.mid())
        &&& tbl_wf(view2(self.out_w), self.mid(), self.buckets())
        &&& row_wf(self.out_b@, self.buckets())
        &&& tbl_wf(view2(self.psqt_w), 768, self.buckets())
        &&& tbl_wf(view2(self.pol_w), 768, self.pol_mid())
        &&& row_wf(self.pol_b@, self.pol_mid())
        &&& tbl_wf(view2(self.pol_out_w), 384, self.pol_mid())
        &&& row_wf(self.pol_out_b@, 384)
    }
}

/// The incrementally maintained vectors of one ply: the two hidden-layer
/// perspectives, the two per-bucket piece-square sums, and the two
/// policy-net perspectives.
#[derive(Debug)]
pub struct Accumulator {
    pub white: Vec<i32>,
    pub black: Vec<i32>,
    pub white_psqt: Vec<i32>,
    pub black_psqt: Vec<i32>,
    pub white_pol: Vec<i32>,
    pub black_pol: Vec<i32>,
}

/// One vector equals a bias row plus the transformer sum of a placement.
pub open spec fn vec_matches(
    acc: Seq<i32>,
    bias: Seq<i32>,
    t: Seq<Seq<i32>>,
    g: Grid,
    persp: u8,
    cols: int,
) -> bool {
    &&& acc.len() == cols
    &&& forall|j: int|
        0 <= j < cols ==> #[trigger] acc[j] == bias[j] + feature_sum(t, g, persp, 64, j)
}

/// The invariant of one accumulator: all six vectors equal the feature
/// transformer applied to the placement `g`.
pub open spec fn acc_matches(w: NnueWeights, g: Grid, acc: Accumulator) -> bool {
    &&& vec_matches(acc.white@, w.ft_b@, view2(w.ft_w), g, 0, w.mid())
    &&& vec_matches(acc.black@, w.ft_b@, view2(w.ft_w), g, 1, w.mid())
    &&& vec_matches(
        acc.white_psqt@,
        Seq::new(w.buckets() as nat, |j: int| 0i32),
        view2(w.psqt_w),
        g,
        0,
        w.buckets(),
    )
    &&& vec_matches(
        acc.black_psqt@,
        Seq::new(w.buckets() as nat, |j: int| 0i32),
        view2(w.psqt_w),
        g,
        1,
        w.buckets(),
    )
    &&& vec_matches(acc.white_pol@, w.pol_b@, view2(w.pol_w), g, 0, w.pol_mid())
    &&& vec_matches(acc.black_pol@, w.pol_b@, view2(w.pol_w), g, 1, w.pol_mid())
}

/// Adds or subtracts a weight row to an accumulator vector, elementwise.
fn apply_row(acc: &mut Vec<i32>, row: &Vec<i32>, add: bool)
    requires
        old(acc)@.len() == row@.len(),
        forall|j: int| 0 <= j < old(acc)@.len() ==> -ACC_BOUND <= #[trigger] old(acc)@[j] <= ACC_BOUND,
        forall|j: int| 0 <= j < row@.len() ==> -WEIGHT_BOUND <= #[trigger] row@[j] <= WEIGHT_BOUND,
    ensures
        final(acc)@.len() == old(acc)@.len(),
        forall|j: int|
            0 <= j < old(acc)@.len() ==> #[trigger] final(acc)@[j] == old(acc)@[j] + if add {
                row@[j] as int
            } else {
                -row@[j] as int
            },
{
    let n = acc.len();
    let mut j: usize = 0;
    while j < n
        invariant
            n == acc@.len(),
            acc@.len() == old(acc)@.len(),
            row@.len() == n,
            j <= n,
            forall|k: int| 0 <= k < old(acc)@.len() ==> -ACC_BOUND <= #[trigger] old(acc)@[k] <= ACC_BOUND,
            forall|k: int| 0 <= k < n ==> -WEIGHT_BOUND <= #[trigger] row@[k] <= WEIGHT_BOUND,
            forall|k: int|
                0 <= k < j ==> #[trigger] acc@[k] == old(acc)@[k] + if add {
                    row@[k] as int
                } else {
                    -row@[k] as int
                },
            forall|k: int| j <= k < n ==> #[trigger] acc@[k] == old(acc)@[k],
        decreases n - j,
    {
        let v = acc[j];
        let w = row[j];
        let nv = if add {
            v + w
        } else {
            v - w
        };
        acc.set(j, nv);
        j += 1;
    }
}

impl Accumulator {
    /// A fresh accumulator for the empty placement: biases only.
    pub fn empty(w: &NnueWeights) -> (r: Self)
        requires
            w.wf(),
        ensures
            acc_matches(*w, empty_grid(), r),
    {
        let r = Accumulator {
            white: copy_row(&w.ft_b),
            black: copy_row(&w.ft_b),
            white_psqt: zero_row(w.out_b.len()),
            black_psqt: zero_row(w.out_b.len()),
            white_pol: copy_row(&w.pol_b),
            black_pol: copy_row(&w.pol_b),
        };
        proof {
            lemma_empty_sums(view2(w.ft_w), 0, w.mid());
            lemma_empty_sums(view2(w.ft_w), 1, w.mid());
            lemma_empty_sums(view2(w.psqt_w), 0, w.buckets());
            lemma_empty_sums(view2(w.psqt_w), 1, w.buckets());
            lemma_empty_sums(view2(w.pol_w), 0, w.pol_mid());
            lemma_empty_sums(view2(w.pol_w), 1, w.pol_mid());
        }
        r
    }

    /// Replaces what stands on `sq` (which must be the tracked value
    /// `g[sq]`) by `new_v` in every vector, moving the accumulator from
    /// placement `g` to the updated placement.
    pub fn update(
        &mut self,
        w: &NnueWeights,
        sq: u8,
        old_v: Option<(u8, u8)>,
        new_v: Option<(u8, u8)>,
        Ghost(g): Ghost<Grid>,
    )
        requires
            w.wf(),
            grid_wf(g),
            acc_matches(*w, g, *old(self)),
            sq < 64,
            g[sq as int] == old_v,
            old_v matches Some((c, p)) ==> c < 2 && p < 6,
            new_v matches Some((c, p)) ==> c < 2 && p < 6,
        ensures
            acc_matches(*w, g.update(sq as int, new_v), *final(self)),
    {
        match old_v {
            Some((c, p)) => {
                self.remove_one(w, sq, p, c, Ghost(g));
            },
            None => {
                proof {
                    assert(g.update(sq as int, None::<(u8, u8)>) =~= g);
                }
            },
        }
        let ghost g1 = g.update(sq as int, None);
        match new_v {
            Some((c, p)) => {
                self.add_one(w, sq, p, c, Ghost(g1));
                proof {
                    assert(g1.update(sq as int, new_v) =~= g.update(sq as int, new_v));
                }
            },
            None => {
                proof {
                    assert(g1 =~= g.update(sq as int, new_v));
                }
            },
        }
    }

    /// Adds the feature of `(color, piece)` on `sq` to every vector.
    fn add_one(&mut self, w: &NnueWeights, sq: u8, piece: u8, color: u8, Ghost(g): Ghost<Grid>)
        requires
            w.wf(),
            grid_wf(g),
            acc_matches(*w, g, *old(self)),
            sq < 64,
            piece < 6,
            color < 2,
            g[sq as int] is None,
        ensures
            acc_matches(*w, g.update(sq as int, Some((color, piece))), *final(self)),
    {
        self.apply_feature(w, true, sq, piece, color, Ghost(g));
    }

    /// Removes the feature of `(color, piece)` on `sq` from every vector.
    fn remove_one(&mut self, w: &NnueWeights, sq: u8, piece: u8, color: u8, Ghost(g): Ghost<Grid>)
        requires
            w.wf(),
            grid_wf(g),
            acc_matches(*w, g, *old(self)),
            sq < 64,
            piece < 6,
            color < 2,
            g[sq as int] == Some((color, piece)),
        ensures
            acc_matches(*w, g.update(sq as int, None), *final(self)),
    {
        self.apply_feature(w, false, sq, piece, color, Ghost(g));
    }

    fn apply_feature(&mut self, w: &NnueWeights, add: bool, sq: u8, piece: u8, color: u8, Ghost(g): Ghost<Grid>)
        requires
            w.wf(),
            grid_wf(g),
            acc_matches(*w, g, *old(self)),
            sq < 64,
            piece < 6,
            color < 2,
            add ==> g[sq as int] is None,
            !add ==> g[sq as int] == Some((color, piece)),
        ensures
            acc_matches(
                *w,
                g.update(
                    sq as int,
                    if add {
                        Some((color, piece))
                    } else {
                        None
                    },
                ),
                *final(self),
            ),
    {
        proof {
            lemma_feat_range(0, color, piece, sq as int);
            lemma_feat_range(1, color, piece, sq as int);
        }
        let wf_idx: usize = (color as usize * 6 + piece as usize) * 64 + sq as usize;
        let mirrored: usize = (7 - sq as usize / 8) * 8 + sq as usize % 8;
        let bf_idx: usize = ((1 - color as usize) * 6 + piece as usize) * 64 + mirrored;
        let ghost v: Option<(u8, u8)> = if add {
            Some((color, piece))
        } else {
            None
        };
        let ghost g2 = g.update(sq as int, v);
        proof {
            lemma_acc_bounds(w, g, old(self));
            assert(wf_idx as int == feat(0, color, piece, sq as int));
            assert(bf_idx as int == feat(1, color, piece, sq as int));
            assert(view2(w.ft_w)[wf_idx as int] == w.ft_w@[wf_idx as int]@);
            assert(view2(w.ft_w)[bf_idx as int] == w.ft_w@[bf_idx as int]@);
            assert(view2(w.psqt_w)[wf_idx as int] == w.psqt_w@[wf_idx as int]@);
            assert(view2(w.psqt_w)[bf_idx as int] == w.psqt_w@[bf_idx as int]@);
            assert(view2(w.pol_w)[wf_idx as int] == w.pol_w@[wf_idx as int]@);
            assert(view2(w.pol_w)[bf_idx as int] == w.pol_w@[bf_idx as int]@);
        }
        apply_row(&mut self.white, &w.ft_w[wf_idx], add);
        apply_row(&mut self.black, &w.ft_w[bf_idx], add);
        apply_row(&mut self.white_psqt, &w.psqt_w[wf_idx], add);
        apply_row(&mut self.black_psqt, &w.psqt_w[bf_idx], add);
        apply_row(&mut self.white_pol, &w.pol_w[wf_idx], add);
        apply_row(&mut self.black_pol, &w.pol_w[bf_idx], add);
        proof {
            lemma_update_all(w, g, sq as int, v, color, piece, add);
            assert(vec_matches(self.white@, w.ft_b@, view2(w.ft_w), g2, 0, w.mid()));
            assert(vec_matches(self.black@, w.ft_b@, view2(w.ft_w), g2, 1, w.mid()));
            assert(vec_matches(
                self.white_psqt@,
                Seq::new(w.buckets() as nat, |j: int| 0i32),
                view2(w.psqt_w),
                g2,
                0,
                w.buckets(),
            ));
            assert(vec_matches(
                self.black_psqt@,
                Seq::new(w.buckets() as nat, |j: int| 0i32),
                view2(w.psqt_w),
                g2,
                1,
                w.buckets(),
            ));
            assert(vec_matches(self.white_pol@, w.pol_b@, view2(w.pol_w), g2, 0, w.pol_mid()));
            assert(vec_matches(self.black_pol@, w.pol_b@, view2(w.pol_w), g2, 1, w.pol_mid()));
        }
    }
}

/// The transformer sum of the empty placement is zero.
proof fn lemma_empty_sums(t: Seq<Seq<i32>>, persp: u8, cols: int)
    ensures
        forall|j: int, n: int|
            0 <= n <= 64 ==> #[trigger] feature_sum(t, empty_grid(), persp, n, j) == 0,
{
    assert forall|j: int, n: int|
        0 <= n <= 64 implies #[trigger] feature_sum(t, empty_grid(), persp, n, j) == 0 by {
        lemma_empty_sum_n(t, persp, n, j);
    }
}

proof fn lemma_empty_sum_n(t: Seq<Seq<i32>>, persp: u8, n: int, j: int)
    requires
        0 <= n <= 64,
    ensures
        feature_sum(t, empty_grid(), persp, n, j) == 0,
    decreases n,
{
    if n > 0 {
        lemma_empty_sum_n(t, persp, n - 1, j);
    }
}

/// Every component of an accumulator that matches a placement is within
/// `ACC_BOUND`.
proof fn lemma_acc_bounds(w: &NnueWeights, g: Grid, acc: &Accumulator)
    requires
        w.wf(),
        grid_wf(g),
        acc_matches(*w, g, *acc),
    ensures
        forall|j: int| 0 <= j < acc.white@.len() ==> -ACC_BOUND <= #[trigger] acc.white@[j] <= ACC_BOUND,
        forall|j: int| 0 <= j < acc.black@.len() ==> -ACC_BOUND <= #[trigger] acc.black@[j] <= ACC_BOUND,
        forall|j: int|
            0 <= j < acc.white_psqt@.len() ==> -ACC_BOUND <= #[trigger] acc.white_psqt@[j] <= ACC_BOUND,
        forall|j: int|
            0 <= j < acc.black_psqt@.len() ==> -ACC_BOUND <= #[trigger] acc.black_psqt@[j] <= ACC_BOUND,
        forall|j: int|
            0 <= j < acc.white_pol@.len() ==> -ACC_BOUND <= #[trigger] acc.white_pol@[j] <= ACC_BOUND,
        forall|j: int|
            0 <= j < acc.black_pol@.len() ==> -ACC_BOUND <= #[trigger] acc.black_pol@[j] <= ACC_BOUND,
{
    assert forall|j: int| 0 <= j < acc.white@.len() implies -ACC_BOUND <= #[trigger] acc.white@[j]
        <= ACC_BOUND by {
        lemma_sum_bound(view2(w.ft_w), g, 0, 64, j, w.mid());
    }
    assert forall|j: int| 0 <= j < acc.black@.len() implies -ACC_BOUND <= #[trigger] acc.black@[j]
        <= ACC_BOUND by {
        lemma_sum_bound(view2(w.ft_w), g, 1, 64, j, w.mid());
    }
    assert forall|j: int| 0 <= j < acc.white_psqt@.len() implies -ACC_BOUND
        <= #[trigger] acc.white_psqt@[j] <= ACC_BOUND by {
        lemma_sum_bound(view2(w.psqt_w), g, 0, 64, j, w.buckets());
    }
    assert forall|j: int| 0 <= j < acc.black_psqt@.len() implies -ACC_BOUND
        <= #[trigger] acc.black_psqt@[j] <= ACC_BOUND by {
        lemma_sum_bound(view2(w.psqt_w), g, 1, 64, j, w.buckets());
    }
    assert forall|j: int| 0 <= j < acc.white_pol@.len() implies -ACC_BOUND
        <= #[trigger] acc.white_pol@[j] <= ACC_BOUND by {
        lemma_sum_bound(view2(w.pol_w), g, 0, 64, j, w.pol_mid());
    }
    assert forall|j: int| 0 <= j < acc.black_pol@.len() implies -ACC_BOUND
        <= #[trigger] acc.black_pol@[j] <= ACC_BOUND by {
        lemma_sum_bound(view2(w.pol_w), g, 1, 64, j, w.pol_mid());
    }
}

/// After the elementwise deltas, every vector matches the updated
/// placement.
proof fn lemma_update_all(w: &NnueWeights, g: Grid, s: int, v: Option<(u8, u8)>, color: u8, piece: u8, add: bool)
    requires
        w.wf(),
        grid_wf(g),
        0 <= s < 64,
        color < 2,
        piece < 6,
        v == if add {
            Some((color, piece))
        } else {
            None::<(u8, u8)>
        },
        add ==> g[s] is None,
        !add ==> g[s] == Some((color, piece)),
    ensures
        forall|t: Seq<Seq<i32>>, persp: u8, j: int| #[trigger]
            feature_sum(t, g.update(s, v), persp, 64, j) == feature_sum(t, g, persp, 64, j) + if add {
                t[feat(persp, color, piece, s)][j] as int
            } else {
                -(t[feat(persp, color, piece, s)][j] as int)
            },
{
    assert forall|t: Seq<Seq<i32>>, persp: u8, j: int| #[trigger]
        feature_sum(t, g.update(s, v), persp, 64, j) == feature_sum(t, g, persp, 64, j) + if add {
            t[feat(persp, color, piece, s)][j] as int
        } else {
            -(t[feat(persp, color, piece, s)][j] as int)
        } by {
        lemma_sum_update(t, g, persp, 64, j, s, v);
    }
}

/// Copies a bias row.
fn copy_row(row: &Vec<i32>) -> (r: Vec<i32>)
    ensures
        r@ == row@,
{
    let mut out: Vec<i32> = Vec::new();
    let n = row.len();
    let mut i: usize = 0;
    while i < n
        invariant
            n == row@.len(),
            i == out@.len(),
            i <= n,
            forall|k: int| 0 <= k < i ==> #[trigger] out@[k] == row@[k],
        decreases n - i,
    {
        out.push(row[i]);
        i += 1;
    }
    assert(out@ =~= row@);
    out
}

/// A zero row of the given length.
fn zero_row(n: usize) -> (r: Vec<i32>)
    ensures
        r@.len() == n,
        forall|k: int| 0 <= k < n ==> #[trigger] r@[k] == 0,
{
    let mut out: Vec<i32> = Vec::new();
    let mut i: usize = 0;
    while i < n
        invariant
            i == out@.len(),
            i <= n,
            forall|k: int| 0 <= k < i ==> #[trigger] out@[k] == 0,
        decreases n - i,
    {
        out.push(0);
        i += 1;
    }
    out
}

/// The square a pawn capturing en passant lands on.
pub open spec fn ep_target_sq(stm: u8, f: u8) -> int {
    if stm == 0 {
        40 + f
    } else {
        16 + f
    }
}

/// The square of the pawn captured en passant.
pub open spec fn ep_victim_sq(stm: u8, f: u8) -> int {
    if stm == 0 {
        32 + f
    } else {
        24 + f
    }
}

/// Whether a move is an en-passant capture: a pawn moving to the
/// en-passant target square.
pub open spec fn is_ep_capture(b: cozy_chess::Board, m: crate::moves::MoveData) -> bool {
    &&& piece_on_of(b, m.from) == Some(0u8)
    &&& match crate::board::ep_of(b) {
        Some(f) => m.to as int == ep_target_sq(crate::board::stm_of(b), f),
        None => false,
    }
}

/// Whether a move is a castling move, encoded as the king capturing the
/// own rook.
pub open spec fn is_castle(b: cozy_chess::Board, m: crate::moves::MoveData) -> bool {
    color_on_of(b, m.to) == Some(crate::board::stm_of(b))
}

/// The piece placement after a legal move: the moved piece leaves its
/// square; a captured piece, or the en-passant victim, disappears;
/// castling reseats the king and rook on the back rank; a promotion
/// places the promoted piece.
pub open spec fn grid_after(b: cozy_chess::Board, m: crate::moves::MoveData) -> Grid {
    let g = grid_of(b);
    let stm = crate::board::stm_of(b);
    let moved = piece_on_of(b, m.from)->Some_0;
    if is_castle(b, m) {
        let back: int = if stm == 0 {
            0
        } else {
            56
        };
        let kf: int = if m.to % 8 > m.from % 8 {
            6
        } else {
            2
        };
        let rf: int = if m.to % 8 > m.from % 8 {
            5
        } else {
            3
        };
        g.update(m.from as int, None).update(m.to as int, None).update(
            back + kf,
            Some((stm, 5u8)),
        ).update(back + rf, Some((stm, 3u8)))
    } else {
        let g1 = g.update(m.from as int, None);
        let g2 = if is_ep_capture(b, m) {
            g1.update(ep_victim_sq(stm, crate::board::ep_of(b)->Some_0), None)
        } else {
            g1
        };
        let placed: u8 = if m.promotion < 6 {
            m.promotion
        } else {
            moved
        };
        g2.update(m.to as int, Some((stm, placed)))
    }
}

/// Clamped linear unit: a hidden-layer component enters the output layer
/// clamped to `[0, 255]`.
pub open spec fn crelu(x: int) -> int {
    if x < 0 {
        0
    } else if x > 255 {
        255
    } else {
        x
    }
}

/// Integer division truncating toward zero, as the executable code
/// divides.
pub open spec fn tdiv(a: int, d: int) -> int {
    if a >= 0 {
        a / d
    } else {
        -((-a) / d)
    }
}

/// The output-layer dot product over the first `n` hidden components.
pub open spec fn dot_crelu(t: Seq<Seq<i32>>, acc: Seq<i32>, col: int, n: int) -> int
    decreases n,
{
    if n <= 0 {
        0
    } else {
        dot_crelu(t, acc, col, n - 1) + t[n - 1][col] * crelu(acc[n - 1] as int)
    }
}

proof fn lemma_dot_bound(t: Seq<Seq<i32>>, acc: Seq<i32>, col: int, n: int, rows: int, cols: int)
    requires
        tbl_wf(t, rows, cols),
        0 <= col < cols,
        0 <= n <= rows,
    ensures
        -n * WEIGHT_BOUND * 255 <= dot_crelu(t, acc, col, n) <= n * WEIGHT_BOUND * 255,
    decreases n,
{
    if n > 0 {
        lemma_dot_bound(t, acc, col, n - 1, rows, cols);
        let w = t[n - 1][col] as int;
        let c = crelu(acc[n - 1] as int);
        assert(-WEIGHT_BOUND * 255 <= w * c <= WEIGHT_BOUND * 255) by (nonlinear_arith)
            requires
                -WEIGHT_BOUND <= w <= WEIGHT_BOUND && 0 <= c <= 255,
        ;
    }
}

/// Divides truncating toward zero.
fn tdiv_exec(a: i64, d: i64) -> (r: i64)
    requires
        0 < d <= 0x10000,
        -0x4000_0000_0000_0000 < a < 0x4000_0000_0000_0000,
    ensures
        r == tdiv(a as int, d as int),
        a >= 0 ==> 0 <= r <= a,
        a < 0 ==> a <= r <= 0,
{
    let neg = a < 0;
    let mag: u64 = if neg {
        (-a) as u64
    } else {
        a as u64
    };
    let q = mag / (d as u64);
    if neg {
        -(q as i64)
    } else {
        q as i64
    }
}

/// The centipawn output of the network for one side to move and output
/// bucket: the bucketed piece-square sum plus the dense layer over the
/// clamped hidden vector. The dense term and the sum are clamped into
/// [-8000, 8000] so that a static evaluation can never reach the mate
/// range of the score encoding, whatever weights the evaluator was built
/// with; within that range the value is the plain layer formula.
pub open spec fn ff_spec(w: NnueWeights, acc: Accumulator, stm: u8, bucket: int) -> int {
    let hid = if stm == 0 {
        acc.white@
    } else {
        acc.black@
    };
    let ps = if stm == 0 {
        acc.white_psqt@
    } else {
        acc.black_psqt@
    };
    let dense_raw = tdiv(w.out_b@[bucket] + dot_crelu(view2(w.out_w), hid, bucket, w.mid()), 256);
    let dense = if dense_raw < -8000 {
        -8000
    } else if dense_raw > 8000 {
        8000
    } else {
        dense_raw
    };
    let raw = tdiv(ps[bucket] as int, 64) + dense;
    if raw < -8000 {
        -8000
    } else if raw > 8000 {
        8000
    } else {
        raw
    }
}

/// The dot product of one weight row with the clamped hidden vector,
/// over its first `n` components.
pub open spec fn dot_crelu_row(row: Seq<i32>, acc: Seq<i32>, n: int) -> int
    decreases n,
{
    if n <= 0 {
        0
    } else {
        dot_crelu_row(row, acc, n - 1) + row[n - 1] * crelu(acc[n - 1] as int)
    }
}

/// The score of one move under the policy net: the dot product of the
/// clamped policy hidden vector with the row of the moved piece and its
/// destination seen from the side to move.
pub open spec fn move_eval_spec(w: NnueWeights, acc: Accumulator, stm: u8, piece: u8, to: u8) -> int {
    let hid = if stm == 0 {
        acc.white_pol@
    } else {
        acc.black_pol@
    };
    let row = piece * 64 + (if stm == 0 {
        to as int
    } else {
        mirror_spec(to as int)
    });
    let raw = tdiv(
        w.pol_out_b@[row] + dot_crelu_row(view2(w.pol_out_w)[row], hid, w.pol_mid()),
        256,
    );
    if raw < -8000 {
        -8000
    } else if raw > 8000 {
        8000
    } else {
        raw
    }
}

/// Computes a clamped dense-layer output: `bias + dot`, scaled by 256 and
/// clamped to `[-8000, 8000]`.
fn dense_out(t: &Vec<Vec<i32>>, acc: &Vec<i32>, col: usize, bias: i32, Ghost(rows): Ghost<int>, Ghost(cols): Ghost<int>) -> (r: i32)
    requires
        tbl_wf(view2(*t), rows, cols),
        acc@.len() == rows,
        t@.len() == rows,
        0 <= col < cols,
        0 <= rows <= 2048,
        -WEIGHT_BOUND <= bias <= WEIGHT_BOUND,
    ensures
        r as int == {
            let raw = tdiv(bias + dot_crelu(view2(*t), acc@, col as int, rows), 256);
            if raw < -8000 {
                -8000
            } else if raw > 8000 {
                8000
            } else {
                raw
            }
        },
{
    let n = acc.len();
    let mut sum: i64 = 0;
    let mut j: usize = 0;
    while j < n
        invariant
            n == acc@.len(),
            t@.len() == n,
            n <= 2048,
            tbl_wf(view2(*t), n as int, cols),
            0 <= col < cols,
            j <= n,
            sum == dot_crelu(view2(*t), acc@, col as int, j as int),
            -(j as int) * WEIGHT_BOUND * 255 <= sum <= (j as int) * WEIGHT_BOUND * 255,
        decreases n - j,
    {
        let v = acc[j];
        let c: i32 = if v < 0 {
            0
        } else if v > 255 {
            255
        } else {
            v
        };
        proof {
            assert(view2(*t)[j as int] == t@[j as int]@);
            assert(-WEIGHT_BOUND <= view2(*t)[j as int][col as int] <= WEIGHT_BOUND);
        }
        let w = t[j][col];
        proof {
            let wi = w as int;
            let ci = c as int;
            assert(-WEIGHT_BOUND * 255 <= wi * ci <= WEIGHT_BOUND * 255) by (nonlinear_arith)
                requires
                    -WEIGHT_BOUND <= wi <= WEIGHT_BOUND && 0 <= ci <= 255,
            ;
        }
        sum = sum + (w as i64) * (c as i64);
        j += 1;
    }
    let raw = tdiv_exec(sum + bias as i64, 256);
    if raw < -8000 {
        -8000
    } else if raw > 8000 {
        8000
    } else {
        raw as i32
    }
}

/// Computes a clamped output of one weight row against the clamped
/// hidden vector: `bias + dot`, scaled by 256 and clamped.
fn dense_row_out(row: &Vec<i32>, acc: &Vec<i32>, bias: i32) -> (r: i32)
    requires
        row@.len() == acc@.len(),
        acc@.len() <= 2048,
        forall|j: int| 0 <= j < row@.len() ==> -WEIGHT_BOUND <= #[trigger] row@[j] <= WEIGHT_BOUND,
        -WEIGHT_BOUND <= bias <= WEIGHT_BOUND,
    ensures
        r as int == {
            let raw = tdiv(bias + dot_crelu_row(row@, acc@, acc@.len() as int), 256);
            if raw < -8000 {
                -8000
            } else if raw > 8000 {
                8000
            } else {
                raw
            }
        },
        -8000 <= r <= 8000,
{
    let n = acc.len();
    let mut sum: i64 = 0;
    let mut j: usize = 0;
    while j < n
        invariant
            n == acc@.len(),
            row@.len() == n,
            n <= 2048,
            forall|k: int| 0 <= k < n ==> -WEIGHT_BOUND <= #[trigger] row@[k] <= WEIGHT_BOUND,
            j <= n,
            sum == dot_crelu_row(row@, acc@, j as int),
            -(j as int) * WEIGHT_BOUND * 255 <= sum <= (j as int) * WEIGHT_BOUND * 255,
        decreases n - j,
    {
        let v = acc[j];
        let c: i32 = if v < 0 {
            0
        } else if v > 255 {
            255
        } else {
            v
        };
        let w = row[j];
        proof {
            let wi = w as int;
            let ci = c as int;
            assert(-WEIGHT_BOUND * 255 <= wi * ci <= WEIGHT_BOUND * 255) by (nonlinear_arith)
                requires
                    -WEIGHT_BOUND <= wi <= WEIGHT_BOUND && 0 <= ci <= 255,
            ;
        }
        sum = sum + (w as i64) * (c as i64);
        j += 1;
    }
    let raw = tdiv_exec(sum + bias as i64, 256);
    if raw < -8000 {
        -8000
    } else if raw > 8000 {
        8000
    } else {
        raw as i32
    }
}

/// The evaluator: preallocated accumulators, one per ply, and the head
/// index of the current ply.
pub struct Nnue {
    weights: NnueWeights,
    accumulator: Vec<Accumulator>,
    head: usize,
    grids: Ghost<Seq<Grid>>,
}

impl Nnue {
    pub closed spec fn weights_spec(&self) -> NnueWeights {
        self.weights
    }

    pub closed spec fn head_spec(&self) -> int {
        self.head as int
    }

    /// The placements tracked for the plies up to the head.
    pub closed spec fn grids_seq(&self) -> Seq<Grid> {
        self.grids@
    }

    /// The accumulators, one per possible ply.
    pub closed spec fn accs(&self) -> Seq<Accumulator> {
        self.accumulator@
    }

    /// The placement tracked for ply `p`.
    pub open spec fn grid_at(&self, p: int) -> Grid {
        self.grids_seq()[p]
    }

    /// The accumulator of ply `p`.
    pub open spec fn acc_at(&self, p: int) -> Accumulator {
        self.accs()[p]
    }

    /// The evaluator's logical state: the placements of the plies up to
    /// the head and the accumulators kept for them.
    pub open spec fn view(&self) -> (NnueWeights, int, Seq<Grid>, Seq<Accumulator>) {
        (
            self.weights_spec(),
            self.head_spec(),
            self.grids_seq(),
            self.accs().take(self.head_spec() + 1),
        )
    }

    /// The central invariant: at every ply up to the head, the
    /// accumulator equals the feature transformer applied to that ply's
    /// placement.
    pub closed spec fn wf(&self) -> bool {
        &&& self.weights.wf()
        &&& self.accumulator@.len() == MAX_PLY + 1
        &&& self.head < MAX_PLY + 1
        &&& self.grids@.len() == self.head + 1
        &&& forall|p: int|
            0 <= p <= self.head ==> grid_wf(#[trigger] self.grids@[p]) && acc_matches(
                self.weights,
                self.grids@[p],
                self.accumulator@[p],
            )
    }

    /// Shape facts of a well-formed evaluator.
    pub proof fn lemma_wf_facts(&self)
        requires
            self.wf(),
        ensures
            self.weights_spec().wf(),
            self.grids_seq().len() == self.head_spec() + 1,
            self.accs().len() == MAX_PLY + 1,
            0 <= self.head_spec() <= MAX_PLY,
    {
    }

    /// Law: the invariant spelled out for a single ply.
    pub proof fn lemma_accumulator_matches(&self, p: int)
        requires
            self.wf(),
            0 <= p <= self.head_spec(),
        ensures
            grid_wf(self.grid_at(p)),
            acc_matches(self.weights_spec(), self.grid_at(p), self.acc_at(p)),
    {
    }

    pub fn new(weights: NnueWeights) -> (r: Self)
        requires
            weights.wf(),
        ensures
            r.wf(),
            r.head_spec() == 0,
            r.grid_at(0) == empty_grid(),
            r.accs().len() == MAX_PLY + 1,
            forall|p: int|
                0 <= p < MAX_PLY + 1 ==> acc_matches(
                    r.weights_spec(),
                    empty_grid(),
                    #[trigger] r.accs()[p],
                ),
            r.weights_spec() == weights,
    {
        let mut accumulator: Vec<Accumulator> = Vec::new();
        let mut i: usize = 0;
        while i < MAX_PLY as usize + 1
            invariant
                weights.wf(),
                i == accumulator@.len(),
                i <= MAX_PLY + 1,
                forall|p: int|
                    0 <= p < i ==> acc_matches(weights, empty_grid(), #[trigger] accumulator@[p]),
            decreases MAX_PLY + 1 - i,
        {
            accumulator.push(Accumulator::empty(&weights));
            i += 1;
        }
        let ghost gseq: Seq<Grid> = seq![empty_grid()];
        Nnue { weights, accumulator, head: 0, grids: Ghost(gseq) }
    }

    /// Rebuilds the head accumulator from a board's piece placement and
    /// restarts the ply stack there.
    pub fn reset(&mut self, board: &cozy_chess::Board)
        requires
            old(self).wf(),
        ensures
            final(self).wf(),
            final(self).head_spec() == 0,
            final(self).grid_at(0) == grid_of(*board),
            final(self).weights_spec() == old(self).weights_spec(),
    {
        let mut acc = Accumulator::empty(&self.weights);
        let ghost mut g: Grid = empty_grid();
        let mut sq: u8 = 0;
        while sq < 64
            invariant
                self.weights.wf(),
                sq <= 64,
                grid_wf(g),
                acc_matches(self.weights, g, acc),
                g.len() == 64,
                forall|s: int| 0 <= s < sq ==> #[trigger] g[s] == grid_of(*board)[s],
                forall|s: int| sq <= s < 64 ==> #[trigger] g[s] is None,
            decreases 64 - sq,
        {
            let piece = crate::board::board_piece_on(board, sq);
            let color = crate::board::board_color_on(board, sq);
            match (piece, color) {
                (Some(p), Some(c)) => {
                    acc.update(&self.weights, sq, None, Some((c, p)), Ghost(g));
                    proof {
                        g = g.update(sq as int, Some((c, p)));
                    }
                },
                _ => {
                    proof {
                        assert(g[sq as int] is None);
                    }
                },
            }
            sq += 1;
        }
        proof {
            assert(g =~= grid_of(*board));
        }
        self.accumulator.set(0, acc);
        self.head = 0;
        proof {
            self.grids@ = seq![grid_of(*board)];
        }
    }

    /// Advances one ply without a move: the placement is unchanged.
    pub fn null_move(&mut self)
        requires
            old(self).wf(),
            old(self).head_spec() < MAX_PLY,
        ensures
            final(self).wf(),
            final(self).head_spec() == old(self).head_spec() + 1,
            final(self).grids_seq() == old(self).grids_seq().push(
                old(self).grid_at(old(self).head_spec()),
            ),
            final(self).accs().take(old(self).head_spec() + 1) == old(self).accs().take(
                old(self).head_spec() + 1,
            ),
            final(self).weights_spec() == old(self).weights_spec(),
    {
        let acc = self.accumulator[self.head].duplicate();
        self.accumulator.set(self.head + 1, acc);
        self.head = self.head + 1;
        proof {
            self.grids@ = self.grids@.push(self.grids@[self.head - 1]);
            assert(final(self).accumulator@.take(old(self).head + 1) =~= old(
                self,
            ).accumulator@.take(old(self).head + 1));
        }
    }

    /// Applies a move's feature deltas into the next ply's accumulator.
    /// The board is the position the move is played in; the tracked
    /// placement of the head ply must be that board's placement.
    pub fn make_move(&mut self, board: &cozy_chess::Board, mv: crate::moves::MoveData)
        requires
            old(self).wf(),
            old(self).head_spec() < MAX_PLY,
            old(self).grid_at(old(self).head_spec()) == grid_of(*board),
            mv.wf(),
            piece_on_of(*board, mv.from) is Some,
            color_on_of(*board, mv.from) == Some(crate::board::stm_of(*board)),
        ensures
            final(self).wf(),
            final(self).head_spec() == old(self).head_spec() + 1,
            final(self).grids_seq() == old(self).grids_seq().push(grid_after(*board, mv)),
            final(self).accs().take(old(self).head_spec() + 1) == old(self).accs().take(
                old(self).head_spec() + 1,
            ),
            final(self).weights_spec() == old(self).weights_spec(),
    {
        let mut acc = self.accumulator[self.head].duplicate();
        let ghost g0: Grid = self.grids@[self.head as int];
        let stm = crate::board::board_stm(board);
        let moved = match crate::board::board_piece_on(board, mv.from) {
            Some(p) => p,
            None => 0,
        };
        let to_color = crate::board::board_color_on(board, mv.to);
        let to_piece = crate::board::board_piece_on(board, mv.to);
        let ghost gfinal: Grid = grid_after(*board, mv);
        if to_color == Some(stm) {
            // castling, encoded as the king capturing the own rook
            let back: u8 = if stm == 0 {
                0
            } else {
                56
            };
            let kf: u8 = if mv.to % 8 > mv.from % 8 {
                6
            } else {
                2
            };
            let rf: u8 = if mv.to % 8 > mv.from % 8 {
                5
            } else {
                3
            };
            acc.update(&self.weights, mv.from, Some((stm, moved)), None, Ghost(g0));
            let ghost g1 = g0.update(mv.from as int, None);
            let rook_old = if mv.to == mv.from {
                None
            } else {
                match (to_piece, to_color) {
                    (Some(p), Some(c)) => Some((c, p)),
                    _ => None,
                }
            };
            acc.update(&self.weights, mv.to, rook_old, None, Ghost(g1));
            let ghost g2 = g1.update(mv.to as int, None);
            let k_sq = back + kf;
            let k_old = if k_sq == mv.from || k_sq == mv.to {
                None
            } else {
                pair_on(board, k_sq)
            };
            acc.update(&self.weights, k_sq, k_old, Some((stm, 5)), Ghost(g2));
            let ghost g3 = g2.update(k_sq as int, Some((stm, 5u8)));
            let r_sq = back + rf;
            let r_old = if r_sq == mv.from || r_sq == mv.to {
                None
            } else {
                pair_on(board, r_sq)
            };
            acc.update(&self.weights, r_sq, r_old, Some((stm, 3)), Ghost(g3));
            proof {
                assert(g3.update(r_sq as int, Some((stm, 3u8))) == gfinal);
            }
        } else {
            acc.update(&self.weights, mv.from, Some((stm, moved)), None, Ghost(g0));
            let ghost g1 = g0.update(mv.from as int, None);
            let mut ep_done = false;
            let ghost g2: Grid = g1;
            if moved == 0 {
                match crate::board::board_ep_file(board) {
                    Some(f) => {
                        let target: u8 = if stm == 0 {
                            40 + f
                        } else {
                            16 + f
                        };
                        if mv.to == target {
                            let victim: u8 = if stm == 0 {
                                32 + f
                            } else {
                                24 + f
                            };
                            let v_old = if victim == mv.from {
                                None
                            } else {
                                Some((1 - stm, 0))
                            };
                            acc.update(&self.weights, victim, v_old, None, Ghost(g1));
                            proof {
                                g2 = g1.update(victim as int, None);
                            }
                            ep_done = true;
                        }
                    },
                    None => {},
                }
            }
            let placed: u8 = if mv.promotion < 6 {
                mv.promotion
            } else {
                moved
            };
            let t_old = if mv.to == mv.from {
                None
            } else {
                match (to_piece, to_color) {
                    (Some(p), Some(c)) => Some((c, p)),
                    _ => None,
                }
            };
            acc.update(&self.weights, mv.to, t_old, Some((stm, placed)), Ghost(g2));
            proof {
                assert(g2.update(mv.to as int, Some((stm, placed))) == gfinal);
            }
        }
        self.accumulator.set(self.head + 1, acc);
        self.head = self.head + 1;
        proof {
            self.grids@ = self.grids@.push(gfinal);
            assert(final(self).accumulator@.take(old(self).head + 1) =~= old(
                self,
            ).accumulator@.take(old(self).head + 1));
        }
    }

    /// Steps back one ply; the previous accumulator is untouched.
    pub fn unmake_move(&mut self)
        requires
            old(self).wf(),
            old(self).head_spec() >= 1,
        ensures
            final(self).wf(),
            final(self).head_spec() == old(self).head_spec() - 1,
            final(self).grids_seq() == old(self).grids_seq().drop_last(),
            final(self).accs() == old(self).accs(),
            final(self).weights_spec() == old(self).weights_spec(),
    {
        self.head = self.head - 1;
        proof {
            self.grids@ = self.grids@.drop_last();
        }
    }

    /// The network's centipawn evaluation of the current ply, from the
    /// given side to move and output bucket.
    pub fn feed_forward(&self, stm: u8, bucket: usize) -> (r: i32)
        requires
            self.wf(),
            stm < 2,
            bucket < self.weights_spec().buckets(),
        ensures
            r as int == ff_spec(
                self.weights_spec(),
                self.acc_at(self.head_spec()),
                stm,
                bucket as int,
            ),
            -8000 <= r <= 8000,
    {
        let acc = &self.accumulator[self.head];
        proof {
            self.lemma_accumulator_matches(self.head as int);
            lemma_acc_bounds(&self.weights, self.grids@[self.head as int], acc);
        }
        let hid = if stm == 0 {
            &acc.white
        } else {
            &acc.black
        };
        let ps = if stm == 0 {
            &acc.white_psqt
        } else {
            &acc.black_psqt
        };
        let psqt_part = tdiv_exec(ps[bucket] as i64, 64);
        let dense = dense_out(
            &self.weights.out_w,
            hid,
            bucket,
            self.weights.out_b[bucket],
            Ghost(self.weights.mid()),
            Ghost(self.weights.buckets()),
        );
        let raw: i64 = psqt_part + dense as i64;
        let clamped: i32 = if raw < -8000 {
            -8000
        } else if raw > 8000 {
            8000
        } else {
            raw as i32
        };
        clamped
    }

    /// The policy net's score for moving `piece` to `to`.
    pub fn evaluate_move(&self, stm: u8, piece: u8, to: u8) -> (r: i32)
        requires
            self.wf(),
            stm < 2,
            piece < 6,
            to < 64,
        ensures
            r as int == move_eval_spec(
                self.weights_spec(),
                self.acc_at(self.head_spec()),
                stm,
                piece,
                to,
            ),
    {
        let acc = &self.accumulator[self.head];
        proof {
            self.lemma_accumulator_matches(self.head as int);
            lemma_acc_bounds(&self.weights, self.grids@[self.head as int], acc);
            lemma_feat_range(1, 0, 0, to as int);
        }
        let hid = if stm == 0 {
            &acc.white_pol
        } else {
            &acc.black_pol
        };
        let to_persp: usize = if stm == 0 {
            to as usize
        } else {
            (7 - to as usize / 8) * 8 + to as usize % 8
        };
        let row = piece as usize * 64 + to_persp;
        proof {
            assert(view2(self.weights.pol_out_w)[row as int] == self.weights.pol_out_w@[row
                as int]@);
        }
        dense_row_out(&self.weights.pol_out_w[row], hid, self.weights.pol_out_b[row])
    }
}

/// Builds an equal accumulator.
impl Accumulator {
    pub fn duplicate(&self) -> (r: Self)
        ensures
            r.white@ == self.white@,
            r.black@ == self.black@,
            r.white_psqt@ == self.white_psqt@,
            r.black_psqt@ == self.black_psqt@,
            r.white_pol@ == self.white_pol@,
            r.black_pol@ == self.black_pol@,
    {
        Accumulator {
            white: copy_row(&self.white),
            black: copy_row(&self.black),
            white_psqt: copy_row(&self.white_psqt),
            black_psqt: copy_row(&self.black_psqt),
            white_pol: copy_row(&self.white_pol),
            black_pol: copy_row(&self.black_pol),
        }
    }
}

/// Reads the `(color, piece)` pair on a square.
fn pair_on(b: &cozy_chess::Board, sq: u8) -> (r: Option<(u8, u8)>)
    requires
        sq < 64,
    ensures
        r == grid_of(*b)[sq as int],
{
    match (crate::board::board_piece_on(b, sq), crate::board::board_color_on(b, sq)) {
        (Some(p), Some(c)) => Some((c, p)),
        _ => None,
    }
}

} // verus!
