//! Tunable coefficients of the search. The engine treats these as inputs;
//! `SearchParams::new` supplies the standard set.

use vstd::prelude::*;

verus! {

/// Hard bound on the number of plies from the root. Both the main search
/// and the quiescence search stop at this depth.
pub const MAX_PLY: u32 = 128;

/// Capacity of each killer / threat move slot.
pub const MOVE_ENTRY_CAP: usize = 2;

/// A linear depth-dependent margin: `base + factor * depth`.
#[derive(Debug, Clone, Copy)]
pub struct Threshold {
    pub base: i32,
    pub factor: i32,
}

impl Threshold {
    pub open spec fn wf(&self) -> bool {
        &&& 0 <= self.base <= 10_000
        &&& 0 <= self.factor <= 10_000
    }

    pub fn new(base: i32, factor: i32) -> (r: Self)
        ensures
            r.base == base,
            r.factor == factor,
    {
        Threshold { base, factor }
    }

    /// The margin at a given depth.
    pub fn threshold(&self, depth: u32) -> (r: i32)
        requires
            self.wf(),
            depth <= MAX_PLY,
        ensures
            r == self.base + self.factor * depth,
            0 <= r <= 1_290_000,
    {
        let f = self.factor;
        let d = depth as i32;
        assert(0 <= f * d <= 10_000 * 128) by (nonlinear_arith)
            requires
                0 <= f <= 10_000,
                0 <= d <= 128,
        ;
        self.base + f * d
    }
}

/// A depth-dependent search reduction: `base + depth / factor + offset`.
#[derive(Debug, Clone, Copy)]
pub struct Reduction {
    pub base: u32,
    pub factor: u32,
    pub offset: u32,
}

impl Reduction {
    pub open spec fn wf(&self) -> bool {
        &&& self.base <= 100
        &&& 1 <= self.factor <= 100
        &&& self.offset <= 100
    }

    pub fn new(base: u32, factor: u32, offset: u32) -> (r: Self)
        requires
            1 <= factor,
        ensures
            r.base == base,
            r.factor == factor,
            r.offset == offset,
    {
        Reduction { base, factor, offset }
    }

    /// Plies taken off the remaining depth.
    pub fn reduction(&self, depth: u32) -> (r: u32)
        requires
            self.wf(),
            depth <= 100_000,
        ensures
            r == self.base + depth as int / self.factor as int + self.offset,
    {
        self.base + depth / self.factor + self.offset
    }
}

/// All pruning, reduction and quiescence coefficients consulted by the
/// search.
#[derive(Debug, Clone)]
pub struct SearchParams {
    pub fail_cnt: u8,
    pub fp: i32,
    pub do_fp_flag: bool,
    pub rev_f_prune_depth: u32,
    pub rev_fp: Threshold,
    pub do_rev_fp_flag: bool,
    pub nmp: Reduction,
    pub nmp_depth: u32,
    pub do_nmp_flag: bool,
    pub lmr_depth: u32,
    pub do_lmr_flag: bool,
    pub do_lmp_flag: bool,
    pub q_search_depth: u32,
    pub delta_margin: i32,
    pub do_dp_flag: bool,
    pub do_see_prune_flag: bool,
    pub h_reduce_divisor: i32,
}

impl SearchParams {
    pub open spec fn wf(&self) -> bool {
        &&& 0 <= self.fp <= 10_000
        &&& self.rev_fp.wf()
        &&& self.nmp.wf()
        &&& self.rev_f_prune_depth <= MAX_PLY
        &&& 1 <= self.q_search_depth <= MAX_PLY
        &&& 0 <= self.delta_margin <= 10_000
        &&& 1 <= self.h_reduce_divisor <= 10_000
    }

    /// The standard coefficient set.
    pub fn new() -> (r: Self)
        ensures
            r.wf(),
            r.q_search_depth == 32,
    {
        SearchParams {
            fail_cnt: 5,
            fp: 100,
            do_fp_flag: true,
            rev_f_prune_depth: 7,
            rev_fp: Threshold::new(0, 100),
            do_rev_fp_flag: true,
            nmp: Reduction::new(2, 4, 1),
            nmp_depth: 5,
            do_nmp_flag: true,
            lmr_depth: 2,
            do_lmr_flag: true,
            do_lmp_flag: true,
            q_search_depth: 32,
            delta_margin: 300,
            do_dp_flag: true,
            do_see_prune_flag: true,
            h_reduce_divisor: 256,
        }
    }

    pub fn get_q_search_depth(&self) -> (r: u32)
        ensures
            r == self.q_search_depth,
    {
        self.q_search_depth
    }

    pub fn get_delta(&self) -> (r: i32)
        ensures
            r == self.delta_margin,
    {
        self.delta_margin
    }

    pub fn do_dp(&self) -> (r: bool)
        ensures
            r == self.do_dp_flag,
    {
        self.do_dp_flag
    }

    pub fn do_see_prune(&self) -> (r: bool)
        ensures
            r == self.do_see_prune_flag,
    {
        self.do_see_prune_flag
    }

    pub fn do_rev_f_prune(&self, depth: u32) -> (r: bool)
        ensures
            r == (depth < self.rev_f_prune_depth),
    {
        depth < self.rev_f_prune_depth
    }

    pub fn get_rev_fp(&self) -> (r: &Threshold)
        ensures
            r == self.rev_fp,
    {
        &self.rev_fp
    }

    pub fn do_rev_fp(&self) -> (r: bool)
        ensures
            r == self.do_rev_fp_flag,
    {
        self.do_rev_fp_flag
    }

    pub fn get_fp(&self) -> (r: i32)
        ensures
            r == self.fp,
    {
        self.fp
    }

    pub fn do_fp(&self) -> (r: bool)
        ensures
            r == self.do_fp_flag,
    {
        self.do_fp_flag
    }

    pub fn get_nmp(&self) -> (r: &Reduction)
        ensures
            r == self.nmp,
    {
        &self.nmp
    }

    pub fn do_nmp(&self, depth: u32) -> (r: bool)
        ensures
            r == (self.do_nmp_flag && depth >= self.nmp_depth),
    {
        self.do_nmp_flag && depth >= self.nmp_depth
    }

    pub fn do_lmr(&self, depth: u32) -> (r: bool)
        ensures
            r == (self.do_lmr_flag && depth >= self.lmr_depth),
    {
        self.do_lmr_flag && depth >= self.lmr_depth
    }

    pub fn do_lmp(&self) -> (r: bool)
        ensures
            r == self.do_lmp_flag,
    {
        self.do_lmp_flag
    }

    pub fn get_h_reduce_div(&self) -> (r: i32)
        ensures
            r == self.h_reduce_divisor,
    {
        self.h_reduce_divisor
    }

    pub fn get_fail_cnt(&self) -> (r: u8)
        ensures
            r == self.fail_cnt,
    {
        self.fail_cnt
    }
}

} // verus!
