//! Aspiration window for the iterative-deepening driver. The window is
//! centered on the previous iteration's score; each failure widens the
//! failing side multiplicatively.

use vstd::prelude::*;

use crate::eval::Evaluation;
use crate::eval::MATE;
use crate::eval::WINDOW_LIMIT;

verus! {

/// Greatest half-width a window side may reach.
pub const WIDTH_LIMIT: i32 = 1_001_000;

#[derive(Debug, Clone)]
pub struct Window {
    start: i32,
    factor: i32,
    divisor: i32,
    add: i32,
    lo_width: i32,
    hi_width: i32,
    center: i32,
}

impl Window {
    /// The score the window is centered on.
    pub closed spec fn center_spec(&self) -> int {
        self.center as int
    }

    /// The half-width below the center.
    pub closed spec fn lo_spec(&self) -> int {
        self.lo_width as int
    }

    /// The half-width above the center.
    pub closed spec fn hi_spec(&self) -> int {
        self.hi_width as int
    }

    /// The starting half-width.
    pub closed spec fn start_spec(&self) -> int {
        self.start as int
    }

    /// What one failure does to a half-width: multiplicative growth
    /// `w * factor / divisor + add`, clamped into `[1, WIDTH_LIMIT]`.
    pub closed spec fn widened_spec(&self, w: int) -> int {
        let grown = w * (self.factor as int) / (self.divisor as int) + (self.add as int);
        if grown > WIDTH_LIMIT {
            WIDTH_LIMIT as int
        } else if grown < 1 {
            1
        } else {
            grown
        }
    }

    pub closed spec fn wf(&self) -> bool {
        &&& 1 <= self.start <= 1_000
        &&& 1 <= self.factor <= 16
        &&& 1 <= self.divisor <= 16
        &&& 0 <= self.add <= 1_000
        &&& 1 <= self.lo_width <= WIDTH_LIMIT
        &&& 1 <= self.hi_width <= WIDTH_LIMIT
        &&& -MATE <= self.center <= MATE
    }

    pub fn new(start: i32, factor: i32, divisor: i32, add: i32) -> (r: Self)
        requires
            1 <= start <= 1_000,
            1 <= factor <= 16,
            1 <= divisor <= 16,
            0 <= add <= 1_000,
        ensures
            r.wf(),
    {
        Window { start, factor, divisor, add, lo_width: start, hi_width: start, center: 0 }
    }

    /// Narrows both sides back to the starting width.
    pub fn reset(&mut self)
        requires
            old(self).wf(),
        ensures
            final(self).wf(),
            final(self).lo_spec() == old(self).start_spec(),
            final(self).hi_spec() == old(self).start_spec(),
            final(self).center_spec() == old(self).center_spec(),
    {
        self.lo_width = self.start;
        self.hi_width = self.start;
    }

    /// Centers the window on a completed iteration's score, clamped into
    /// the mate range.
    pub fn set(&mut self, score: Evaluation)
        requires
            old(self).wf(),
            score.wf(),
        ensures
            final(self).wf(),
            final(self).center_spec() == if score.val() > MATE {
                MATE as int
            } else if score.val() < -MATE {
                -MATE as int
            } else {
                score.val()
            },
            final(self).lo_spec() == old(self).lo_spec(),
            final(self).hi_spec() == old(self).hi_spec(),
    {
        let raw = score.raw();
        self.center = if raw > MATE {
            MATE
        } else if raw < -MATE {
            -MATE
        } else {
            raw
        };
    }

    /// The current `(alpha, beta)` pair: the center less and plus the two
    /// half-widths, clamped into the full score range; always a proper
    /// window.
    pub fn get(&self) -> (r: (Evaluation, Evaluation))
        requires
            self.wf(),
        ensures
            r.0.wf() && r.1.wf(),
            r.0.val() < r.1.val(),
            -WINDOW_LIMIT <= r.0.val(),
            r.1.val() <= WINDOW_LIMIT,
            r.0.val() == if self.center_spec() - self.lo_spec() < -WINDOW_LIMIT {
                -WINDOW_LIMIT as int
            } else {
                self.center_spec() - self.lo_spec()
            },
            r.1.val() == if self.center_spec() + self.hi_spec() > WINDOW_LIMIT {
                WINDOW_LIMIT as int
            } else {
                self.center_spec() + self.hi_spec()
            },
    {
        let lo = if self.center - self.lo_width < -WINDOW_LIMIT {
            -WINDOW_LIMIT
        } else {
            self.center - self.lo_width
        };
        let hi = if self.center + self.hi_width > WINDOW_LIMIT {
            WINDOW_LIMIT
        } else {
            self.center + self.hi_width
        };
        (Evaluation::new(lo), Evaluation::new(hi))
    }

    /// Widens the lower side after a fail-low.
    pub fn fail_low(&mut self)
        requires
            old(self).wf(),
        ensures
            final(self).wf(),
            final(self).lo_spec() == old(self).widened_spec(old(self).lo_spec()),
            final(self).hi_spec() == old(self).hi_spec(),
            final(self).center_spec() == old(self).center_spec(),
    {
        let w = self.lo_width;
        let f = self.factor;
        assert(0 <= w * f <= WIDTH_LIMIT * 16) by (nonlinear_arith)
            requires
                0 <= w <= WIDTH_LIMIT,
                0 <= f <= 16,
        ;
        let grown = w * f / self.divisor + self.add;
        self.lo_width = if grown > WIDTH_LIMIT {
            WIDTH_LIMIT
        } else if grown < 1 {
            1
        } else {
            grown
        };
    }

    /// Widens the upper side after a fail-high.
    pub fn fail_high(&mut self)
        requires
            old(self).wf(),
        ensures
            final(self).wf(),
            final(self).hi_spec() == old(self).widened_spec(old(self).hi_spec()),
            final(self).lo_spec() == old(self).lo_spec(),
            final(self).center_spec() == old(self).center_spec(),
    {
        let w = self.hi_width;
        let f = self.factor;
        assert(0 <= w * f <= WIDTH_LIMIT * 16) by (nonlinear_arith)
            requires
                0 <= w <= WIDTH_LIMIT,
                0 <= f <= 16,
        ;
        let grown = w * f / self.divisor + self.add;
        self.hi_width = if grown > WIDTH_LIMIT {
            WIDTH_LIMIT
        } else if grown < 1 {
            1
        } else {
            grown
        };
    }
}

} // verus!
