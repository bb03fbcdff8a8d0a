//! Time management strategies. The driver polls `abort` between nodes and
//! iterations; the answer may depend on the clock or on another thread's
//! stop request, so nothing is promised about it. The flag and counter
//! cells are shared-memory atomics so that a controller thread can adjust
//! them while a search runs.

use vstd::prelude::*;

use crate::eval::Evaluation;
use crate::moves::MoveData;

verus! {

#[verifier::external_type_specification]
#[verifier::external_body]
pub struct ExInstant(std::time::Instant);

/// The flag and counter cells: `vstd` gives the atomics of `std` no value
/// semantics, which is exactly right for cells raced by other threads.
fn flag_new(v: bool) -> core::sync::atomic::AtomicBool {
    core::sync::atomic::AtomicBool::new(v)
}

fn flag_load(f: &core::sync::atomic::AtomicBool) -> bool {
    f.load(core::sync::atomic::Ordering::SeqCst)
}

fn flag_store(f: &core::sync::atomic::AtomicBool, v: bool) {
    f.store(v, core::sync::atomic::Ordering::SeqCst);
}

fn cell_new(v: u32) -> core::sync::atomic::AtomicU32 {
    core::sync::atomic::AtomicU32::new(v)
}

fn cell_load(c: &core::sync::atomic::AtomicU32) -> u32 {
    c.load(core::sync::atomic::Ordering::SeqCst)
}

fn cell_store(c: &core::sync::atomic::AtomicU32, v: u32) {
    c.store(v, core::sync::atomic::Ordering::SeqCst);
}

/// Relies on `std::time::Instant::now`.
#[verifier::external_body]
pub fn instant_now() -> std::time::Instant {
    std::time::Instant::now()
}

/// Relies on `std::time::Instant::elapsed`.
#[verifier::external_body]
pub fn instant_elapsed(i: &std::time::Instant) -> core::time::Duration {
    i.elapsed()
}

/// Relies on `core::time::Duration::as_millis`.
#[verifier::external_body]
pub fn duration_millis(d: &core::time::Duration) -> u64 {
    d.as_millis() as u64
}

/// The hooks a search driver or its controller consults: one call at the
/// start of a search, one after each finished iteration, a frequently
/// polled abort test, and a reset between games. (The verified driver
/// dispatches over the concrete strategies; trait objects live with the
/// embedder.) Answers may depend on the clock, so none carries a
/// contract.
pub trait TimeManager {
    fn initiate(&self, time_left_millis: u64, board: &cozy_chess::Board);

    fn deepen(
        &self,
        thread: u8,
        depth: u32,
        nodes: u64,
        eval: Evaluation,
        best_move: MoveData,
        elapsed_millis: u64,
    );

    fn abort(&self, elapsed_millis: u64, depth: u32, nodes: u64) -> bool;

    fn clear(&self);
}

/// Searches to a fixed depth.
#[derive(Debug)]
pub struct ConstDepth {
    depth: core::sync::atomic::AtomicU32,
}

impl ConstDepth {
    pub fn new(depth: u32) -> Self {
        ConstDepth { depth: cell_new(depth) }
    }

    pub fn set_depth(&self, depth: u32) {
        cell_store(&self.depth, depth);
    }
}

impl TimeManager for ConstDepth {
    fn initiate(&self, _time_left_millis: u64, _board: &cozy_chess::Board) {
    }

    fn deepen(
        &self,
        _thread: u8,
        _depth: u32,
        _nodes: u64,
        _eval: Evaluation,
        _best_move: MoveData,
        _elapsed_millis: u64,
    ) {
    }

    fn abort(&self, _elapsed_millis: u64, depth: u32, _nodes: u64) -> bool {
        depth >= cell_load(&self.depth)
    }

    fn clear(&self) {
    }
}

/// Searches for a fixed span of time.
#[derive(Debug)]
pub struct ConstTime {
    target_millis: core::sync::atomic::AtomicU32,
    std_target_millis: core::sync::atomic::AtomicU32,
}

impl ConstTime {
    pub fn new(target_millis: u32) -> Self {
        ConstTime {
            target_millis: cell_new(target_millis),
            std_target_millis: cell_new(target_millis),
        }
    }

    pub fn set_duration(&self, target_millis: u32) {
        cell_store(&self.target_millis, target_millis);
    }
}

impl TimeManager for ConstTime {
    fn initiate(&self, _time_left_millis: u64, _board: &cozy_chess::Board) {
    }

    fn deepen(
        &self,
        _thread: u8,
        _depth: u32,
        _nodes: u64,
        _eval: Evaluation,
        _best_move: MoveData,
        _elapsed_millis: u64,
    ) {
    }

    fn abort(&self, elapsed_millis: u64, _depth: u32, _nodes: u64) -> bool {
        (cell_load(&self.target_millis) as u64) < elapsed_millis
    }

    fn clear(&self) {
        cell_store(&self.target_millis, cell_load(&self.std_target_millis));
    }
}

/// Aborts when told to, from any thread.
#[derive(Debug)]
pub struct ManualAbort {
    abort: core::sync::atomic::AtomicBool,
}

impl ManualAbort {
    pub fn new() -> Self {
        ManualAbort { abort: flag_new(false) }
    }

    pub fn quick_abort(&self) {
        flag_store(&self.abort, true);
    }
}

impl TimeManager for ManualAbort {
    fn initiate(&self, _time_left_millis: u64, _board: &cozy_chess::Board) {
        flag_store(&self.abort, false);
    }

    fn deepen(
        &self,
        _thread: u8,
        _depth: u32,
        _nodes: u64,
        _eval: Evaluation,
        _best_move: MoveData,
        _elapsed_millis: u64,
    ) {
    }

    fn abort(&self, _elapsed_millis: u64, _depth: u32, _nodes: u64) -> bool {
        flag_load(&self.abort)
    }

    fn clear(&self) {
    }
}

/// A ratio kept for time-allocation policies.
#[derive(Debug, Clone, Copy, PartialEq, Eq, Structural)]
pub struct Percentage {
    pub numerator: u32,
    pub denominator: u32,
}

} // verus!
