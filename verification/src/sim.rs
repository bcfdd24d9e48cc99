//! The frame driver: one benchmark run as an explicit state machine.
//!
//! A run starts `Initialized` with a freshly generated population, moves to
//! `Running` as frames are stepped, and ends `Completed` after the fixed
//! frame count. Each frame applies the whole pipeline once and records the
//! wall-clock duration of the step in microseconds; no stage can fail, so a
//! run has no error path. The simulation outcome is a pure function of the
//! entity count and the seed — only the recorded durations depend on the
//! clock.

use crate::entity::{DT_MS, Entity, pop_wf};
use crate::gen::{generate, spec_generate};
use crate::stages::{spec_step, step};
use crate::stats::{MAX_DURATION_US, Metrics, aggregate, metrics_bounded, metrics_match};
use vstd::prelude::*;

verus! {

/// Frames one benchmark run simulates.
pub const FRAME_COUNT: u32 = 60;

/// Seed every benchmark run generates its world from, so that runs and
/// repetitions are comparable.
pub const WORLD_SEED: u32 = 12345;

#[verifier::external_type_specification]
#[verifier::external_body]
pub struct ExInstant(std::time::Instant);

/// Relies on `std::time::Instant::now`: a monotonic clock read. Nothing is
/// promised of the value read.
pub assume_specification[ std::time::Instant::now ]() -> std::time::Instant;

/// Relies on `std::time::Instant::elapsed`: the time since the read, which
/// never panics. Nothing is promised of the value.
pub assume_specification[ std::time::Instant::elapsed ](
    start: &std::time::Instant,
) -> core::time::Duration;

/// Relies on `core::time::Duration::as_micros`: the duration in whole
/// microseconds. Nothing is promised of the value.
pub assume_specification[ core::time::Duration::as_micros ](d: &core::time::Duration) -> u128;

/// The phases of one run.
#[derive(Clone, Copy, PartialEq, Eq, Structural)]
pub enum SimPhase {
    Initialized,
    Running,
    Completed,
}

/// One benchmark run: a generated population, a frame counter, and the phase
/// the run is in.
pub struct Simulation {
    pub entities: Vec<Entity>,
    pub frame: u32,
    pub frames_total: u32,
    pub phase: SimPhase,
}

/// The driver's own invariant: the population is well-formed, the frame
/// counter never passes the total, and the phase mirrors the counter.
pub open spec fn sim_wf(s: Simulation) -> bool {
    &&& pop_wf(s.entities@)
    &&& s.frame <= s.frames_total
    &&& (s.phase is Completed <==> s.frame == s.frames_total)
    &&& (s.phase is Initialized ==> s.frame == 0)
}

/// The population after the first `k` frames of the pipeline.
pub open spec fn spec_frames(s: Seq<Entity>, k: int, dt: u32) -> Seq<Entity>
    decreases k,
{
    if k <= 0 {
        s
    } else {
        spec_step(spec_frames(s, k - 1, dt), (k - 1) as u32, dt)
    }
}

impl Simulation {
    /// A fresh run over `entity_count` entities generated from `seed`.
    pub fn new(entity_count: u32, seed: u32) -> (s: Simulation)
        ensures
            s.entities@ == spec_generate(entity_count, seed),
            s.frame == 0,
            s.frames_total == FRAME_COUNT,
            s.phase is Initialized,
            sim_wf(s),
    {
        Simulation {
            entities: generate(entity_count, seed),
            frame: 0,
            frames_total: FRAME_COUNT,
            phase: SimPhase::Initialized,
        }
    }

    /// The run has stepped all its frames.
    pub fn is_complete(&self) -> (r: bool)
        ensures
            r == (self.phase is Completed),
    {
        matches!(self.phase, SimPhase::Completed)
    }

    /// Step one frame: apply the whole pipeline once, advance the counter,
    /// and hand back the wall-clock duration of the step in microseconds
    /// (clamped to `MAX_DURATION_US`). The new population is pinned by the
    /// old one and the frame index; only the duration depends on the clock.
    pub fn step_frame(&mut self) -> (dur: u64)
        requires
            sim_wf(*old(self)),
            old(self).frame < old(self).frames_total,
        ensures
            sim_wf(*final(self)),
            final(self).entities@ == spec_step(old(self).entities@, old(self).frame, DT_MS),
            final(self).frame == old(self).frame + 1,
            final(self).frames_total == old(self).frames_total,
            dur <= MAX_DURATION_US,
    {
        let started = std::time::Instant::now();
        step(&mut self.entities, self.frame, DT_MS);
        self.frame = self.frame + 1;
        self.phase = if self.frame == self.frames_total {
            SimPhase::Completed
        } else {
            SimPhase::Running
        };
        let micros = started.elapsed().as_micros();
        if micros > MAX_DURATION_US as u128 {
            MAX_DURATION_US
        } else {
            micros as u64
        }
    }

    /// Run every remaining frame and collect the per-frame durations. The
    /// final population is the pipeline folded over the whole frame range.
    pub fn run(&mut self) -> (durations: Vec<u64>)
        requires
            sim_wf(*old(self)),
            old(self).frame == 0,
        ensures
            sim_wf(*final(self)),
            final(self).phase is Completed,
            final(self).entities@ == spec_frames(
                old(self).entities@,
                old(self).frames_total as int,
                DT_MS,
            ),
            durations@.len() == old(self).frames_total,
            forall|i: int| 0 <= i < durations@.len() ==> #[trigger] durations@[i]
                <= MAX_DURATION_US,
    {
        let total = self.frames_total;
        let mut durations: Vec<u64> = Vec::new();
        while self.frame < total
            invariant
                sim_wf(*self),
                self.frames_total == total,
                self.entities@ == spec_frames(old(self).entities@, self.frame as int, DT_MS),
                durations@.len() == self.frame as int,
                forall|i: int| 0 <= i < durations@.len() ==> #[trigger] durations@[i]
                    <= MAX_DURATION_US,
            decreases total - self.frame,
        {
            let d = self.step_frame();
            durations.push(d);
        }
        durations
    }
}

/// One full benchmark run: generate the population from the fixed world seed,
/// simulate the full frame range, and aggregate the recorded durations. The
/// metrics summarise some sequence of clock-read durations, one per frame,
/// exactly as `metrics_match` states.
pub fn run_benchmark(entity_count: u32) -> (m: Metrics)
    ensures
        exists|d: Seq<u64>|
            d.len() == FRAME_COUNT as int && #[trigger] metrics_match(d, m),
        metrics_bounded(m),
{
    let mut sim = Simulation::new(entity_count, WORLD_SEED);
    let durations = sim.run();
    let m = aggregate(&durations);
    proof {
        assert(durations@.len() == FRAME_COUNT as int && metrics_match(durations@, m));
    }
    m
}

} // verus!
