//! The progressive-sampling accumulation controller.
//!
//! Once per presented frame the renderer asks what to do with the image
//! accumulated so far. The answer is a small state machine over
//! `total_samples`:
//!
//! * **idle** (`total_samples == 0`): start a fresh accumulation; the GPU is
//!   told to clear (`clear_samples == 1`) and the first batch of samples is
//!   counted;
//! * **accumulating** (`0 < total_samples <= samples_max_per_pixel`): keep
//!   adding `samples_per_pixel` each frame;
//! * **saturated** (`total_samples > samples_max_per_pixel`): stop sampling;
//!   `samples_per_pixel` drops to 0 and the totals freeze.
//!
//! A scene change (camera, geometry, materials or frame size, judged by the
//! caller) resets the machine to idle and restores the sampling rate that the
//! last scene snapshot held before saturation zeroed it.

use vstd::prelude::*;

verus! {

/// The per-frame render parameters, uploaded verbatim as a uniform buffer.
/// `clear_samples` is a one-frame pulse: 1 tells the GPU to discard the
/// accumulation buffer, 0 to add to it.
#[derive(Clone, Copy, PartialEq, Eq, Structural, Debug)]
pub struct RenderParam {
    pub samples_max_per_pixel: u32,
    pub samples_per_pixel: u32,
    pub total_samples: u32,
    pub clear_samples: u32,
    pub max_depth: u32,
}

/// Frame bookkeeping. Two frames count as equal when their dimensions agree:
/// the running index deliberately does not part them, so that the mere
/// passage of frames never looks like a scene change.
#[derive(Clone, Copy, Debug)]
pub struct FrameData {
    pub width: u32,
    pub height: u32,
    pub index: u32,
}

impl PartialEq for FrameData {
    fn eq(&self, other: &Self) -> (r: bool) {
        self.width == other.width && self.height == other.height
    }
}

impl vstd::std_specs::cmp::PartialEqSpecImpl for FrameData {
    open spec fn obeys_eq_spec() -> bool {
        true
    }

    open spec fn eq_spec(&self, other: &FrameData) -> bool {
        self.width == other.width && self.height == other.height
    }
}

impl RenderParam {
    /// The accumulation step never adds past the point where the counter
    /// would wrap: saturation stops it first, but only if one more batch
    /// still fits whenever the state is not yet saturated.
    pub open spec fn add_fits(self) -> bool {
        (self.total_samples == 0 || self.total_samples <= self.samples_max_per_pixel)
            ==> self.total_samples + self.samples_per_pixel <= u32::MAX
    }

    /// The successor state of one presented frame without a scene change.
    pub open spec fn update_spec(self) -> RenderParam {
        if self.total_samples == 0 {
            RenderParam {
                total_samples: (self.total_samples + self.samples_per_pixel) as u32,
                clear_samples: 1,
                ..self
            }
        } else if self.total_samples <= self.samples_max_per_pixel {
            RenderParam {
                total_samples: (self.total_samples + self.samples_per_pixel) as u32,
                clear_samples: 0,
                ..self
            }
        } else {
            RenderParam { samples_per_pixel: 0, clear_samples: 0, ..self }
        }
    }

    /// The state after a scene change: accumulation starts over and the
    /// sampling rate comes back from the last snapshot, undoing a saturation
    /// freeze. The clear pulse is left to the next [`RenderParam::update`],
    /// which fires it from the idle state.
    pub open spec fn reset_spec(self, samples_per_pixel: u32) -> RenderParam {
        RenderParam { total_samples: 0, samples_per_pixel, ..self }
    }

    /// Advances the accumulation state by one frame: count a batch of
    /// samples (clearing first when idle), or freeze once the total has
    /// passed `samples_max_per_pixel`.
    pub fn update(&mut self)
        requires
            old(self).add_fits(),
        ensures
            *final(self) == old(self).update_spec(),
    {
        if self.total_samples == 0 {
            self.total_samples = self.total_samples + self.samples_per_pixel;
            self.clear_samples = 1;
        } else if self.total_samples <= self.samples_max_per_pixel {
            self.total_samples = self.total_samples + self.samples_per_pixel;
            self.clear_samples = 0;
        } else {
            self.samples_per_pixel = 0;
            self.clear_samples = 0;
        }
    }

    /// Reacts to a scene change: the accumulated total is thrown away and
    /// the sampling rate is restored from the last scene snapshot.
    pub fn reset(&mut self, samples_per_pixel: u32)
        ensures
            *final(self) == old(self).reset_spec(samples_per_pixel),
    {
        self.total_samples = 0;
        self.samples_per_pixel = samples_per_pixel;
    }
}

/// The controller's whole per-frame decision as a function from state to
/// state: a changed scene resets to idle first, then the frame is accounted
/// as usual. Exactly one of reset-and-restart, accumulate, or freeze happens.
pub open spec fn step_spec(param: RenderParam, scene_changed: bool, snapshot_spp: u32) -> RenderParam {
    if scene_changed {
        param.reset_spec(snapshot_spp).update_spec()
    } else {
        param.update_spec()
    }
}

/// The state after `n` presented frames with no scene change.
pub open spec fn iterate_update(p: RenderParam, n: nat) -> RenderParam
    decreases n,
{
    if n == 0 {
        p
    } else {
        iterate_update(p, (n - 1) as nat).update_spec()
    }
}

/// While the total has not yet passed `samples_max_per_pixel`, every frame
/// strictly increases it by `samples_per_pixel` and touches neither the
/// sampling rate nor the cap; the clear pulse fires exactly out of the idle
/// state.
pub proof fn lemma_update_accumulates(p: RenderParam)
    requires
        p.samples_per_pixel >= 1,
        p.total_samples == 0 || p.total_samples <= p.samples_max_per_pixel,
        p.add_fits(),
    ensures
        p.update_spec().total_samples == p.total_samples + p.samples_per_pixel,
        p.update_spec().total_samples > p.total_samples,
        p.update_spec().samples_per_pixel == p.samples_per_pixel,
        p.update_spec().samples_max_per_pixel == p.samples_max_per_pixel,
        p.update_spec().max_depth == p.max_depth,
        p.update_spec().clear_samples == if p.total_samples == 0 { 1u32 } else { 0u32 },
{
}

/// Once the total has passed the cap, it never moves again: the first such
/// frame drops the sampling rate to 0 and every later frame leaves the
/// whole state fixed.
pub proof fn lemma_saturation_freezes(p: RenderParam, n: nat)
    requires
        p.total_samples > p.samples_max_per_pixel,
    ensures
        iterate_update(p, n).total_samples == p.total_samples,
        iterate_update(p, n).samples_max_per_pixel == p.samples_max_per_pixel,
        n >= 1 ==> iterate_update(p, n).samples_per_pixel == 0,
        n >= 1 ==> iterate_update(p, n).clear_samples == 0,
    decreases n,
{
    if n > 0 {
        lemma_saturation_freezes(p, (n - 1) as nat);
    }
}

/// Accumulation terminates: starting from an idle state with a positive
/// sampling rate, some frame pushes the total past the cap (and
/// [`lemma_saturation_freezes`] then keeps it there).
pub proof fn lemma_saturation_reached(p: RenderParam)
    requires
        p.total_samples == 0,
        p.samples_per_pixel >= 1,
        p.samples_max_per_pixel + p.samples_per_pixel <= u32::MAX,
    ensures
        exists|n: nat|
            iterate_update(p, n).total_samples > p.samples_max_per_pixel,
{
    lemma_saturation_reached_from(p, 0);
}

proof fn lemma_saturation_reached_from(p: RenderParam, k: nat)
    requires
        iterate_update(p, k).samples_per_pixel == p.samples_per_pixel,
        iterate_update(p, k).samples_max_per_pixel == p.samples_max_per_pixel,
        p.samples_per_pixel >= 1,
        p.samples_max_per_pixel + p.samples_per_pixel <= u32::MAX,
        iterate_update(p, k).total_samples <= p.samples_max_per_pixel + p.samples_per_pixel,
    ensures
        exists|n: nat|
            iterate_update(p, n).total_samples > p.samples_max_per_pixel,
    decreases p.samples_max_per_pixel + p.samples_per_pixel - iterate_update(p, k).total_samples,
{
    let cur = iterate_update(p, k);
    if cur.total_samples > p.samples_max_per_pixel {
        assert(iterate_update(p, k).total_samples > p.samples_max_per_pixel);
    } else {
        assert(iterate_update(p, k + 1) == cur.update_spec());
        lemma_saturation_reached_from(p, k + 1);
    }
}

/// `clear_samples` is a one-frame pulse: with a positive sampling rate, two
/// consecutive unchanged frames never both ask the GPU to clear.
pub proof fn lemma_clear_pulse(p: RenderParam)
    requires
        p.samples_per_pixel >= 1,
        p.add_fits(),
    ensures
        !(p.update_spec().clear_samples == 1 && p.update_spec().update_spec().clear_samples == 1),
{
}

/// One presented frame of the accumulation controller. `scene_changed` is
/// the caller's structural comparison of the scene against its last
/// snapshot (sample bookkeeping excluded); `snapshot_spp` is the sampling
/// rate that snapshot holds.
pub fn step(param: RenderParam, scene_changed: bool, snapshot_spp: u32) -> (next: RenderParam)
    requires
        !scene_changed ==> param.add_fits(),
    ensures
        next == step_spec(param, scene_changed, snapshot_spp),
{
    let mut p = param;
    if scene_changed {
        p.reset(snapshot_spp);
    }
    p.update();
    p
}

} // verus!
