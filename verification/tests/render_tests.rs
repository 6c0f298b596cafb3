use ray_core::render::{step, FrameData, RenderParam};

fn fresh(spp: u32, max: u32) -> RenderParam {
    RenderParam {
        samples_max_per_pixel: max,
        samples_per_pixel: spp,
        total_samples: 0,
        clear_samples: 0,
        max_depth: 8,
    }
}

#[test]
fn accumulation_counts_up_then_freezes() {
    // One sample per pixel, cap of four: the first frame clears and counts,
    // the next ones add silently, and the frame after the total passes the
    // cap drops the sampling rate to zero for good.
    let mut p = fresh(1, 4);
    let expected = [(1, 1), (2, 0), (3, 0), (4, 0)];
    for (total, clear) in expected {
        p.update();
        assert_eq!(p.total_samples, total);
        assert_eq!(p.clear_samples, clear);
        assert_eq!(p.samples_per_pixel, 1);
    }
    // The cap check runs before the increment, so the boundary frame still
    // accumulates: 4 <= 4 pushes the total to 5.
    p.update();
    assert_eq!(p.total_samples, 5);
    assert_eq!(p.clear_samples, 0);
    assert_eq!(p.samples_per_pixel, 1);
    // From here on the state is frozen.
    for _ in 0..3 {
        p.update();
        assert_eq!(p.total_samples, 5);
        assert_eq!(p.samples_per_pixel, 0);
        assert_eq!(p.clear_samples, 0);
    }
}

#[test]
fn totals_strictly_increase_until_saturation() {
    let mut p = fresh(3, 10);
    let mut last = 0;
    while p.total_samples <= p.samples_max_per_pixel {
        p.update();
        assert!(p.total_samples > last);
        assert_eq!(p.total_samples, last + 3);
        last = p.total_samples;
    }
    let frozen = p.total_samples;
    p.update();
    assert_eq!(p.total_samples, frozen);
    assert_eq!(p.samples_per_pixel, 0);
}

#[test]
fn scene_change_resets_and_restores_rate() {
    // Run to saturation (sampling rate zeroed), then a camera move at
    // frame 6: the total resets, the pre-saturation rate comes back from
    // the snapshot, and the next accounted frame starts a fresh epoch with
    // a clear pulse.
    let mut p = fresh(1, 4);
    for _ in 0..6 {
        p.update();
    }
    assert_eq!(p.samples_per_pixel, 0);
    assert_eq!(p.total_samples, 5);

    let snapshot_spp = 1;
    let next = step(p, true, snapshot_spp);
    assert_eq!(next.total_samples, 1);
    assert_eq!(next.samples_per_pixel, 1);
    assert_eq!(next.clear_samples, 1);
}

#[test]
fn reset_alone_returns_to_idle() {
    let mut p = fresh(2, 8);
    for _ in 0..3 {
        p.update();
    }
    p.reset(2);
    assert_eq!(p.total_samples, 0);
    assert_eq!(p.samples_per_pixel, 2);
}

#[test]
fn unchanged_scene_steps_like_update() {
    let p = fresh(2, 8);
    let a = step(p, false, 7);
    assert_eq!(a.total_samples, 2);
    assert_eq!(a.clear_samples, 1);
    let b = step(a, false, 7);
    assert_eq!(b.total_samples, 4);
    assert_eq!(b.clear_samples, 0);
}

#[test]
fn clear_pulse_lasts_one_frame() {
    let mut p = fresh(1, 100);
    p.update();
    assert_eq!(p.clear_samples, 1);
    p.update();
    assert_eq!(p.clear_samples, 0);
    p.update();
    assert_eq!(p.clear_samples, 0);
}

#[test]
fn frame_data_equality_ignores_the_index() {
    let a = FrameData { width: 800, height: 600, index: 5 };
    let b = FrameData { width: 800, height: 600, index: 99 };
    let c = FrameData { width: 800, height: 601, index: 5 };
    let d = FrameData { width: 801, height: 600, index: 5 };
    assert!(a == b);
    assert!(a != c);
    assert!(a != d);
}
