use raytracer::path::{next_step, PathStep, SurfaceEvent, MAX_DEPTH};

#[test]
fn miss_gives_background_at_every_depth() {
    for depth in [0u32, 1, 49, 50, 51, 1000] {
        assert_eq!(next_step(depth, SurfaceEvent::Miss), PathStep::Background);
    }
}

#[test]
fn absorption_gives_black_at_every_depth() {
    for depth in [0u32, 1, 49, 50, 51, 1000] {
        assert_eq!(next_step(depth, SurfaceEvent::Absorbed), PathStep::Black);
    }
}

#[test]
fn scatter_below_cap_goes_one_level_deeper() {
    assert_eq!(next_step(0, SurfaceEvent::Scattered), PathStep::Bounce { depth: 1 });
    assert_eq!(next_step(17, SurfaceEvent::Scattered), PathStep::Bounce { depth: 18 });
    assert_eq!(next_step(49, SurfaceEvent::Scattered), PathStep::Bounce { depth: 50 });
}

#[test]
fn scatter_at_or_past_cap_gives_black() {
    assert_eq!(MAX_DEPTH, 50);
    assert_eq!(next_step(50, SurfaceEvent::Scattered), PathStep::Black);
    assert_eq!(next_step(51, SurfaceEvent::Scattered), PathStep::Black);
    assert_eq!(next_step(u32::MAX, SurfaceEvent::Scattered), PathStep::Black);
}

#[test]
fn mirror_pair_path_is_cut_off_in_black() {
    // Between two perfect mirrors every evaluation scatters.
    let mut depth = 0u32;
    let mut evaluations = 0u32;
    let last = loop {
        evaluations += 1;
        assert!(evaluations <= 1000, "path did not end");
        match next_step(depth, SurfaceEvent::Scattered) {
            PathStep::Bounce { depth: next } => {
                assert_eq!(next, depth + 1);
                depth = next;
            }
            other => break other,
        }
    };
    assert_eq!(last, PathStep::Black);
    assert_eq!(depth, 50);
    assert_eq!(evaluations, 51);
}

#[test]
fn path_that_escapes_after_bounces_gives_background() {
    let events = [
        SurfaceEvent::Scattered,
        SurfaceEvent::Scattered,
        SurfaceEvent::Scattered,
        SurfaceEvent::Miss,
    ];
    let mut depth = 0u32;
    let mut last = None;
    for event in events {
        match next_step(depth, event) {
            PathStep::Bounce { depth: next } => depth = next,
            other => {
                last = Some(other);
                break;
            }
        }
    }
    assert_eq!(depth, 3);
    assert_eq!(last, Some(PathStep::Background));
}
