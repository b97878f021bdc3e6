use raytracer::sampling::{judge_draw, DrawVerdict, MAX_DRAWS};

#[test]
fn inside_point_is_accepted() {
    assert_eq!(judge_draw(0, true), DrawVerdict::Accept);
    assert_eq!(judge_draw(500, true), DrawVerdict::Accept);
    assert_eq!(judge_draw(MAX_DRAWS - 1, true), DrawVerdict::Accept);
}

#[test]
fn outside_point_is_retried_while_draws_remain() {
    assert_eq!(judge_draw(0, false), DrawVerdict::Retry { rejected: 1 });
    assert_eq!(judge_draw(7, false), DrawVerdict::Retry { rejected: 8 });
    assert_eq!(judge_draw(MAX_DRAWS - 2, false), DrawVerdict::Retry { rejected: MAX_DRAWS - 1 });
}

#[test]
fn last_rejected_draw_exhausts_the_sampler() {
    assert_eq!(MAX_DRAWS, 1000);
    assert_eq!(judge_draw(MAX_DRAWS - 1, false), DrawVerdict::Exhausted);
}

#[test]
fn run_that_never_lands_inside_stops_after_max_draws() {
    let mut rejected = 0u32;
    let mut draws = 0u32;
    loop {
        draws += 1;
        match judge_draw(rejected, false) {
            DrawVerdict::Retry { rejected: next } => rejected = next,
            DrawVerdict::Exhausted => break,
            DrawVerdict::Accept => panic!("accepted a point outside the shape"),
        }
    }
    assert_eq!(draws, 1000);
}

#[test]
fn run_accepts_first_point_inside() {
    let inside = [false, false, false, true, true];
    let mut rejected = 0u32;
    let mut draws = 0u32;
    for hit in inside {
        draws += 1;
        match judge_draw(rejected, hit) {
            DrawVerdict::Retry { rejected: next } => rejected = next,
            DrawVerdict::Accept => break,
            DrawVerdict::Exhausted => panic!("exhausted too early"),
        }
    }
    assert_eq!(draws, 4);
    assert_eq!(rejected, 3);
}

#[test]
fn draw_past_the_budget_is_exhausted_unless_inside() {
    assert_eq!(judge_draw(MAX_DRAWS, false), DrawVerdict::Exhausted);
    assert_eq!(judge_draw(u32::MAX, false), DrawVerdict::Exhausted);
    assert_eq!(judge_draw(u32::MAX, true), DrawVerdict::Accept);
}
