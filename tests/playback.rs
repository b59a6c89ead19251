use sprite_anim::animation::{Animation, AnimationState};
use sprite_anim::source::{AnimationSource, Spritesheet};

const I: u64 = 100_000;

fn files(frames: i32) -> AnimationSource {
    AnimationSource::Files { prefix: "f".to_string(), frames }
}

fn state(frames: i32, looping: bool) -> AnimationState {
    Animation { name: "walk".to_string(), source: files(frames), looping, frame_time: I }.to_state()
}

#[test]
fn to_state_starts_at_first_frame() {
    let s = state(4, true);
    assert_eq!(s.animation_name, "walk");
    assert_eq!(s.interval, I);
    assert!(s.looping);
    assert_eq!(s.timer, 0);
    assert_eq!(s.current_frame, 0);
}

#[test]
fn new_divides_clip_time_by_frames() {
    let sheet = AnimationSource::Spritesheet {
        name: "s".to_string(),
        spritesheet: Spritesheet { rows: 2, columns: 2 },
    };
    let s = AnimationState::new("idle".to_string(), sheet, 1_000_000, false);
    assert_eq!(s.interval, 1_000_000);
    assert_eq!(s.interval_div, 4);
    assert_eq!(s.timer, 0);
    assert_eq!(s.current_frame, 0);
    assert!(!s.looping);
    let s = AnimationState::new("idle".to_string(), files(3), 1_000_000, true);
    assert_eq!(s.interval_div, 3);
}

#[test]
fn clip_of_three_frames_finishes_at_its_end() {
    let mut s = AnimationState::new("once".to_string(), files(3), 1_000_000, false);
    assert!(!s.update_and_finished(333_333));
    assert_eq!(s.current_frame, 0);
    assert!(!s.update_and_finished(1));
    assert_eq!(s.current_frame, 1);
    assert!(!s.update_and_finished(666_665));
    assert_eq!(s.current_frame, 2);
    assert!(s.update_and_finished(1));
    assert_eq!(s.timer, 1_000_000);
    assert_eq!(s.current_frame, 2);
}

#[test]
fn progress_of_clip_is_time_over_clip_length() {
    let s = AnimationState::new("c".to_string(), files(3), 100_000, false).with_timer(100_000);
    let p = s.progress();
    assert_eq!(p.elapsed, p.duration);
    let s = AnimationState::new("c".to_string(), files(3), 100_000, false).with_timer(25_000);
    let p = s.progress();
    assert_eq!(p.elapsed as f64 / p.duration as f64, 0.25);
}

#[test]
fn clock_stops_at_largest_time() {
    let mut s = state(3, true).with_timer(u64::MAX - 5);
    s.update_and_finished(10);
    assert_eq!(s.timer, u64::MAX);
    assert_eq!(s.current_frame as u64, (u64::MAX / I) % 3);
}

#[test]
fn with_timer_sets_only_the_clock() {
    let s = state(4, true).with_timer(350_000);
    assert_eq!(s.timer, 350_000);
    assert_eq!(s.current_frame, 0);
    assert_eq!(s.interval, I);
}

#[test]
fn one_shot_finishes_when_time_reaches_all_frames() {
    let mut s = state(4, false);
    let mut first_finished = None;
    for step in 1..=60u64 {
        let finished = s.update_and_finished(10_000);
        assert!(s.current_frame <= 3);
        if finished && first_finished.is_none() {
            first_finished = Some(step * 10_000);
        }
        if s.timer >= 4 * I {
            assert!(finished);
            assert_eq!(s.current_frame, 3);
        } else {
            assert!(!finished);
            assert_eq!(s.current_frame as u64, s.timer / I);
        }
    }
    assert_eq!(first_finished, Some(4 * I));
}

#[test]
fn one_shot_stays_finished_on_last_frame() {
    let mut s = state(3, false);
    assert!(s.update_and_finished(1_000_000));
    assert_eq!(s.current_frame, 2);
    assert!(s.update_and_finished(1));
    assert_eq!(s.current_frame, 2);
    assert_eq!(s.timer, 1_000_001);
}

#[test]
fn looping_wraps_even_when_skipping_frames() {
    let mut s = state(3, true);
    let deltas = [350_000u64, 250_000, 10_000, 1_000_000, 0, 99_999];
    let mut total = 0u64;
    for d in deltas {
        total += d;
        let finished = s.update_and_finished(d);
        assert!(!finished);
        assert_eq!(s.timer, total);
        assert_eq!(s.current_frame as u64, (total / I) % 3);
    }
    assert_eq!(total, 1_709_999);
    assert_eq!(s.current_frame, 2);
}

#[test]
fn zero_delta_changes_nothing() {
    let mut s = state(5, false);
    let a = s.update_and_finished(230_000);
    let frame = s.current_frame;
    let b = s.update_and_finished(0);
    assert_eq!(a, b);
    assert_eq!(s.current_frame, frame);
    assert_eq!(s.current_frame, 2);

    let a = s.update_and_finished(900_000);
    let b = s.update_and_finished(0);
    assert!(a && b);
    assert_eq!(s.current_frame, 4);
}

#[test]
fn progress_is_not_clamped() {
    let n: u64 = 4;
    let s = state(4, false).with_timer(3 * n * I / 2);
    let p = s.progress();
    assert_eq!(p.elapsed, 600_000);
    assert_eq!(p.duration, 400_000);
    assert_eq!(p.elapsed as f64 / p.duration as f64, 1.5);
}

#[test]
fn progress_halfway() {
    let mut s = state(4, true);
    assert!(s.is_valid());
    s.update_and_finished(200_000);
    let p = s.progress();
    assert_eq!(p.elapsed as f64 / p.duration as f64, 0.5);
}
