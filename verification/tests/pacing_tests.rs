use pocketjs_kobo::damage::Rect;
use pocketjs_kobo::pacing::{FrameState, MAX_CATCHUP_TICKS, Pacer};
use pocketjs_kobo::text::{decimal_text, signed_decimal_text};

#[test]
fn the_interval_is_a_second_over_the_rate() {
    let p = Pacer::new(5, 30);
    assert_eq!(p.next_tick, 5);
    assert_eq!(p.interval, 33_333_333);
    assert_eq!(Pacer::new(0, 60).interval, 16_666_666);
}

#[test]
fn a_late_loop_catches_up_at_most_the_budget() {
    let mut p = Pacer::new(0, 10);
    let now = 1_000_000_000;
    let mut ran = 0;
    while p.due(now, ran) {
        p.advance();
        ran += 1;
    }
    assert_eq!(ran, MAX_CATCHUP_TICKS);
    assert_eq!(p.next_tick, 400_000_000);
    assert!(p.settle(now, ran));
    assert_eq!(p.next_tick, now + 100_000_000);
    assert_eq!(p.sleep_for(now), 100_000_000);
}

#[test]
fn an_on_time_loop_keeps_its_schedule() {
    let mut p = Pacer::new(0, 10);
    let mut ran = 0;
    while p.due(50_000_000, ran) {
        p.advance();
        ran += 1;
    }
    assert_eq!(ran, 1);
    assert!(!p.settle(50_000_000, ran));
    assert_eq!(p.next_tick, 100_000_000);
    assert_eq!(p.sleep_for(150_000_000), 0);
}

#[test]
fn a_guests_first_frame_repaints_everything_once() {
    let render = Rect { x: 0, y: 0, w: 758, h: 1024 };
    let small = vec![Rect { x: 1, y: 2, w: 3, h: 4 }];
    let mut frames = FrameState::new();
    assert!(!frames.force_refresh);
    assert_eq!(frames.round_damage(0, small.clone(), render), small);
    assert_eq!(frames.round_damage(2, small.clone(), render), vec![render]);
    assert_eq!(frames.round_damage(1, small.clone(), render), small);
    frames.reloaded();
    assert!(frames.force_refresh);
    assert_eq!(frames.round_damage(1, Vec::new(), render), vec![render]);
    frames.presented();
    assert!(!frames.force_refresh && !frames.first_frame);
}

#[test]
fn integers_are_written_as_display_writes_them() {
    assert_eq!(decimal_text(0), "0");
    assert_eq!(decimal_text(7), "7");
    assert_eq!(decimal_text(1024), "1024");
    assert_eq!(decimal_text(u64::MAX), u64::MAX.to_string());
    assert_eq!(signed_decimal_text(-1200), "-1200");
    assert_eq!(signed_decimal_text(i32::MIN), i32::MIN.to_string());
    assert_eq!(signed_decimal_text(i32::MAX), i32::MAX.to_string());
}
