use std::time::Duration;

use pocketjs_kobo::damage::{Rect, merge_all};
use pocketjs_kobo::epdc::{
    MXCFB_SEND_UPDATE_V1_NTX, MXCFB_WAIT_FOR_UPDATE_COMPLETE_R, MXCFB_WAIT_FOR_UPDATE_COMPLETE_V1,
    MXCFB_WAIT_FOR_UPDATE_COMPLETE_V2, PanelQueue, TEMP_USE_AMBIENT, UPDATE_DATA_V1_NTX_SIZE,
    UPDATE_MODE_FULL, UPDATE_MODE_PARTIAL, ioc,
};
use pocketjs_kobo::refresh::{RefreshKind, RefreshPolicy, RefreshRequest, Waveform};

fn rect(x: usize, y: usize, w: usize, h: usize) -> Rect {
    Rect { x, y, w, h }
}

fn at(duration: Duration) -> u128 {
    duration.as_nanos()
}

#[test]
fn first_update_is_conservative_auto() {
    let mut policy = RefreshPolicy::new(100, 200, 30, Waveform::Du, 8, 6).unwrap();
    let request = policy
        .on_damage(at(Duration::ZERO), &[rect(1, 2, 3, 4)], false)
        .unwrap();
    assert_eq!(request.waveform, Waveform::Auto);
    assert_eq!(request.kind, RefreshKind::Initial);
    assert!(!request.flash);
}

#[test]
fn motion_is_throttled_then_gets_quiet_cleanup() {
    let mut policy = RefreshPolicy::new(100, 200, 30, Waveform::A2, 8, 6).unwrap();
    policy.on_damage(at(Duration::ZERO), &[rect(0, 0, 5, 5)], false);
    assert!(
        policy
            .on_damage(at(Duration::from_millis(10)), &[rect(5, 0, 5, 5)], false)
            .is_none()
    );
    let motion = policy
        .on_damage(at(Duration::from_millis(40)), &[rect(5, 0, 5, 5)], false)
        .unwrap();
    assert_eq!(motion.waveform, Waveform::A2);
    assert_eq!(motion.kind, RefreshKind::Motion);
    assert!(!motion.flash);
    assert!(policy.on_idle(at(Duration::from_millis(239))).is_none());
    let cleanup = policy.on_idle(at(Duration::from_millis(240))).unwrap();
    assert_eq!(cleanup.kind, RefreshKind::QuietCleanup);
    assert_eq!(cleanup.waveform, Waveform::Gc16);
    assert!(cleanup.flash);
    assert_eq!(cleanup.rect, rect(5, 0, 5, 5));
}

#[test]
fn ghost_budget_forces_full_flash() {
    let mut policy = RefreshPolicy::new(100, 200, 60, Waveform::Du, 1, 6).unwrap();
    policy.on_damage(at(Duration::ZERO), &[rect(0, 0, 5, 5)], false);
    let fast = policy
        .on_damage(at(Duration::from_millis(20)), &[rect(0, 0, 5, 5)], false)
        .unwrap();
    assert_eq!(fast.kind, RefreshKind::Motion);
    let full = policy
        .on_damage(at(Duration::from_millis(40)), &[rect(0, 0, 5, 5)], false)
        .unwrap();
    assert_eq!(full.kind, RefreshKind::GhostCleanup);
    assert_eq!(full.rect, rect(0, 0, 100, 200));
    assert_eq!(full.waveform, Waveform::Gc16);
    assert!(full.flash);
}

#[test]
fn area_reaches_the_cleanup_before_the_count_does() {
    let mut policy = RefreshPolicy::new(100, 200, 60, Waveform::Du, 1000, 2).unwrap();
    let half = rect(0, 0, 100, 100);
    policy.on_damage(at(Duration::ZERO), &[half], false);
    for tick in 1..=4 {
        let request = policy
            .on_damage(at(Duration::from_millis(tick * 20)), &[half], false)
            .unwrap();
        assert_eq!(request.kind, RefreshKind::Motion, "update {tick}");
    }
    let full = policy
        .on_damage(at(Duration::from_millis(100)), &[half], false)
        .unwrap();
    assert_eq!(full.kind, RefreshKind::GhostCleanup);

    let mut roomy = RefreshPolicy::new(100, 200, 60, Waveform::Du, 1000, 64).unwrap();
    roomy.on_damage(at(Duration::ZERO), &[half], false);
    for tick in 1..=8 {
        let request = roomy
            .on_damage(at(Duration::from_millis(tick * 20)), &[half], false)
            .unwrap();
        assert_eq!(request.kind, RefreshKind::Motion, "roomy update {tick}");
    }
}

#[test]
fn explicit_reload_forces_full_cleanup() {
    let mut policy = RefreshPolicy::new(100, 200, 30, Waveform::Du, 8, 6).unwrap();
    let full = policy
        .on_damage(at(Duration::ZERO), &[rect(1, 2, 3, 4)], true)
        .unwrap();
    assert_eq!(full.kind, RefreshKind::Forced);
    assert_eq!(full.waveform, Waveform::Gc16);
    assert!(full.flash);
}

#[test]
fn the_ioctl_numbers_match_their_iow_encoding() {
    fn iow(kind: u8, nr: u8, size: usize) -> u64 {
        (1 << 30) | ((size as u64) << 16) | ((kind as u64) << 8) | nr as u64
    }
    assert_eq!(
        iow(b'F', 0x2E, UPDATE_DATA_V1_NTX_SIZE as usize),
        0x4044_462E
    );
    assert_eq!(iow(b'F', 0x2F, std::mem::size_of::<u32>()), 0x4004_462F);
    assert_eq!(MXCFB_SEND_UPDATE_V1_NTX as u64, 0x4044_462E);
    assert_eq!(MXCFB_WAIT_FOR_UPDATE_COMPLETE_V1 as u64, 0x4004_462F);
}

#[test]
fn waveforms_map_to_ntx_ids_and_auto_stays_the_sentinel() {
    assert_eq!(Waveform::Du.as_ntx(), 1);
    assert_eq!(Waveform::Gc16.as_ntx(), 2);
    assert_eq!(Waveform::A2.as_ntx(), 4);
    assert_eq!(Waveform::Auto.as_ntx(), 257);
}

#[test]
fn the_other_wait_requests_follow_the_ioc_encoding() {
    assert_eq!(ioc(2, b'F', 0x2F, 4), MXCFB_WAIT_FOR_UPDATE_COMPLETE_R);
    assert_eq!(ioc(3, b'F', 0x35, 8), MXCFB_WAIT_FOR_UPDATE_COMPLETE_V2);
    assert_eq!(ioc(1, b'F', 0x2E, UPDATE_DATA_V1_NTX_SIZE), MXCFB_SEND_UPDATE_V1_NTX);
}

#[test]
fn motion_waveforms_parse_in_any_case() {
    assert_eq!(Waveform::parse_motion("du").unwrap(), Waveform::Du);
    assert_eq!(Waveform::parse_motion("a2").unwrap(), Waveform::A2);
    assert_eq!(Waveform::parse_motion("A2").unwrap(), Waveform::A2);
    let error = Waveform::parse_motion("GC16").unwrap_err();
    assert_eq!(error.message(), "motion waveform must be DU or A2 (got \"GC16\")");
    assert!(Waveform::parse_motion("d").is_err());
    assert!(Waveform::parse_motion("dua").is_err());
    for w in [Waveform::Du, Waveform::A2] {
        assert_eq!(Waveform::parse_motion(w.name()).unwrap(), w);
    }
}

#[test]
fn waveform_names_and_indices_are_distinct() {
    let all = [Waveform::Auto, Waveform::Du, Waveform::A2, Waveform::Gc16];
    let names: Vec<&str> = all.iter().map(|w| w.name()).collect();
    assert_eq!(names, vec!["AUTO", "DU", "A2", "GC16"]);
    let indices: Vec<usize> = all.iter().map(|w| w.index()).collect();
    assert_eq!(indices, vec![0, 1, 2, 3]);
    assert!(indices.iter().all(|i| *i < Waveform::COUNT));
}

#[test]
fn present_rate_outside_one_to_sixty_is_refused() {
    assert!(RefreshPolicy::new(100, 200, 0, Waveform::Du, 8, 6).is_err());
    let error = RefreshPolicy::new(100, 200, 61, Waveform::Du, 8, 6).err().unwrap();
    assert_eq!(error.message(), "present rate must be in 1..=60 Hz");
    let policy = RefreshPolicy::new(100, 200, 30, Waveform::Du, 0, 0).unwrap();
    assert_eq!(policy.min_present_interval, 33_333_333);
    assert_eq!(policy.ghost_update_limit, 1);
    assert_eq!(policy.ghost_area_limit, 20_000);
}

#[test]
fn empty_damage_changes_nothing() {
    let mut policy = RefreshPolicy::new(100, 200, 30, Waveform::Du, 8, 6).unwrap();
    assert!(policy.on_damage(0, &[], false).is_none());
    assert!(policy.on_damage(0, &[rect(3, 3, 0, 9)], false).is_none());
    assert!(!policy.started);
    let first = policy.on_damage(0, &[rect(3, 3, 0, 9), rect(1, 1, 2, 2)], false).unwrap();
    assert_eq!(first.rect, rect(1, 1, 2, 2));
}

#[test]
fn slow_damage_is_static_and_flashless() {
    let mut policy = RefreshPolicy::new(100, 200, 30, Waveform::Du, 8, 6).unwrap();
    policy.on_damage(0, &[rect(0, 0, 5, 5)], false);
    let later = at(Duration::from_millis(500));
    let r = policy.on_damage(later, &[rect(0, 0, 5, 5)], false).unwrap();
    assert_eq!(
        r,
        RefreshRequest {
            rect: rect(0, 0, 5, 5),
            waveform: Waveform::Auto,
            flash: false,
            kind: RefreshKind::Static
        }
    );
    assert!(policy.on_idle(at(Duration::from_secs(10))).is_none());
}

#[test]
fn quiet_cleanup_covers_all_motion_and_runs_once() {
    let mut policy = RefreshPolicy::new(100, 200, 60, Waveform::Du, 8, 6).unwrap();
    policy.on_damage(0, &[rect(0, 0, 5, 5)], false);
    policy.on_damage(at(Duration::from_millis(20)), &[rect(10, 10, 5, 5)], false);
    policy.on_damage(at(Duration::from_millis(40)), &[rect(30, 2, 1, 1)], false);
    let cleanup = policy.on_idle(at(Duration::from_millis(240))).unwrap();
    assert_eq!(cleanup.rect, rect(10, 2, 21, 13));
    assert_eq!(policy.fast_updates, 0);
    assert!(policy.on_idle(at(Duration::from_millis(500))).is_none());
}

#[test]
fn forced_refresh_ignores_the_damage_and_resets_the_budget() {
    let mut policy = RefreshPolicy::new(100, 200, 60, Waveform::Du, 8, 6).unwrap();
    policy.on_damage(0, &[rect(0, 0, 5, 5)], false);
    policy.on_damage(at(Duration::from_millis(20)), &[rect(0, 0, 5, 5)], false);
    assert_eq!(policy.fast_updates, 1);
    let full = policy.on_damage(at(Duration::from_millis(40)), &[], true).unwrap();
    assert_eq!(full.rect, rect(0, 0, 100, 200));
    assert_eq!(policy.fast_updates, 0);
    assert_eq!(policy.fast_area, 0);
}

#[test]
fn damage_merges_to_its_bounding_rectangle() {
    assert_eq!(merge_all(&[]), None);
    assert_eq!(
        merge_all(&[rect(1, 1, 2, 2), rect(0, 5, 1, 1)]),
        Some(rect(0, 1, 3, 5))
    );
    assert_eq!(rect(4, 4, 1, 1).union(rect(0, 0, 1, 1)), rect(0, 0, 5, 5));
}

#[test]
fn panel_updates_carry_the_request_under_fresh_markers() {
    let mut queue = PanelQueue::new();
    let request = RefreshRequest {
        rect: rect(3, 4, 5, 6),
        waveform: Waveform::Gc16,
        flash: true,
        kind: RefreshKind::Forced,
    };
    let plan = queue.plan_update(request);
    assert_eq!((plan.left, plan.top, plan.width, plan.height), (3, 4, 5, 6));
    assert_eq!(plan.waveform_mode, 2);
    assert_eq!(plan.update_mode, UPDATE_MODE_FULL);
    assert_eq!(plan.update_marker, 1);
    assert_eq!(plan.temp, TEMP_USE_AMBIENT);
    queue.update_sent();
    assert_eq!(queue.take_pending(), Some(1));
    assert_eq!(queue.take_pending(), None);
    queue.marker = u32::MAX;
    let partial = queue.plan_update(RefreshRequest { flash: false, ..request });
    assert_eq!(partial.update_marker, 1);
    assert_eq!(partial.update_mode, UPDATE_MODE_PARTIAL);
    queue.wait_refused(22);
    assert_eq!((queue.failed_waits(), queue.last_wait_errno()), (1, 22));
}

#[test]
fn the_quiet_cleanup_repaints_exactly_the_union_of_owed_motion() {
    let ms = 1_000_000u128;
    let mut policy = RefreshPolicy::new(100, 200, 30, Waveform::Du, 8, 6).unwrap();
    assert_eq!(policy.on_damage(0, &[rect(0, 0, 1, 1)], false).unwrap().kind, RefreshKind::Initial);
    let motion = policy.on_damage(40 * ms, &[rect(10, 10, 5, 5)], false).unwrap();
    assert_eq!(motion.kind, RefreshKind::Motion);
    // Too soon after the last present: held back, but still owed.
    assert_eq!(policy.on_damage(50 * ms, &[rect(40, 50, 10, 10)], false), None);
    assert_eq!(policy.on_idle(249 * ms), None);
    let cleanup = policy.on_idle(250 * ms).unwrap();
    assert_eq!(cleanup.kind, RefreshKind::QuietCleanup);
    assert_eq!(cleanup.rect, rect(10, 10, 40, 50));
    assert!(cleanup.flash);
    assert_eq!(cleanup.waveform, Waveform::Gc16);
    assert_eq!(policy.on_idle(400 * ms), None);
}
