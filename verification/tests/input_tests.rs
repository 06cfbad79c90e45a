use pocketjs_kobo::devices::{Input, TouchDevice, order_devices};
use pocketjs_kobo::damage::Rect;
use pocketjs_kobo::geometry::{Geometry, Rotation};
use pocketjs_kobo::input::{
    AxisRange, Calibration, RangeOverride, flag_enabled, map_contact, normalize, normalize_ok,
    pack_touch, parse_bound,
};
use pocketjs_kobo::touch::{
    ABS_MT_POSITION_X, ABS_MT_POSITION_Y, ABS_MT_SLOT, ABS_MT_TRACKING_ID, ABS_X, ABS_Y,
    AxisChoice, BTN_TOUCH, Contact, EV_ABS, EV_KEY, EV_SYN, EVIOCGRAB, MAX_CONTACTS, SYN_DROPPED,
    SYN_REPORT, TouchState, axis_extent, choose_axes, event_code_set, eviocgabs, eviocgbit,
};

#[test]
fn normalization_clamps_and_rounds_endpoints() {
    let range = AxisRange {
        min: 100,
        max: 1100,
    };
    assert_eq!(normalize(0, range, 758), 0);
    assert_eq!(normalize(600, range, 758), 379);
    assert_eq!(normalize(2000, range, 758), 757);
}

#[test]
fn multitouch_slots_pack_wire_contacts() {
    let mut state = TouchState::new(true);
    state.apply(EV_ABS, ABS_MT_SLOT, 2);
    state.apply(EV_ABS, ABS_MT_TRACKING_ID, 0x1234);
    state.apply(EV_ABS, ABS_MT_POSITION_X, 511);
    state.apply(EV_ABS, ABS_MT_POSITION_Y, 412);
    let contact = state.contacts[2];
    assert!(contact.active);
    assert_eq!(pack_touch(2, 511, 412), (2 << 18) | (412 << 9) | 511);
    state.apply(EV_ABS, ABS_MT_TRACKING_ID, -1);
    assert!(!state.contacts[2].active);
}

#[test]
fn invalid_multitouch_slots_are_ignored_instead_of_aliased() {
    let mut state = TouchState::new(true);
    state.apply(EV_ABS, ABS_MT_SLOT, 2);
    state.apply(EV_ABS, ABS_MT_TRACKING_ID, 12);
    state.apply(EV_ABS, ABS_MT_POSITION_X, 10);
    state.apply(EV_ABS, ABS_MT_SLOT, MAX_CONTACTS as i32 + 2);
    state.apply(EV_ABS, ABS_MT_TRACKING_ID, 99);
    state.apply(EV_ABS, ABS_MT_POSITION_X, 200);
    assert!(state.contacts[2].active);
    assert_eq!(state.contacts[2].id, 12);
    assert_eq!(state.contacts[2].x, 10);
    assert_eq!(
        state
            .contacts
            .iter()
            .filter(|contact| contact.active)
            .count(),
        1
    );
}

#[test]
fn syn_dropped_clears_contacts_and_discards_until_report() {
    let mut state = TouchState::new(true);
    state.apply(EV_ABS, ABS_MT_SLOT, 1);
    state.apply(EV_ABS, ABS_MT_TRACKING_ID, 42);
    assert!(state.contacts[1].active);

    assert!(state.apply(EV_SYN, SYN_DROPPED, 0));
    assert!(state.contacts.iter().all(|contact| !contact.active));
    state.apply(EV_ABS, ABS_MT_SLOT, 1);
    state.apply(EV_ABS, ABS_MT_TRACKING_ID, 77);
    state.apply(EV_SYN, SYN_REPORT, 0);
    assert!(state.contacts.iter().all(|contact| !contact.active));

    state.apply(EV_ABS, ABS_MT_SLOT, 1);
    state.apply(EV_ABS, ABS_MT_TRACKING_ID, 77);
    assert!(state.contacts[1].active);
    assert_eq!(state.contacts[1].id, 77);
}

#[test]
fn single_touch_down_and_up_are_stateful() {
    let mut state = TouchState::new(false);
    state.apply(EV_ABS, ABS_X, 10);
    state.apply(EV_ABS, ABS_Y, 20);
    state.apply(EV_KEY, BTN_TOUCH, 1);
    assert!(state.contacts[0].active);
    state.apply(EV_KEY, BTN_TOUCH, 0);
    assert!(!state.contacts[0].active);
}

fn glo_geometry() -> Geometry {
    Geometry::exact(379, 512, 2, 758, 1024, None).expect("Glo geometry")
}

fn corner(calibration: Calibration, raw_x: i32, raw_y: i32) -> (u32, u32) {
    let range = AxisRange { min: 0, max: 1000 };
    let contact = Contact {
        active: true,
        id: 0,
        x: raw_x,
        y: raw_y,
    };
    let report = map_contact(calibration, range, range, 0, contact, &glo_geometry());
    (report.logical_x, report.logical_y)
}

#[test]
fn calibration_swaps_before_it_mirrors() {
    let swap_then_flip = Calibration {
        swap_xy: true,
        flip_x: true,
        flip_y: false,
    };
    assert_eq!(corner(swap_then_flip, 0, 0), (378, 0));
    assert_eq!(corner(swap_then_flip, 1000, 0), (378, 511));
}

#[test]
fn identity_calibration_maps_raw_extremes_to_logical_extremes() {
    let identity = Calibration::default();
    assert_eq!(corner(identity, 0, 0), (0, 0));
    assert_eq!(corner(identity, 1000, 1000), (378, 511));
    assert_eq!(corner(identity, 500, 500), (189, 256));
}

#[test]
fn every_probe_report_carries_the_raw_values_that_produced_it() {
    let report = map_contact(
        Calibration::default(),
        AxisRange { min: 0, max: 1000 },
        AxisRange { min: 0, max: 1000 },
        3,
        Contact {
            active: true,
            id: 7,
            x: 250,
            y: 750,
        },
        &glo_geometry(),
    );
    assert_eq!(report.slot, 3);
    assert_eq!((report.raw_x, report.raw_y), (250, 750));
    assert_eq!((report.panel_x, report.panel_y), (189, 767));
    assert_eq!((report.logical_x, report.logical_y), (94, 383));
}

#[test]
fn an_axis_override_replaces_only_the_bounds_it_names() {
    let declared = AxisRange { min: 0, max: 1200 };
    let other = AxisRange { min: 0, max: 1600 };
    let overrides = RangeOverride {
        x_max: Some(1023),
        y_max: Some(757),
        ..RangeOverride::default()
    };
    let (x, y) = overrides.apply(declared, other).expect("override applies");
    assert_eq!(x, AxisRange { min: 0, max: 1023 });
    assert_eq!(y, AxisRange { min: 0, max: 757 });
}

#[test]
fn an_override_that_would_collapse_an_axis_is_rejected() {
    let range = AxisRange { min: 0, max: 1200 };
    let overrides = RangeOverride {
        x_min: Some(900),
        x_max: Some(100),
        ..RangeOverride::default()
    };
    let error = overrides.apply(range, range).unwrap_err().message();
    assert!(error.contains("touch x range override is empty"));
}

#[test]
fn the_glo_digitizer_reaches_both_screen_edges_once_overridden() {
    let declared_x = AxisRange { min: 0, max: 1200 };
    let declared_y = AxisRange { min: 0, max: 1600 };
    let calibration = Calibration {
        swap_xy: true,
        flip_x: true,
        flip_y: false,
    };
    let contact = |x, y| Contact {
        active: true,
        id: 0,
        x,
        y,
    };
    let geometry = glo_geometry();

    let declared_left = map_contact(
        calibration,
        declared_x,
        declared_y,
        0,
        contact(0, 757),
        &geometry,
    );
    assert_eq!(declared_left.logical_x, 199);

    let overrides = RangeOverride {
        x_max: Some(1023),
        y_max: Some(757),
        ..RangeOverride::default()
    };
    let (x_range, y_range) = overrides.apply(declared_x, declared_y).expect("override");
    let corner = |x, y| map_contact(calibration, x_range, y_range, 0, contact(x, y), &geometry);
    assert_eq!((corner(0, 757).logical_x, corner(0, 757).logical_y), (0, 0));
    assert_eq!((corner(0, 0).logical_x, corner(0, 0).logical_y), (378, 0));
    assert_eq!(
        (corner(1023, 757).logical_x, corner(1023, 757).logical_y),
        (0, 511)
    );
    assert_eq!(
        (corner(1023, 0).logical_x, corner(1023, 0).logical_y),
        (378, 511)
    );
}

#[test]
fn runtime_requires_a_discoverable_touchscreen() {
    let input = Input {
        devices: Vec::new(),
        calibration: Calibration::default(),
    };
    let error = input.grab_selected().unwrap_err().message();
    assert!(error.contains("Glo runtime requires a discoverable evdev touchscreen"));
}

fn device(handle: usize, mt: bool) -> TouchDevice {
    TouchDevice {
        handle,
        path: format!("/dev/input/event{handle}"),
        grabbed: false,
        x_range: AxisRange { min: 0, max: 1000 },
        y_range: AxisRange { min: 0, max: 1000 },
        state: TouchState::new(mt),
    }
}

#[test]
fn multitouch_devices_are_selected_before_single_contact_ones() {
    let ordered = order_devices(vec![
        device(0, false),
        device(1, true),
        device(2, false),
        device(3, true),
    ]);
    let handles: Vec<usize> = ordered.iter().map(|d| d.handle).collect();
    assert_eq!(handles, vec![1, 3, 0, 2]);
}

#[test]
fn the_first_device_is_grabbed_once() {
    let mut input = Input::new(vec![device(4, true)], Calibration::default());
    assert_eq!(input.grab_selected().unwrap(), Some(0));
    input.set_grabbed(0, true);
    assert_eq!(input.grab_selected().unwrap(), None);
    assert_eq!(input.device_count(), 1);
}

#[test]
fn polled_contacts_are_packed_in_slot_order() {
    let mut touchscreen = device(0, true);
    for (slot, x, y) in [(5, 1000, 0), (1, 0, 1000)] {
        touchscreen.state.apply(EV_ABS, ABS_MT_SLOT, slot);
        touchscreen.state.apply(EV_ABS, ABS_MT_TRACKING_ID, 40 + slot);
        touchscreen.state.apply(EV_ABS, ABS_MT_POSITION_X, x);
        touchscreen.state.apply(EV_ABS, ABS_MT_POSITION_Y, y);
    }
    let input = Input::new(vec![touchscreen], Calibration::default());
    let geometry = glo_geometry();
    let reports = input.poll_reports(&geometry);
    assert_eq!(reports.len(), 2);
    assert_eq!((reports[0].slot, reports[0].logical_x, reports[0].logical_y), (1, 0, 511));
    assert_eq!((reports[1].slot, reports[1].logical_x, reports[1].logical_y), (5, 378, 0));
    assert_eq!(
        input.poll_touches(&geometry),
        vec![(1 << 18) | (511 << 9), (5 << 18) | 378]
    );
}

#[test]
fn overrides_reach_every_device_or_none() {
    let mut input = Input::new(vec![device(0, true), device(1, false)], Calibration::default());
    let fine = RangeOverride {
        x_max: Some(1023),
        ..RangeOverride::default()
    };
    assert!(input.apply_overrides(&fine).is_ok());
    assert!(input.devices.iter().all(|d| d.x_range == AxisRange { min: 0, max: 1023 }));
    let collapsing = RangeOverride {
        y_min: Some(5000),
        ..RangeOverride::default()
    };
    let error = input.apply_overrides(&collapsing).unwrap_err();
    assert_eq!((error.axis, error.min, error.max), ('y', 5000, 1000));
    assert!(error.message().contains("touch y range override is empty"));
}

#[test]
fn the_calibration_summary_reproduces_the_environment() {
    let input = Input::new(
        vec![device(0, true)],
        Calibration {
            swap_xy: true,
            flip_x: false,
            flip_y: true,
        },
    );
    assert_eq!(
        input.calibration_summary(),
        "POCKETJS_TOUCH_SWAP_XY=1 POCKETJS_TOUCH_FLIP_X=0 POCKETJS_TOUCH_FLIP_Y=1 \
         POCKETJS_TOUCH_X_MIN=0 POCKETJS_TOUCH_X_MAX=1000 \
         POCKETJS_TOUCH_Y_MIN=0 POCKETJS_TOUCH_Y_MAX=1000"
    );
    let axes = input.selected_axes().unwrap();
    assert_eq!(axes.path, "/dev/input/event0");
    assert!(axes.multitouch);
    let empty = Input::new(Vec::new(), Calibration::default());
    assert!(empty.selected_axes().is_none());
    assert!(empty.calibration_summary().ends_with("POCKETJS_TOUCH_Y_MAX=0"));
}

#[test]
fn calibration_switches_accept_one_true_and_yes() {
    assert!(flag_enabled(Some("1")));
    assert!(flag_enabled(Some("true")));
    assert!(flag_enabled(Some("yes")));
    assert!(!flag_enabled(Some("TRUE")));
    assert!(!flag_enabled(Some("0")));
    assert!(!flag_enabled(None));
    let c = Calibration::from_flags(Some("yes"), None, Some("no"));
    assert_eq!(
        c,
        Calibration {
            swap_xy: true,
            flip_x: false,
            flip_y: false
        }
    );
}

#[test]
fn override_bounds_parse_as_decimal_i32() {
    assert_eq!(parse_bound("N", None).unwrap(), None);
    assert_eq!(parse_bound("N", Some("-12")).unwrap(), Some(-12));
    assert_eq!(parse_bound("N", Some("+7")).unwrap(), Some(7));
    let error = parse_bound("POCKETJS_TOUCH_X_MIN", Some("12px")).unwrap_err();
    assert_eq!(
        error.message(),
        "POCKETJS_TOUCH_X_MIN=\"12px\": invalid digit found in string"
    );
    let o = RangeOverride::from_values(None, Some("1023"), None, Some("757")).unwrap();
    assert_eq!(
        o,
        RangeOverride {
            x_min: None,
            x_max: Some(1023),
            y_min: None,
            y_max: Some(757)
        }
    );
    assert!(!o.is_empty());
    assert!(RangeOverride::default().is_empty());
    let error = RangeOverride::from_values(None, Some("x"), Some("y"), None).unwrap_err();
    assert_eq!(error.name, "POCKETJS_TOUCH_X_MAX");
    assert!(RangeOverride::from_values(None, None, None, Some("99999999999")).is_err());
}

#[test]
fn normalize_is_monotone_and_degenerate_extents_map_to_zero() {
    let range = AxisRange { min: -50, max: 50 };
    let mut previous = 0;
    for value in -60..=60 {
        let n = normalize(value, range, 101);
        assert!(n >= previous && n <= 100);
        previous = n;
    }
    assert_eq!(normalize(50, range, 101), 100);
    assert_eq!(normalize(7, range, 1), 0);
    assert_eq!(normalize(7, AxisRange { min: 5, max: 5 }, 100), 0);
}

#[test]
fn packed_touches_unpack_to_their_fields() {
    let word = pack_touch(0x1ff, 300, 17);
    assert_eq!(word & 0x1ff, 300);
    assert_eq!((word >> 9) & 0x1ff, 17);
    assert_eq!(word >> 18, 0xff);
}

fn record(type_: u16, code: u16, value: i32) -> Vec<u8> {
    let mut bytes = vec![0u8; 16];
    bytes.extend_from_slice(&type_.to_le_bytes());
    bytes.extend_from_slice(&code.to_le_bytes());
    bytes.extend_from_slice(&value.to_le_bytes());
    bytes
}

#[test]
fn event_records_are_decoded_and_applied_in_order() {
    let mut bytes = Vec::new();
    bytes.extend(record(EV_ABS, ABS_MT_SLOT, 3));
    bytes.extend(record(EV_ABS, ABS_MT_TRACKING_ID, 9));
    bytes.extend(record(EV_ABS, ABS_MT_POSITION_X, -4));
    bytes.extend(record(EV_SYN, SYN_DROPPED, 0));
    bytes.extend(record(EV_SYN, SYN_REPORT, 0));
    bytes.extend(record(EV_ABS, ABS_MT_SLOT, 3));
    bytes.extend(record(EV_ABS, ABS_MT_TRACKING_ID, 9));
    bytes.extend(record(EV_ABS, ABS_MT_POSITION_Y, 70000));
    bytes.extend_from_slice(&[1, 2, 3]);
    let mut state = TouchState::new(true);
    let drops = state.apply_event_bytes(&bytes, bytes.len(), 24);
    assert_eq!(drops, 1);
    assert!(state.contacts[3].active);
    assert_eq!(state.contacts[3].id, 9);
    assert_eq!(state.contacts[3].x, 0);
    assert_eq!(state.contacts[3].y, 70000);
}

#[test]
fn capability_bits_and_axis_extents() {
    let mut bits = [0u8; 96];
    bits[(BTN_TOUCH / 8) as usize] = 1 << (BTN_TOUCH % 8);
    assert!(event_code_set(&bits, 96, BTN_TOUCH));
    assert!(!event_code_set(&bits, 41, BTN_TOUCH));
    assert!(!event_code_set(&bits, 96, BTN_TOUCH + 1));
    assert_eq!(axis_extent(0, 1200), Some(AxisRange { min: 0, max: 1200 }));
    assert_eq!(axis_extent(5, 5), None);
    let r = AxisRange { min: 0, max: 9 };
    assert_eq!(choose_axes(Some(r), Some(r), None, None), AxisChoice::Multitouch(r, r));
    assert_eq!(choose_axes(Some(r), None, Some(r), Some(r)), AxisChoice::NeedsTouchKey(r, r));
    assert_eq!(choose_axes(None, None, Some(r), None), AxisChoice::Unusable);
}

#[test]
fn evdev_request_numbers_follow_the_ioc_encoding() {
    fn ioc(dir: u32, nr: u32, size: u32) -> u32 {
        (dir << 30) | (size << 16) | ((b'E' as u32) << 8) | nr
    }
    assert_eq!(eviocgabs(ABS_MT_POSITION_X), ioc(2, 0x40 + 0x35, 24));
    assert_eq!(eviocgbit(EV_KEY, 96), ioc(2, 0x21, 96));
    assert_eq!(EVIOCGRAB, ioc(1, 0x90, 4));
}

#[test]
fn geometry_refuses_a_panel_it_was_not_told_about() {
    assert!(Geometry::exact(379, 512, 2, 1000, 758, None).is_err());
    assert!(Geometry::exact(379, 512, 2, 1024, 758, Some(Rotation::Deg0)).is_err());
    assert!(Geometry::exact(379, 512, 2, 758, 1024, Some(Rotation::Deg270)).is_err());
    assert!(Geometry::exact(379, 512, 0, 0, 0, None).is_err());
    let g = glo_geometry();
    assert_eq!(g.rotation, Rotation::Deg0);
    assert_eq!(g.panel_to_logical(757, 1023), (378, 511));
    assert!(Geometry::exact(379, 512, 2, 1000, 758, None)
        .unwrap_err()
        .message()
        .contains("density"));
}

#[test]
fn a_rotated_panel_shows_the_turned_render() {
    let g = Geometry::exact(379, 512, 2, 1024, 758, None).unwrap();
    assert_eq!(g.rotation, Rotation::Deg90);
    // Clockwise: the render's top-left corner lands at the panel's top-right.
    assert_eq!(g.panel_to_render(1023, 0), (0, 0));
    assert_eq!(g.panel_to_logical(1023, 0), (0, 0));
    assert_eq!(g.panel_to_logical(0, 757), (378, 511));
    assert_eq!(
        g.render_rect_to_panel(Rect { x: 0, y: 0, w: 10, h: 20 }),
        Rect { x: 1004, y: 0, w: 20, h: 10 }
    );
    let g = Geometry::exact(379, 512, 2, 1024, 758, Some(Rotation::Deg270)).unwrap();
    assert_eq!(g.panel_to_render(0, 757), (0, 0));
    assert_eq!(
        g.render_rect_to_panel(Rect { x: 0, y: 0, w: 10, h: 20 }),
        Rect { x: 0, y: 748, w: 20, h: 10 }
    );
    let g = Geometry::exact(379, 512, 2, 758, 1024, Some(Rotation::Deg180)).unwrap();
    assert_eq!(g.panel_to_logical(757, 1023), (0, 0));
    assert_eq!(
        g.render_rect_to_panel(Rect { x: 0, y: 0, w: 10, h: 20 }),
        Rect { x: 748, y: 1004, w: 10, h: 20 }
    );
}

#[test]
fn scaling_is_refused_only_where_its_arithmetic_overflows() {
    let range = AxisRange { min: 100, max: 1100 };
    assert!(normalize_ok(600, range, 758));
    assert!(normalize_ok(i32::MIN, range, 758));
    assert!(normalize_ok(5, range, 1));
    let whole = AxisRange { min: i32::MIN, max: i32::MAX };
    assert!(!normalize_ok(0, whole, 758));
    assert!(normalize_ok(0, whole, 1));
    let wide = AxisRange { min: 0, max: i32::MAX };
    assert!(normalize_ok(i32::MAX, wide, 1 << 20));
}

#[test]
fn reports_are_ready_unless_a_contact_cannot_be_scaled() {
    let geometry = Geometry::exact(379, 512, 2, 758, 1024, None).unwrap();
    let mut input = Input::new(vec![device(0, true)], Calibration::default());
    assert!(input.reports_ready(&geometry));
    input.devices[0].x_range = AxisRange { min: i32::MIN, max: i32::MAX };
    assert!(input.reports_ready(&geometry));
    input.devices[0].state.apply(EV_ABS, ABS_MT_SLOT, 0);
    input.devices[0].state.apply(EV_ABS, ABS_MT_TRACKING_ID, 7);
    assert!(!input.reports_ready(&geometry));
    let empty = Input::new(Vec::new(), Calibration::default());
    assert!(empty.reports_ready(&geometry));
}
