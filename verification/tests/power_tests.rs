use pocketjs_kobo::power::{
    KEY_POWER, LONG_PRESS_NANOS, PowerAction, PowerButton, PowerPress, power_key_released,
};
use pocketjs_kobo::touch::{EV_KEY, EV_SYN};

fn record(type_: u16, code: u16, value: i32) -> Vec<u8> {
    let mut r = vec![0u8; 16];
    r.extend(type_.to_le_bytes());
    r.extend(code.to_le_bytes());
    r.extend(value.to_le_bytes());
    r
}

#[test]
fn a_hold_of_a_second_and_a_half_exits_whatever_the_mode() {
    for press in [PowerPress::Ignore, PowerPress::Doze, PowerPress::Suspend] {
        assert_eq!(power_key_released(LONG_PRESS_NANOS, press), PowerAction::Exit);
        assert_eq!(power_key_released(u128::MAX, press), PowerAction::Exit);
    }
}

#[test]
fn a_short_press_does_what_the_mode_chose() {
    let short = LONG_PRESS_NANOS - 1;
    assert_eq!(power_key_released(short, PowerPress::Ignore), PowerAction::Nothing);
    assert_eq!(power_key_released(0, PowerPress::Doze), PowerAction::Doze);
    assert_eq!(power_key_released(short, PowerPress::Suspend), PowerAction::Suspend);
}

#[test]
fn presses_are_timed_from_the_key_down_event() {
    let mut button = PowerButton::new();
    let down = record(EV_KEY, KEY_POWER, 1);
    let up = record(EV_KEY, KEY_POWER, 0);
    assert_eq!(
        button.apply_event_bytes(&down, down.len(), 24, 1_000, PowerPress::Suspend),
        vec![PowerAction::Nothing]
    );
    assert_eq!(button.pressed_at, Some(1_000));
    let mut later = record(EV_SYN, 0, 0);
    later.extend(record(EV_KEY, KEY_POWER, 2));
    later.extend(up.clone());
    assert_eq!(
        button.apply_event_bytes(&later, later.len(), 24, 2_000, PowerPress::Suspend),
        vec![PowerAction::Nothing, PowerAction::Nothing, PowerAction::Suspend]
    );
    assert_eq!(button.pressed_at, None);
    assert_eq!(
        button.apply_event_bytes(&down, down.len(), 24, 0, PowerPress::Suspend),
        vec![PowerAction::Nothing]
    );
    assert_eq!(
        button.apply_event_bytes(&up, up.len(), 24, LONG_PRESS_NANOS, PowerPress::Suspend),
        vec![PowerAction::Exit]
    );
}

#[test]
fn a_release_without_a_press_does_nothing() {
    let mut button = PowerButton::new();
    let up = record(EV_KEY, KEY_POWER, 0);
    assert_eq!(
        button.apply_event_bytes(&up, up.len(), 24, 5_000_000_000, PowerPress::Doze),
        vec![PowerAction::Nothing]
    );
    let other = record(EV_KEY, 115, 1);
    assert_eq!(button.on_event(EV_KEY, 115, 1, 0, PowerPress::Doze), PowerAction::Nothing);
    assert_eq!(button.pressed_at, None);
    assert_eq!(other.len(), 24);
}

#[test]
fn press_modes_are_read_exactly() {
    assert_eq!(PowerPress::parse("none"), Ok(PowerPress::Ignore));
    assert_eq!(PowerPress::parse("doze"), Ok(PowerPress::Doze));
    assert_eq!(PowerPress::parse("suspend"), Ok(PowerPress::Suspend));
    let e = PowerPress::parse("Doze").unwrap_err();
    assert_eq!(e.message(), "--power-press must be none, doze or suspend (got \"Doze\")");
}
