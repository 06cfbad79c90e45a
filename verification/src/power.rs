//! The power key: which presses a node reports, and what a release asks the
//! host to do. A hold of 1.5 s or more exits, so the launcher hands the
//! device back; a shorter press does what `--power-press` chose.
use vstd::prelude::*;

use crate::text::str_equals;
use crate::touch::{EV_KEY, event_at, records};

verus! {

/// `KEY_POWER` in the kernel's key codes.
pub const KEY_POWER: u16 = 116;

/// A hold at least this long, in nanoseconds, means "give the device back".
pub const LONG_PRESS_NANOS: u128 = 1_500_000_000;

/// What a short press does.
#[derive(Clone, Copy, Debug, PartialEq, Eq, Structural)]
pub enum PowerPress {
    /// Nothing (`none`).
    Ignore,
    /// Drop into a doze through the power helper (`doze`).
    Doze,
    /// Suspend through the power helper (`suspend`).
    Suspend,
}

/// What the host does about a power-key release.
#[derive(Clone, Copy, Debug, PartialEq, Eq, Structural)]
pub enum PowerAction {
    Nothing,
    Exit,
    Doze,
    Suspend,
}

/// A press-mode word that is none of `none`, `doze` and `suspend`.
#[derive(Clone, Debug, PartialEq, Eq)]
pub struct PowerPressError {
    pub value: String,
}

/// The text of the refusal of a press-mode word.
pub open spec fn power_press_error_text(value: Seq<char>) -> Seq<char> {
    "--power-press must be none, doze or suspend (got "@ + crate::text::str_debug(value) + ")"@
}

/// Formats the refusal of a press-mode word with `format!`, quoting the word
/// as `{:?}` does.
#[verifier::external_body]
fn describe_power_press_error(value: &str) -> (m: String)
    ensures
        m@ == "--power-press must be none, doze or suspend (got "@ + crate::text::str_debug(value@)
            + ")"@,
{
    format!("--power-press must be none, doze or suspend (got {value:?})")
}

impl PowerPressError {
    pub fn message(&self) -> (m: String)
        ensures
            m@ == power_press_error_text(self.value@),
    {
        describe_power_press_error(self.value.as_str())
    }
}

/// The press mode a word names.
pub open spec fn spec_power_press(value: Seq<char>) -> Option<PowerPress> {
    if value == "none"@ {
        Some(PowerPress::Ignore)
    } else if value == "doze"@ {
        Some(PowerPress::Doze)
    } else if value == "suspend"@ {
        Some(PowerPress::Suspend)
    } else {
        None
    }
}

impl PowerPress {
    /// Reads `none`, `doze` or `suspend`.
    pub fn parse(value: &str) -> (r: Result<PowerPress, PowerPressError>)
        ensures
            r matches Ok(p) ==> spec_power_press(value@) == Some(p),
            r is Err <==> spec_power_press(value@) is None,
            r matches Err(e) ==> e.value@ == value@,
    {
        if str_equals(value, "none") {
            Ok(PowerPress::Ignore)
        } else if str_equals(value, "doze") {
            Ok(PowerPress::Doze)
        } else if str_equals(value, "suspend") {
            Ok(PowerPress::Suspend)
        } else {
            Err(PowerPressError { value: value.to_owned() })
        }
    }
}

/// What a release after a hold of `held_nanos` asks for.
pub open spec fn spec_released(held_nanos: u128, press: PowerPress) -> PowerAction {
    if held_nanos >= LONG_PRESS_NANOS {
        PowerAction::Exit
    } else {
        match press {
            PowerPress::Ignore => PowerAction::Nothing,
            PowerPress::Doze => PowerAction::Doze,
            PowerPress::Suspend => PowerAction::Suspend,
        }
    }
}

/// The power key was released after being held `held_nanos`: a long hold
/// exits, a short press does what `press` chose.
pub fn power_key_released(held_nanos: u128, press: PowerPress) -> (a: PowerAction)
    ensures
        held_nanos >= LONG_PRESS_NANOS ==> a == PowerAction::Exit,
        held_nanos < LONG_PRESS_NANOS ==> a == match press {
            PowerPress::Ignore => PowerAction::Nothing,
            PowerPress::Doze => PowerAction::Doze,
            PowerPress::Suspend => PowerAction::Suspend,
        },
        a == spec_released(held_nanos, press),
{
    if held_nanos >= LONG_PRESS_NANOS {
        PowerAction::Exit
    } else {
        match press {
            PowerPress::Ignore => PowerAction::Nothing,
            PowerPress::Doze => PowerAction::Doze,
            PowerPress::Suspend => PowerAction::Suspend,
        }
    }
}

/// One event at `now` on a button last pressed at `pressed_at`: a press
/// (value 1) starts a hold, a release (value 0) ends the hold it finds, and
/// anything else, auto-repeat included, changes nothing.
pub open spec fn power_step(
    pressed_at: Option<u128>,
    e: (u16, u16, i32),
    now: u128,
    press: PowerPress,
) -> (Option<u128>, PowerAction) {
    if e.0 == EV_KEY && e.1 == KEY_POWER && e.2 == 1 {
        (Some(now), PowerAction::Nothing)
    } else if e.0 == EV_KEY && e.1 == KEY_POWER && e.2 == 0 {
        match pressed_at {
            None => (None, PowerAction::Nothing),
            Some(at) => (
                None,
                spec_released(if now >= at { (now - at) as u128 } else { 0 }, press),
            ),
        }
    } else {
        (pressed_at, PowerAction::Nothing)
    }
}

/// The button after `events` at `now`, with the action each event asks for.
pub open spec fn power_run(
    pressed_at: Option<u128>,
    events: Seq<(u16, u16, i32)>,
    now: u128,
    press: PowerPress,
) -> (Option<u128>, Seq<PowerAction>)
    decreases events.len(),
{
    if events.len() == 0 {
        (pressed_at, Seq::empty())
    } else {
        let (before, actions) = power_run(pressed_at, events.drop_last(), now, press);
        let (after, a) = power_step(before, events.last(), now, press);
        (after, actions.push(a))
    }
}

/// The power key's hold: when it went down, if it is down.
#[derive(Clone, Copy, Debug, PartialEq, Eq)]
pub struct PowerButton {
    pub pressed_at: Option<u128>,
}

impl PowerButton {
    pub fn new() -> (b: PowerButton)
        ensures
            b.pressed_at is None,
    {
        PowerButton { pressed_at: None }
    }

    /// Applies one event at `now` and returns what it asks for.
    pub fn on_event(&mut self, type_: u16, code: u16, value: i32, now: u128, press: PowerPress) -> (a:
        PowerAction)
        ensures
            (final(self).pressed_at, a) == power_step(
                old(self).pressed_at,
                (type_, code, value),
                now,
                press,
            ),
    {
        if type_ == EV_KEY && code == KEY_POWER && value == 1 {
            self.pressed_at = Some(now);
            PowerAction::Nothing
        } else if type_ == EV_KEY && code == KEY_POWER && value == 0 {
            match self.pressed_at.take() {
                None => PowerAction::Nothing,
                Some(at) => power_key_released(if now >= at { now - at } else { 0 }, press),
            }
        } else {
            PowerAction::Nothing
        }
    }

    /// Applies every whole `input_event` record among the first `count`
    /// bytes of a read, all seen at `now`, and returns what each asks for.
    pub fn apply_event_bytes(
        &mut self,
        bytes: &[u8],
        count: usize,
        record_size: usize,
        now: u128,
        press: PowerPress,
    ) -> (actions: Vec<PowerAction>)
        requires
            count <= bytes@.len(),
            record_size >= 8,
        ensures
            (final(self).pressed_at, actions@) == power_run(
                old(self).pressed_at,
                records(bytes@, count as int, record_size as int),
                now,
                press,
            ),
    {
        let n: usize = count / record_size;
        let ghost events = records(bytes@, count as int, record_size as int);
        let mut actions: Vec<PowerAction> = Vec::new();
        let mut k: usize = 0;
        while k < n
            invariant
                n == count / record_size,
                count <= bytes@.len(),
                record_size >= 8,
                events == records(bytes@, count as int, record_size as int),
                k <= n,
                (self.pressed_at, actions@) == power_run(
                    old(self).pressed_at,
                    events.subrange(0, k as int),
                    now,
                    press,
                ),
            decreases n - k,
        {
            proof {
                assert((k + 1) * record_size <= count) by (nonlinear_arith)
                    requires
                        k < n,
                        n == count / record_size,
                        record_size >= 8,
                ;
                assert(k * record_size + record_size == (k + 1) * record_size) by (nonlinear_arith);
            }
            let (type_, code, value) = event_at(bytes, k * record_size, record_size);
            proof {
                assert(events[k as int] == (type_, code, value));
                let prefix = events.subrange(0, k as int + 1);
                assert(prefix.drop_last() =~= events.subrange(0, k as int));
                assert(prefix.last() == events[k as int]);
            }
            let a = self.on_event(type_, code, value, now, press);
            actions.push(a);
            k = k + 1;
        }
        assert(events.subrange(0, n as int) =~= events);
        actions
    }
}

/// Only a release ends a hold: a press starts a hold at its time, a release
/// at least 1.5 s after its press exits whatever the press mode, a shorter
/// one does what the press mode chose, and a press or an unrelated event
/// never asks for anything.
pub proof fn law_only_a_release_acts(
    pressed_at: Option<u128>,
    e: (u16, u16, i32),
    now: u128,
    press: PowerPress,
)
    ensures
        !(e.0 == EV_KEY && e.1 == KEY_POWER && e.2 == 0) ==> power_step(pressed_at, e, now, press).1
            == PowerAction::Nothing,
        (e.0 == EV_KEY && e.1 == KEY_POWER && e.2 == 0 && pressed_at is Some && now
            >= pressed_at->0 && now - pressed_at->0 >= LONG_PRESS_NANOS) ==> power_step(
            pressed_at,
            e,
            now,
            press,
        ).1 == PowerAction::Exit,
        (e.0 == EV_KEY && e.1 == KEY_POWER && e.2 == 0) ==> power_step(pressed_at, e, now, press).0
            is None,
        (e.0 == EV_KEY && e.1 == KEY_POWER && e.2 == 0 && pressed_at is Some && now
            >= pressed_at->0 && now - pressed_at->0 < LONG_PRESS_NANOS) ==> power_step(
            pressed_at,
            e,
            now,
            press,
        ).1 == match press {
            PowerPress::Ignore => PowerAction::Nothing,
            PowerPress::Doze => PowerAction::Doze,
            PowerPress::Suspend => PowerAction::Suspend,
        },
        (e.0 == EV_KEY && e.1 == KEY_POWER && e.2 == 1) ==> power_step(pressed_at, e, now, press).0
            == Some(now),
{
}

} // verus!
