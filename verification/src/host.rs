//! Host policy values: the virtual frame rate and the one-shot boot clock.
use vstd::prelude::*;

use crate::text::{parse_u32, spec_parse_u32};

verus! {

/// Core ticks a bundle's realm advances per virtual second.
pub const CORE_TICKS_PER_SECOND: u32 = 60;

/// Why a virtual frame rate was refused.
#[derive(Clone, Copy, Debug, PartialEq, Eq)]
pub enum SimHzError {
    /// The value is not a decimal `u32`.
    NotAnInteger,
    /// The rate is 0 or leaves a fractional number of core ticks per frame.
    DoesNotDivide(u32),
}

/// The text of the error for a rate that does not divide the core tick rate.
pub open spec fn sim_hz_divide_text(hz: u32) -> Seq<char> {
    "--sim-hz must divide 60 exactly (1, 2, 3, 4, 5, 6, 10, 12, 15, 20, 30 or 60); got "@
        + crate::text::decimal(hz as nat)
}

/// The refusal of a rate: the accepted rates, then the rate given.
fn describe_sim_hz(hz: u32) -> (m: String)
    ensures
        m@ == sim_hz_divide_text(hz),
{
    "--sim-hz must divide 60 exactly (1, 2, 3, 4, 5, 6, 10, 12, 15, 20, 30 or 60); got ".to_owned().concat(
        crate::text::decimal_text(hz as u64).as_str(),
    )
}

impl SimHzError {
    pub fn message(&self) -> (m: String)
        ensures
            match self {
                SimHzError::NotAnInteger => m@ == "--sim-hz must be an integer"@,
                SimHzError::DoesNotDivide(hz) => m@ == sim_hz_divide_text(*hz),
            },
    {
        match self {
            SimHzError::NotAnInteger => "--sim-hz must be an integer".to_owned(),
            SimHzError::DoesNotDivide(hz) => describe_sim_hz(*hz),
        }
    }
}

/// Virtual frames per second, published to the guest. It has to divide the
/// core tick rate exactly, so that every frame advances a whole number of
/// core ticks.
pub fn parse_sim_hz(value: &str) -> (r: Result<u32, SimHzError>)
    ensures
        r matches Ok(hz) ==> spec_parse_u32(value@) == Some(hz) && hz != 0
            && CORE_TICKS_PER_SECOND % hz == 0,
        r is Ok <==> (spec_parse_u32(value@) matches Some(hz) && hz != 0 && CORE_TICKS_PER_SECOND
            % hz == 0),
        r == Err::<u32, SimHzError>(SimHzError::NotAnInteger) <==> spec_parse_u32(value@) is None,
        r matches Err(SimHzError::DoesNotDivide(hz)) ==> spec_parse_u32(value@) == Some(hz),
{
    let hz: u32 = match parse_u32(value) {
        Ok(hz) => hz,
        Err(_) => return Err(SimHzError::NotAnInteger),
    };
    if hz == 0 || CORE_TICKS_PER_SECOND % hz != 0 {
        return Err(SimHzError::DoesNotDivide(hz));
    }
    Ok(hz)
}

/// The accepted rates are exactly the divisors of the core tick rate.
pub proof fn law_sim_rates_are_the_divisors_of_sixty(hz: u32)
    ensures
        (hz != 0 && CORE_TICKS_PER_SECOND % hz == 0) <==> (hz == 1 || hz == 2 || hz == 3 || hz == 4
            || hz == 5 || hz == 6 || hz == 10 || hz == 12 || hz == 15 || hz == 20 || hz == 30
            || hz == 60),
{
    if hz != 0 && CORE_TICKS_PER_SECOND % hz == 0 {
        assert(hz <= 60) by (nonlinear_arith)
            requires
                hz != 0,
                60int % (hz as int) == 0,
        ;
        assert(hz == 1 || hz == 2 || hz == 3 || hz == 4 || hz == 5 || hz == 6 || hz == 10 || hz
            == 12 || hz == 15 || hz == 20 || hz == 30 || hz == 60) by (bit_vector)
            requires
                hz != 0,
                hz <= 60,
                60u32 % hz == 0,
        ;
    }
}

/// The local calendar time published to the guest once, at boot.
#[derive(Clone, Copy, Debug, PartialEq, Eq)]
pub struct BootClock {
    pub year: i32,
    pub month: i32,
    pub day: i32,
    pub weekday: i32,
    pub second_of_day: i32,
}

/// The boot clock of a broken-down local time, whose year counts from 1900
/// and whose month counts from 0, as `struct tm` does.
pub fn boot_clock(
    tm_year: i32,
    tm_mon: i32,
    tm_mday: i32,
    tm_wday: i32,
    tm_hour: i32,
    tm_min: i32,
    tm_sec: i32,
) -> (c: BootClock)
    requires
        tm_year + 1900 <= i32::MAX,
        tm_mon + 1 <= i32::MAX,
        0 <= tm_hour <= 23,
        0 <= tm_min <= 59,
        0 <= tm_sec <= 60,
    ensures
        c.year == tm_year + 1900,
        c.month == tm_mon + 1,
        c.day == tm_mday,
        c.weekday == tm_wday,
        c.second_of_day == tm_hour * 3600 + tm_min * 60 + tm_sec,
{
    BootClock {
        year: tm_year + 1900,
        month: tm_mon + 1,
        day: tm_mday,
        weekday: tm_wday,
        second_of_day: tm_hour * 3600 + tm_min * 60 + tm_sec,
    }
}

} // verus!
