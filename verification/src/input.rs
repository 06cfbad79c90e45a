//! From raw digitizer values to panel pixels and logical coordinates:
//! axis extents and their overrides, calibration, and the touch wire word.
use vstd::prelude::*;
use vstd::arithmetic::div_mod::lemma_div_is_ordered;
use vstd::arithmetic::mul::lemma_mul_inequality;

use crate::geometry::{Geometry, lemma_panel_nonempty, law_logical_cells_hold_their_pixels};
use crate::text::{VariableError, parse_i32, parse_i32_error_text, spec_parse_i32, str_equals};
use crate::touch::{Contact, TOUCH_ID_MASK};

verus! {

/// The extent an evdev axis reports values in.
#[derive(Clone, Copy, Debug, Default, PartialEq, Eq, Structural)]
pub struct AxisRange {
    pub min: i32,
    pub max: i32,
}

/// `value` forced into `min..=max`.
pub open spec fn clamp_i32(value: i32, min: i32, max: i32) -> int {
    if value < min { min as int } else if value > max { max as int } else { value as int }
}

/// `value` scaled from `range` onto the pixels `0..extent`, rounding to the
/// nearest pixel. A degenerate extent or range maps everything to 0.
pub open spec fn spec_normalize(value: i32, range: AxisRange, extent: usize) -> int {
    if extent <= 1 || range.max <= range.min {
        0
    } else {
        let span = range.max - range.min;
        ((clamp_i32(value, range.min, range.max) - range.min) * (extent - 1) + span / 2) / span
    }
}

/// The scaling stays within `i32` and `i64` arithmetic for `value`.
pub open spec fn normalize_defined(value: i32, range: AxisRange, extent: usize) -> bool {
    extent <= 1 || range.max <= range.min || {
        let span = range.max - range.min;
        &&& span <= i32::MAX
        &&& extent - 1 <= i64::MAX
        &&& (clamp_i32(value, range.min, range.max) - range.min) * (extent - 1) + span / 2
            <= i64::MAX
    }
}

/// Scales a raw axis value onto `0..extent` pixels.
pub fn normalize(value: i32, range: AxisRange, extent: usize) -> (r: usize)
    requires
        normalize_defined(value, range, extent),
    ensures
        r == spec_normalize(value, range, extent),
        extent >= 1 ==> r < extent,
{
    if extent <= 1 || range.max <= range.min {
        return 0;
    }
    let clamped: i32 = if value < range.min {
        range.min
    } else if value > range.max {
        range.max
    } else {
        value
    };
    let offset: i32 = clamped - range.min;
    let span: i32 = range.max - range.min;
    let denominator: i64 = span as i64;
    let scale: i64 = (extent - 1) as i64;
    proof {
        lemma_normalize_bounds(value, range, extent);
        assert(0 <= offset * scale) by (nonlinear_arith)
            requires
                offset >= 0,
                scale >= 0,
        ;
    }
    let scaled: i64 = (offset as i64) * scale + denominator / 2;
    (scaled / denominator) as usize
}

/// Whether `normalize` can scale `value` without leaving `i32` and `i64`
/// arithmetic.
pub fn normalize_ok(value: i32, range: AxisRange, extent: usize) -> (ok: bool)
    ensures
        ok == normalize_defined(value, range, extent),
{
    if extent <= 1 || range.max <= range.min {
        return true;
    }
    let span: i64 = range.max as i64 - range.min as i64;
    if span > 0x7fff_ffff {
        return false;
    }
    let scale: u128 = (extent - 1) as u128;
    if scale > 0x7fff_ffff_ffff_ffff {
        return false;
    }
    let clamped: i64 = if value < range.min {
        range.min as i64
    } else if value > range.max {
        range.max as i64
    } else {
        value as i64
    };
    let offset: i128 = (clamped - range.min as i64) as i128;
    proof {
        assert(0 <= offset <= span);
        assert(0 <= offset * scale <= 0x1_0000_0000 * 0x8000_0000_0000_0000) by (nonlinear_arith)
            requires
                0 <= offset <= 0x7fff_ffff,
                0 <= scale <= 0x7fff_ffff_ffff_ffff,
        ;
    }
    let scaled: i128 = offset * (scale as i128) + (span / 2) as i128;
    scaled <= 0x7fff_ffff_ffff_ffff
}

/// The scaled value is a pixel of the extent.
pub proof fn lemma_normalize_bounds(value: i32, range: AxisRange, extent: usize)
    ensures
        0 <= spec_normalize(value, range, extent),
        extent >= 1 ==> spec_normalize(value, range, extent) < extent,
{
    if extent > 1 && range.max > range.min {
        let span: int = range.max - range.min;
        let offset: int = clamp_i32(value, range.min, range.max) - range.min;
        let e: int = extent - 1;
        assert(0 <= offset <= span);
        assert(offset * e <= span * e) by (nonlinear_arith)
            requires
                0 <= offset <= span,
                e >= 0,
        ;
        assert(0 <= offset * e) by (nonlinear_arith)
            requires
                0 <= offset,
                e >= 0,
        ;
        assert((offset * e + span / 2) / span <= e) by (nonlinear_arith)
            requires
                0 <= offset * e <= span * e,
                span > 0,
                e >= 0,
        ;
        assert((offset * e + span / 2) / span >= 0) by (nonlinear_arith)
            requires
                0 <= offset * e,
                span > 0,
        ;
    }
}

/// Scaling keeps order, sends everything at or below the range's minimum to
/// the first pixel and everything at or above its maximum to the last.
pub proof fn law_normalize_is_monotone_and_reaches_both_edges(
    a: i32,
    b: i32,
    range: AxisRange,
    extent: usize,
)
    requires
        a <= b,
    ensures
        spec_normalize(a, range, extent) <= spec_normalize(b, range, extent),
        extent > 1 && range.max > range.min && a <= range.min ==> spec_normalize(a, range, extent)
            == 0,
        extent > 1 && range.max > range.min && b >= range.max ==> spec_normalize(b, range, extent)
            == extent - 1,
{
    if extent > 1 && range.max > range.min {
        let span: int = range.max - range.min;
        let e: int = extent - 1;
        let oa: int = clamp_i32(a, range.min, range.max) - range.min;
        let ob: int = clamp_i32(b, range.min, range.max) - range.min;
        assert(oa <= ob);
        lemma_mul_inequality(oa, ob, e);
        lemma_div_is_ordered(oa * e + span / 2, ob * e + span / 2, span);
        if a <= range.min {
            assert(oa == 0);
            assert((0 * e + span / 2) / span == 0) by (nonlinear_arith)
                requires
                    span > 0,
            ;
        }
        if b >= range.max {
            assert(ob == span);
            assert((span * e + span / 2) / span == e) by (nonlinear_arith)
                requires
                    span > 0,
                    e >= 0,
            ;
        }
    }
}

/// Which axis operations turn raw digitizer axes into panel axes: the swap
/// first, then the mirrors.
#[derive(Clone, Copy, Debug, Default, PartialEq, Eq, Structural)]
pub struct Calibration {
    pub swap_xy: bool,
    pub flip_x: bool,
    pub flip_y: bool,
}


/// Whether a calibration switch's value turns it on: `1`, `true` or `yes`.
pub fn flag_enabled(value: Option<&str>) -> (on: bool)
    ensures
        on == (value matches Some(v) && (v@ == "1"@ || v@ == "true"@ || v@ == "yes"@)),
{
    match value {
        Some(v) => str_equals(v, "1") || str_equals(v, "true") || str_equals(v, "yes"),
        None => false,
    }
}

impl Calibration {
    /// The calibration the three switches' values select.
    pub fn from_flags(swap_xy: Option<&str>, flip_x: Option<&str>, flip_y: Option<&str>) -> (c:
        Calibration)
        ensures
            c.swap_xy == (swap_xy matches Some(v) && (v@ == "1"@ || v@ == "true"@ || v@
                == "yes"@)),
            c.flip_x == (flip_x matches Some(v) && (v@ == "1"@ || v@ == "true"@ || v@
                == "yes"@)),
            c.flip_y == (flip_y matches Some(v) && (v@ == "1"@ || v@ == "true"@ || v@
                == "yes"@)),
    {
        Calibration {
            swap_xy: flag_enabled(swap_xy),
            flip_x: flag_enabled(flip_x),
            flip_y: flag_enabled(flip_y),
        }
    }
}

/// Replacements for the axis extents a digitizer declares through
/// `EVIOCGABS`. A driver is free to declare a coordinate space it does not
/// actually use; each bound given here replaces the declared one.
#[derive(Clone, Copy, Debug, Default, PartialEq, Eq, Structural)]
pub struct RangeOverride {
    pub x_min: Option<i32>,
    pub x_max: Option<i32>,
    pub y_min: Option<i32>,
    pub y_max: Option<i32>,
}

/// An override that would leave an axis with no extent.
#[derive(Clone, Copy, Debug, PartialEq, Eq)]
pub struct OverrideError {
    pub axis: char,
    pub min: i32,
    pub max: i32,
}

/// The text of the error for an axis whose overridden extent is empty.
pub open spec fn empty_override_text(axis: char, min: i32, max: i32) -> Seq<char> {
    "touch "@ + seq![axis] + " range override is empty: min "@ + crate::text::signed_decimal(
        min as int,
    ) + " is not below max "@ + crate::text::signed_decimal(max as int)
}

/// Formats the refusal of an empty axis extent with `format!`.
#[verifier::external_body]
fn describe_empty_override(axis: char, min: i32, max: i32) -> (m: String)
    ensures
        m@ == "touch "@ + seq![axis] + " range override is empty: min "@
            + crate::text::signed_decimal(min as int) + " is not below max "@
            + crate::text::signed_decimal(max as int),
{
    format!("touch {axis} range override is empty: min {min} is not below max {max}")
}

impl OverrideError {
    pub fn message(&self) -> (m: String)
        ensures
            m@ == empty_override_text(self.axis, self.min, self.max),
    {
        describe_empty_override(self.axis, self.min, self.max)
    }
}

/// One bound from the variable `name`, if it is set.
pub fn parse_bound(name: &str, value: Option<&str>) -> (r: Result<Option<i32>, VariableError>)
    ensures
        value is None ==> r == Ok::<Option<i32>, VariableError>(None),
        value matches Some(v) ==> match r {
            Ok(b) => b == spec_parse_i32(v@) && b is Some,
            Err(e) => spec_parse_i32(v@) is None && e.name@ == name@ && e.value@ == v@
                && e.reason@ == parse_i32_error_text(v@),
        },
{
    match value {
        None => Ok(None),
        Some(v) => match parse_i32(v) {
            Ok(n) => Ok(Some(n)),
            Err(reason) => Err(VariableError { name: name.to_owned(), value: v.to_owned(), reason }),
        },
    }
}

/// A bound's override: its value parsed as a decimal `i32`, where set.
pub open spec fn override_bound(value: Option<&str>) -> Option<i32> {
    match value {
        Some(v) => spec_parse_i32(v@),
        None => None,
    }
}

/// The bound names whose values an override is read from.
pub open spec fn x_min_name() -> Seq<char> { "POCKETJS_TOUCH_X_MIN"@ }
pub open spec fn x_max_name() -> Seq<char> { "POCKETJS_TOUCH_X_MAX"@ }
pub open spec fn y_min_name() -> Seq<char> { "POCKETJS_TOUCH_Y_MIN"@ }
pub open spec fn y_max_name() -> Seq<char> { "POCKETJS_TOUCH_Y_MAX"@ }

/// A variable's value is set but is no decimal `i32`.
pub open spec fn unparsable(value: Option<&str>) -> bool {
    value matches Some(v) && spec_parse_i32(v@) is None
}

impl RangeOverride {
    /// The override the four bound variables' values describe, refusing the
    /// first one (in x-min, x-max, y-min, y-max order) that is set and does
    /// not parse.
    pub fn from_values(
        x_min: Option<&str>,
        x_max: Option<&str>,
        y_min: Option<&str>,
        y_max: Option<&str>,
    ) -> (r: Result<RangeOverride, VariableError>)
        ensures
            r is Ok <==> !unparsable(x_min) && !unparsable(x_max) && !unparsable(y_min)
                && !unparsable(y_max),
            r matches Ok(o) ==> o == (RangeOverride {
                x_min: override_bound(x_min),
                x_max: override_bound(x_max),
                y_min: override_bound(y_min),
                y_max: override_bound(y_max),
            }),
            r matches Err(e) ==> if unparsable(x_min) {
                e.name@ == x_min_name() && e.value@ == x_min->0@
            } else if unparsable(x_max) {
                e.name@ == x_max_name() && e.value@ == x_max->0@
            } else if unparsable(y_min) {
                e.name@ == y_min_name() && e.value@ == y_min->0@
            } else {
                e.name@ == y_max_name() && e.value@ == y_max->0@
            },
    {
        proof {
            reveal_strlit("POCKETJS_TOUCH_X_MIN");
            reveal_strlit("POCKETJS_TOUCH_X_MAX");
            reveal_strlit("POCKETJS_TOUCH_Y_MIN");
            reveal_strlit("POCKETJS_TOUCH_Y_MAX");
        }
        let a = parse_bound("POCKETJS_TOUCH_X_MIN", x_min)?;
        let b = parse_bound("POCKETJS_TOUCH_X_MAX", x_max)?;
        let c = parse_bound("POCKETJS_TOUCH_Y_MIN", y_min)?;
        let d = parse_bound("POCKETJS_TOUCH_Y_MAX", y_max)?;
        Ok(RangeOverride { x_min: a, x_max: b, y_min: c, y_max: d })
    }

    /// No bound is overridden.
    pub open spec fn spec_is_empty(&self) -> bool {
        self.x_min is None && self.x_max is None && self.y_min is None && self.y_max is None
    }

    pub fn is_empty(&self) -> (r: bool)
        ensures
            r == self.spec_is_empty(),
    {
        self.x_min.is_none() && self.x_max.is_none() && self.y_min.is_none()
            && self.y_max.is_none()
    }

    /// `range` with the given bounds replaced.
    pub open spec fn merged(range: AxisRange, min: Option<i32>, max: Option<i32>) -> AxisRange {
        AxisRange {
            min: match min {
                Some(m) => m,
                None => range.min,
            },
            max: match max {
                Some(m) => m,
                None => range.max,
            },
        }
    }

    /// Apply the overrides to a probed pair of ranges, rejecting a result that
    /// would make `normalize` degenerate.
    pub fn apply(&self, x: AxisRange, y: AxisRange) -> (r: Result<(AxisRange, AxisRange), OverrideError>)
        ensures
            ({
                let mx = Self::merged(x, self.x_min, self.x_max);
                let my = Self::merged(y, self.y_min, self.y_max);
                &&& r is Ok <==> mx.max > mx.min && my.max > my.min
                &&& r matches Ok(p) ==> p == (mx, my)
                &&& r matches Err(e) ==> if mx.max <= mx.min {
                    e == (OverrideError { axis: 'x', min: mx.min, max: mx.max })
                } else {
                    e == (OverrideError { axis: 'y', min: my.min, max: my.max })
                }
            }),
    {
        let mx = AxisRange {
            min: match self.x_min {
                Some(m) => m,
                None => x.min,
            },
            max: match self.x_max {
                Some(m) => m,
                None => x.max,
            },
        };
        if mx.max <= mx.min {
            return Err(OverrideError { axis: 'x', min: mx.min, max: mx.max });
        }
        let my = AxisRange {
            min: match self.y_min {
                Some(m) => m,
                None => y.min,
            },
            max: match self.y_max {
                Some(m) => m,
                None => y.max,
            },
        };
        if my.max <= my.min {
            return Err(OverrideError { axis: 'y', min: my.min, max: my.max });
        }
        Ok((mx, my))
    }
}

/// Overrides that apply leave both axes with a positive extent, replace only
/// the bounds they name, and an empty override leaves valid ranges as they
/// are.
pub proof fn law_override_replaces_only_named_bounds(
    o: RangeOverride,
    x: AxisRange,
    y: AxisRange,
)
    ensures
        ({
            let mx = RangeOverride::merged(x, o.x_min, o.x_max);
            let my = RangeOverride::merged(y, o.y_min, o.y_max);
            &&& o.x_min is None ==> mx.min == x.min
            &&& o.x_max is None ==> mx.max == x.max
            &&& o.y_min is None ==> my.min == y.min
            &&& o.y_max is None ==> my.max == y.max
            &&& o.spec_is_empty() ==> mx == x && my == y
        }),
{
}

/// One active contact in every coordinate space the host derives from it.
#[derive(Clone, Copy, Debug, PartialEq, Eq, Structural)]
pub struct ContactReport {
    pub slot: usize,
    pub raw_x: i32,
    pub raw_y: i32,
    pub panel_x: usize,
    pub panel_y: usize,
    pub logical_x: u32,
    pub logical_y: u32,
}

/// The panel pixel a raw contact lands on, before mirroring: with the axes
/// swapped, raw y scales across the panel's width and raw x down its height.
pub open spec fn unmirrored(
    calibration: Calibration,
    x_range: AxisRange,
    y_range: AxisRange,
    contact: Contact,
    geometry: Geometry,
) -> (int, int) {
    if calibration.swap_xy {
        (
            spec_normalize(contact.y, y_range, geometry.panel_w),
            spec_normalize(contact.x, x_range, geometry.panel_h),
        )
    } else {
        (
            spec_normalize(contact.x, x_range, geometry.panel_w),
            spec_normalize(contact.y, y_range, geometry.panel_h),
        )
    }
}

/// The report for one raw contact: swap, then mirror, then scale down to
/// logical coordinates.
pub open spec fn spec_map_contact(
    calibration: Calibration,
    x_range: AxisRange,
    y_range: AxisRange,
    slot: usize,
    contact: Contact,
    geometry: Geometry,
) -> ContactReport {
    let (ux, uy) = unmirrored(calibration, x_range, y_range, contact, geometry);
    let px = if calibration.flip_x { geometry.panel_w - 1 - ux } else { ux };
    let py = if calibration.flip_y { geometry.panel_h - 1 - uy } else { uy };
    ContactReport {
        slot,
        raw_x: contact.x,
        raw_y: contact.y,
        panel_x: px as usize,
        panel_y: py as usize,
        logical_x: geometry.spec_panel_to_logical(px, py).0 as u32,
        logical_y: geometry.spec_panel_to_logical(px, py).1 as u32,
    }
}

/// Mirroring one axis reflects the contact across the panel on that axis
/// alone: the two panel positions add up to the last pixel, the other axis
/// is untouched, and the report keeps its slot and raw values.
pub proof fn law_mirror_reflects_one_axis(
    calibration: Calibration,
    x_range: AxisRange,
    y_range: AxisRange,
    slot: usize,
    contact: Contact,
    geometry: Geometry,
)
    requires
        geometry.panel_w >= 1,
        geometry.panel_h >= 1,
    ensures
        ({
            let a = spec_map_contact(calibration, x_range, y_range, slot, contact, geometry);
            let b = spec_map_contact(
                Calibration { flip_x: !calibration.flip_x, ..calibration },
                x_range,
                y_range,
                slot,
                contact,
                geometry,
            );
            let c = spec_map_contact(
                Calibration { flip_y: !calibration.flip_y, ..calibration },
                x_range,
                y_range,
                slot,
                contact,
                geometry,
            );
            &&& a.panel_x < geometry.panel_w && a.panel_y < geometry.panel_h
            &&& a.slot == slot && a.raw_x == contact.x && a.raw_y == contact.y
            &&& a.panel_x + b.panel_x == geometry.panel_w - 1 && a.panel_y == b.panel_y
            &&& a.panel_y + c.panel_y == geometry.panel_h - 1 && a.panel_x == c.panel_x
        }),
{
    lemma_normalize_bounds(contact.x, x_range, geometry.panel_w);
    lemma_normalize_bounds(contact.y, y_range, geometry.panel_h);
    lemma_normalize_bounds(contact.y, y_range, geometry.panel_w);
    lemma_normalize_bounds(contact.x, x_range, geometry.panel_h);
}

/// Both axes of the contact scale without overflow, in either orientation.
pub open spec fn contact_mappable(
    calibration: Calibration,
    x_range: AxisRange,
    y_range: AxisRange,
    contact: Contact,
    geometry: Geometry,
) -> bool {
    if calibration.swap_xy {
        normalize_defined(contact.y, y_range, geometry.panel_w) && normalize_defined(
            contact.x,
            x_range,
            geometry.panel_h,
        )
    } else {
        normalize_defined(contact.x, x_range, geometry.panel_w) && normalize_defined(
            contact.y,
            y_range,
            geometry.panel_h,
        )
    }
}

/// Map one raw contact through calibration and geometry.
///
/// The order is fixed and observable: swap the axes first, then mirror them.
pub fn map_contact(
    calibration: Calibration,
    x_range: AxisRange,
    y_range: AxisRange,
    slot: usize,
    contact: Contact,
    geometry: &Geometry,
) -> (report: ContactReport)
    requires
        geometry.wf(),
        contact_mappable(calibration, x_range, y_range, contact, *geometry),
    ensures
        report == spec_map_contact(calibration, x_range, y_range, slot, contact, *geometry),
        report.panel_x < geometry.panel_w,
        report.panel_y < geometry.panel_h,
        report.logical_x < geometry.logical_w,
        report.logical_y < geometry.logical_h,
{
    proof {
        lemma_panel_nonempty(*geometry);
    }
    let (mut panel_x, mut panel_y) = if calibration.swap_xy {
        (
            normalize(contact.y, y_range, geometry.panel_w),
            normalize(contact.x, x_range, geometry.panel_h),
        )
    } else {
        (
            normalize(contact.x, x_range, geometry.panel_w),
            normalize(contact.y, y_range, geometry.panel_h),
        )
    };
    if calibration.flip_x {
        panel_x = geometry.panel_w - 1 - panel_x;
    }
    if calibration.flip_y {
        panel_y = geometry.panel_h - 1 - panel_y;
    }
    let (logical_x, logical_y) = geometry.panel_to_logical(panel_x, panel_y);
    ContactReport {
        slot,
        raw_x: contact.x,
        raw_y: contact.y,
        panel_x,
        panel_y,
        logical_x,
        logical_y,
    }
}

/// The touch wire word of a contact: `(id:8 << 18) | (y:9 << 9) | x:9`.
pub open spec fn spec_pack_touch(id: u32, x: u32, y: u32) -> u32 {
    ((id & TOUCH_ID_MASK) << 18u32) | ((y & 0x1ff) << 9u32) | (x & 0x1ff)
}

/// Packs one contact into the legacy touch wire word. Coordinates past 511
/// do not fit the wire and are refused.
pub fn pack_touch(id: u32, x: u32, y: u32) -> (word: u32)
    requires
        x <= 511,
        y <= 511,
    ensures
        word == spec_pack_touch(id, x, y),
{
    ((id & TOUCH_ID_MASK) << 18) | ((y & 0x1ff) << 9) | (x & 0x1ff)
}

/// The wire word gives back the low eight bits of the id and both
/// coordinates, each from its own field.
pub proof fn law_pack_touch_round_trips(id: u32, x: u32, y: u32)
    requires
        x <= 511,
        y <= 511,
    ensures
        spec_pack_touch(id, x, y) & 0x1ff == x,
        (spec_pack_touch(id, x, y) >> 9u32) & 0x1ff == y,
        spec_pack_touch(id, x, y) >> 18u32 == id & 0xff,
{
    assert((((id & 0xff) << 18u32) | ((y & 0x1ff) << 9u32) | (x & 0x1ff)) & 0x1ff == x)
        by (bit_vector)
        requires
            x <= 511,
    ;
    assert(((((id & 0xff) << 18u32) | ((y & 0x1ff) << 9u32) | (x & 0x1ff)) >> 9u32) & 0x1ff == y)
        by (bit_vector)
        requires
            x <= 511,
            y <= 511,
    ;
    assert((((id & 0xff) << 18u32) | ((y & 0x1ff) << 9u32) | (x & 0x1ff)) >> 18u32 == id & 0xff)
        by (bit_vector)
        requires
            x <= 511,
            y <= 511,
    ;
}


/// Swapping the axes reads the contact the other way round: a swapped
/// mapping lands where an unswapped one lands for the contact with its
/// coordinates, and their ranges, exchanged. Without a swap the panel
/// column follows the raw x alone and the panel row the raw y alone.
pub proof fn law_swap_exchanges_the_axes(
    calibration: Calibration,
    x_range: AxisRange,
    y_range: AxisRange,
    slot: usize,
    contact: Contact,
    other: i32,
    geometry: Geometry,
)
    ensures
        ({
            let swapped = Calibration { swap_xy: true, ..calibration };
            let upright = Calibration { swap_xy: false, ..calibration };
            let a = spec_map_contact(swapped, x_range, y_range, slot, contact, geometry);
            let b = spec_map_contact(
                upright,
                y_range,
                x_range,
                slot,
                Contact { x: contact.y, y: contact.x, ..contact },
                geometry,
            );
            let u = spec_map_contact(upright, x_range, y_range, slot, contact, geometry);
            let moved_y = spec_map_contact(
                upright,
                x_range,
                y_range,
                slot,
                Contact { y: other, ..contact },
                geometry,
            );
            let moved_x = spec_map_contact(
                upright,
                x_range,
                y_range,
                slot,
                Contact { x: other, ..contact },
                geometry,
            );
            &&& a.panel_x == b.panel_x && a.panel_y == b.panel_y
            &&& a.logical_x == b.logical_x && a.logical_y == b.logical_y
            &&& moved_y.panel_x == u.panel_x
            &&& moved_x.panel_y == u.panel_y
        }),
{
}

/// A report's logical coordinates are the logical cell that holds the render
/// pixel its panel pixel shows.
pub proof fn law_report_sits_in_its_logical_cell(
    calibration: Calibration,
    x_range: AxisRange,
    y_range: AxisRange,
    slot: usize,
    contact: Contact,
    geometry: Geometry,
)
    requires
        geometry.wf(),
    ensures
        ({
            let r = spec_map_contact(calibration, x_range, y_range, slot, contact, geometry);
            let (x, y) = geometry.spec_panel_to_render(r.panel_x as int, r.panel_y as int);
            let d = geometry.density as int;
            &&& r.logical_x * d <= x < r.logical_x * d + d
            &&& r.logical_y * d <= y < r.logical_y * d + d
        }),
{
    lemma_panel_nonempty(geometry);
    lemma_normalize_bounds(contact.x, x_range, geometry.panel_w);
    lemma_normalize_bounds(contact.y, y_range, geometry.panel_h);
    lemma_normalize_bounds(contact.y, y_range, geometry.panel_w);
    lemma_normalize_bounds(contact.x, x_range, geometry.panel_h);
    let r = spec_map_contact(calibration, x_range, y_range, slot, contact, geometry);
    law_logical_cells_hold_their_pixels(geometry, r.panel_x as int, r.panel_y as int);
}

} // verus!
