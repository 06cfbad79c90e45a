//! The touchscreens discovery found, which one is used, and the contacts it
//! currently reports.
use vstd::prelude::*;

use crate::geometry::Geometry;
use crate::text::signed_decimal_text;
use crate::input::{
    AxisRange, Calibration, ContactReport, OverrideError, RangeOverride, contact_mappable,
    map_contact, normalize_ok, pack_touch, spec_map_contact, spec_pack_touch,
};
use crate::touch::{Contact, MAX_CONTACTS, TouchState};

verus! {

/// One evdev node that exposes touch axes. `handle` names the open node in
/// the caller's table of descriptors.
pub struct TouchDevice {
    pub handle: usize,
    pub path: String,
    pub grabbed: bool,
    pub x_range: AxisRange,
    pub y_range: AxisRange,
    pub state: TouchState,
}

/// The evdev axis contract of the touchscreen the host selected.
#[derive(Clone, Debug, PartialEq, Eq)]
pub struct TouchAxes {
    pub path: String,
    pub multitouch: bool,
    pub x_min: i32,
    pub x_max: i32,
    pub y_min: i32,
    pub y_max: i32,
}

/// Why no touchscreen can be claimed.
#[derive(Clone, Copy, Debug, PartialEq, Eq)]
pub enum InputError {
    NoTouchscreen,
}

impl InputError {
    pub fn message(&self) -> (m: String)
        ensures
            m@ == "PocketJS Kobo Glo runtime requires a discoverable evdev touchscreen; no device exposed multitouch X/Y axes or BTN_TOUCH with ABS_X/ABS_Y"@,
    {
        "PocketJS Kobo Glo runtime requires a discoverable evdev touchscreen; no device exposed multitouch X/Y axes or BTN_TOUCH with ABS_X/ABS_Y".to_owned()
    }
}

/// The multitouch devices of `s`, in order.
pub open spec fn mt_devices(s: Seq<TouchDevice>) -> Seq<TouchDevice>
    decreases s.len(),
{
    if s.len() == 0 {
        Seq::empty()
    } else if s[0].state.mt {
        seq![s[0]] + mt_devices(s.drop_first())
    } else {
        mt_devices(s.drop_first())
    }
}

/// The single-contact devices of `s`, in order.
pub open spec fn single_devices(s: Seq<TouchDevice>) -> Seq<TouchDevice>
    decreases s.len(),
{
    if s.len() == 0 {
        Seq::empty()
    } else if !s[0].state.mt {
        seq![s[0]] + single_devices(s.drop_first())
    } else {
        single_devices(s.drop_first())
    }
}

/// Every multitouch device before every single-contact one, each group in
/// discovery order.
pub fn order_devices(devices: Vec<TouchDevice>) -> (ordered: Vec<TouchDevice>)
    ensures
        ordered@ == mt_devices(devices@) + single_devices(devices@),
{
    let mut rest = devices;
    let mut multi: Vec<TouchDevice> = Vec::new();
    let mut single: Vec<TouchDevice> = Vec::new();
    while rest.len() > 0
        invariant
            mt_devices(devices@) == multi@ + mt_devices(rest@),
            single_devices(devices@) == single@ + single_devices(rest@),
        decreases rest.len(),
    {
        let ghost before = rest@;
        let d = rest.remove(0);
        assert(before.drop_first() =~= rest@);
        assert(before[0] == d);
        if d.state.mt {
            multi.push(d);
            assert(mt_devices(before) == seq![d] + mt_devices(rest@));
            assert(single_devices(before) == single_devices(rest@));
        } else {
            single.push(d);
            assert(single_devices(before) == seq![d] + single_devices(rest@));
            assert(mt_devices(before) == mt_devices(rest@));
        }
    }
    assert(multi@ + Seq::<TouchDevice>::empty() =~= multi@);
    assert(single@ + Seq::<TouchDevice>::empty() =~= single@);
    multi.append(&mut single);
    multi
}

proof fn lemma_groups(s: Seq<TouchDevice>)
    ensures
        mt_devices(s).len() + single_devices(s).len() == s.len(),
        forall|i: int| 0 <= i < mt_devices(s).len() ==> (#[trigger] mt_devices(s)[i]).state.mt,
        forall|i: int| 0 <= i < single_devices(s).len() ==> !(#[trigger] single_devices(s)[i]).state.mt,
    decreases s.len(),
{
    if s.len() > 0 {
        let rest = s.drop_first();
        lemma_groups(rest);
        if s[0].state.mt {
            let m = seq![s[0]] + mt_devices(rest);
            assert forall|i: int| 0 <= i < m.len() implies (#[trigger] m[i]).state.mt by {
                if i > 0 {
                    assert(m[i] == mt_devices(rest)[i - 1]);
                }
            }
        } else {
            let m = seq![s[0]] + single_devices(rest);
            assert forall|i: int| 0 <= i < m.len() implies !(#[trigger] m[i]).state.mt by {
                if i > 0 {
                    assert(m[i] == single_devices(rest)[i - 1]);
                }
            }
        }
    }
}

/// Ordering keeps every device and puts each multitouch device before each
/// single-contact one.
pub proof fn law_multitouch_devices_come_first(s: Seq<TouchDevice>)
    ensures
        ({
            let o = mt_devices(s) + single_devices(s);
            &&& o.len() == s.len()
            &&& forall|i: int, j: int|
                0 <= i < j < o.len() && (#[trigger] o[j]).state.mt ==> (#[trigger] o[i]).state.mt
        }),
{
    lemma_groups(s);
    let o = mt_devices(s) + single_devices(s);
    let n = mt_devices(s).len();
    assert forall|i: int, j: int|
        0 <= i < j < o.len() && (#[trigger] o[j]).state.mt implies (#[trigger] o[i]).state.mt by {
        if j >= n {
            assert(o[j] == single_devices(s)[j - n]);
        }
        assert(o[i] == mt_devices(s)[i]);
    }
}

/// The reports of the active contacts among the first `n` slots, in slot
/// order.
pub open spec fn reports_upto(
    calibration: Calibration,
    x_range: AxisRange,
    y_range: AxisRange,
    contacts: Seq<Contact>,
    geometry: Geometry,
    n: int,
) -> Seq<ContactReport>
    decreases n,
{
    if n <= 0 {
        Seq::empty()
    } else {
        let prev = reports_upto(calibration, x_range, y_range, contacts, geometry, n - 1);
        if contacts[n - 1].active {
            prev.push(
                spec_map_contact(
                    calibration,
                    x_range,
                    y_range,
                    (n - 1) as usize,
                    contacts[n - 1],
                    geometry,
                ),
            )
        } else {
            prev
        }
    }
}

/// The reports are exactly the active contacts among the first `n` slots, in
/// slot order: each report is the mapping of an active contact at its slot,
/// slots strictly increase, and every active contact is reported.
pub proof fn law_reports_are_the_active_contacts(
    calibration: Calibration,
    x_range: AxisRange,
    y_range: AxisRange,
    contacts: Seq<Contact>,
    geometry: Geometry,
    n: int,
)
    requires
        0 <= n <= contacts.len(),
        n <= usize::MAX,
    ensures
        ({
            let r = reports_upto(calibration, x_range, y_range, contacts, geometry, n);
            &&& forall|i: int|
                0 <= i < r.len() ==> {
                    &&& 0 <= (#[trigger] r[i]).slot < n
                    &&& contacts[r[i].slot as int].active
                    &&& r[i] == spec_map_contact(
                        calibration,
                        x_range,
                        y_range,
                        r[i].slot,
                        contacts[r[i].slot as int],
                        geometry,
                    )
                }
            &&& forall|i: int, j: int| 0 <= i < j < r.len() ==> (#[trigger] r[i]).slot < (#[trigger] r[j]).slot
            &&& forall|s: int|
                0 <= s < n && (#[trigger] contacts[s]).active ==> exists|i: int|
                    0 <= i < r.len() && (#[trigger] r[i]).slot == s
        }),
    decreases n,
{
    if n > 0 {
        law_reports_are_the_active_contacts(calibration, x_range, y_range, contacts, geometry, n - 1);
        let prev = reports_upto(calibration, x_range, y_range, contacts, geometry, n - 1);
        let r = reports_upto(calibration, x_range, y_range, contacts, geometry, n);
        if contacts[n - 1].active {
            let last = spec_map_contact(
                calibration,
                x_range,
                y_range,
                (n - 1) as usize,
                contacts[n - 1],
                geometry,
            );
            assert(r == prev.push(last));
            assert(r[prev.len() as int] == last);
            assert forall|i: int| 0 <= i < prev.len() implies #[trigger] r[i] == prev[i] by {}
            assert forall|s: int|
                0 <= s < n && (#[trigger] contacts[s]).active implies exists|i: int|
                    0 <= i < r.len() && (#[trigger] r[i]).slot == s by {
                if s < n - 1 {
                    let i = choose|i: int| 0 <= i < prev.len() && (#[trigger] prev[i]).slot == s;
                    assert(r[i] == prev[i]);
                } else {
                    assert(r[prev.len() as int].slot == s);
                }
            }
            assert forall|i: int, j: int| 0 <= i < j < r.len() implies (#[trigger] r[i]).slot < (#[trigger] r[j]).slot by {
                assert(r[i] == prev[i]);
                if j < prev.len() {
                    assert(r[j] == prev[j]);
                }
            }
        } else {
            assert(r == prev);
            assert forall|s: int|
                0 <= s < n && (#[trigger] contacts[s]).active implies exists|i: int|
                    0 <= i < r.len() && (#[trigger] r[i]).slot == s by {
                let i = choose|i: int| 0 <= i < prev.len() && (#[trigger] prev[i]).slot == s;
                assert(r[i] == prev[i]);
            }
        }
    }
}

/// The touch wire words of `reports`, slot as identity.
pub open spec fn packed(reports: Seq<ContactReport>) -> Seq<u32> {
    reports.map_values(
        |r: ContactReport| spec_pack_touch(r.slot as u32, r.logical_x, r.logical_y),
    )
}

/// The overrides would collapse one of `d`'s axes.
pub open spec fn collapses(o: RangeOverride, d: TouchDevice) -> bool {
    let mx = RangeOverride::merged(d.x_range, o.x_min, o.x_max);
    let my = RangeOverride::merged(d.y_range, o.y_min, o.y_max);
    mx.max <= mx.min || my.max <= my.min
}

/// The error `RangeOverride::apply` gives for `d`'s ranges: the x axis if it
/// collapses, else the y axis.
pub open spec fn override_error(o: RangeOverride, d: TouchDevice) -> OverrideError {
    let mx = RangeOverride::merged(d.x_range, o.x_min, o.x_max);
    let my = RangeOverride::merged(d.y_range, o.y_min, o.y_max);
    if mx.max <= mx.min {
        OverrideError { axis: 'x', min: mx.min, max: mx.max }
    } else {
        OverrideError { axis: 'y', min: my.min, max: my.max }
    }
}

/// The touchscreens and the calibration that maps their contacts.
pub struct Input {
    pub devices: Vec<TouchDevice>,
    pub calibration: Calibration,
}

impl Input {
    /// Devices ordered multitouch first, regardless of node numbering.
    pub fn new(devices: Vec<TouchDevice>, calibration: Calibration) -> (input: Input)
        ensures
            input.devices@ == mt_devices(devices@) + single_devices(devices@),
            input.calibration == calibration,
    {
        Input { devices: order_devices(devices), calibration }
    }

    pub fn device_count(&self) -> (n: usize)
        ensures
            n == self.devices@.len(),
    {
        self.devices.len()
    }

    /// Applies the overrides to every device's ranges, or refuses the first
    /// device whose axis they would collapse.
    pub fn apply_overrides(&mut self, overrides: &RangeOverride) -> (r: Result<(), OverrideError>)
        ensures
            final(self).devices@.len() == old(self).devices@.len(),
            final(self).calibration == old(self).calibration,
            r is Ok ==> forall|i: int|
                0 <= i < old(self).devices@.len() ==> {
                    let d = #[trigger] old(self).devices@[i];
                    let e = final(self).devices@[i];
                    &&& e.x_range == RangeOverride::merged(d.x_range, overrides.x_min, overrides.x_max)
                    &&& e.y_range == RangeOverride::merged(d.y_range, overrides.y_min, overrides.y_max)
                    &&& e.x_range.max > e.x_range.min
                    &&& e.y_range.max > e.y_range.min
                    &&& e.handle == d.handle
                    &&& e.path == d.path
                    &&& e.grabbed == d.grabbed
                    &&& e.state@ == d.state@
                },
            r is Err <==> exists|i: int|
                0 <= i < old(self).devices@.len() && {
                    let d = #[trigger] old(self).devices@[i];
                    let mx = RangeOverride::merged(d.x_range, overrides.x_min, overrides.x_max);
                    let my = RangeOverride::merged(d.y_range, overrides.y_min, overrides.y_max);
                    mx.max <= mx.min || my.max <= my.min
                },
            r matches Err(e) ==> exists|i: int|
                0 <= i < old(self).devices@.len() && collapses(
                    *overrides,
                    #[trigger] old(self).devices@[i],
                ) && (forall|j: int| 0 <= j < i ==> !collapses(*overrides, old(self).devices@[j]))
                    && e == override_error(*overrides, old(self).devices@[i]),
    {
        let n: usize = self.devices.len();
        let mut i: usize = 0;
        while i < n
            invariant
                n == old(self).devices@.len(),
                self.devices@.len() == n,
                self.calibration == old(self).calibration,
                i <= n,
                forall|j: int|
                    0 <= j < n ==> {
                        let d = #[trigger] old(self).devices@[j];
                        let e = self.devices@[j];
                        &&& e.handle == d.handle
                        &&& e.path == d.path
                        &&& e.grabbed == d.grabbed
                        &&& e.state@ == d.state@
                        &&& j >= i ==> e.x_range == d.x_range && e.y_range == d.y_range
                        &&& j < i ==> {
                            &&& e.x_range == RangeOverride::merged(
                                d.x_range,
                                overrides.x_min,
                                overrides.x_max,
                            )
                            &&& e.y_range == RangeOverride::merged(
                                d.y_range,
                                overrides.y_min,
                                overrides.y_max,
                            )
                            &&& e.x_range.max > e.x_range.min
                            &&& e.y_range.max > e.y_range.min
                        }
                    },
            decreases n - i,
        {
            let (x, y) = match overrides.apply(self.devices[i].x_range, self.devices[i].y_range) {
                Ok(p) => p,
                Err(e) => {
                    assert({
                        let d = old(self).devices@[i as int];
                        let mx = RangeOverride::merged(d.x_range, overrides.x_min, overrides.x_max);
                        let my = RangeOverride::merged(d.y_range, overrides.y_min, overrides.y_max);
                        mx.max <= mx.min || my.max <= my.min
                    });
                    assert(collapses(*overrides, old(self).devices@[i as int]));
                    assert forall|j: int| 0 <= j < i implies !collapses(
                        *overrides,
                        old(self).devices@[j],
                    ) by {
                        let d = old(self).devices@[j];
                        assert(self.devices@[j].x_range.max > self.devices@[j].x_range.min);
                    }
                    return Err(e);
                },
            };
            self.devices[i].x_range = x;
            self.devices[i].y_range = y;
            i = i + 1;
        }
        Ok(())
    }

    /// The axis contract of the device `grab_selected` would claim, or `None`
    /// when discovery found no touchscreen.
    pub fn selected_axes(&self) -> (axes: Option<TouchAxes>)
        ensures
            axes is None <==> self.devices@.len() == 0,
            axes matches Some(a) ==> {
                let d = self.devices@[0];
                &&& a.path@ == d.path@
                &&& a.multitouch == d.state.mt
                &&& a.x_min == d.x_range.min
                &&& a.x_max == d.x_range.max
                &&& a.y_min == d.y_range.min
                &&& a.y_max == d.y_range.max
            },
    {
        if self.devices.len() == 0 {
            return None;
        }
        let d = &self.devices[0];
        Some(
            TouchAxes {
                path: d.path.clone(),
                multitouch: d.state.mt,
                x_min: d.x_range.min,
                x_max: d.x_range.max,
                y_min: d.y_range.min,
                y_max: d.y_range.max,
            },
        )
    }

    /// The device to take exclusive ownership of: the first, unless it is
    /// already held (`None`); an error when there is no touchscreen at all.
    pub fn grab_selected(&self) -> (r: Result<Option<usize>, InputError>)
        ensures
            r is Err <==> self.devices@.len() == 0,
            r matches Ok(target) ==> target == if self.devices@[0].grabbed {
                None
            } else {
                Some(0usize)
            },
    {
        if self.devices.len() == 0 {
            return Err(InputError::NoTouchscreen);
        }
        if self.devices[0].grabbed {
            Ok(None)
        } else {
            Ok(Some(0))
        }
    }

    /// Records whether the device at `index` is held exclusively.
    pub fn set_grabbed(&mut self, index: usize, grabbed: bool)
        requires
            index < old(self).devices@.len(),
        ensures
            final(self).devices@.len() == old(self).devices@.len(),
            final(self).calibration == old(self).calibration,
            final(self).devices@[index as int].grabbed == grabbed,
            final(self).devices@[index as int].handle == old(self).devices@[index as int].handle,
            final(self).devices@[index as int].path == old(self).devices@[index as int].path,
            final(self).devices@[index as int].x_range == old(self).devices@[index as int].x_range,
            final(self).devices@[index as int].y_range == old(self).devices@[index as int].y_range,
            final(self).devices@[index as int].state@ == old(self).devices@[index as int].state@,
            forall|j: int|
                0 <= j < old(self).devices@.len() && j != index ==> #[trigger] final(self).devices@[j]
                    == old(self).devices@[j],
    {
        self.devices[index].grabbed = grabbed;
    }

    /// The contacts of the selected device can all be mapped.
    pub open spec fn reports_defined(&self, geometry: Geometry) -> bool {
        self.devices@.len() > 0 ==> {
            let d = self.devices@[0];
            forall|i: int|
                0 <= i < MAX_CONTACTS && (#[trigger] d.state.contacts@[i]).active
                    ==> contact_mappable(
                    self.calibration,
                    d.x_range,
                    d.y_range,
                    d.state.contacts@[i],
                    geometry,
                )
        }
    }

    /// Whether the selected device's contacts can all be mapped now.
    pub fn reports_ready(&self, geometry: &Geometry) -> (ok: bool)
        ensures
            ok == self.reports_defined(*geometry),
    {
        if self.devices.len() == 0 {
            return true;
        }
        let d = &self.devices[0];
        let mut i: usize = 0;
        while i < MAX_CONTACTS
            invariant
                i <= MAX_CONTACTS,
                self.devices@.len() > 0,
                *d == self.devices@[0],
                d.state.contacts@.len() == MAX_CONTACTS,
                forall|j: int|
                    0 <= j < i && (#[trigger] d.state.contacts@[j]).active ==> contact_mappable(
                        self.calibration,
                        d.x_range,
                        d.y_range,
                        d.state.contacts@[j],
                        *geometry,
                    ),
            decreases MAX_CONTACTS - i,
        {
            let c: Contact = d.state.contacts[i];
            if c.active {
                let ok: bool = if self.calibration.swap_xy {
                    normalize_ok(c.y, d.y_range, geometry.panel_w) && normalize_ok(
                        c.x,
                        d.x_range,
                        geometry.panel_h,
                    )
                } else {
                    normalize_ok(c.x, d.x_range, geometry.panel_w) && normalize_ok(
                        c.y,
                        d.y_range,
                        geometry.panel_h,
                    )
                };
                if !ok {
                    return false;
                }
            }
            i = i + 1;
        }
        true
    }

    /// The active contacts of the selected device, in slot order, in raw,
    /// panel and logical coordinates.
    pub open spec fn spec_reports(&self, geometry: Geometry) -> Seq<ContactReport> {
        if self.devices@.len() == 0 {
            Seq::empty()
        } else {
            let d = self.devices@[0];
            reports_upto(
                self.calibration,
                d.x_range,
                d.y_range,
                d.state.contacts@,
                geometry,
                MAX_CONTACTS as int,
            )
        }
    }

    /// Report the active contacts of the first touchscreen in raw, panel and
    /// logical coordinates. With several nodes for one panel, using the
    /// first avoids duplicate contacts.
    pub fn poll_reports(&self, geometry: &Geometry) -> (reports: Vec<ContactReport>)
        requires
            geometry.wf(),
            self.reports_defined(*geometry),
        ensures
            reports@ == self.spec_reports(*geometry),
            forall|i: int|
                0 <= i < reports@.len() ==> (#[trigger] reports@[i]).slot < MAX_CONTACTS
                    && reports@[i].logical_x < geometry.logical_w && reports@[i].logical_y
                    < geometry.logical_h,
    {
        let mut reports: Vec<ContactReport> = Vec::new();
        if self.devices.len() == 0 {
            return reports;
        }
        let d = &self.devices[0];
        let mut slot: usize = 0;
        while slot < MAX_CONTACTS
            invariant
                slot <= MAX_CONTACTS,
                geometry.wf(),
                self.devices@.len() > 0,
                *d == self.devices@[0],
                self.reports_defined(*geometry),
                reports@ == reports_upto(
                    self.calibration,
                    d.x_range,
                    d.y_range,
                    d.state.contacts@,
                    *geometry,
                    slot as int,
                ),
                forall|i: int|
                    0 <= i < reports@.len() ==> (#[trigger] reports@[i]).slot < slot
                        && reports@[i].logical_x < geometry.logical_w && reports@[i].logical_y
                        < geometry.logical_h,
            decreases MAX_CONTACTS - slot,
        {
            let contact: Contact = d.state.contacts[slot];
            if contact.active {
                let report = map_contact(
                    self.calibration,
                    d.x_range,
                    d.y_range,
                    slot,
                    contact,
                    geometry,
                );
                reports.push(report);
            }
            slot = slot + 1;
        }
        reports
    }

    /// `poll_reports` packed onto the touch wire. Linux multitouch slots are
    /// stable for a contact's lifetime and capped at eight here, so the slot
    /// is the contact's identity.
    pub fn poll_touches(&self, geometry: &Geometry) -> (touches: Vec<u32>)
        requires
            geometry.wf(),
            geometry.logical_w <= 512,
            geometry.logical_h <= 512,
            self.reports_defined(*geometry),
        ensures
            touches@ == packed(self.spec_reports(*geometry)),
    {
        let reports = self.poll_reports(geometry);
        let mut touches: Vec<u32> = Vec::new();
        let mut i: usize = 0;
        while i < reports.len()
            invariant
                i <= reports@.len(),
                geometry.logical_w <= 512,
                geometry.logical_h <= 512,
                forall|k: int|
                    0 <= k < reports@.len() ==> (#[trigger] reports@[k]).slot < MAX_CONTACTS
                        && reports@[k].logical_x < geometry.logical_w && reports@[k].logical_y
                        < geometry.logical_h,
                touches@ == packed(reports@.subrange(0, i as int)),
            decreases reports@.len() - i,
        {
            let r = reports[i];
            let word = pack_touch(r.slot as u32, r.logical_x, r.logical_y);
            touches.push(word);
            assert(packed(reports@.subrange(0, i as int + 1)) =~= packed(
                reports@.subrange(0, i as int),
            ).push(word));
            i = i + 1;
        }
        assert(reports@.subrange(0, reports@.len() as int) =~= reports@);
        touches
    }

    /// The calibration currently in force, as the environment variables that
    /// would reproduce it, with the axis extents actually in use.
    pub fn calibration_summary(&self) -> (s: String)
        ensures
            s@ == calibration_text(
                self.calibration.swap_xy,
                self.calibration.flip_x,
                self.calibration.flip_y,
                if self.devices@.len() == 0 { 0 } else { self.devices@[0].x_range.min },
                if self.devices@.len() == 0 { 0 } else { self.devices@[0].x_range.max },
                if self.devices@.len() == 0 { 0 } else { self.devices@[0].y_range.min },
                if self.devices@.len() == 0 { 0 } else { self.devices@[0].y_range.max },
            ),
    {
        let (x_min, x_max, y_min, y_max) = match self.selected_axes() {
            Some(a) => (a.x_min, a.x_max, a.y_min, a.y_max),
            None => (0, 0, 0, 0),
        };
        describe_calibration(
            self.calibration.swap_xy,
            self.calibration.flip_x,
            self.calibration.flip_y,
            x_min,
            x_max,
            y_min,
            y_max,
        )
    }
}

/// A switch as `u8::from` writes it: `1` when on, `0` when off.
pub open spec fn switch_text(on: bool) -> Seq<char> {
    if on { "1"@ } else { "0"@ }
}

/// The calibration summary text: each switch as 0 or 1, then the extents,
/// as the variables that would reproduce them.
pub open spec fn calibration_text(
    swap_xy: bool,
    flip_x: bool,
    flip_y: bool,
    x_min: i32,
    x_max: i32,
    y_min: i32,
    y_max: i32,
) -> Seq<char> {
    "POCKETJS_TOUCH_SWAP_XY="@ + switch_text(swap_xy) + " POCKETJS_TOUCH_FLIP_X="@ + switch_text(
        flip_x,
    ) + " POCKETJS_TOUCH_FLIP_Y="@ + switch_text(flip_y) + " POCKETJS_TOUCH_X_MIN="@
        + crate::text::signed_decimal(x_min as int) + " POCKETJS_TOUCH_X_MAX="@
        + crate::text::signed_decimal(x_max as int) + " POCKETJS_TOUCH_Y_MIN="@
        + crate::text::signed_decimal(y_min as int) + " POCKETJS_TOUCH_Y_MAX="@
        + crate::text::signed_decimal(y_max as int)
}

/// A switch as `u8::from` writes it.
fn switch_str(on: bool) -> (s: &'static str)
    ensures
        s@ == switch_text(on),
{
    if on { "1" } else { "0" }
}

/// The calibration summary: each switch as 0 or 1, then the extents.
fn describe_calibration(
    swap_xy: bool,
    flip_x: bool,
    flip_y: bool,
    x_min: i32,
    x_max: i32,
    y_min: i32,
    y_max: i32,
) -> (s: String)
    ensures
        s@ == calibration_text(swap_xy, flip_x, flip_y, x_min, x_max, y_min, y_max),
{
    let s = "POCKETJS_TOUCH_SWAP_XY=".to_owned().concat(switch_str(swap_xy));
    let s = s.concat(" POCKETJS_TOUCH_FLIP_X=").concat(switch_str(flip_x));
    let s = s.concat(" POCKETJS_TOUCH_FLIP_Y=").concat(switch_str(flip_y));
    let s = s.concat(" POCKETJS_TOUCH_X_MIN=").concat(signed_decimal_text(x_min).as_str());
    let s = s.concat(" POCKETJS_TOUCH_X_MAX=").concat(signed_decimal_text(x_max).as_str());
    let s = s.concat(" POCKETJS_TOUCH_Y_MIN=").concat(signed_decimal_text(y_min).as_str());
    let s = s.concat(" POCKETJS_TOUCH_Y_MAX=").concat(signed_decimal_text(y_max).as_str());
    assert(s@ =~= calibration_text(swap_xy, flip_x, flip_y, x_min, x_max, y_min, y_max));
    s
}

} // verus!
