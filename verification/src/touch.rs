//! Linux evdev touch decoding: the contact state the kernel's event stream
//! describes, in both the multitouch slot protocol and the single-contact
//! `ABS_X`/`ABS_Y` + `BTN_TOUCH` protocol.
use vstd::prelude::*;

verus! {

pub const EV_SYN: u16 = 0x00;
pub const EV_KEY: u16 = 0x01;
pub const EV_ABS: u16 = 0x03;
pub const SYN_REPORT: u16 = 0;
pub const SYN_DROPPED: u16 = 3;
pub const BTN_TOUCH: u16 = 0x14a;
pub const ABS_X: u16 = 0x00;
pub const ABS_Y: u16 = 0x01;
pub const ABS_MT_SLOT: u16 = 0x2f;
pub const ABS_MT_POSITION_X: u16 = 0x35;
pub const ABS_MT_POSITION_Y: u16 = 0x36;
pub const ABS_MT_TRACKING_ID: u16 = 0x39;
/// Contacts tracked at once; also the number of multitouch slots accepted.
pub const MAX_CONTACTS: usize = 8;
/// Bits of contact identity the touch wire carries.
pub const TOUCH_ID_MASK: u32 = 0xff;

#[derive(Clone, Copy, Debug, Default, PartialEq, Eq, Structural)]
pub struct Contact {
    pub active: bool,
    pub id: u32,
    pub x: i32,
    pub y: i32,
}

/// A contact that is not touching.
pub open spec fn empty_contact() -> Contact {
    Contact { active: false, id: 0, x: 0, y: 0 }
}

#[derive(Clone, Debug)]
pub struct TouchState {
    pub contacts: [Contact; MAX_CONTACTS],
    pub current_slot: Option<usize>,
    pub mt: bool,
    pub sync_lost: bool,
}

/// The contact table and decoder state of a `TouchState`.
pub struct TouchModel {
    pub contacts: Seq<Contact>,
    pub current_slot: Option<usize>,
    pub mt: bool,
    pub sync_lost: bool,
}

impl View for TouchState {
    type V = TouchModel;

    open spec fn view(&self) -> TouchModel {
        TouchModel {
            contacts: self.contacts@,
            current_slot: self.current_slot,
            mt: self.mt,
            sync_lost: self.sync_lost,
        }
    }
}

/// The slot a multitouch `ABS_MT_SLOT` value selects, if it is one this
/// decoder tracks.
pub open spec fn slot_of(value: i32) -> Option<usize> {
    if 0 <= value < MAX_CONTACTS { Some(value as usize) } else { None }
}

/// The index of the contact that slot-addressed events currently change.
pub open spec fn selected(m: TouchModel) -> Option<int> {
    match m.current_slot {
        Some(s) => if s < MAX_CONTACTS { Some(s as int) } else { None },
        None => None,
    }
}

/// `m` with the contact at index `i` replaced by `c`.
pub open spec fn with_contact(m: TouchModel, i: int, c: Contact) -> TouchModel {
    TouchModel { contacts: m.contacts.update(i, c), ..m }
}

/// The effect of one event while the stream is in sync.
pub open spec fn synced_step(m: TouchModel, type_: u16, code: u16, value: i32) -> TouchModel {
    if type_ == EV_ABS && code == ABS_MT_SLOT && m.mt {
        TouchModel { current_slot: slot_of(value), ..m }
    } else if type_ == EV_ABS && code == ABS_MT_TRACKING_ID && m.mt {
        match selected(m) {
            Some(i) => with_contact(
                m,
                i,
                Contact {
                    active: value >= 0,
                    id: if value >= 0 { value as u32 } else { m.contacts[i].id },
                    ..m.contacts[i]
                },
            ),
            None => m,
        }
    } else if type_ == EV_ABS && code == ABS_MT_POSITION_X && m.mt {
        match selected(m) {
            Some(i) => with_contact(m, i, Contact { x: value, ..m.contacts[i] }),
            None => m,
        }
    } else if type_ == EV_ABS && code == ABS_MT_POSITION_Y && m.mt {
        match selected(m) {
            Some(i) => with_contact(m, i, Contact { y: value, ..m.contacts[i] }),
            None => m,
        }
    } else if type_ == EV_ABS && code == ABS_X && !m.mt {
        with_contact(m, 0, Contact { x: value, ..m.contacts[0] })
    } else if type_ == EV_ABS && code == ABS_Y && !m.mt {
        with_contact(m, 0, Contact { y: value, ..m.contacts[0] })
    } else if type_ == EV_KEY && code == BTN_TOUCH && !m.mt {
        with_contact(m, 0, Contact { active: value != 0, id: 0, ..m.contacts[0] })
    } else {
        m
    }
}

/// The effect of one event, and whether it reported that the kernel dropped
/// events. After a drop every contact is released and events are discarded
/// up to and including the next `SYN_REPORT`.
pub open spec fn step(m: TouchModel, type_: u16, code: u16, value: i32) -> (TouchModel, bool) {
    if type_ == EV_SYN && code == SYN_DROPPED {
        (
            TouchModel {
                contacts: Seq::new(MAX_CONTACTS as nat, |i: int| empty_contact()),
                current_slot: if m.mt { None } else { Some(0) },
                sync_lost: true,
                ..m
            },
            true,
        )
    } else if m.sync_lost {
        (
            if type_ == EV_SYN && code == SYN_REPORT {
                TouchModel { sync_lost: false, ..m }
            } else {
                m
            },
            false,
        )
    } else {
        (synced_step(m, type_, code, value), false)
    }
}

impl TouchState {
    pub fn new(mt: bool) -> (s: TouchState)
        ensures
            s@.contacts == Seq::new(MAX_CONTACTS as nat, |i: int| empty_contact()),
            s.current_slot == Some(0usize),
            s.mt == mt,
            !s.sync_lost,
    {
        let empty = Contact { active: false, id: 0, x: 0, y: 0 };
        let s = TouchState {
            contacts: [empty, empty, empty, empty, empty, empty, empty, empty],
            current_slot: Some(0),
            mt,
            sync_lost: false,
        };
        assert(s@.contacts =~= Seq::new(MAX_CONTACTS as nat, |i: int| empty_contact()));
        s
    }

    /// Applies one kernel event. Returns `true` when the event reports that
    /// the kernel dropped events, which clears every contact.
    pub fn apply(&mut self, type_: u16, code: u16, value: i32) -> (dropped: bool)
        ensures
            (final(self)@, dropped) == step(old(self)@, type_, code, value),
    {
        if type_ == EV_SYN && code == SYN_DROPPED {
            let empty = Contact { active: false, id: 0, x: 0, y: 0 };
            assert(empty == empty_contact());
            self.contacts = [empty, empty, empty, empty, empty, empty, empty, empty];
            self.current_slot = if self.mt { None } else { Some(0) };
            self.sync_lost = true;
            assert(self@.contacts =~= Seq::new(MAX_CONTACTS as nat, |i: int| empty_contact()));
            return true;
        }
        if self.sync_lost {
            if type_ == EV_SYN && code == SYN_REPORT {
                self.sync_lost = false;
            }
            return false;
        }
        if type_ == EV_ABS && code == ABS_MT_SLOT && self.mt {
            self.current_slot = if 0 <= value && value < 8 { Some(value as usize) } else { None };
        } else if type_ == EV_ABS && code == ABS_MT_TRACKING_ID && self.mt {
            if let Some(slot) = self.current_slot {
                if slot < MAX_CONTACTS {
                    let mut c: Contact = self.contacts[slot];
                    c.active = value >= 0;
                    if value >= 0 {
                        c.id = value as u32;
                    }
                    self.contacts[slot] = c;
                }
            }
        } else if type_ == EV_ABS && code == ABS_MT_POSITION_X && self.mt {
            if let Some(slot) = self.current_slot {
                if slot < MAX_CONTACTS {
                    let mut c: Contact = self.contacts[slot];
                    c.x = value;
                    self.contacts[slot] = c;
                }
            }
        } else if type_ == EV_ABS && code == ABS_MT_POSITION_Y && self.mt {
            if let Some(slot) = self.current_slot {
                if slot < MAX_CONTACTS {
                    let mut c: Contact = self.contacts[slot];
                    c.y = value;
                    self.contacts[slot] = c;
                }
            }
        } else if type_ == EV_ABS && code == ABS_X && !self.mt {
            let mut c: Contact = self.contacts[0];
            c.x = value;
            self.contacts[0] = c;
        } else if type_ == EV_ABS && code == ABS_Y && !self.mt {
            let mut c: Contact = self.contacts[0];
            c.y = value;
            self.contacts[0] = c;
        } else if type_ == EV_KEY && code == BTN_TOUCH && !self.mt {
            let mut c: Contact = self.contacts[0];
            c.active = value != 0;
            c.id = 0;
            self.contacts[0] = c;
        }
        assert(self@.contacts =~= step(old(self)@, type_, code, value).0.contacts);
        false
    }
}


/// A little-endian `u16` from two bytes.
pub open spec fn le_u16(b0: u8, b1: u8) -> u16 {
    (b0 + 256 * b1) as u16
}

/// A little-endian `i32` from four bytes, two's complement.
pub open spec fn le_i32(b0: u8, b1: u8, b2: u8, b3: u8) -> i32 {
    ((b0 + 256 * b1 + 65536 * b2 + 16777216 * b3) as u32) as i32
}

/// The `(type, code, value)` of the `input_event` record of `size` bytes at
/// `start`: they are its last eight bytes, after the timestamp.
pub open spec fn record_event(bytes: Seq<u8>, start: int, size: int) -> (u16, u16, i32) {
    let o = start + size - 8;
    (
        le_u16(bytes[o], bytes[o + 1]),
        le_u16(bytes[o + 2], bytes[o + 3]),
        le_i32(bytes[o + 4], bytes[o + 5], bytes[o + 6], bytes[o + 7]),
    )
}

/// The whole records among the first `count` bytes; a trailing partial
/// record is not an event.
pub open spec fn records(bytes: Seq<u8>, count: int, size: int) -> Seq<(u16, u16, i32)> {
    Seq::new((count / size) as nat, |k: int| record_event(bytes, k * size, size))
}

/// The state after `events` in order, and how many of them reported a drop.
pub open spec fn run(m: TouchModel, events: Seq<(u16, u16, i32)>) -> (TouchModel, nat)
    decreases events.len(),
{
    if events.len() == 0 {
        (m, 0)
    } else {
        let (before, drops) = run(m, events.drop_last());
        let e = events.last();
        let (after, dropped) = step(before, e.0, e.1, e.2);
        (after, if dropped { drops + 1 } else { drops })
    }
}

/// The `(type, code, value)` of the record of `size` bytes at `start`.
pub fn event_at(bytes: &[u8], start: usize, size: usize) -> (e: (u16, u16, i32))
    requires
        size >= 8,
        start + size <= bytes@.len(),
    ensures
        e == record_event(bytes@, start as int, size as int),
{
    let len: usize = bytes.len();
    assert(start + size <= len);
    let o: usize = start + (size - 8);
    let type_: u16 = (bytes[o] as u16) + (bytes[o + 1] as u16) * 256;
    let code: u16 = (bytes[o + 2] as u16) + (bytes[o + 3] as u16) * 256;
    let raw: u32 = (bytes[o + 4] as u32) + (bytes[o + 5] as u32) * 256 + (bytes[o + 6] as u32)
        * 65536 + (bytes[o + 7] as u32) * 16777216;
    (type_, code, #[verifier::truncate] (raw as i32))
}

impl TouchState {
    /// Applies every whole `input_event` record among the first `count`
    /// bytes of a read, in order, and returns how many reported a drop.
    /// Records are `record_size` bytes, in the machine's byte order, which is
    /// little-endian on every target this host runs on.
    pub fn apply_event_bytes(&mut self, bytes: &[u8], count: usize, record_size: usize) -> (drops:
        usize)
        requires
            count <= bytes@.len(),
            record_size >= 8,
        ensures
            (final(self)@, drops as nat) == run(old(self)@, records(bytes@, count as int, record_size as int)),
    {
        let n: usize = count / record_size;
        let ghost events = records(bytes@, count as int, record_size as int);
        let mut drops: usize = 0;
        let mut k: usize = 0;
        while k < n
            invariant
                n == count / record_size,
                count <= bytes@.len(),
                record_size >= 8,
                events == records(bytes@, count as int, record_size as int),
                k <= n,
                drops <= k,
                (self@, drops as nat) == run(old(self)@, events.subrange(0, k as int)),
            decreases n - k,
        {
            proof {
                assert((k + 1) * record_size <= count) by (nonlinear_arith)
                    requires
                        k < n,
                        n == count / record_size,
                        record_size >= 8,
                ;
                assert(k * record_size + record_size == (k + 1) * record_size) by (nonlinear_arith);
            }
            let (type_, code, value) = event_at(bytes, k * record_size, record_size);
            proof {
                assert(events[k as int] == (type_, code, value));
                let prefix = events.subrange(0, k as int + 1);
                assert(prefix.drop_last() =~= events.subrange(0, k as int));
                assert(prefix.last() == events[k as int]);
            }
            if self.apply(type_, code, value) {
                drops = drops + 1;
            }
            k = k + 1;
        }
        assert(events.subrange(0, n as int) =~= events);
        drops
    }
}

/// The byte of an `EVIOCGBIT` bitmap holding `code`'s bit is among the
/// `written` bytes and has that bit set.
pub open spec fn spec_code_set(bits: Seq<u8>, written: int, code: u16) -> bool {
    let byte = code / 8;
    byte < written && bits[byte as int] & (1u8 << ((code % 8) as u8)) != 0
}

/// Whether the kernel's capability bitmap, of which it wrote `written`
/// bytes, has `code` set.
pub fn event_code_set(bits: &[u8], written: usize, code: u16) -> (set: bool)
    requires
        (code / 8) < written ==> (code / 8) < bits@.len(),
    ensures
        set == spec_code_set(bits@, written as int, code),
{
    let byte: usize = (code / 8) as usize;
    byte < written && bits[byte] & (1u8 << ((code % 8) as u8)) != 0
}

/// An axis extent the kernel declared, if it has room between its bounds.
pub fn axis_extent(minimum: i32, maximum: i32) -> (r: Option<crate::input::AxisRange>)
    ensures
        r is Some <==> maximum > minimum,
        r matches Some(a) ==> a.min == minimum && a.max == maximum,
{
    if maximum <= minimum {
        None
    } else {
        Some(crate::input::AxisRange { min: minimum, max: maximum })
    }
}

/// Which protocol a node's axes support.
#[derive(Clone, Copy, Debug, PartialEq, Eq)]
pub enum AxisChoice {
    /// Multitouch position axes: use them.
    Multitouch(crate::input::AxisRange, crate::input::AxisRange),
    /// Only single-contact axes: usable if the node also reports `BTN_TOUCH`.
    NeedsTouchKey(crate::input::AxisRange, crate::input::AxisRange),
    /// Not a touchscreen.
    Unusable,
}

/// Prefers the multitouch axes; falls back to `ABS_X`/`ABS_Y`, which need
/// `BTN_TOUCH` to say when a contact is down.
pub fn choose_axes(
    mt_x: Option<crate::input::AxisRange>,
    mt_y: Option<crate::input::AxisRange>,
    single_x: Option<crate::input::AxisRange>,
    single_y: Option<crate::input::AxisRange>,
) -> (c: AxisChoice)
    ensures
        c == if mt_x is Some && mt_y is Some {
            AxisChoice::Multitouch(mt_x->0, mt_y->0)
        } else if single_x is Some && single_y is Some {
            AxisChoice::NeedsTouchKey(single_x->0, single_y->0)
        } else {
            AxisChoice::Unusable
        },
{
    match (mt_x, mt_y) {
        (Some(x), Some(y)) => AxisChoice::Multitouch(x, y),
        _ => match (single_x, single_y) {
            (Some(x), Some(y)) => AxisChoice::NeedsTouchKey(x, y),
            _ => AxisChoice::Unusable,
        },
    }
}

/// Bytes of `struct input_absinfo`.
pub const INPUT_ABSINFO_SIZE: u32 = 24;
/// Bytes of the capability bitmap buffer handed to `EVIOCGBIT`.
pub const EVENT_BITS_LEN: u32 = 96;

/// `_IOR('E', 0x40 + axis, struct input_absinfo)`: read an axis's extent.
pub fn eviocgabs(axis: u16) -> (request: u32)
    ensures
        request == (2u32 << 30u32) | (0x45u32 << 8u32) | ((0x40 + axis) as u32) | (
        INPUT_ABSINFO_SIZE << 16u32),
{
    (2u32 << 30) | (0x45u32 << 8) | (0x40 + axis as u32) | (INPUT_ABSINFO_SIZE << 16)
}

/// `_IOR('E', 0x20 + event_type, len)`: read which codes of a type a node
/// reports.
pub fn eviocgbit(event_type: u16, len: u32) -> (request: u32)
    requires
        len < 0x4000,
    ensures
        request == (2u32 << 30u32) | (0x45u32 << 8u32) | ((0x20 + event_type) as u32) | (len
            << 16u32),
{
    (2u32 << 30) | (0x45u32 << 8) | (0x20 + event_type as u32) | (len << 16)
}

/// `_IOW('E', 0x90, int)`: take (1) or release (0) exclusive ownership.
pub const EVIOCGRAB: u32 = 0x4004_4590;

/// The grab request number is the encoding it claims to be.
pub proof fn law_grab_request_matches_its_encoding()
    ensures
        EVIOCGRAB == (1u32 << 30u32) | (0x45u32 << 8u32) | 0x90u32 | (4u32 << 16u32),
{
    assert(0x4004_4590u32 == (1u32 << 30u32) | (0x45u32 << 8u32) | 0x90u32 | (4u32 << 16u32))
        by (bit_vector);
}

/// Only an `EV_SYN`/`SYN_DROPPED` event reports a drop, and it releases
/// every contact.
pub proof fn law_drop_releases_every_contact(m: TouchModel, type_: u16, code: u16, value: i32)
    ensures
        step(m, type_, code, value).1 <==> (type_ == EV_SYN && code == SYN_DROPPED),
        step(m, type_, code, value).1 ==> {
            let next = step(m, type_, code, value).0;
            &&& next.sync_lost
            &&& next.contacts.len() == MAX_CONTACTS
            &&& forall|i: int| 0 <= i < MAX_CONTACTS ==> !(#[trigger] next.contacts[i]).active
        },
{
}

/// After a drop, events change nothing until a `SYN_REPORT` resynchronizes
/// the stream; that report itself changes no contact either.
pub proof fn law_desynchronized_events_are_discarded(
    m: TouchModel,
    type_: u16,
    code: u16,
    value: i32,
)
    requires
        m.sync_lost,
        !(type_ == EV_SYN && code == SYN_DROPPED),
    ensures
        step(m, type_, code, value).0.contacts == m.contacts,
        step(m, type_, code, value).0.current_slot == m.current_slot,
        step(m, type_, code, value).0.sync_lost <==> !(type_ == EV_SYN && code == SYN_REPORT),
{
}

/// A slot number the decoder does not track selects no contact, so the
/// events that follow it cannot alias onto a tracked one.
pub proof fn law_untracked_slots_are_ignored(
    m: TouchModel,
    value: i32,
    type_: u16,
    code: u16,
    next_value: i32,
)
    requires
        m.mt,
        !m.sync_lost,
        !(0 <= value < MAX_CONTACTS),
        !(type_ == EV_SYN && code == SYN_DROPPED),
        !(type_ == EV_ABS && code == ABS_MT_SLOT),
    ensures
        ({
            let picked = step(m, EV_ABS, ABS_MT_SLOT, value).0;
            &&& selected(picked) is None
            &&& step(picked, type_, code, next_value).0.contacts == m.contacts
        }),
{
}

/// In the multitouch protocol an event changes at most the selected contact;
/// in the single-contact protocol it changes at most the first.
pub proof fn law_event_touches_one_contact(
    m: TouchModel,
    type_: u16,
    code: u16,
    value: i32,
    i: int,
)
    requires
        m.contacts.len() == MAX_CONTACTS,
        0 <= i < MAX_CONTACTS,
        !(type_ == EV_SYN && code == SYN_DROPPED),
        m.mt ==> selected(m) != Some(i),
        !m.mt ==> i != 0,
    ensures
        step(m, type_, code, value).0.contacts[i] == m.contacts[i],
        step(m, type_, code, value).0.contacts.len() == MAX_CONTACTS,
{
}


/// Each axis event writes its own coordinate. In the single-contact
/// protocol `ABS_X` sets the contact's x and nothing else, `ABS_Y` its y and
/// nothing else, and `BTN_TOUCH` whether it is down; in the multitouch
/// protocol the position events do the same for the selected slot, a
/// tracking id puts its contact down under that id and one of -1 lifts it,
/// and a slot event selects that slot (none when it is out of range).
/// Events for the other protocol change nothing.
pub proof fn law_axis_events_write_their_own_coordinate(m: TouchModel, value: i32)
    requires
        m.contacts.len() == MAX_CONTACTS,
        !m.sync_lost,
    ensures
        !m.mt ==> step(m, EV_ABS, ABS_X, value).0.contacts[0] == (Contact {
            x: value,
            ..m.contacts[0]
        }),
        !m.mt ==> step(m, EV_ABS, ABS_Y, value).0.contacts[0] == (Contact {
            y: value,
            ..m.contacts[0]
        }),
        !m.mt ==> step(m, EV_KEY, BTN_TOUCH, value).0.contacts[0].active == (value != 0),
        !m.mt ==> step(m, EV_KEY, BTN_TOUCH, value).0.contacts[0].x == m.contacts[0].x
            && step(m, EV_KEY, BTN_TOUCH, value).0.contacts[0].y == m.contacts[0].y,
        !m.mt ==> step(m, EV_ABS, ABS_MT_POSITION_X, value).0 == m,
        m.mt ==> step(m, EV_ABS, ABS_X, value).0 == m && step(m, EV_ABS, ABS_Y, value).0 == m,
        (m.mt && m.current_slot is Some && m.current_slot->0 < MAX_CONTACTS) ==> {
            let s = m.current_slot->0;
            &&& step(m, EV_ABS, ABS_MT_POSITION_X, value).0.contacts[s as int] == (Contact {
                x: value,
                ..m.contacts[s as int]
            })
            &&& step(m, EV_ABS, ABS_MT_POSITION_Y, value).0.contacts[s as int] == (Contact {
                y: value,
                ..m.contacts[s as int]
            })
            &&& (value < 0 ==> !step(m, EV_ABS, ABS_MT_TRACKING_ID, value).0.contacts[s as int].active)
            &&& (value >= 0 ==> step(m, EV_ABS, ABS_MT_TRACKING_ID, value).0.contacts[s as int] == (
            Contact { active: true, id: value as u32, ..m.contacts[s as int] }))
        },
        (m.mt && 0 <= value < MAX_CONTACTS) ==> step(m, EV_ABS, ABS_MT_SLOT, value).0.current_slot
            == Some(value as usize),
        (m.mt && (value < 0 || value >= MAX_CONTACTS)) ==> step(
            m,
            EV_ABS,
            ABS_MT_SLOT,
            value,
        ).0.current_slot is None,
{
}

} // verus!
