//! The EPDC update queue's bookkeeping and the ioctl request encodings the
//! panel driver is addressed with.
use vstd::prelude::*;

use crate::damage::Rect;
use crate::refresh::{RefreshRequest, Waveform, WAVEFORM_MODE_AUTO};

verus! {

/// `_IOC_WRITE`: userspace hands the driver data.
pub const IOC_WRITE: u32 = 1;
/// `_IOC_READ`: the driver hands userspace data.
pub const IOC_READ: u32 = 2;

/// A Linux ioctl request number: direction, argument size, type byte, number.
pub open spec fn spec_ioc(dir: u32, kind: u8, nr: u8, size: u32) -> u32 {
    (dir << 30u32) | (size << 16u32) | ((kind as u32) << 8u32) | (nr as u32)
}

/// Encodes an ioctl request as `_IOC(dir, kind, nr, size)`.
pub fn ioc(dir: u32, kind: u8, nr: u8, size: u32) -> (r: u32)
    requires
        dir < 4,
        size < 0x4000,
    ensures
        r == spec_ioc(dir, kind, nr, size),
{
    (dir << 30) | (size << 16) | ((kind as u32) << 8) | (nr as u32)
}

/// Bytes in `struct mxcfb_update_data_v1_ntx`, which the request encodes.
pub const UPDATE_DATA_V1_NTX_SIZE: u32 = 68;
/// `_IOW('F', 0x2E, struct mxcfb_update_data_v1_ntx)`.
pub const MXCFB_SEND_UPDATE_V1_NTX: u32 = 0x4044_462E;
/// `_IOW('F', 0x2F, uint32_t)`: the mx50/NTX wait, which takes the marker.
pub const MXCFB_WAIT_FOR_UPDATE_COMPLETE_V1: u32 = 0x4004_462F;
/// The same call declared the other direction, which some NTX kernels ship.
pub const MXCFB_WAIT_FOR_UPDATE_COMPLETE_R: u32 = 0x8004_462F;
/// `_IOWR('F', 0x35, struct mxcfb_update_marker_data)`: marker and rect.
pub const MXCFB_WAIT_FOR_UPDATE_COMPLETE_V2: u32 = 0xC008_4635;

pub const UPDATE_MODE_PARTIAL: u32 = 0;
pub const UPDATE_MODE_FULL: u32 = 1;
pub const TEMP_USE_AMBIENT: i32 = 0x1000;

/// The hand-transcribed request numbers are the encodings they claim to be.
pub proof fn law_request_numbers_match_their_encoding()
    ensures
        MXCFB_SEND_UPDATE_V1_NTX == spec_ioc(IOC_WRITE, 0x46, 0x2E, UPDATE_DATA_V1_NTX_SIZE),
        MXCFB_WAIT_FOR_UPDATE_COMPLETE_V1 == spec_ioc(IOC_WRITE, 0x46, 0x2F, 4),
        MXCFB_WAIT_FOR_UPDATE_COMPLETE_R == spec_ioc(IOC_READ, 0x46, 0x2F, 4),
        MXCFB_WAIT_FOR_UPDATE_COMPLETE_V2 == spec_ioc(IOC_READ | IOC_WRITE, 0x46, 0x35, 8),
{
    assert(MXCFB_SEND_UPDATE_V1_NTX == spec_ioc(IOC_WRITE, 0x46, 0x2E, UPDATE_DATA_V1_NTX_SIZE))
        by (bit_vector);
    assert(MXCFB_WAIT_FOR_UPDATE_COMPLETE_V1 == spec_ioc(IOC_WRITE, 0x46, 0x2F, 4))
        by (bit_vector);
    assert(MXCFB_WAIT_FOR_UPDATE_COMPLETE_R == spec_ioc(IOC_READ, 0x46, 0x2F, 4))
        by (bit_vector);
    assert(MXCFB_WAIT_FOR_UPDATE_COMPLETE_V2 == spec_ioc(IOC_READ | IOC_WRITE, 0x46, 0x35, 8))
        by (bit_vector);
}

/// The fields of one `mxcfb_update_data_v1_ntx`, before they are laid out.
#[derive(Clone, Copy, Debug, PartialEq, Eq)]
pub struct UpdatePlan {
    pub top: u32,
    pub left: u32,
    pub width: u32,
    pub height: u32,
    pub waveform_mode: u32,
    pub update_mode: u32,
    pub update_marker: u32,
    pub temp: i32,
}

/// The marker after `marker`: one more, skipping 0 when it wraps.
pub open spec fn next_marker(marker: u32) -> u32 {
    if marker == u32::MAX { 1 } else { (marker + 1) as u32 }
}

/// The update that `request` becomes under `marker`.
pub open spec fn spec_plan(request: RefreshRequest, marker: u32) -> UpdatePlan {
    UpdatePlan {
        top: request.rect.y as u32,
        left: request.rect.x as u32,
        width: request.rect.w as u32,
        height: request.rect.h as u32,
        waveform_mode: request.waveform.spec_ntx(),
        update_mode: if request.flash { UPDATE_MODE_FULL } else { UPDATE_MODE_PARTIAL },
        update_marker: marker,
        temp: TEMP_USE_AMBIENT,
    }
}

/// The panel queue's markers: the last one issued, the one still owed a wait,
/// and what refused waits have said.
pub struct PanelQueue {
    pub marker: u32,
    pub pending: Option<u32>,
    pub failed_waits: u64,
    pub last_wait_errno: i32,
}

impl PanelQueue {
    pub fn new() -> (q: PanelQueue)
        ensures
            q.marker == 0,
            q.pending is None,
            q.failed_waits == 0,
            q.last_wait_errno == 0,
    {
        PanelQueue { marker: 0, pending: None, failed_waits: 0, last_wait_errno: 0 }
    }

    /// Issues the next marker and lays out the update for `request`.
    pub fn plan_update(&mut self, request: RefreshRequest) -> (plan: UpdatePlan)
        ensures
            final(self).marker == next_marker(old(self).marker),
            final(self).marker != 0,
            final(self).pending == old(self).pending,
            final(self).failed_waits == old(self).failed_waits,
            final(self).last_wait_errno == old(self).last_wait_errno,
            plan == spec_plan(request, final(self).marker),
    {
        let next: u32 = self.marker.wrapping_add(1);
        self.marker = if next == 0 { 1 } else { next };
        let Rect { x, y, w, h } = request.rect;
        UpdatePlan {
            top: y as u32,
            left: x as u32,
            width: w as u32,
            height: h as u32,
            waveform_mode: request.waveform.as_ntx(),
            update_mode: if request.flash { UPDATE_MODE_FULL } else { UPDATE_MODE_PARTIAL },
            update_marker: self.marker,
            temp: TEMP_USE_AMBIENT,
        }
    }

    /// The driver accepted the last planned update: it is now owed a wait.
    pub fn update_sent(&mut self)
        ensures
            final(self).pending == Some(old(self).marker),
            final(self).marker == old(self).marker,
            final(self).failed_waits == old(self).failed_waits,
            final(self).last_wait_errno == old(self).last_wait_errno,
    {
        self.pending = Some(self.marker);
    }

    /// The marker owed a wait, if any; it is no longer owed one.
    pub fn take_pending(&mut self) -> (m: Option<u32>)
        ensures
            m == old(self).pending,
            final(self).pending is None,
            final(self).marker == old(self).marker,
            final(self).failed_waits == old(self).failed_waits,
            final(self).last_wait_errno == old(self).last_wait_errno,
    {
        self.pending.take()
    }

    /// The driver refused a wait with `errno`.
    pub fn wait_refused(&mut self, errno: i32)
        requires
            old(self).failed_waits < u64::MAX,
        ensures
            final(self).failed_waits == old(self).failed_waits + 1,
            final(self).last_wait_errno == errno,
            final(self).marker == old(self).marker,
            final(self).pending == old(self).pending,
    {
        self.failed_waits = self.failed_waits + 1;
        self.last_wait_errno = errno;
    }

    /// Waits that the driver refused, since the session started.
    pub fn failed_waits(&self) -> (n: u64)
        ensures
            n == self.failed_waits,
    {
        self.failed_waits
    }

    /// errno from the most recent refused wait, or 0 if none has been refused.
    pub fn last_wait_errno(&self) -> (e: i32)
        ensures
            e == self.last_wait_errno,
    {
        self.last_wait_errno
    }
}

/// Issued markers are never 0, the driver's "no marker", and two consecutive
/// markers always differ.
pub proof fn law_markers_are_nonzero_and_fresh(marker: u32)
    ensures
        next_marker(marker) != 0,
        next_marker(marker) != marker,
        next_marker(next_marker(marker)) != next_marker(marker),
{
}

/// An update flashes exactly when it is a full update, its waveform id is
/// the request's, and it covers the request's rectangle: `left` is its
/// column, `top` its row.
pub proof fn law_plan_carries_the_request(request: RefreshRequest, marker: u32)
    requires
        request.rect.x <= u32::MAX,
        request.rect.y <= u32::MAX,
        request.rect.w <= u32::MAX,
        request.rect.h <= u32::MAX,
    ensures
        spec_plan(request, marker).left == request.rect.x,
        spec_plan(request, marker).top == request.rect.y,
        spec_plan(request, marker).width == request.rect.w,
        spec_plan(request, marker).height == request.rect.h,
        spec_plan(request, marker).update_marker == marker,
        spec_plan(request, marker).update_mode == UPDATE_MODE_FULL <==> request.flash,
        spec_plan(request, marker).waveform_mode == request.waveform.spec_ntx(),
        request.waveform == Waveform::Auto <==> spec_plan(request, marker).waveform_mode
            == WAVEFORM_MODE_AUTO,
{
}

} // verus!
