//! E-ink refresh policy: which waveform, which rectangle, and whether to
//! flash, for each batch of framebuffer damage.
//!
//! Times are nanoseconds since the session started, carried as `u128` so
//! every `std::time::Duration` is representable.
use vstd::prelude::*;

use crate::damage::{Rect, merge_all, spec_merge_all, all_fit, lemma_merge_all, lemma_union};
use crate::text::{ascii_upper_seq, upper_equals2};

verus! {

/// Damage arriving within this long of the previous damage counts as motion.
pub const MOTION_WINDOW_NANOS: u128 = 120_000_000;
/// Motion must pause this long before the quiet high-quality pass.
pub const CLEANUP_QUIET_NANOS: u128 = 200_000_000;
/// `Duration::MAX` in nanoseconds: `u64::MAX` seconds and 999 999 999 ns.
pub const DURATION_MAX_NANOS: u128 = 18_446_744_073_709_551_615_999_999_999;
/// Nanoseconds in one second.
pub const NANOS_PER_SECOND: u128 = 1_000_000_000;

/// NTX waveform id of the direct-update (two-level) waveform.
pub const NTX_WFM_MODE_DU: u32 = 1;
/// NTX waveform id of the sixteen-level full-quality waveform.
pub const NTX_WFM_MODE_GC16: u32 = 2;
/// NTX waveform id of the animation waveform.
pub const NTX_WFM_MODE_A2: u32 = 4;
/// Not an NTX mode id: the driver's own "you choose" sentinel.
pub const WAVEFORM_MODE_AUTO: u32 = 257;

#[derive(Clone, Copy, Debug, PartialEq, Eq, Structural)]
pub enum Waveform {
    Auto,
    Du,
    A2,
    Gc16,
}

/// Why a motion waveform name was refused.
#[derive(Clone, Debug, PartialEq, Eq)]
pub struct WaveformError {
    pub value: String,
}

impl WaveformError {
    pub fn message(&self) -> (m: String)
        ensures
            m@ == waveform_error_text(self.value@),
    {
        describe_waveform_error(self.value.as_str())
    }
}

/// The text of the error for a refused motion waveform name.
pub open spec fn waveform_error_text(value: Seq<char>) -> Seq<char> {
    "motion waveform must be DU or A2 (got "@ + crate::text::str_debug(value) + ")"@
}

/// Formats the refusal of a motion waveform name with `format!`, quoting the
/// value as `{:?}` does.
#[verifier::external_body]
fn describe_waveform_error(value: &str) -> (m: String)
    ensures
        m@ == "motion waveform must be DU or A2 (got "@ + crate::text::str_debug(value@) + ")"@,
{
    format!("motion waveform must be DU or A2 (got {value:?})")
}

impl Waveform {
    /// The id the EPDC driver is handed for this waveform.
    pub open spec fn spec_ntx(self) -> u32 {
        match self {
            Waveform::Auto => WAVEFORM_MODE_AUTO,
            Waveform::Du => NTX_WFM_MODE_DU,
            Waveform::A2 => NTX_WFM_MODE_A2,
            Waveform::Gc16 => NTX_WFM_MODE_GC16,
        }
    }

    /// NTX waveform ids. `Auto` is not one of them: it is the driver's own
    /// sentinel telling the EPDC to pick, so it sits outside the 0..11 range.
    pub fn as_ntx(self) -> (id: u32)
        ensures
            id == self.spec_ntx(),
            self == Waveform::Auto <==> id >= 12,
    {
        match self {
            Waveform::Auto => WAVEFORM_MODE_AUTO,
            Waveform::Du => NTX_WFM_MODE_DU,
            Waveform::A2 => NTX_WFM_MODE_A2,
            Waveform::Gc16 => NTX_WFM_MODE_GC16,
        }
    }

    /// Accepts `DU` or `A2`, in any ASCII case.
    pub fn parse_motion(value: &str) -> (r: Result<Waveform, WaveformError>)
        ensures
            r matches Ok(w) ==> (w == Waveform::Du && ascii_upper_seq(value@) == seq!['D', 'U'])
                || (w == Waveform::A2 && ascii_upper_seq(value@) == seq!['A', '2']),
            r is Err <==> ascii_upper_seq(value@) != seq!['D', 'U'] && ascii_upper_seq(value@)
                != seq!['A', '2'],
            r matches Err(e) ==> e.value@ == value@,
    {
        if upper_equals2(value, 'D', 'U') {
            Ok(Waveform::Du)
        } else if upper_equals2(value, 'A', '2') {
            Ok(Waveform::A2)
        } else {
            Err(WaveformError { value: value.to_owned() })
        }
    }

    /// Dense index, for keeping one measurement per waveform.
    pub open spec fn spec_index(self) -> usize {
        match self {
            Waveform::Auto => 0,
            Waveform::Du => 1,
            Waveform::A2 => 2,
            Waveform::Gc16 => 3,
        }
    }

    pub fn index(self) -> (i: usize)
        ensures
            i == self.spec_index(),
            i < Waveform::COUNT,
    {
        match self {
            Waveform::Auto => 0,
            Waveform::Du => 1,
            Waveform::A2 => 2,
            Waveform::Gc16 => 3,
        }
    }

    /// Number of distinct waveforms, for sizing that table.
    pub const COUNT: usize = 4;

    /// The name this waveform is selected by.
    pub open spec fn spec_name(self) -> Seq<char> {
        match self {
            Waveform::Auto => seq!['A', 'U', 'T', 'O'],
            Waveform::Du => seq!['D', 'U'],
            Waveform::A2 => seq!['A', '2'],
            Waveform::Gc16 => seq!['G', 'C', '1', '6'],
        }
    }

    pub fn name(self) -> (n: &'static str)
        ensures
            n@ == self.spec_name(),
    {
        proof {
            reveal_strlit("AUTO");
            reveal_strlit("DU");
            reveal_strlit("A2");
            reveal_strlit("GC16");
        }
        match self {
            Waveform::Auto => "AUTO",
            Waveform::Du => "DU",
            Waveform::A2 => "A2",
            Waveform::Gc16 => "GC16",
        }
    }
}

/// The dense index is a bijection onto `0..COUNT`.
pub proof fn law_waveform_index_is_dense(a: Waveform, b: Waveform)
    ensures
        a.spec_index() < Waveform::COUNT,
        a.spec_index() == b.spec_index() ==> a == b,
{
}

/// A motion waveform's name parses back to that waveform.
pub proof fn law_motion_name_round_trips(w: Waveform)
    requires
        w == Waveform::Du || w == Waveform::A2,
    ensures
        ascii_upper_seq(w.spec_name()) == w.spec_name(),
{
    let n = w.spec_name();
    assert(ascii_upper_seq(n) =~= n);
}

#[derive(Clone, Copy, Debug, PartialEq, Eq, Structural)]
pub enum RefreshKind {
    Initial,
    Motion,
    QuietCleanup,
    GhostCleanup,
    Forced,
    Static,
}

#[derive(Clone, Copy, Debug, PartialEq, Eq, Structural)]
pub struct RefreshRequest {
    pub rect: Rect,
    pub waveform: Waveform,
    pub flash: bool,
    pub kind: RefreshKind,
}

/// Why a refresh policy could not be built.
#[derive(Clone, Copy, Debug, PartialEq, Eq)]
pub enum RefreshError {
    /// The present rate is outside 1..=60 Hz.
    PresentRate,
}

impl RefreshError {
    pub fn message(&self) -> (m: String)
        ensures
            m@ == "present rate must be in 1..=60 Hz"@,
    {
        "present rate must be in 1..=60 Hz".to_owned()
    }
}

pub open spec fn saturating_sub_u128(a: u128, b: u128) -> u128 {
    if a >= b { (a - b) as u128 } else { 0 }
}

pub open spec fn saturating_add_usize(a: usize, b: int) -> usize {
    if a + b > usize::MAX { usize::MAX } else { (a + b) as usize }
}

pub open spec fn request(rect: Rect, waveform: Waveform, flash: bool, kind: RefreshKind) -> RefreshRequest {
    RefreshRequest { rect, waveform, flash, kind }
}


/// A refresh kind that repaints at full quality.
pub open spec fn is_cleanup(kind: RefreshKind) -> bool {
    kind == RefreshKind::QuietCleanup || kind == RefreshKind::GhostCleanup || kind
        == RefreshKind::Forced
}

/// Every flashing refresh is a GC16 cleanup, and every cleanup flashes; damage
/// and idle ticks alike.
pub proof fn law_flash_means_gc16_cleanup(
    p: RefreshPolicy,
    now: u128,
    damage: Seq<Rect>,
    force_full: bool,
)
    ensures
        p.damage_outcome(now, damage, force_full).1 matches Some(q) ==> (q.flash <==> is_cleanup(
            q.kind,
        )) && (q.flash ==> q.waveform == Waveform::Gc16),
        p.idle_outcome(now).1 matches Some(q) ==> q.flash && q.waveform == Waveform::Gc16
            && q.kind == RefreshKind::QuietCleanup,
{
}

/// Damage and idle ticks keep the policy well formed.
pub proof fn law_policy_stays_well_formed(
    p: RefreshPolicy,
    now: u128,
    damage: Seq<Rect>,
    force_full: bool,
)
    requires
        p.wf(),
        all_fit(damage),
    ensures
        p.damage_outcome(now, damage, force_full).0.wf(),
        p.idle_outcome(now).0.wf(),
{
    lemma_merge_all(damage);
    if let Some(d) = spec_merge_all(damage) {
        if let Some(previous) = p.cleanup_region {
            lemma_union(previous, d);
        }
    }
}

/// A forced refresh is a flashing GC16 pass over the whole panel whatever
/// the damage, and it spends nothing of the ghosting budget.
pub proof fn law_forced_refresh_is_full(p: RefreshPolicy, now: u128, damage: Seq<Rect>)
    ensures
        ({
            let (next, r) = p.damage_outcome(now, damage, true);
            &&& r == Some(request(p.panel, Waveform::Gc16, true, RefreshKind::Forced))
            &&& next.fast_updates == 0
            &&& next.fast_area == 0
            &&& next.cleanup_region is None
            &&& next.started
        }),
{
}

/// Without a forced refresh, damage that covers no pixel changes nothing and
/// asks for nothing.
pub proof fn law_no_damage_no_refresh(p: RefreshPolicy, now: u128, damage: Seq<Rect>)
    requires
        all_fit(damage),
        forall|i: int| 0 <= i < damage.len() ==> (#[trigger] damage[i]).is_empty(),
    ensures
        p.damage_outcome(now, damage, false) == (p, None::<RefreshRequest>),
{
    lemma_merge_all(damage);
}

/// The first damage of a session is presented at once with the driver's own
/// waveform choice and no flash.
pub proof fn law_first_update_is_conservative(p: RefreshPolicy, now: u128, damage: Seq<Rect>)
    requires
        !p.started,
        spec_merge_all(damage) is Some,
    ensures
        p.damage_outcome(now, damage, false).1 == Some(
            request(spec_merge_all(damage)->0, Waveform::Auto, false, RefreshKind::Initial),
        ),
{
}

/// A present of the damage itself (the first, a static or a motion present)
/// covers exactly the bounding rectangle of the damage.
pub proof fn law_presents_cover_the_damage(p: RefreshPolicy, now: u128, damage: Seq<Rect>)
    ensures
        p.damage_outcome(now, damage, false).1 matches Some(q) ==> ((q.kind == RefreshKind::Initial
            || q.kind == RefreshKind::Static || q.kind == RefreshKind::Motion) ==> spec_merge_all(
            damage,
        ) == Some(q.rect)),
{
}

/// Once the ghosting budget is spent, the next damage is a full-panel cleanup.
pub proof fn law_spent_budget_forces_cleanup(p: RefreshPolicy, now: u128, damage: Seq<Rect>)
    requires
        p.started,
        p.ghosted(),
        spec_merge_all(damage) is Some,
    ensures
        p.damage_outcome(now, damage, false).1 == Some(
            request(p.panel, Waveform::Gc16, true, RefreshKind::GhostCleanup),
        ),
        p.damage_outcome(now, damage, false).0.fast_updates == 0,
{
}

/// A fast motion present counts against the budget, leaves at least the
/// minimum present interval after the previous present, and becomes the
/// previous present.
pub proof fn law_motion_is_paced_and_counted(p: RefreshPolicy, now: u128, damage: Seq<Rect>)
    requires
        p.wf(),
    ensures
        ({
            let (next, r) = p.damage_outcome(now, damage, false);
            r matches Some(q) ==> (q.kind == RefreshKind::Motion ==> {
                &&& (p.last_present matches Some(last) ==> saturating_sub_u128(now, last)
                    >= p.min_present_interval)
                &&& p.fast_updates < p.ghost_update_limit
                &&& next.fast_updates == p.fast_updates + 1
                &&& next.last_present == Some(now)
                &&& !q.flash
                &&& q.waveform == p.motion_waveform
            })
        }),
{
}

/// Motion damage, presented or held back, is folded into the region that the
/// quiet cleanup repaints, which only grows until that cleanup runs.
pub proof fn law_quiet_cleanup_covers_motion(p: RefreshPolicy, now: u128, damage: Seq<Rect>)
    requires
        p.wf(),
        all_fit(damage),
        p.started,
        !p.ghosted(),
        p.is_moving(now),
        spec_merge_all(damage) is Some,
    ensures
        ({
            let d = spec_merge_all(damage)->0;
            let next = p.damage_outcome(now, damage, false).0;
            &&& next.cleanup_region matches Some(r) && d.within(r) && (p.cleanup_region matches Some(
                q,
            ) ==> q.within(r))
            &&& next.cleanup_at == Some((now + CLEANUP_QUIET_NANOS) as u128)
        }),
{
    lemma_merge_all(damage);
    let d = spec_merge_all(damage)->0;
    if let Some(previous) = p.cleanup_region {
        lemma_union(previous, d);
    }
}

/// An idle tick before the cleanup is due does nothing.
pub proof fn law_idle_waits_for_quiet(p: RefreshPolicy, now: u128)
    requires
        !(p.cleanup_at matches Some(at) && now >= at),
    ensures
        p.idle_outcome(now) == (p, None::<RefreshRequest>),
{
}

/// The quiet cleanup repaints exactly the accumulated region, once: it resets
/// the budget, and the next idle tick asks for nothing.
pub proof fn law_quiet_cleanup_runs_once(p: RefreshPolicy, now: u128, later: u128)
    requires
        p.wf(),
        p.cleanup_at matches Some(at) && now >= at,
    ensures
        p.idle_outcome(now).1 == Some(
            request(p.cleanup_region->0, Waveform::Gc16, true, RefreshKind::QuietCleanup),
        ),
        p.idle_outcome(now).0.fast_updates == 0,
        p.idle_outcome(now).0.idle_outcome(later).1 is None,
{
}

pub struct RefreshPolicy {
    pub panel: Rect,
    pub motion_waveform: Waveform,
    /// Shortest gap between two fast motion presents, in nanoseconds.
    pub min_present_interval: u128,
    /// Fast updates allowed before a full cleanup.
    pub ghost_update_limit: u32,
    /// Fast-updated pixels allowed before a full cleanup. Whichever limit is
    /// reached first wins.
    pub ghost_area_limit: usize,
    pub started: bool,
    pub last_damage: Option<u128>,
    pub last_present: Option<u128>,
    pub cleanup_at: Option<u128>,
    pub cleanup_region: Option<Rect>,
    pub fast_updates: u32,
    pub fast_area: usize,
}

impl RefreshPolicy {
    /// What every policy keeps: a positive update budget that the count never
    /// passes, and a pending cleanup time exactly when a region awaits it.
    pub open spec fn wf(&self) -> bool {
        &&& self.ghost_update_limit >= 1
        &&& self.fast_updates <= self.ghost_update_limit
        &&& self.cleanup_at is Some <==> self.cleanup_region is Some
        &&& self.panel.fits()
        &&& (self.cleanup_region matches Some(r) ==> r.fits() && !r.is_empty())
    }

    /// The ghosting budget is spent: too many fast updates, or too much area.
    pub open spec fn ghosted(&self) -> bool {
        self.fast_updates >= self.ghost_update_limit || self.fast_area >= self.ghost_area_limit
    }

    /// Damage at `now` follows other damage closely enough to be motion.
    pub open spec fn is_moving(&self, now: u128) -> bool {
        self.last_damage matches Some(last) && saturating_sub_u128(now, last)
            <= MOTION_WINDOW_NANOS
    }

    /// A fast present at `now` would come too soon after the previous one.
    pub open spec fn is_throttled(&self, now: u128) -> bool {
        self.last_present matches Some(last) && saturating_sub_u128(now, last)
            < self.min_present_interval
    }

    /// The state after a full-panel cleanup.
    pub open spec fn reset(self) -> RefreshPolicy {
        RefreshPolicy {
            started: true,
            last_damage: None,
            last_present: None,
            cleanup_at: None,
            cleanup_region: None,
            fast_updates: 0,
            fast_area: 0,
            ..self
        }
    }

    /// A flashing GC16 pass over the whole panel.
    pub open spec fn full_request(self, kind: RefreshKind) -> RefreshRequest {
        request(self.panel, Waveform::Gc16, true, kind)
    }

    /// The state and request that damage at `now` produces.
    pub open spec fn damage_outcome(self, now: u128, damage: Seq<Rect>, force_full: bool) -> (
        RefreshPolicy,
        Option<RefreshRequest>,
    ) {
        if force_full {
            (self.reset(), Some(self.full_request(RefreshKind::Forced)))
        } else {
            match spec_merge_all(damage) {
                None => (self, None),
                Some(d) => if !self.started {
                    (
                        RefreshPolicy {
                            started: true,
                            last_damage: Some(now),
                            last_present: Some(now),
                            ..self
                        },
                        Some(request(d, Waveform::Auto, false, RefreshKind::Initial)),
                    )
                } else if self.ghosted() {
                    (self.reset(), Some(self.full_request(RefreshKind::GhostCleanup)))
                } else if self.is_moving(now) {
                    let region = match self.cleanup_region {
                        Some(previous) => previous.spec_union(d),
                        None => d,
                    };
                    let marked = RefreshPolicy {
                        last_damage: Some(now),
                        cleanup_region: Some(region),
                        cleanup_at: Some((now + CLEANUP_QUIET_NANOS) as u128),
                        ..self
                    };
                    if self.is_throttled(now) {
                        (marked, None)
                    } else {
                        (
                            RefreshPolicy {
                                last_present: Some(now),
                                fast_updates: (self.fast_updates + 1) as u32,
                                fast_area: saturating_add_usize(self.fast_area, d.w * d.h),
                                ..marked
                            },
                            Some(request(d, self.motion_waveform, false, RefreshKind::Motion)),
                        )
                    }
                } else {
                    (
                        RefreshPolicy { last_damage: Some(now), last_present: Some(now), ..self },
                        Some(request(d, Waveform::Auto, false, RefreshKind::Static)),
                    )
                },
            }
        }
    }

    /// Damage at `now` can be handled without overflowing a time or an area.
    pub open spec fn damage_defined(self, now: u128, damage: Seq<Rect>, force_full: bool) -> bool {
        &&& now <= DURATION_MAX_NANOS
        &&& (!force_full && self.started && !self.ghosted() && self.is_moving(now))
            ==> (spec_merge_all(damage) matches Some(d) ==> {
            &&& now + CLEANUP_QUIET_NANOS <= DURATION_MAX_NANOS
            &&& !self.is_throttled(now) ==> d.w * d.h <= usize::MAX
        })
    }

    /// The state and request that an idle tick at `now` produces.
    pub open spec fn idle_outcome(self, now: u128) -> (RefreshPolicy, Option<RefreshRequest>) {
        if !(self.cleanup_at matches Some(at) && now >= at) {
            (self, None)
        } else {
            match self.cleanup_region {
                None => (RefreshPolicy { cleanup_at: None, ..self }, None),
                Some(r) => (
                    RefreshPolicy {
                        cleanup_at: None,
                        cleanup_region: None,
                        last_present: Some(now),
                        fast_updates: 0,
                        fast_area: 0,
                        ..self
                    },
                    Some(request(r, Waveform::Gc16, true, RefreshKind::QuietCleanup)),
                ),
            }
        }
    }

    pub fn new(
        panel_width: usize,
        panel_height: usize,
        present_hz: u32,
        motion_waveform: Waveform,
        ghost_update_limit: u32,
        ghost_area_panels: usize,
    ) -> (r: Result<RefreshPolicy, RefreshError>)
        requires
            1 <= present_hz <= 60 ==> panel_width * panel_height * (if ghost_area_panels == 0 {
                1
            } else {
                ghost_area_panels as int
            }) <= usize::MAX,
        ensures
            r is Err <==> present_hz == 0 || present_hz > 60,
            r matches Ok(p) ==> {
                &&& p.wf()
                &&& p.panel == (Rect { x: 0, y: 0, w: panel_width, h: panel_height })
                &&& p.motion_waveform == motion_waveform
                &&& p.min_present_interval == NANOS_PER_SECOND / present_hz as u128
                &&& p.ghost_update_limit == if ghost_update_limit == 0 {
                    1
                } else {
                    ghost_update_limit
                }
                &&& p.ghost_area_limit == panel_width * panel_height * (if ghost_area_panels
                    == 0 {
                    1
                } else {
                    ghost_area_panels as int
                })
                &&& !p.started
                &&& p.last_damage is None
                &&& p.last_present is None
                &&& p.cleanup_at is None
                &&& p.cleanup_region is None
                &&& p.fast_updates == 0
                &&& p.fast_area == 0
            },
    {
        if present_hz == 0 || present_hz > 60 {
            return Err(RefreshError::PresentRate);
        }
        let panels: usize = if ghost_area_panels == 0 { 1 } else { ghost_area_panels };
        proof {
            assert(panel_width * panel_height <= usize::MAX) by (nonlinear_arith)
                requires
                    panel_width * panel_height * panels <= usize::MAX,
                    panels >= 1,
            ;
        }
        let area: usize = panel_width * panel_height;
        let limit: u32 = if ghost_update_limit == 0 { 1 } else { ghost_update_limit };
        Ok(RefreshPolicy {
            panel: Rect { x: 0, y: 0, w: panel_width, h: panel_height },
            motion_waveform,
            min_present_interval: 1_000_000_000u128 / (present_hz as u128),
            ghost_update_limit: limit,
            ghost_area_limit: area * panels,
            started: false,
            last_damage: None,
            last_present: None,
            cleanup_at: None,
            cleanup_region: None,
            fast_updates: 0,
            fast_area: 0,
        })
    }

    /// Decide whether the latest framebuffer damage should be submitted now.
    /// The caller retains damage while this returns `None`, keeping simulation
    /// independent of the panel present rate.
    pub fn on_damage(&mut self, now: u128, damage: &[Rect], force_full: bool) -> (r: Option<
        RefreshRequest,
    >)
        requires
            old(self).wf(),
            all_fit(damage@),
            old(self).damage_defined(now, damage@, force_full),
        ensures
            (*final(self), r) == old(self).damage_outcome(now, damage@, force_full),
            final(self).wf(),
    {
        if force_full {
            return Some(self.full(RefreshKind::Forced));
        }
        let merged: Option<Rect> = merge_all(damage);
        proof {
            lemma_merge_all(damage@);
        }
        let damage: Rect = match merged {
            None => return None,
            Some(d) => d,
        };
        if !self.started {
            self.started = true;
            self.last_damage = Some(now);
            self.last_present = Some(now);
            return Some(
                RefreshRequest {
                    rect: damage,
                    waveform: Waveform::Auto,
                    flash: false,
                    kind: RefreshKind::Initial,
                },
            );
        }
        if self.fast_updates >= self.ghost_update_limit || self.fast_area >= self.ghost_area_limit {
            return Some(self.full(RefreshKind::GhostCleanup));
        }
        let moving: bool = match self.last_damage {
            Some(last) => now.saturating_sub(last) <= MOTION_WINDOW_NANOS,
            None => false,
        };
        self.last_damage = Some(now);
        if moving {
            let region: Rect = match self.cleanup_region {
                Some(previous) => {
                    proof {
                        lemma_union(previous, damage);
                    }
                    previous.union(damage)
                },
                None => damage,
            };
            self.cleanup_region = Some(region);
            self.cleanup_at = Some(now + CLEANUP_QUIET_NANOS);
            let throttled: bool = match self.last_present {
                Some(last) => now.saturating_sub(last) < self.min_present_interval,
                None => false,
            };
            if throttled {
                return None;
            }
            self.last_present = Some(now);
            self.fast_updates = self.fast_updates + 1;
            self.fast_area = self.fast_area.saturating_add(damage.w * damage.h);
            Some(
                RefreshRequest {
                    rect: damage,
                    waveform: self.motion_waveform,
                    flash: false,
                    kind: RefreshKind::Motion,
                },
            )
        } else {
            self.last_present = Some(now);
            Some(
                RefreshRequest {
                    rect: damage,
                    waveform: Waveform::Auto,
                    flash: false,
                    kind: RefreshKind::Static,
                },
            )
        }
    }

    /// Emit the quiet high-quality pass after motion, even with no new pixels.
    pub fn on_idle(&mut self, now: u128) -> (r: Option<RefreshRequest>)
        requires
            old(self).wf(),
        ensures
            (*final(self), r) == old(self).idle_outcome(now),
            final(self).wf(),
    {
        let due: bool = match self.cleanup_at {
            Some(at) => now >= at,
            None => false,
        };
        if !due {
            return None;
        }
        self.cleanup_at = None;
        let rect: Rect = match self.cleanup_region.take() {
            Some(r) => r,
            None => return None,
        };
        self.last_present = Some(now);
        self.fast_updates = 0;
        self.fast_area = 0;
        Some(
            RefreshRequest {
                rect,
                waveform: Waveform::Gc16,
                flash: true,
                kind: RefreshKind::QuietCleanup,
            },
        )
    }

    fn full(&mut self, kind: RefreshKind) -> (r: RefreshRequest)
        requires
            old(self).wf(),
        ensures
            *final(self) == old(self).reset(),
            r == old(self).full_request(kind),
            final(self).wf(),
    {
        self.started = true;
        self.last_damage = None;
        self.last_present = None;
        self.cleanup_at = None;
        self.cleanup_region = None;
        self.fast_updates = 0;
        self.fast_area = 0;
        RefreshRequest { rect: self.panel, waveform: Waveform::Gc16, flash: true, kind }
    }
}


// ---------------------------------------------------------------------------
// Runs of calls.

/// One call on a policy: damage at a time, possibly forced, or an idle tick.
pub enum PolicyCall {
    Damage(u128, Seq<Rect>, bool),
    Idle(u128),
}

pub open spec fn call_time(c: PolicyCall) -> u128 {
    match c {
        PolicyCall::Damage(now, _, _) => now,
        PolicyCall::Idle(now) => now,
    }
}

/// The state and request one call produces.
pub open spec fn call_outcome(p: RefreshPolicy, c: PolicyCall) -> (RefreshPolicy, Option<RefreshRequest>) {
    match c {
        PolicyCall::Damage(now, damage, force) => p.damage_outcome(now, damage, force),
        PolicyCall::Idle(now) => p.idle_outcome(now),
    }
}

/// Every damage call's rectangles are representable.
pub open spec fn calls_fit(calls: Seq<PolicyCall>) -> bool {
    forall|i: int|
        0 <= i < calls.len() ==> (#[trigger] calls[i] matches PolicyCall::Damage(_, d, _) ==> all_fit(
            d,
        ))
}

/// The state after `calls` in order, and the request each returned.
pub open spec fn run_calls(p: RefreshPolicy, calls: Seq<PolicyCall>) -> (
    RefreshPolicy,
    Seq<Option<RefreshRequest>>,
)
    decreases calls.len(),
{
    if calls.len() == 0 {
        (p, Seq::empty())
    } else {
        let (q, outs) = run_calls(p, calls.drop_last());
        let (next, r) = call_outcome(q, calls.last());
        (next, outs.push(r))
    }
}

/// The time of the latest call that returned a request.
pub open spec fn latest_present(calls: Seq<PolicyCall>, outs: Seq<Option<RefreshRequest>>) -> Option<
    u128,
>
    decreases calls.len(),
{
    if calls.len() == 0 || outs.len() == 0 {
        None
    } else if outs.last() is Some {
        Some(call_time(calls.last()))
    } else {
        latest_present(calls.drop_last(), outs.drop_last())
    }
}

/// A policy as `new` builds it: well formed, with nothing presented yet and
/// no cleanup owed.
pub open spec fn fresh(p: RefreshPolicy) -> bool {
    &&& p.wf()
    &&& p.last_damage is None
    &&& p.last_present is None
    &&& p.cleanup_region is None
}

/// What any request of a policy built from `p0` looks like, given the call
/// that returned it.
pub open spec fn request_shape(p0: RefreshPolicy, c: PolicyCall, r: RefreshRequest) -> bool {
    &&& r.flash <==> is_cleanup(r.kind)
    &&& r.flash ==> r.waveform == Waveform::Gc16
    &&& (r.kind == RefreshKind::Initial || r.kind == RefreshKind::Static) ==> r.waveform
        == Waveform::Auto
    &&& r.kind == RefreshKind::Motion ==> r.waveform == p0.motion_waveform
    &&& (r.kind == RefreshKind::Forced || r.kind == RefreshKind::GhostCleanup) ==> r.rect
        == p0.panel
    &&& (c matches PolicyCall::Damage(_, _, true)) ==> r.kind == RefreshKind::Forced
    &&& (r.kind == RefreshKind::QuietCleanup <==> c is Idle)
}

proof fn lemma_run(p0: RefreshPolicy, calls: Seq<PolicyCall>)
    requires
        fresh(p0),
        calls_fit(calls),
    ensures
        ({
            let (q, outs) = run_calls(p0, calls);
            &&& q.wf()
            &&& q.panel == p0.panel
            &&& q.motion_waveform == p0.motion_waveform
            &&& q.min_present_interval == p0.min_present_interval
            &&& outs.len() == calls.len()
            &&& q.last_damage is Some ==> q.last_present is Some
            &&& q.last_present matches Some(t) ==> latest_present(calls, outs) == Some(t)
        }),
    decreases calls.len(),
{
    if calls.len() > 0 {
        let prefix = calls.drop_last();
        assert forall|i: int| 0 <= i < prefix.len() implies (#[trigger] prefix[i] matches PolicyCall::Damage(
            _,
            d,
            _,
        ) ==> all_fit(d)) by {
            assert(prefix[i] == calls[i]);
        }
        lemma_run(p0, prefix);
        let (q, outs) = run_calls(p0, prefix);
        let c = calls.last();
        assert(c == calls[calls.len() - 1]);
        match c {
            PolicyCall::Damage(now, d, force) => {
                law_policy_stays_well_formed(q, now, d, force);
            },
            PolicyCall::Idle(now) => {
                law_policy_stays_well_formed(q, now, Seq::empty(), false);
            },
        }
        let (next, r) = call_outcome(q, c);
        let all = outs.push(r);
        assert(all.drop_last() =~= outs);
        assert(calls.drop_last() == prefix);
    }
}

/// Whatever calls came before, every request a freshly built policy returns
/// has the shape its kind promises: only cleanups flash and they are GC16,
/// the first and static presents let the driver choose, motion uses the
/// motion waveform, full cleanups cover the panel, forced damage is always a
/// forced cleanup, and only an idle tick runs the quiet cleanup.
pub proof fn law_requests_keep_their_shape(p0: RefreshPolicy, calls: Seq<PolicyCall>)
    requires
        fresh(p0),
        calls_fit(calls),
        calls.len() > 0,
    ensures
        run_calls(p0, calls).1.last() matches Some(r) ==> request_shape(p0, calls.last(), r),
{
    let prefix = calls.drop_last();
    assert forall|i: int| 0 <= i < prefix.len() implies (#[trigger] prefix[i] matches PolicyCall::Damage(
        _,
        d,
        _,
    ) ==> all_fit(d)) by {
        assert(prefix[i] == calls[i]);
    }
    lemma_run(p0, prefix);
    let (q, outs) = run_calls(p0, prefix);
    let c = calls.last();
    match c {
        PolicyCall::Damage(now, d, force) => {
            law_flash_means_gc16_cleanup(q, now, d, force);
        },
        PolicyCall::Idle(now) => {
            law_flash_means_gc16_cleanup(q, now, Seq::empty(), false);
        },
    }
}

/// Motion is paced against the panel: a fast motion present comes at least
/// the minimum present interval after the latest earlier call that returned
/// a request, whatever calls came before.
pub proof fn law_motion_paced_over_history(p0: RefreshPolicy, calls: Seq<PolicyCall>)
    requires
        fresh(p0),
        p0.min_present_interval > 0,
        calls_fit(calls),
        calls.len() > 0,
    ensures
        ({
            let prefix = calls.drop_last();
            let now = call_time(calls.last());
            run_calls(p0, calls).1.last() matches Some(r) && r.kind == RefreshKind::Motion ==> {
                &&& latest_present(prefix, run_calls(p0, prefix).1) matches Some(t)
                &&& now > t
                &&& now - t >= p0.min_present_interval
            }
        }),
{
    let prefix = calls.drop_last();
    assert forall|i: int| 0 <= i < prefix.len() implies (#[trigger] prefix[i] matches PolicyCall::Damage(
        _,
        d,
        _,
    ) ==> all_fit(d)) by {
        assert(prefix[i] == calls[i]);
    }
    lemma_run(p0, prefix);
    let (q, outs) = run_calls(p0, prefix);
    let c = calls.last();
    if let PolicyCall::Damage(now, d, force) = c {
        law_motion_is_paced_and_counted(q, now, d);
    }
}


/// The motion damage (presented or held back) that calls have folded into
/// the quiet cleanup still owed: it grows with each motion call and is
/// emptied by anything that clears the cleanup region.
pub open spec fn owed_motion(p0: RefreshPolicy, calls: Seq<PolicyCall>) -> Seq<Rect>
    decreases calls.len(),
{
    if calls.len() == 0 {
        Seq::empty()
    } else {
        let prefix = calls.drop_last();
        let owed = owed_motion(p0, prefix);
        let q = run_calls(p0, prefix).0;
        let next = call_outcome(q, calls.last()).0;
        if next.cleanup_region is None {
            Seq::empty()
        } else {
            match calls.last() {
                PolicyCall::Damage(now, damage, false) => match spec_merge_all(damage) {
                    Some(d) => if q.started && !q.ghosted() && q.is_moving(now) {
                        owed.push(d)
                    } else {
                        owed
                    },
                    None => owed,
                },
                _ => owed,
            }
        }
    }
}

proof fn lemma_owed(p0: RefreshPolicy, calls: Seq<PolicyCall>)
    requires
        fresh(p0),
        calls_fit(calls),
    ensures
        ({
            let q = run_calls(p0, calls).0;
            let owed = owed_motion(p0, calls);
            &&& q.wf()
            &&& owed.len() > 0 ==> q.cleanup_region is Some
            &&& forall|i: int|
                0 <= i < owed.len() ==> (#[trigger] owed[i]).within(q.cleanup_region->0)
        }),
    decreases calls.len(),
{
    if calls.len() > 0 {
        let prefix = calls.drop_last();
        assert forall|i: int| 0 <= i < prefix.len() implies (#[trigger] prefix[i] matches PolicyCall::Damage(
            _,
            d,
            _,
        ) ==> all_fit(d)) by {
            assert(prefix[i] == calls[i]);
        }
        lemma_owed(p0, prefix);
        lemma_run(p0, calls);
        let q = run_calls(p0, prefix).0;
        let owed = owed_motion(p0, prefix);
        let c = calls.last();
        assert(c == calls[calls.len() - 1]);
        if let PolicyCall::Damage(now, damage, force) = c {
            if !force && spec_merge_all(damage) is Some && q.started && !q.ghosted() && q.is_moving(
                now,
            ) {
                law_quiet_cleanup_covers_motion(q, now, damage);
                let next = q.damage_outcome(now, damage, false).0;
                let r = next.cleanup_region->0;
                let d = spec_merge_all(damage)->0;
                let pushed = owed.push(d);
                assert forall|i: int| 0 <= i < pushed.len() implies (#[trigger] pushed[i]).within(
                    r,
                ) by {
                    if i < owed.len() {
                        assert(pushed[i] == owed[i]);
                        assert(owed[i].within(q.cleanup_region->0));
                    }
                }
            }
        }
    }
}

/// The quiet cleanup repaints everything motion left behind: when an idle
/// tick runs it, every motion damage folded in since the region was last
/// cleared lies inside the rectangle it repaints.
pub proof fn law_quiet_cleanup_covers_history(p0: RefreshPolicy, calls: Seq<PolicyCall>)
    requires
        fresh(p0),
        calls_fit(calls),
        calls.len() > 0,
    ensures
        ({
            let prefix = calls.drop_last();
            let owed = owed_motion(p0, prefix);
            let out = run_calls(p0, calls).1.last();
            (out is Some && out->0.kind == RefreshKind::QuietCleanup) ==> forall|i: int|
                0 <= i < owed.len() ==> (#[trigger] owed[i]).within(out->0.rect)
        }),
{
    let prefix = calls.drop_last();
    assert forall|i: int| 0 <= i < prefix.len() implies (#[trigger] prefix[i] matches PolicyCall::Damage(
        _,
        d,
        _,
    ) ==> all_fit(d)) by {
        assert(prefix[i] == calls[i]);
    }
    lemma_owed(p0, prefix);
    let q = run_calls(p0, prefix).0;
    match calls.last() {
        PolicyCall::Damage(now, d, force) => {
            law_flash_means_gc16_cleanup(q, now, d, force);
        },
        PolicyCall::Idle(now) => {},
    }
}


/// The time of the latest call that folded motion damage into the owed
/// cleanup, when any is owed.
pub open spec fn owed_since(p0: RefreshPolicy, calls: Seq<PolicyCall>) -> u128
    decreases calls.len(),
{
    if calls.len() == 0 {
        0
    } else {
        let prefix = calls.drop_last();
        let q = run_calls(p0, prefix).0;
        match calls.last() {
            PolicyCall::Damage(now, damage, false) => if spec_merge_all(damage) is Some && q.started
                && !q.ghosted() && q.is_moving(now) {
                now
            } else {
                owed_since(p0, prefix)
            },
            _ => owed_since(p0, prefix),
        }
    }
}

/// The bounding rectangle of a non-empty run of rectangles.
pub open spec fn union_all(rects: Seq<Rect>) -> Rect
    decreases rects.len(),
{
    if rects.len() <= 1 {
        rects[0]
    } else {
        union_all(rects.drop_last()).spec_union(rects.last())
    }
}

/// Every call comes early enough that a quiet period after it is still a
/// representable time.
pub open spec fn calls_in_time(calls: Seq<PolicyCall>) -> bool {
    forall|i: int|
        0 <= i < calls.len() ==> call_time(#[trigger] calls[i]) + CLEANUP_QUIET_NANOS
            <= DURATION_MAX_NANOS
}

proof fn lemma_owed_exact(p0: RefreshPolicy, calls: Seq<PolicyCall>)
    requires
        fresh(p0),
        calls_fit(calls),
        calls_in_time(calls),
    ensures
        ({
            let q = run_calls(p0, calls).0;
            let owed = owed_motion(p0, calls);
            &&& q.wf()
            &&& q.cleanup_region is Some <==> owed.len() > 0
            &&& owed.len() > 0 ==> q.cleanup_region == Some(union_all(owed)) && q.cleanup_at
                == Some((owed_since(p0, calls) + CLEANUP_QUIET_NANOS) as u128)
        }),
    decreases calls.len(),
{
    lemma_run(p0, calls);
    if calls.len() > 0 {
        let prefix = calls.drop_last();
        assert forall|i: int| 0 <= i < prefix.len() implies (#[trigger] prefix[i] matches PolicyCall::Damage(
            _,
            d,
            _,
        ) ==> all_fit(d)) by {
            assert(prefix[i] == calls[i]);
        }
        assert forall|i: int| 0 <= i < prefix.len() implies call_time(#[trigger] prefix[i])
            + CLEANUP_QUIET_NANOS <= DURATION_MAX_NANOS by {
            assert(prefix[i] == calls[i]);
        }
        lemma_owed_exact(p0, prefix);
        lemma_run(p0, prefix);
        let q = run_calls(p0, prefix).0;
        let owed = owed_motion(p0, prefix);
        let c = calls.last();
        assert(c == calls[calls.len() - 1]);
        if let PolicyCall::Damage(now, damage, force) = c {
            if !force && spec_merge_all(damage) is Some && q.started && !q.ghosted() && q.is_moving(
                now,
            ) {
                let d = spec_merge_all(damage)->0;
                let pushed = owed.push(d);
                assert(pushed.drop_last() =~= owed);
                assert(pushed.last() == d);
            }
        }
    }
}

/// The quiet cleanup is exactly what motion left owed. An idle tick returns
/// a request if and only if motion damage is owed (folded in since the
/// policy was built or since the last cleanup cleared it) and the quiet
/// period has passed since the latest such damage; the request is then a
/// flashing GC16 pass over exactly the union of that damage, and the next
/// idle tick returns nothing.
pub proof fn law_quiet_cleanup_is_exactly_owed(
    p0: RefreshPolicy,
    prefix: Seq<PolicyCall>,
    now: u128,
    later: u128,
)
    requires
        fresh(p0),
        calls_fit(prefix),
        calls_in_time(prefix),
    ensures
        ({
            let q = run_calls(p0, prefix).0;
            let owed = owed_motion(p0, prefix);
            let (next, r) = call_outcome(q, PolicyCall::Idle(now));
            &&& r is Some <==> owed.len() > 0 && now >= owed_since(p0, prefix) + CLEANUP_QUIET_NANOS
            &&& r is Some ==> r == Some(
                request(union_all(owed), Waveform::Gc16, true, RefreshKind::QuietCleanup),
            )
            &&& r is Some ==> call_outcome(next, PolicyCall::Idle(later)).1 is None
        }),
{
    lemma_owed_exact(p0, prefix);
    let owed = owed_motion(p0, prefix);
    if owed.len() > 0 {
        assert forall|i: int| 0 <= i < prefix.len() implies call_time(#[trigger] prefix[i])
            + CLEANUP_QUIET_NANOS <= DURATION_MAX_NANOS by {}
        lemma_owed_time_in_range(p0, prefix);
    }
}

proof fn lemma_owed_time_in_range(p0: RefreshPolicy, calls: Seq<PolicyCall>)
    requires
        calls_in_time(calls),
    ensures
        owed_since(p0, calls) + CLEANUP_QUIET_NANOS <= DURATION_MAX_NANOS,
    decreases calls.len(),
{
    if calls.len() > 0 {
        let prefix = calls.drop_last();
        assert forall|i: int| 0 <= i < prefix.len() implies call_time(#[trigger] prefix[i])
            + CLEANUP_QUIET_NANOS <= DURATION_MAX_NANOS by {
            assert(prefix[i] == calls[i]);
        }
        lemma_owed_time_in_range(p0, prefix);
        assert(calls.last() == calls[calls.len() - 1]);
    }
}


/// Every damage call is the start of the next motion window. Non-forced
/// damage that covers pixels, on a started policy whose ghosting budget is
/// not spent, records its own time as the latest damage, whichever of
/// motion, held back or static it turns out to be; so damage that follows it
/// within the motion window is motion (presented or held back), never a
/// static present.
pub proof fn law_damage_opens_the_motion_window(
    p: RefreshPolicy,
    t1: u128,
    d1: Seq<Rect>,
    t2: u128,
    d2: Seq<Rect>,
)
    requires
        p.wf(),
        all_fit(d1),
        p.started,
        !p.ghosted(),
        spec_merge_all(d1) is Some,
        spec_merge_all(d2) is Some,
        t1 <= t2 <= t1 + MOTION_WINDOW_NANOS,
    ensures
        p.damage_outcome(t1, d1, false).0.last_damage == Some(t1),
        ({
            let q = p.damage_outcome(t1, d1, false).0;
            !q.ghosted() ==> match q.damage_outcome(t2, d2, false).1 {
                Some(r) => r.kind == RefreshKind::Motion,
                None => q.damage_outcome(t2, d2, false).0.last_damage == Some(t2),
            }
        }),
{
}


/// Damage that comes after a pause longer than the motion window is a
/// static present with the driver's own waveform, not motion.
pub proof fn law_a_pause_ends_motion(p: RefreshPolicy, t1: u128, d1: Seq<Rect>, t2: u128, d2: Seq<Rect>)
    requires
        p.wf(),
        p.started,
        !p.ghosted(),
        spec_merge_all(d1) is Some,
        spec_merge_all(d2) is Some,
        t2 > t1 + MOTION_WINDOW_NANOS,
    ensures
        ({
            let q = p.damage_outcome(t1, d1, false).0;
            !q.ghosted() ==> q.damage_outcome(t2, d2, false).1 == Some(
                request(spec_merge_all(d2)->0, Waveform::Auto, false, RefreshKind::Static),
            )
        }),
{
}

} // verus!
