//! The list of displays that the interface shows.

use vstd::prelude::*;
use crate::ddc;
use crate::ddc::DdcMonitor;
use crate::ident;
use crate::level;
use crate::level::{MAX_BRIGHTNESS_PERCENT, MIN_BRIGHTNESS_PERCENT};
use crate::text;
use crate::wmi;
use crate::wmi::{WmiMonitorId, WmiScan};

verus! {

// ---------------------------------------------------------------------------
// Displays
// ---------------------------------------------------------------------------

/// A display as the interface shows it.
#[derive(Debug)]
pub struct MonitorInfo {
    pub id: String,
    /// The name, such as `Laptop Display (CMN14D4)` or `MSI MP251 E2`.
    pub name: String,
    /// `wmi` or `ddc`.
    pub kind: String,
    /// The lowest percentage that can be set.
    pub min: u32,
    /// The highest percentage that can be set.
    pub max: u32,
    /// The current percentage.
    pub current: u32,
    /// Whether the brightness can be controlled.
    pub capable: bool,
    /// How the display is controlled, or why it cannot be.
    pub detail: String,
}

/// The contents of a `MonitorInfo`.
pub struct MonitorView {
    pub id: Seq<char>,
    pub name: Seq<char>,
    pub kind: Seq<char>,
    pub min: int,
    pub max: int,
    pub current: int,
    pub capable: bool,
    pub detail: Seq<char>,
}

impl View for MonitorInfo {
    type V = MonitorView;

    open spec fn view(&self) -> MonitorView {
        MonitorView {
            id: self.id@,
            name: self.name@,
            kind: self.kind@,
            min: self.min as int,
            max: self.max as int,
            current: self.current as int,
            capable: self.capable,
            detail: self.detail@,
        }
    }
}

impl Clone for MonitorInfo {
    fn clone(&self) -> (r: Self)
        ensures
            r == *self,
    {
        MonitorInfo {
            id: self.id.clone(),
            name: self.name.clone(),
            kind: self.kind.clone(),
            min: self.min,
            max: self.max,
            current: self.current,
            capable: self.capable,
            detail: self.detail.clone(),
        }
    }
}

/// The contents of a list of displays.
pub open spec fn views_of(list: Seq<MonitorInfo>) -> Seq<MonitorView> {
    list.map_values(|m: MonitorInfo| m@)
}

/// A copy of a list of displays.
pub fn clone_list(list: &[MonitorInfo]) -> (r: Vec<MonitorInfo>)
    ensures
        r@ == list@,
{
    let mut out: Vec<MonitorInfo> = Vec::new();
    let mut i: usize = 0;
    while i < list.len()
        invariant
            i <= list@.len(),
            out@ == list@.take(i as int),
        decreases list.len() - i,
    {
        out.push(list[i].clone());
        i += 1;
    }
    assert(list@.take(i as int) =~= list@);
    out
}

// ---------------------------------------------------------------------------
// The internal display
// ---------------------------------------------------------------------------

/// Whether the internal display is on the desktop. With no device on the desktop it is not. If its
/// token is known, it is there if a device has that token, up to the case of ASCII letters. Else
/// it is taken to be there if there are more devices than monitors that DDC/CI controls.
pub open spec fn internal_active(
    token: Option<Seq<char>>,
    active: Seq<Seq<char>>,
    device_count: nat,
    capable_count: nat,
) -> bool {
    if device_count == 0 {
        false
    } else {
        match token {
            Some(t) => if t.len() > 0 {
                exists|i: int| 0 <= i < active.len() && text::same_ignoring_case(
                    #[trigger] active[i],
                    t,
                )
            } else {
                device_count > capable_count
            },
            None => device_count > capable_count,
        }
    }
}

/// The text of an optional string slice.
pub open spec fn slice_text(o: Option<&str>) -> Option<Seq<char>> {
    match o {
        Some(s) => Some(s@),
        None => None,
    }
}

/// Decides whether the internal display is on the desktop, so that no slider is shown for a closed
/// lid or a display that is switched off.
pub fn is_internal_display_active(
    internal_token: Option<&str>,
    active_tokens: &[String],
    active_hmonitor_count: usize,
    ddc_capable_count: usize,
) -> (r: bool)
    ensures
        r == internal_active(
            slice_text(internal_token),
            text::texts_of(active_tokens@),
            active_hmonitor_count as nat,
            ddc_capable_count as nat,
        ),
{
    if active_hmonitor_count == 0 {
        return false;
    }
    if let Some(it) = internal_token {
        if !it.is_empty() {
            let ghost texts = text::texts_of(active_tokens@);
            let mut i: usize = 0;
            while i < active_tokens.len()
                invariant
                    i <= active_tokens@.len(),
                    active_hmonitor_count > 0,
                    internal_token == Some(it),
                    it@.len() > 0,
                    texts == text::texts_of(active_tokens@),
                    forall|k: int|
                        0 <= k < i ==> !text::same_ignoring_case(#[trigger] texts[k], it@),
                decreases active_tokens.len() - i,
            {
                assert(texts[i as int] == active_tokens@[i as int]@);
                if text::equals_ignoring_case(active_tokens[i].as_str(), it) {
                    return true;
                }
                i += 1;
            }
            return false;
        }
    }
    active_hmonitor_count > ddc_capable_count
}

/// The name of the internal display: the friendly name or the token that WMI has for it.
pub open spec fn internal_name(
    token: Option<Seq<char>>,
    ids: Seq<wmi::WmiIdView>,
) -> Seq<char> {
    let known = match token {
        Some(t) => wmi::named(ids, t),
        None => None,
    };
    match known {
        Some(w) => if text::cleaned(w.friendly).len() == 0 {
            "Laptop Display ("@ + w.token + ")"@
        } else {
            "Laptop Display ("@ + text::cleaned(w.friendly) + ")"@
        },
        None => "Laptop Display (Internal)"@,
    }
}

fn internal_name_string(token: &Option<String>, ids: &[WmiMonitorId]) -> (r: String)
    ensures
        r@ == internal_name(text::text_of(*token), wmi::ids_of(ids@)),
{
    if let Some(t) = token {
        if let Some(w) = wmi::find_named(ids, t.as_str()) {
            let friendly = text::clean(w.friendly.as_str());
            return if friendly.as_str().is_empty() {
                text::concat3("Laptop Display (", w.token.as_str(), ")")
            } else {
                text::concat3("Laptop Display (", friendly.as_str(), ")")
            };
        }
    }
    "Laptop Display (Internal)".to_string()
}

/// The entry for the internal display at a level.
pub open spec fn internal_entry(
    token: Option<Seq<char>>,
    ids: Seq<wmi::WmiIdView>,
    current: nat,
) -> MonitorView {
    MonitorView {
        id: "wmi:internal"@,
        name: internal_name(token, ids),
        kind: "wmi"@,
        min: MIN_BRIGHTNESS_PERCENT as int,
        max: MAX_BRIGHTNESS_PERCENT as int,
        current: level::capped(current as int),
        capable: true,
        detail: "Controlled via WMI"@,
    }
}

// ---------------------------------------------------------------------------
// External monitors
// ---------------------------------------------------------------------------

/// How an external monitor is controlled, or why it cannot be.
pub open spec fn ddc_detail(m: ddc::DdcView) -> Seq<char> {
    if m.capable {
        if m.vcp_fallback {
            "Controlled via DDC/CI (VCP mode)"@
        } else {
            "Controlled via DDC/CI"@
        }
    } else if m.error.len() == 0 {
        "Display is turned off or DDC/CI is disabled in monitor OSD."@
    } else {
        "Display is turned off or DDC/CI is disabled ("@ + m.error + ")."@
    }
}

/// The entry for an external monitor.
pub open spec fn ddc_entry(m: ddc::DdcView) -> MonitorView {
    MonitorView {
        id: ident::ddc_id(m.index),
        name: m.name,
        kind: "ddc"@,
        min: MIN_BRIGHTNESS_PERCENT as int,
        max: MAX_BRIGHTNESS_PERCENT as int,
        current: if m.capable {
            level::percent_of(m.current_native as int, m.min_native as int, m.max_native as int)
        } else {
            0
        },
        capable: m.capable,
        detail: ddc_detail(m),
    }
}

fn ddc_entry_of(m: &DdcMonitor) -> (r: MonitorInfo)
    ensures
        r@ == ddc_entry(m@),
{
    let percent = level::native_to_percent(m.current_native, m.min_native, m.max_native);
    MonitorInfo {
        id: ident::ddc_id_string(m.index),
        name: m.name.clone(),
        kind: "ddc".to_string(),
        min: MIN_BRIGHTNESS_PERCENT,
        max: MAX_BRIGHTNESS_PERCENT,
        current: if m.capable {
            percent
        } else {
            0
        },
        capable: m.capable,
        detail: if m.capable {
            if m.vcp_fallback {
                "Controlled via DDC/CI (VCP mode)".to_string()
            } else {
                "Controlled via DDC/CI".to_string()
            }
        } else if m.error.as_str().is_empty() {
            "Display is turned off or DDC/CI is disabled in monitor OSD.".to_string()
        } else {
            text::concat3(
                "Display is turned off or DDC/CI is disabled (",
                m.error.as_str(),
                ").",
            )
        },
    }
}

/// The number of monitors that can be controlled.
pub open spec fn capable_count(list: Seq<ddc::DdcView>) -> nat
    decreases list.len(),
{
    if list.len() == 0 {
        0
    } else {
        capable_count(list.drop_last()) + (if list.last().capable {
            1nat
        } else {
            0nat
        })
    }
}

fn count_capable(list: &[DdcMonitor]) -> (r: usize)
    ensures
        r as nat == capable_count(ddc::ddc_views(list@)),
        r <= list@.len(),
{
    let ghost views = ddc::ddc_views(list@);
    let mut n: usize = 0;
    let mut i: usize = 0;
    while i < list.len()
        invariant
            i <= list@.len(),
            n <= i,
            views == ddc::ddc_views(list@),
            n as nat == capable_count(views.take(i as int)),
        decreases list.len() - i,
    {
        assert(views.take(i + 1).drop_last() =~= views.take(i as int));
        assert(views[i as int] == list@[i as int]@);
        if list[i].capable {
            n += 1;
        }
        i += 1;
    }
    assert(views.take(i as int) =~= views);
    n
}

/// Whether a monitor is the internal display, which is shown already, under another name.
pub open spec fn is_duplicate(shown: Option<Seq<char>>, m: ddc::DdcView) -> bool {
    match (shown, m.token) {
        (Some(it), Some(mt)) => text::same_ignoring_case(it, mt),
        _ => false,
    }
}

/// The entries for the external monitors, without those that duplicate the internal display with
/// the token `shown`.
pub open spec fn external_entries(
    shown: Option<Seq<char>>,
    list: Seq<ddc::DdcView>,
) -> Seq<MonitorView>
    decreases list.len(),
{
    if list.len() == 0 {
        seq![]
    } else if is_duplicate(shown, list.last()) {
        external_entries(shown, list.drop_last())
    } else {
        external_entries(shown, list.drop_last()).push(ddc_entry(list.last()))
    }
}

// ---------------------------------------------------------------------------
// The list
// ---------------------------------------------------------------------------

/// A list of external monitors, or why there is none.
pub open spec fn ddc_result_view(r: Result<Vec<DdcMonitor>, String>) -> Result<
    Seq<ddc::DdcView>,
    Seq<char>,
> {
    match r {
        Ok(list) => Ok(ddc::ddc_views(list@)),
        Err(e) => Err(e@),
    }
}

/// Whether the internal display is listed: its level is known, and it is on the desktop.
pub open spec fn internal_listed(
    scan: wmi::WmiScanView,
    active: Seq<Seq<char>>,
    device_count: nat,
    ddc: Result<Seq<ddc::DdcView>, Seq<char>>,
) -> bool {
    let capable = match ddc {
        Ok(list) => capable_count(list),
        Err(_) => 0,
    };
    scan.current_brightness is Some && internal_active(
        scan.internal_token,
        active,
        device_count,
        capable,
    )
}

/// The entry for the internal display, where it is listed.
pub open spec fn internal_part(
    scan: wmi::WmiScanView,
    active: Seq<Seq<char>>,
    device_count: nat,
    ddc: Result<Seq<ddc::DdcView>, Seq<char>>,
) -> Seq<MonitorView> {
    if internal_listed(scan, active, device_count, ddc) {
        seq![internal_entry(scan.internal_token, scan.ids, scan.current_brightness->0)]
    } else {
        seq![]
    }
}

/// The list of displays: the internal display, if it is on the desktop, and the external monitors
/// that are not the internal display under another name.
pub open spec fn monitor_list(
    scan: wmi::WmiScanView,
    active: Seq<Seq<char>>,
    device_count: nat,
    ddc: Result<Seq<ddc::DdcView>, Seq<char>>,
) -> Result<Seq<MonitorView>, Seq<char>> {
    let internal = internal_part(scan, active, device_count, ddc);
    match ddc {
        Ok(list) => {
            let shown = if internal.len() > 0 {
                scan.internal_token
            } else {
                None
            };
            let all = internal + external_entries(shown, list);
            if all.len() == 0 {
                Err(no_displays())
            } else {
                Ok(all)
            }
        },
        Err(e) => if internal.len() == 0 {
            Err("Failed to list displays: "@ + e)
        } else {
            Ok(internal)
        },
    }
}

/// The message where there is nothing to control.
pub open spec fn no_displays() -> Seq<char> {
    "No controllable displays found. Please check: ensure DDC/CI is enabled in monitor OSD and use a direct HDMI/DP cable."@
}

/// The outcome of listing.
pub open spec fn listed_view(r: Result<Vec<MonitorInfo>, String>) -> Result<
    Seq<MonitorView>,
    Seq<char>,
> {
    match r {
        Ok(list) => Ok(views_of(list@)),
        Err(e) => Err(e@),
    }
}

fn push_external(shown: Option<&str>, list: &[DdcMonitor], out: &mut Vec<MonitorInfo>)
    ensures
        views_of(final(out)@) == views_of(old(out)@) + external_entries(
            slice_text(shown),
            ddc::ddc_views(list@),
        ),
{
    let ghost start = views_of(out@);
    let ghost views = ddc::ddc_views(list@);
    let mut i: usize = 0;
    assert(views_of(out@) =~= start + external_entries(slice_text(shown), views.take(0)));
    while i < list.len()
        invariant
            i <= list@.len(),
            views == ddc::ddc_views(list@),
            views_of(out@) == start + external_entries(slice_text(shown), views.take(i as int)),
        decreases list.len() - i,
    {
        let ghost before = out@;
        assert(views.take(i + 1).drop_last() =~= views.take(i as int));
        assert(views[i as int] == list@[i as int]@);
        let duplicate = match (shown, &list[i].token) {
            (Some(it), Some(mt)) => text::equals_ignoring_case(it, mt.as_str()),
            _ => false,
        };
        assert(duplicate == is_duplicate(slice_text(shown), views[i as int]));
        if !duplicate {
            let m = ddc_entry_of(&list[i]);
            out.push(m);
            assert(views_of(out@) =~= views_of(before).push(m@));
            assert(views_of(out@) =~= start + external_entries(
                slice_text(shown),
                views.take(i + 1),
            ));
        }
        i += 1;
    }
    assert(views.take(i as int) =~= views);
}

/// Makes the list of displays out of what was found.
pub fn compose_monitors(
    scan: WmiScan,
    active_tokens: &[String],
    active_hmonitor_count: usize,
    ddc_result: Result<Vec<DdcMonitor>, String>,
) -> (r: Result<Vec<MonitorInfo>, String>)
    ensures
        listed_view(r) == monitor_list(
            scan@,
            text::texts_of(active_tokens@),
            active_hmonitor_count as nat,
            ddc_result_view(ddc_result),
        ),
{
    let ddc_capable_count: usize = match &ddc_result {
        Ok(list) => count_capable(list.as_slice()),
        Err(_) => 0,
    };
    let token = match &scan.internal_token {
        Some(t) => Some(t.as_str()),
        None => None,
    };
    let is_internal_on = is_internal_display_active(
        token,
        active_tokens,
        active_hmonitor_count,
        ddc_capable_count,
    );
    let mut out: Vec<MonitorInfo> = Vec::new();
    let mut shown: Option<&str> = None;
    let ghost internal = internal_part(
        scan@,
        text::texts_of(active_tokens@),
        active_hmonitor_count as nat,
        ddc_result_view(ddc_result),
    );
    if let Some(cur) = scan.current_brightness {
        if is_internal_on {
            let m = MonitorInfo {
                id: "wmi:internal".to_string(),
                name: internal_name_string(&scan.internal_token, scan.ids.as_slice()),
                kind: "wmi".to_string(),
                min: MIN_BRIGHTNESS_PERCENT,
                max: MAX_BRIGHTNESS_PERCENT,
                current: level::cap_percent(cur),
                capable: true,
                detail: "Controlled via WMI".to_string(),
            };
            out.push(m);
            shown = token;
        }
    }
    assert(views_of(out@) =~= internal);
    match ddc_result {
        Ok(list) => {
            push_external(shown, list.as_slice(), &mut out);
        },
        Err(e) => {
            if out.len() == 0 {
                return Err(text::concat2("Failed to list displays: ", e.as_str()));
            }
        },
    }
    if out.len() == 0 {
        return Err(
            "No controllable displays found. Please check: ensure DDC/CI is enabled in monitor OSD and use a direct HDMI/DP cable.".to_string(),
        );
    }
    Ok(out)
}

// ---------------------------------------------------------------------------
// The cache of scans
// ---------------------------------------------------------------------------

/// For how many nanoseconds a scan stands for a new one.
pub const SCAN_LIFETIME_NANOS: u128 = 1_500_000_000;

/// The last scan that found displays, with its time. It serves requests that come in at the same
/// time, such as those of two windows at startup.
pub struct ScanCache {
    last: Option<(u128, Vec<MonitorInfo>)>,
}

impl View for ScanCache {
    type V = Option<(nat, Seq<MonitorInfo>)>;

    closed spec fn view(&self) -> Option<(nat, Seq<MonitorInfo>)> {
        match self.last {
            Some((at, list)) => Some((at as nat, list@)),
            None => None,
        }
    }
}

impl Default for ScanCache {
    fn default() -> (r: Self)
        ensures
            r@ is None,
    {
        ScanCache { last: None }
    }
}

/// Whether a scan that was made at a time stands for a new one.
pub open spec fn is_fresh(at: nat, now: nat) -> bool {
    now - at < SCAN_LIFETIME_NANOS
}

/// The displays of the last scan, if it stands for a new one.
pub open spec fn served(
    last: Option<(nat, Seq<MonitorInfo>)>,
    now: nat,
) -> Option<Seq<MonitorInfo>> {
    match last {
        Some((at, list)) => if is_fresh(at, now) {
            Some(list)
        } else {
            None
        },
        None => None,
    }
}

/// The last scan, once a new one was made. Nothing is kept of a scan that failed.
pub open spec fn kept(
    last: Option<(nat, Seq<MonitorInfo>)>,
    now: nat,
    r: Result<Vec<MonitorInfo>, String>,
) -> Option<(nat, Seq<MonitorInfo>)> {
    match r {
        Ok(list) => Some((now, list@)),
        Err(_) => last,
    }
}

/// The displays of the last scan, if it stands for a new one. Times are in nanoseconds on one
/// clock.
pub fn cached_monitors(cache: &ScanCache, now: u128) -> (r: Option<Vec<MonitorInfo>>)
    ensures
        match served(cache@, now as nat) {
            Some(list) => r matches Some(v) && v@ == list,
            None => r is None,
        },
{
    match &cache.last {
        Some((at, list)) => {
            if now < *at || now - *at < SCAN_LIFETIME_NANOS {
                Some(clone_list(list.as_slice()))
            } else {
                None
            }
        },
        None => None,
    }
}

/// Lists the displays out of what was found, and keeps the list with the time. Nothing is kept of
/// a scan that failed.
pub fn list_monitors_blocking(
    cache: &mut ScanCache,
    now: u128,
    scan: WmiScan,
    active_tokens: &[String],
    active_hmonitor_count: usize,
    ddc_result: Result<Vec<DdcMonitor>, String>,
) -> (r: Result<Vec<MonitorInfo>, String>)
    ensures
        listed_view(r) == monitor_list(
            scan@,
            text::texts_of(active_tokens@),
            active_hmonitor_count as nat,
            ddc_result_view(ddc_result),
        ),
        final(cache)@ == kept(old(cache)@, now as nat, r),
{
    let r = compose_monitors(scan, active_tokens, active_hmonitor_count, ddc_result);
    if let Ok(list) = &r {
        cache.last = Some((now, clone_list(list.as_slice())));
    }
    r
}

// ---------------------------------------------------------------------------
// Laws
// ---------------------------------------------------------------------------

proof fn lemma_external_entries(shown: Option<Seq<char>>, list: Seq<ddc::DdcView>)
    ensures
        external_entries(shown, list).len() <= list.len(),
        forall|k: int|
            0 <= k < external_entries(shown, list).len() ==> exists|i: int|
                0 <= i < list.len() && !is_duplicate(shown, list[i])
                    && #[trigger] external_entries(shown, list)[k] == ddc_entry(
                    #[trigger] list[i],
                ),
    decreases list.len(),
{
    if list.len() > 0 {
        let front = list.drop_last();
        lemma_external_entries(shown, front);
        let before = external_entries(shown, front);
        let after = external_entries(shown, list);
        assert forall|k: int| 0 <= k < after.len() implies exists|i: int|
            0 <= i < list.len() && !is_duplicate(shown, list[i]) && #[trigger] after[k]
                == ddc_entry(#[trigger] list[i]) by {
            if k < before.len() {
                assert(after[k] == before[k]);
                let i = choose|i: int|
                    0 <= i < front.len() && !is_duplicate(shown, front[i]) && before[k]
                        == ddc_entry(#[trigger] front[i]);
                assert(list[i] == front[i]);
            } else {
                assert(after[k] == ddc_entry(list[list.len() - 1]));
            }
        }
    }
}

/// Every display that is listed offers the safe range, and its level is at most one hundred
/// percent.
pub proof fn listed_levels_are_safe(
    scan: wmi::WmiScanView,
    active: Seq<Seq<char>>,
    device_count: nat,
    ddc: Result<Seq<ddc::DdcView>, Seq<char>>,
)
    ensures
        monitor_list(scan, active, device_count, ddc) matches Ok(list) ==> forall|k: int|
            0 <= k < list.len() ==> {
                &&& (#[trigger] list[k]).min == MIN_BRIGHTNESS_PERCENT
                &&& list[k].max == MAX_BRIGHTNESS_PERCENT
                &&& 0 <= list[k].current <= 100
            },
{
    if let Ok(list) = monitor_list(scan, active, device_count, ddc) {
        let internal = internal_part(scan, active, device_count, ddc);
        assert forall|k: int| 0 <= k < list.len() implies {
            &&& (#[trigger] list[k]).min == MIN_BRIGHTNESS_PERCENT
            &&& list[k].max == MAX_BRIGHTNESS_PERCENT
            &&& 0 <= list[k].current <= 100
        } by {
            if k >= internal.len() {
                let shown = if internal.len() > 0 {
                    scan.internal_token
                } else {
                    None
                };
                let all = ddc->Ok_0;
                lemma_external_entries(shown, all);
                let e = external_entries(shown, all);
                assert(list[k] == e[k - internal.len()]);
                let i = choose|i: int|
                    0 <= i < all.len() && !is_duplicate(shown, all[i]) && e[k - internal.len()]
                        == ddc_entry(#[trigger] all[i]);
                level::percent_within_hundred(
                    all[i].current_native as int,
                    all[i].min_native as int,
                    all[i].max_native as int,
                );
            }
        }
    }
}

/// A list that is given out is never empty.
pub proof fn listed_is_not_empty(
    scan: wmi::WmiScanView,
    active: Seq<Seq<char>>,
    device_count: nat,
    ddc: Result<Seq<ddc::DdcView>, Seq<char>>,
)
    ensures
        monitor_list(scan, active, device_count, ddc) matches Ok(list) ==> list.len() > 0,
{
}

/// The identifier of the internal display is a WMI identifier, and that of an external monitor
/// names its index: a request for a listed display reaches the display that it was listed for.
pub proof fn listed_ids_are_routed(
    scan: wmi::WmiScanView,
    active: Seq<Seq<char>>,
    device_count: nat,
    ddc: Result<Seq<ddc::DdcView>, Seq<char>>,
)
    requires
        ddc matches Ok(list) ==> forall|i: int|
            0 <= i < list.len() ==> (#[trigger] list[i]).index <= usize::MAX,
    ensures
        monitor_list(scan, active, device_count, ddc) matches Ok(list) ==> {
            let internal = internal_part(scan, active, device_count, ddc);
            forall|k: int|
                0 <= k < list.len() ==> if k < internal.len() {
                    ident::is_wmi_id((#[trigger] list[k]).id)
                } else {
                    &&& !ident::is_wmi_id(list[k].id)
                    &&& exists|i: int|
                        0 <= i < ddc->Ok_0.len() && list[k] == ddc_entry(#[trigger] ddc->Ok_0[i])
                            && ident::ddc_index(list[k].id) == Some(ddc->Ok_0[i].index)
                }
        },
{
    if let Ok(list) = monitor_list(scan, active, device_count, ddc) {
        let internal = internal_part(scan, active, device_count, ddc);
        assert forall|k: int| 0 <= k < list.len() implies if k < internal.len() {
            ident::is_wmi_id((#[trigger] list[k]).id)
        } else {
            &&& !ident::is_wmi_id(list[k].id)
            &&& exists|i: int|
                0 <= i < ddc->Ok_0.len() && list[k] == ddc_entry(#[trigger] ddc->Ok_0[i])
                    && ident::ddc_index(list[k].id) == Some(ddc->Ok_0[i].index)
        } by {
            if k < internal.len() {
                reveal_strlit("wmi:");
                reveal_strlit("wmi:internal");
                assert("wmi:internal"@.subrange(0, 4) =~= "wmi:"@);
            } else {
                let shown = if internal.len() > 0 {
                    scan.internal_token
                } else {
                    None
                };
                let all = ddc->Ok_0;
                lemma_external_entries(shown, all);
                let e = external_entries(shown, all);
                assert(list[k] == e[k - internal.len()]);
                let i = choose|i: int|
                    0 <= i < all.len() && !is_duplicate(shown, all[i]) && e[k - internal.len()]
                        == ddc_entry(#[trigger] all[i]);
                ident::ddc_id_reads_back(all[i].index);
                assert(list[k] == ddc_entry(ddc->Ok_0[i]));
            }
        }
    }
}

proof fn lemma_external_positions(shown: Option<Seq<char>>, list: Seq<ddc::DdcView>, k: int, l: int)
    requires
        0 <= k < l < external_entries(shown, list).len(),
    ensures
        exists|i: int, j: int|
            0 <= i < j < list.len() && external_entries(shown, list)[k] == ddc_entry(
                #[trigger] list[i],
            ) && external_entries(shown, list)[l] == ddc_entry(#[trigger] list[j]),
    decreases list.len(),
{
    let front = list.drop_last();
    let before = external_entries(shown, front);
    let after = external_entries(shown, list);
    if l < before.len() {
        lemma_external_positions(shown, front, k, l);
        let (i, j) = choose|i: int, j: int|
            0 <= i < j < front.len() && before[k] == ddc_entry(#[trigger] front[i]) && before[l]
                == ddc_entry(#[trigger] front[j]);
        assert(list[i] == front[i]);
        assert(list[j] == front[j]);
    } else {
        lemma_external_entries(shown, front);
        let i = choose|i: int|
            0 <= i < front.len() && !is_duplicate(shown, front[i]) && before[k] == ddc_entry(
                #[trigger] front[i],
            );
        assert(list[i] == front[i]);
        let j = list.len() - 1;
        assert(after[l] == ddc_entry(list[j]));
    }
}

/// No two displays of a list have the same identifier, if the external monitors have different
/// indices.
pub proof fn listed_ids_are_distinct(
    scan: wmi::WmiScanView,
    active: Seq<Seq<char>>,
    device_count: nat,
    ddc: Result<Seq<ddc::DdcView>, Seq<char>>,
)
    requires
        ddc matches Ok(list) ==> forall|i: int, j: int|
            0 <= i < j < list.len() ==> (#[trigger] list[i]).index != (#[trigger] list[j]).index,
    ensures
        monitor_list(scan, active, device_count, ddc) matches Ok(list) ==> forall|k: int, l: int|
            0 <= k < l < list.len() ==> (#[trigger] list[k]).id != (#[trigger] list[l]).id,
{
    if let Ok(list) = monitor_list(scan, active, device_count, ddc) {
        let internal = internal_part(scan, active, device_count, ddc);
        assert forall|k: int, l: int| 0 <= k < l < list.len() implies (#[trigger] list[k]).id != (
        #[trigger] list[l]).id by {
            let n = internal.len() as int;
            let shown = if n > 0 {
                scan.internal_token
            } else {
                None
            };
            let all = ddc->Ok_0;
            let e = external_entries(shown, all);
            assert(list[l] == e[l - n]);
            if k >= n {
                assert(list[k] == e[k - n]);
                lemma_external_positions(shown, all, k - n, l - n);
                let (i, j) = choose|i: int, j: int|
                    0 <= i < j < all.len() && e[k - n] == ddc_entry(#[trigger] all[i]) && e[l - n]
                        == ddc_entry(#[trigger] all[j]);
                if list[k].id == list[l].id {
                    ident::ddc_id_injective(all[i].index, all[j].index);
                }
            } else {
                lemma_external_entries(shown, all);
                let i = choose|i: int|
                    0 <= i < all.len() && !is_duplicate(shown, all[i]) && e[l - n] == ddc_entry(
                        #[trigger] all[i],
                    );
                reveal_strlit("ddc:");
                reveal_strlit("wmi:internal");
                assert("wmi:internal"@[0] == 'w');
                assert(ident::ddc_id(all[i].index)[0] == 'd');
            }
        }
    }
}

/// If the internal display is listed, no external entry stands for a monitor with its token: two
/// sliders never control the same screen. If it is not listed, every external monitor is.
pub proof fn internal_display_is_listed_once(
    scan: wmi::WmiScanView,
    active: Seq<Seq<char>>,
    device_count: nat,
    list: Seq<ddc::DdcView>,
)
    ensures
        ({
            let ddc = Ok::<Seq<ddc::DdcView>, Seq<char>>(list);
            let internal = internal_part(scan, active, device_count, ddc);
            monitor_list(scan, active, device_count, ddc) matches Ok(shown) ==> {
                &&& internal_listed(scan, active, device_count, ddc) ==> forall|k: int|
                    internal.len() <= k < shown.len() ==> exists|i: int|
                        0 <= i < list.len() && !is_duplicate(scan.internal_token, list[i])
                            && #[trigger] shown[k] == ddc_entry(#[trigger] list[i])
                &&& !internal_listed(scan, active, device_count, ddc) ==> shown =~= list.map_values(
                    |m: ddc::DdcView| ddc_entry(m),
                )
            }
        }),
{
    let ddc = Ok::<Seq<ddc::DdcView>, Seq<char>>(list);
    let internal = internal_part(scan, active, device_count, ddc);
    if let Ok(shown) = monitor_list(scan, active, device_count, ddc) {
        if internal_listed(scan, active, device_count, ddc) {
            lemma_external_entries(scan.internal_token, list);
            let e = external_entries(scan.internal_token, list);
            assert forall|k: int| internal.len() <= k < shown.len() implies exists|i: int|
                0 <= i < list.len() && !is_duplicate(scan.internal_token, list[i])
                    && #[trigger] shown[k] == ddc_entry(#[trigger] list[i]) by {
                assert(shown[k] == e[k - internal.len()]);
                let i = choose|i: int|
                    0 <= i < list.len() && !is_duplicate(scan.internal_token, list[i]) && e[k
                        - internal.len()] == ddc_entry(#[trigger] list[i]);
                assert(shown[k] == ddc_entry(list[i]));
            }
        } else {
            lemma_nothing_hidden(list);
        }
    }
}

proof fn lemma_nothing_hidden(list: Seq<ddc::DdcView>)
    ensures
        external_entries(None, list) =~= list.map_values(|m: ddc::DdcView| ddc_entry(m)),
    decreases list.len(),
{
    if list.len() > 0 {
        lemma_nothing_hidden(list.drop_last());
    }
}

/// The displays that a scan found serve every request within the lifetime of the scan, and none
/// after that. A scan that failed leaves what an earlier one found in place.
pub proof fn scan_serves_its_lifetime(
    last: Option<(nat, Seq<MonitorInfo>)>,
    at: nat,
    r: Result<Vec<MonitorInfo>, String>,
    now: nat,
)
    ensures
        r matches Ok(list) ==> served(kept(last, at, r), now) == (if now < at
            + SCAN_LIFETIME_NANOS {
            Some(list@)
        } else {
            None
        }),
        r is Err ==> served(kept(last, at, r), now) == served(last, now),
{
}

/// External monitors are listed in the order of their indices: the identifiers after the entry for
/// the internal display name rising indices, if those of the monitors rise, as they do in a list of
/// all physical monitors.
pub proof fn listed_indices_rise(
    scan: wmi::WmiScanView,
    active: Seq<Seq<char>>,
    device_count: nat,
    ddc: Result<Seq<ddc::DdcView>, Seq<char>>,
)
    requires
        ddc matches Ok(list) ==> {
            &&& forall|i: int, j: int|
                0 <= i < j < list.len() ==> (#[trigger] list[i]).index < (#[trigger] list[j]).index
            &&& forall|i: int| 0 <= i < list.len() ==> (#[trigger] list[i]).index <= usize::MAX
        },
    ensures
        monitor_list(scan, active, device_count, ddc) matches Ok(list) ==> forall|k: int, l: int|
            internal_part(scan, active, device_count, ddc).len() <= k < l < list.len() ==> {
                &&& ident::ddc_index((#[trigger] list[k]).id) matches Some(a)
                &&& ident::ddc_index((#[trigger] list[l]).id) matches Some(b)
                &&& a < b
            },
{
    if let Ok(list) = monitor_list(scan, active, device_count, ddc) {
        let n = internal_part(scan, active, device_count, ddc).len() as int;
        assert forall|k: int, l: int| n <= k < l < list.len() implies {
            &&& ident::ddc_index((#[trigger] list[k]).id) matches Some(a)
            &&& ident::ddc_index((#[trigger] list[l]).id) matches Some(b)
            &&& a < b
        } by {
            let shown = if n > 0 {
                scan.internal_token
            } else {
                None
            };
            let all = ddc->Ok_0;
            let e = external_entries(shown, all);
            assert(list[k] == e[k - n] && list[l] == e[l - n]);
            lemma_external_positions(shown, all, k - n, l - n);
            let (i, j) = choose|i: int, j: int|
                0 <= i < j < all.len() && e[k - n] == ddc_entry(#[trigger] all[i]) && e[l - n]
                    == ddc_entry(#[trigger] all[j]);
            ident::ddc_id_reads_back(all[i].index);
            ident::ddc_id_reads_back(all[j].index);
        }
    }
}

/// The entry for an external monitor shows its index, its name and whether it can be controlled. If
/// it can, its level is the percentage that is nearest to where its native value stands in its
/// range, so that the lower end is shown as zero and the upper end as one hundred.
pub proof fn entries_show_their_monitor(m: ddc::DdcView)
    ensures
        ({
            let e = ddc_entry(m);
            let top: int = if m.max_native == 0 {
                100
            } else {
                m.max_native as int
            };
            let span = top - m.min_native;
            let at: int = if m.current_native < m.min_native {
                m.min_native as int
            } else if m.current_native > top {
                top
            } else {
                m.current_native as int
            };
            &&& e.id == ident::ddc_id(m.index)
            &&& e.name == m.name
            &&& e.kind == "ddc"@
            &&& e.min == 10 && e.max == 100
            &&& e.capable == m.capable
            &&& !m.capable ==> e.current == 0
            &&& m.capable ==> e.current == level::percent_of(
                m.current_native as int,
                m.min_native as int,
                m.max_native as int,
            )
            &&& m.capable && span > 0 ==> -span < 2 * (e.current * span - 100 * (at - m.min_native))
                <= span
            &&& m.capable && span > 0 && m.current_native <= m.min_native ==> e.current == 0
            &&& m.capable && span > 0 && m.current_native >= top ==> e.current == 100
            &&& m.capable && span <= 0 && m.current_native <= 100 ==> e.current == m.current_native
            &&& m.capable && span <= 0 && m.current_native > 100 ==> e.current == 100
        }),
{
    level::reading_is_nearest(m.current_native as int, m.min_native as int, m.max_native as int);
    if level::native_span(m.min_native as int, m.max_native as int) > 0 {
        level::ends_read_as_zero_and_hundred(m.min_native as int, m.max_native as int);
        let a = level::into_range(
            m.current_native as int,
            m.min_native as int,
            m.max_native as int,
        );
        assert(m.current_native <= m.min_native ==> a == m.min_native);
        assert(m.current_native >= level::native_max(m.max_native as int) ==> a
            == level::native_max(m.max_native as int));
    }
}

/// Of two monitors with the same range that can be controlled, the one with the higher native value
/// is not shown at a lower level.
pub proof fn brighter_is_not_shown_dimmer(a: ddc::DdcView, b: ddc::DdcView)
    requires
        a.capable,
        b.capable,
        a.min_native == b.min_native,
        a.max_native == b.max_native,
        a.current_native <= b.current_native,
    ensures
        ddc_entry(a).current <= ddc_entry(b).current,
{
    level::reading_keeps_order(
        a.current_native as int,
        b.current_native as int,
        a.min_native as int,
        a.max_native as int,
    );
}

/// The detail of an entry tells how the monitor is controlled: one that only answers to VCP is told
/// apart from the others, and one that does not answer is told with its errors, where there are any.
pub proof fn details_tell_how(m: ddc::DdcView)
    ensures
        m.capable && !m.vcp_fallback ==> ddc_entry(m).detail == "Controlled via DDC/CI"@,
        m.capable && m.vcp_fallback ==> ddc_entry(m).detail == "Controlled via DDC/CI (VCP mode)"@,
        !m.capable && m.error.len() == 0 ==> ddc_entry(m).detail
            == "Display is turned off or DDC/CI is disabled in monitor OSD."@,
        !m.capable && m.error.len() > 0 ==> ddc_entry(m).detail
            == "Display is turned off or DDC/CI is disabled ("@ + m.error + ")."@,
{
}

proof fn lemma_external_complete(shown: Option<Seq<char>>, list: Seq<ddc::DdcView>, i: int)
    requires
        0 <= i < list.len(),
        !is_duplicate(shown, list[i]),
    ensures
        exists|k: int|
            0 <= k < external_entries(shown, list).len() && #[trigger] external_entries(
                shown,
                list,
            )[k] == ddc_entry(list[i]),
    decreases list.len(),
{
    let front = list.drop_last();
    let before = external_entries(shown, front);
    let after = external_entries(shown, list);
    if i < front.len() {
        lemma_external_complete(shown, front, i);
        let k = choose|k: int|
            0 <= k < before.len() && #[trigger] before[k] == ddc_entry(front[i]);
        assert(after[k] == ddc_entry(list[i]));
    } else {
        assert(after[before.len() as int] == ddc_entry(list[i]));
    }
}

/// A monitor is the internal display under another name if the tokens of both are known and are
/// equal up to the case of ASCII letters.
pub proof fn duplicates_have_the_token(shown: Option<Seq<char>>, m: ddc::DdcView)
    ensures
        is_duplicate(shown, m) <==> (shown matches Some(a) && m.token matches Some(b)
            && text::same_ignoring_case(a, b)),
{
}

/// Every external monitor is listed, with its identifier, its name and its level, but for those that
/// have the token of an internal display that is listed.
pub proof fn external_monitors_are_listed(
    scan: wmi::WmiScanView,
    active: Seq<Seq<char>>,
    device_count: nat,
    list: Seq<ddc::DdcView>,
    i: int,
)
    requires
        0 <= i < list.len(),
        internal_part(scan, active, device_count, Ok(list)).len() == 0 || match (
            scan.internal_token,
            list[i].token,
        ) {
            (Some(a), Some(b)) => !text::same_ignoring_case(a, b),
            _ => true,
        },
    ensures
        monitor_list(scan, active, device_count, Ok(list)) matches Ok(all) && exists|k: int| {
            &&& 0 <= k < all.len()
            &&& (#[trigger] all[k]).id == ident::ddc_id(list[i].index)
            &&& all[k].name == list[i].name
            &&& all[k].kind == "ddc"@
            &&& all[k].capable == list[i].capable
            &&& all[k].current == (if list[i].capable {
                level::percent_of(
                    list[i].current_native as int,
                    list[i].min_native as int,
                    list[i].max_native as int,
                )
            } else {
                0
            })
        },
{
    let ddc = Ok::<Seq<ddc::DdcView>, Seq<char>>(list);
    let internal = internal_part(scan, active, device_count, ddc);
    let shown = if internal.len() > 0 {
        scan.internal_token
    } else {
        None
    };
    lemma_external_complete(shown, list, i);
    let e = external_entries(shown, list);
    let k = choose|k: int| 0 <= k < e.len() && #[trigger] e[k] == ddc_entry(list[i]);
    let j = internal.len() + k;
    assert((internal + e)[j] == e[k]);
    let all = monitor_list(scan, active, device_count, ddc)->Ok_0;
    assert(all == internal + e);
    assert(0 <= j < all.len());
    assert(all[j] == ddc_entry(list[i]));
}

proof fn lemma_capable_count(list: Seq<ddc::DdcView>)
    ensures
        capable_count(list) == list.filter(|m: ddc::DdcView| m.capable).len(),
    decreases list.len(),
{
    reveal(Seq::filter);
    if list.len() > 0 {
        lemma_capable_count(list.drop_last());
    }
}

/// The internal display is listed exactly where its level is known and it is on the desktop. It is
/// on the desktop if there is a device there and one of them has its token; where its token is not
/// known, if there are more devices than external monitors that can be controlled.
pub proof fn internal_display_is_listed_when_on(
    scan: wmi::WmiScanView,
    active: Seq<Seq<char>>,
    device_count: nat,
    list: Seq<ddc::DdcView>,
)
    ensures
        ({
            let capable = list.filter(|m: ddc::DdcView| m.capable).len();
            let on = match scan.internal_token {
                Some(t) if t.len() > 0 => exists|i: int|
                    0 <= i < active.len() && text::same_ignoring_case(#[trigger] active[i], t),
                _ => device_count > capable,
            };
            internal_part(scan, active, device_count, Ok(list)).len() == (if device_count > 0 && on
                && scan.current_brightness is Some {
                1nat
            } else {
                0nat
            })
        }),
        ({
            let on = match scan.internal_token {
                Some(t) if t.len() > 0 => exists|i: int|
                    0 <= i < active.len() && text::same_ignoring_case(#[trigger] active[i], t),
                _ => true,
            };
            forall|e: Seq<char>| #[trigger]
                internal_part(scan, active, device_count, Err(e)).len() == (if device_count > 0
                    && on && scan.current_brightness is Some {
                    1nat
                } else {
                    0nat
                })
        }),
{
    lemma_capable_count(list);
}

/// Where the internal display is listed, it comes first, and a level up to one hundred percent is
/// shown as WMI tells it; a higher one is shown as one hundred.
pub proof fn internal_level_is_shown_as_told(
    scan: wmi::WmiScanView,
    active: Seq<Seq<char>>,
    device_count: nat,
    ddc: Result<Seq<ddc::DdcView>, Seq<char>>,
)
    requires
        internal_part(scan, active, device_count, ddc).len() > 0,
    ensures
        monitor_list(scan, active, device_count, ddc) matches Ok(all) && {
            &&& all.len() > 0
            &&& all[0].id == "wmi:internal"@
            &&& all[0].kind == "wmi"@
            &&& all[0].capable
            &&& all[0].min == 10 && all[0].max == 100
            &&& all[0].name == internal_name(scan.internal_token, scan.ids)
            &&& scan.current_brightness matches Some(b)
            &&& b <= 100 ==> all[0].current == b
            &&& b > 100 ==> all[0].current == 100
        },
{
}

/// The internal display is called by the friendly name that WMI has for its token, or else by the
/// token as WMI has it; where WMI has nothing for it, it is just called internal.
pub proof fn internal_display_is_called(token: Seq<char>, ids: Seq<wmi::WmiIdView>)
    ensures
        internal_name(None, ids) == "Laptop Display (Internal)"@,
        match wmi::named(ids, token) {
            None => internal_name(Some(token), ids) == "Laptop Display (Internal)"@,
            Some(w) => {
                let name = internal_name(Some(token), ids);
                &&& text::cleaned(w.friendly).len() > 0 ==> name == "Laptop Display ("@
                    + text::cleaned(w.friendly) + ")"@
                &&& text::cleaned(w.friendly).len() == 0 ==> name == "Laptop Display ("@ + w.token
                    + ")"@
            },
        },
{
}

/// Listing fails exactly where there is nothing to list: the internal display is not listed, and
/// either there are no external monitors, or they could not be enumerated. In the latter case the
/// message says why.
pub proof fn listing_fails_with_nothing_to_list(
    scan: wmi::WmiScanView,
    active: Seq<Seq<char>>,
    device_count: nat,
    ddc: Result<Seq<ddc::DdcView>, Seq<char>>,
)
    ensures
        monitor_list(scan, active, device_count, ddc) is Err <==> {
            &&& internal_part(scan, active, device_count, ddc).len() == 0
            &&& match ddc {
                Ok(list) => list.len() == 0,
                Err(_) => true,
            }
        },
        ddc matches Err(e) ==> {
            monitor_list(scan, active, device_count, ddc) matches Err(message) ==> message
                == "Failed to list displays: "@ + e
        },
{
    if let Ok(list) = ddc {
        if internal_part(scan, active, device_count, ddc).len() == 0 {
            lemma_nothing_hidden(list);
        }
    }
}

/// A list serves for one and a half seconds.
pub proof fn lists_serve_for_a_moment(at: nat, list: Seq<MonitorInfo>, now: nat)
    ensures
        now < at + 1_500_000_000 ==> served(Some((at, list)), now) == Some(list),
        now >= at + 1_500_000_000 ==> served(Some((at, list)), now) is None,
        served(None, now) is None,
{
}

} // verus!
