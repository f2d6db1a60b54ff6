//! External monitors, controlled over DDC/CI.
//!
//! What the hardware answers comes in as plain values. A monitor is found by its index: the
//! position in the list of all physical monitors, over all display devices in the order in which
//! they are enumerated.

use std::collections::HashMap;
use vstd::prelude::*;
use crate::ident;
use crate::level;
use crate::numbers;
use crate::text;
use crate::wide;
use crate::wmi;
use crate::wmi::WmiMonitorId;

verus! {

broadcast use vstd::std_specs::hash::group_hash_axioms;

// ---------------------------------------------------------------------------
// Probing
// ---------------------------------------------------------------------------

/// The VCP code for luminance.
pub const VCP_BRIGHTNESS: u8 = 0x10;

/// What probing a physical monitor showed.
#[derive(Debug, Clone, Copy)]
pub enum Probe {
    /// The high-level interface answers.
    HighLevel { min: u32, current: u32, max: u32 },
    /// Only the low-level VCP interface answers.
    Vcp { current: u32, max: u32 },
    /// Neither answers; the error codes of both are kept.
    Dead { le_bright: u32, le_vcp: u32 },
}

/// What to do after the high-level interface was asked.
pub enum ProbeStep {
    Answered { probe: Probe },
    /// The VCP interface has to be asked.
    AskVcp { le_bright: u32 },
}

/// Takes the answer of the high-level interface, which is the lowest, the current and the highest
/// native value, or an error code. Only where it fails is the VCP interface asked.
pub fn probe(reply: Result<(u32, u32, u32), u32>) -> (r: ProbeStep)
    ensures
        match reply {
            Ok((min, current, max)) => r == (ProbeStep::Answered {
                probe: Probe::HighLevel { min, current, max },
            }),
            Err(code) => r == (ProbeStep::AskVcp { le_bright: code }),
        },
{
    match reply {
        Ok((min, current, max)) => ProbeStep::Answered {
            probe: Probe::HighLevel { min, current, max },
        },
        Err(code) => ProbeStep::AskVcp { le_bright: code },
    }
}

/// Takes the answer of the VCP interface, which is the current and the highest native value, or an
/// error code.
pub fn probe_vcp(le_bright: u32, reply: Result<(u32, u32), u32>) -> (r: Probe)
    ensures
        match reply {
            Ok((current, max)) => r == (Probe::Vcp { current, max }),
            Err(code) => r == (Probe::Dead { le_bright, le_vcp: code }),
        },
{
    match reply {
        Ok((current, max)) => Probe::Vcp { current, max },
        Err(code) => Probe::Dead { le_bright, le_vcp: code },
    }
}

/// The message for a failed system call.
pub open spec fn last_error_text(ctx: Seq<char>, code: nat) -> Seq<char> {
    ctx + " (GetLastError="@ + numbers::decimal(code) + ")"@
}

/// The message for a failed system call.
pub fn last_error_msg(ctx: &str, code: u32) -> (r: String)
    ensures
        r@ == last_error_text(ctx@, code as nat),
{
    let mut s = text::concat3(ctx, " (GetLastError=", numbers::decimal_string(code as u64).as_str());
    s.append(")");
    s
}

/// The error codes of both interfaces.
pub open spec fn probe_errors(le_bright: nat, le_vcp: nat) -> Seq<char> {
    "brightness le="@ + numbers::decimal(le_bright) + ", VCP 0x10 le="@ + numbers::decimal(le_vcp)
}

fn probe_errors_string(le_bright: u32, le_vcp: u32) -> (r: String)
    ensures
        r@ == probe_errors(le_bright as nat, le_vcp as nat),
{
    let mut s = text::concat3(
        "brightness le=",
        numbers::decimal_string(le_bright as u64).as_str(),
        ", VCP 0x10 le=",
    );
    s.append(numbers::decimal_string(le_vcp as u64).as_str());
    s
}

// ---------------------------------------------------------------------------
// The cache of communication modes
// ---------------------------------------------------------------------------

/// How a monitor is talked to, and its native range. Keeping it makes setting a level take one DDC
/// call.
#[derive(Debug, Clone, Copy)]
pub enum CachedMode {
    HighLevel { min_native: u32, max_native: u32 },
    Vcp { max_native: u32 },
}

/// The modes that are known, by DDC index.
pub struct DdcCache {
    modes: HashMap<usize, CachedMode>,
}

impl View for DdcCache {
    type V = Map<usize, CachedMode>;

    closed spec fn view(&self) -> Map<usize, CachedMode> {
        self.modes@
    }
}

/// The mode that is known for an index.
pub open spec fn known_mode(modes: Map<usize, CachedMode>, index: int) -> Option<CachedMode> {
    if 0 <= index <= usize::MAX && modes.dom().contains(index as usize) {
        Some(modes[index as usize])
    } else {
        None
    }
}

impl Default for DdcCache {
    fn default() -> (r: Self)
        ensures
            r@ == Map::<usize, CachedMode>::empty(),
    {
        DdcCache { modes: HashMap::new() }
    }
}

/// The mode that is known for an index.
pub fn ddc_cache_get(cache: &DdcCache, index: usize) -> (r: Option<CachedMode>)
    ensures
        r == known_mode(cache@, index as int),
{
    match cache.modes.get(&index) {
        Some(mode) => Some(*mode),
        None => None,
    }
}

/// Keeps the mode of an index.
pub fn ddc_cache_insert(cache: &mut DdcCache, index: usize, mode: CachedMode)
    ensures
        final(cache)@ == old(cache)@.insert(index, mode),
{
    cache.modes.insert(index, mode);
}

/// Forgets the mode of an index.
pub fn ddc_cache_remove(cache: &mut DdcCache, index: usize)
    ensures
        final(cache)@ == old(cache)@.remove(index),
{
    cache.modes.remove(&index);
}

/// The mode that a probe shows.
pub open spec fn mode_of(probe: Probe) -> Option<CachedMode> {
    match probe {
        Probe::HighLevel { min, current, max } => Some(
            CachedMode::HighLevel { min_native: min, max_native: max },
        ),
        Probe::Vcp { current, max } => Some(CachedMode::Vcp { max_native: max }),
        Probe::Dead { .. } => None,
    }
}

/// A cache after a mode was learned, or after it was learned that there is none.
pub open spec fn learned(
    modes: Map<usize, CachedMode>,
    index: usize,
    mode: Option<CachedMode>,
) -> Map<usize, CachedMode> {
    match mode {
        Some(m) => modes.insert(index, m),
        None => modes.remove(index),
    }
}

// ---------------------------------------------------------------------------
// Names
// ---------------------------------------------------------------------------

/// The name of a monitor without an EDID name: its description, or a numbered name.
pub open spec fn described_name(desc: Seq<char>, index: nat) -> Seq<char> {
    if text::cleaned(desc).len() > 0 {
        text::cleaned(desc)
    } else {
        "External Display "@ + numbers::decimal(index + 1)
    }
}

/// The most telling name of a monitor, the first of these that is not empty: the friendly name that
/// WMI knows under its token, the manufacturer, the description, a numbered name.
pub open spec fn resolved_name(
    token: Option<Seq<char>>,
    ids: Seq<wmi::WmiIdView>,
    desc: Seq<char>,
    index: nat,
) -> Seq<char> {
    let known = match token {
        Some(t) => wmi::named(ids, t),
        None => None,
    };
    match known {
        Some(w) => {
            if text::cleaned(w.friendly).len() > 0 {
                text::cleaned(w.friendly)
            } else if text::cleaned(w.manufacturer).len() > 0 {
                text::cleaned(w.manufacturer)
            } else {
                described_name(desc, index)
            }
        },
        None => described_name(desc, index),
    }
}

/// Resolves the most telling name of a monitor.
pub fn resolve_name(
    token: &Option<String>,
    ids: &[WmiMonitorId],
    desc_raw: &str,
    fallback_idx: usize,
) -> (r: String)
    requires
        fallback_idx < usize::MAX,
    ensures
        r@ == resolved_name(
            text::text_of(*token),
            wmi::ids_of(ids@),
            desc_raw@,
            fallback_idx as nat,
        ),
{
    if let Some(t) = token {
        if let Some(w) = wmi::find_named(ids, t.as_str()) {
            let friendly = text::clean(w.friendly.as_str());
            if !friendly.as_str().is_empty() {
                return friendly;
            }
            let manufacturer = text::clean(w.manufacturer.as_str());
            if !manufacturer.as_str().is_empty() {
                return manufacturer;
            }
        }
    }
    let desc = text::clean(desc_raw);
    if !desc.as_str().is_empty() {
        return desc;
    }
    text::concat2("External Display ", numbers::decimal_string((fallback_idx + 1) as u64).as_str())
}

// ---------------------------------------------------------------------------
// Listing
// ---------------------------------------------------------------------------

/// A physical monitor as it answered: its description, in UTF-16, and its probe.
pub struct PhysicalScan {
    pub description: Vec<u16>,
    pub probe: Probe,
}

/// A display device as it answered: its device name, in UTF-16, and its physical monitors, each as
/// far as they could be had.
pub struct HmonitorScan {
    pub device_id: Option<Vec<u16>>,
    pub physical: Option<Vec<PhysicalScan>>,
}

/// A physical monitor with the token of its device.
pub struct Physical {
    pub token: Option<Seq<char>>,
    pub description: Seq<u16>,
    pub probe: Probe,
}

/// The physical monitors of a device; there are none where they could not be had.
pub open spec fn physical_of(scan: HmonitorScan) -> Seq<PhysicalScan> {
    match scan.physical {
        Some(v) => v@,
        None => seq![],
    }
}

/// A physical monitor of a device.
pub open spec fn tagged(scan: HmonitorScan, p: PhysicalScan) -> Physical {
    Physical {
        token: ident::device_token(ident::units_of(scan.device_id)),
        description: p.description@,
        probe: p.probe,
    }
}

/// The physical monitors of a device, with its token.
pub open spec fn tagged_all(scan: HmonitorScan) -> Seq<Physical> {
    physical_of(scan).map_values(|p: PhysicalScan| tagged(scan, p))
}

/// All physical monitors, in the order of the devices.
pub open spec fn flat(scans: Seq<HmonitorScan>) -> Seq<Physical>
    decreases scans.len(),
{
    if scans.len() == 0 {
        seq![]
    } else {
        flat(scans.drop_last()) + tagged_all(scans.last())
    }
}

/// The number of all physical monitors.
pub open spec fn physical_count(scans: Seq<HmonitorScan>) -> nat
    decreases scans.len(),
{
    if scans.len() == 0 {
        0
    } else {
        physical_count(scans.drop_last()) + physical_of(scans.last()).len()
    }
}

pub proof fn lemma_flat_len(scans: Seq<HmonitorScan>)
    ensures
        flat(scans).len() == physical_count(scans),
    decreases scans.len(),
{
    if scans.len() > 0 {
        lemma_flat_len(scans.drop_last());
    }
}

/// A listed monitor.
pub struct DdcMonitor {
    pub index: usize,
    /// The model token, where the device name could be had.
    pub token: Option<String>,
    pub name: String,
    pub min_native: u32,
    pub current_native: u32,
    pub max_native: u32,
    pub capable: bool,
    /// Whether the monitor answers only to VCP.
    pub vcp_fallback: bool,
    /// The error codes of a monitor that does not answer.
    pub error: String,
}

/// The contents of a `DdcMonitor`.
pub struct DdcView {
    pub index: nat,
    pub token: Option<Seq<char>>,
    pub name: Seq<char>,
    pub min_native: u32,
    pub current_native: u32,
    pub max_native: u32,
    pub capable: bool,
    pub vcp_fallback: bool,
    pub error: Seq<char>,
}

impl View for DdcMonitor {
    type V = DdcView;

    open spec fn view(&self) -> DdcView {
        DdcView {
            index: self.index as nat,
            token: text::text_of(self.token),
            name: self.name@,
            min_native: self.min_native,
            current_native: self.current_native,
            max_native: self.max_native,
            capable: self.capable,
            vcp_fallback: self.vcp_fallback,
            error: self.error@,
        }
    }
}

/// The contents of a list of `DdcMonitor`s.
pub open spec fn ddc_views(list: Seq<DdcMonitor>) -> Seq<DdcView> {
    list.map_values(|m: DdcMonitor| m@)
}

/// Whether no token of a list is empty.
pub open spec fn tokens_given(list: Seq<DdcMonitor>) -> bool {
    forall|i: int|
        0 <= i < list.len() ==> ((#[trigger] list[i]).token matches Some(t) ==> t@.len() > 0)
}

/// The entry for the physical monitor at an index. A monitor that does not answer is listed too,
/// as one that cannot be controlled, with the error codes.
pub open spec fn entry(ids: Seq<wmi::WmiIdView>, p: Physical, index: nat) -> DdcView {
    let name = resolved_name(p.token, ids, wide::wide_text(p.description), index);
    match p.probe {
        Probe::HighLevel { min, current, max } => DdcView {
            index,
            token: p.token,
            name,
            min_native: min,
            current_native: current,
            max_native: max,
            capable: true,
            vcp_fallback: false,
            error: seq![],
        },
        Probe::Vcp { current, max } => DdcView {
            index,
            token: p.token,
            name,
            min_native: 0,
            current_native: current,
            max_native: max,
            capable: true,
            vcp_fallback: true,
            error: seq![],
        },
        Probe::Dead { le_bright, le_vcp } => DdcView {
            index,
            token: p.token,
            name,
            min_native: 0,
            current_native: 50,
            max_native: 100,
            capable: false,
            vcp_fallback: false,
            error: probe_errors(le_bright as nat, le_vcp as nat),
        },
    }
}

/// The list of all monitors.
pub open spec fn entries(ids: Seq<wmi::WmiIdView>, all: Seq<Physical>) -> Seq<DdcView> {
    Seq::new(all.len(), |i: int| entry(ids, all[i], i as nat))
}

/// Whether a cache holds what listing the monitors teaches: the modes of those that answer, and
/// nothing for those that do not. Beyond the list it is unchanged.
pub open spec fn taught(
    before: Map<usize, CachedMode>,
    after: Map<usize, CachedMode>,
    all: Seq<Physical>,
) -> bool {
    forall|k: int| #[trigger]
        known_mode(after, k) == (if 0 <= k < all.len() {
            mode_of(all[k].probe)
        } else {
            known_mode(before, k)
        })
}

/// The entry for one physical monitor; the cache learns its mode.
fn list_one(
    ids: &[WmiMonitorId],
    token: &Option<String>,
    physical: &PhysicalScan,
    index: usize,
    cache: &mut DdcCache,
) -> (r: DdcMonitor)
    requires
        index < usize::MAX,
    ensures
        r@ == entry(
            wmi::ids_of(ids@),
            Physical {
                token: text::text_of(*token),
                description: physical.description@,
                probe: physical.probe,
            },
            index as nat,
        ),
        final(cache)@ == learned(old(cache)@, index, mode_of(physical.probe)),
{
    let desc = wide::wide_to_string(physical.description.as_slice());
    let name = resolve_name(token, ids, desc.as_str(), index);
    let token = token.clone();
    match physical.probe {
        Probe::HighLevel { min, current, max } => {
            ddc_cache_insert(
                cache,
                index,
                CachedMode::HighLevel { min_native: min, max_native: max },
            );
            DdcMonitor {
                index,
                token,
                name,
                min_native: min,
                current_native: current,
                max_native: max,
                capable: true,
                vcp_fallback: false,
                error: String::new(),
            }
        },
        Probe::Vcp { current, max } => {
            ddc_cache_insert(cache, index, CachedMode::Vcp { max_native: max });
            DdcMonitor {
                index,
                token,
                name,
                min_native: 0,
                current_native: current,
                max_native: max,
                capable: true,
                vcp_fallback: true,
                error: String::new(),
            }
        },
        Probe::Dead { le_bright, le_vcp } => {
            ddc_cache_remove(cache, index);
            DdcMonitor {
                index,
                token,
                name,
                min_native: 0,
                current_native: 50,
                max_native: 100,
                capable: false,
                vcp_fallback: false,
                error: probe_errors_string(le_bright, le_vcp),
            }
        },
    }
}

proof fn lemma_flat_prefix(scans: Seq<HmonitorScan>, h: int)
    requires
        0 <= h < scans.len(),
    ensures
        flat(scans.take(h + 1)) == flat(scans.take(h)) + tagged_all(scans[h]),
        flat(scans.take(h + 1)).len() <= flat(scans).len(),
    decreases scans.len(),
{
    assert(scans.take(h + 1).drop_last() =~= scans.take(h));
    if h + 1 < scans.len() {
        lemma_flat_prefix(scans.drop_last(), h);
        assert(scans.drop_last().take(h + 1) =~= scans.take(h + 1));
    } else {
        assert(scans.take(h + 1) =~= scans);
    }
}

/// Lists the physical monitors of a device, after those that were listed already.
fn list_device(
    ids: &[WmiMonitorId],
    scan: &HmonitorScan,
    out: &mut Vec<DdcMonitor>,
    cache: &mut DdcCache,
    Ghost(all): Ghost<Seq<Physical>>,
    Ghost(start): Ghost<Map<usize, CachedMode>>,
)
    requires
        all.len() + tagged_all(*scan).len() <= usize::MAX,
        ddc_views(old(out)@) == entries(wmi::ids_of(ids@), all),
        taught(start, old(cache)@, all),
        tokens_given(old(out)@),
    ensures
        ddc_views(final(out)@) == entries(wmi::ids_of(ids@), all + tagged_all(*scan)),
        taught(start, final(cache)@, all + tagged_all(*scan)),
        tokens_given(final(out)@),
{
    let token = ident::hmonitor_device_token(&scan.device_id);
    let ghost tail = tagged_all(*scan);
    match &scan.physical {
        Some(list) => {
            let mut i: usize = 0;
            assert(all + tail.take(0) =~= all);
            while i < list.len()
                invariant
                    i <= list@.len(),
                    list@ == physical_of(*scan),
                    tail == tagged_all(*scan),
                    all.len() + tail.len() <= usize::MAX,
                    text::text_of(token) == ident::device_token(ident::units_of(scan.device_id)),
                    ddc_views(out@) == entries(wmi::ids_of(ids@), all + tail.take(i as int)),
                    taught(start, cache@, all + tail.take(i as int)),
                    token matches Some(t) ==> t@.len() > 0,
                    tokens_given(out@),
                decreases list.len() - i,
            {
                let ghost before = all + tail.take(i as int);
                let ghost modes = cache@;
                let ghost views = ddc_views(out@);
                assert(out@.len() == views.len());
                let index = out.len();
                let m = list_one(ids, &token, &list[i], index, cache);
                out.push(m);
                let ghost after = all + tail.take(i + 1);
                assert(tail[i as int] == tagged(*scan, list@[i as int]));
                assert(after =~= before.push(tail[i as int]));
                assert(ddc_views(out@) =~= views.push(m@));
                assert(ddc_views(out@) =~= entries(wmi::ids_of(ids@), after));
                assert forall|k: int| #[trigger]
                    known_mode(cache@, k) == (if 0 <= k < after.len() {
                        mode_of(after[k].probe)
                    } else {
                        known_mode(start, k)
                    }) by {
                    assert(known_mode(modes, k) == (if 0 <= k < before.len() {
                        mode_of(before[k].probe)
                    } else {
                        known_mode(start, k)
                    }));
                }
                i += 1;
            }
            assert(tail.take(i as int) =~= tail);
        },
        None => {
            assert(all + tail =~= all);
        },
    }
}

/// Lists all physical monitors, given how the devices answered or why they could not be
/// enumerated. The cache learns the modes. No token is empty.
pub fn list_ddc_monitors(
    ids: &[WmiMonitorId],
    hmonitors: Result<Vec<HmonitorScan>, String>,
    cache: &mut DdcCache,
) -> (r: Result<Vec<DdcMonitor>, String>)
    requires
        hmonitors matches Ok(scans) ==> physical_count(scans@) <= usize::MAX,
    ensures
        match hmonitors {
            Ok(scans) => {
                &&& r matches Ok(list)
                &&& ddc_views(list@) == entries(wmi::ids_of(ids@), flat(scans@))
                &&& taught(old(cache)@, final(cache)@, flat(scans@))
                &&& tokens_given(list@)
            },
            Err(e) => r == Err::<Vec<DdcMonitor>, String>(e) && final(cache)@ == old(cache)@,
        },
{
    let scans = match hmonitors {
        Ok(scans) => scans,
        Err(e) => {
            return Err(e);
        },
    };
    let mut out: Vec<DdcMonitor> = Vec::new();
    let mut h: usize = 0;
    let ghost start = cache@;
    proof {
        lemma_flat_len(scans@);
    }
    assert(scans@.take(0) =~= Seq::<HmonitorScan>::empty());
    assert(ddc_views(out@) =~= entries(wmi::ids_of(ids@), flat(scans@.take(0))));
    while h < scans.len()
        invariant
            h <= scans@.len(),
            flat(scans@).len() <= usize::MAX,
            ddc_views(out@) == entries(wmi::ids_of(ids@), flat(scans@.take(h as int))),
            taught(start, cache@, flat(scans@.take(h as int))),
            tokens_given(out@),
        decreases scans.len() - h,
    {
        proof {
            lemma_flat_prefix(scans@, h as int);
        }
        let ghost all = flat(scans@.take(h as int));
        list_device(ids, &scans[h], &mut out, cache, Ghost(all), Ghost(start));
        h += 1;
    }
    assert(scans@.take(h as int) =~= scans@);
    Ok(out)
}

// ---------------------------------------------------------------------------
// Devices on the desktop
// ---------------------------------------------------------------------------

/// The model tokens of the devices, each once, in the order in which they first occur.
pub open spec fn distinct_tokens(device_ids: Seq<Option<Vec<u16>>>) -> Seq<Seq<char>>
    decreases device_ids.len(),
{
    if device_ids.len() == 0 {
        seq![]
    } else {
        let before = distinct_tokens(device_ids.drop_last());
        match ident::device_token(ident::units_of(device_ids.last())) {
            Some(t) => if before.contains(t) {
                before
            } else {
                before.push(t)
            },
            None => before,
        }
    }
}

fn contains_text(list: &[String], t: &str) -> (r: bool)
    ensures
        r == text::texts_of(list@).contains(t@),
{
    let ghost texts = text::texts_of(list@);
    let mut i: usize = 0;
    while i < list.len()
        invariant
            i <= list@.len(),
            texts == text::texts_of(list@),
            forall|k: int| 0 <= k < i ==> #[trigger] texts[k] != t@,
        decreases list.len() - i,
    {
        assert(texts[i as int] == list@[i as int]@);
        if text::same_text(list[i].as_str(), t) {
            return true;
        }
        i += 1;
    }
    false
}

/// The model tokens of the devices on the desktop, given their device names; none if they could
/// not be enumerated. No token is empty.
pub fn get_active_hmonitor_tokens(device_ids: Result<Vec<Option<Vec<u16>>>, String>) -> (r: Vec<
    String,
>)
    ensures
        match device_ids {
            Ok(list) => text::texts_of(r@) == distinct_tokens(list@),
            Err(_) => r@.len() == 0,
        },
        forall|i: int| 0 <= i < r@.len() ==> (#[trigger] r@[i])@.len() > 0,
{
    let list = match device_ids {
        Ok(list) => list,
        Err(_) => {
            return Vec::new();
        },
    };
    let mut out: Vec<String> = Vec::new();
    let mut i: usize = 0;
    assert(text::texts_of(out@) =~= distinct_tokens(list@.take(0)));
    while i < list.len()
        invariant
            i <= list@.len(),
            text::texts_of(out@) == distinct_tokens(list@.take(i as int)),
            forall|k: int| 0 <= k < out@.len() ==> (#[trigger] out@[k])@.len() > 0,
        decreases list.len() - i,
    {
        let ghost before = out@;
        assert(list@.take(i + 1).drop_last() =~= list@.take(i as int));
        if let Some(t) = ident::hmonitor_device_token(&list[i]) {
            if !contains_text(out.as_slice(), t.as_str()) {
                out.push(t);
                assert(text::texts_of(out@) =~= text::texts_of(before).push(t@));
            }
        }
        i += 1;
    }
    assert(list@.take(i as int) =~= list@);
    out
}

/// The number of devices on the desktop; none if they could not be enumerated.
pub fn get_active_hmonitor_count(hmonitors: Result<usize, String>) -> (r: usize)
    ensures
        r == (match hmonitors {
            Ok(n) => n,
            Err(_) => 0,
        }),
{
    match hmonitors {
        Ok(n) => n,
        Err(_) => 0,
    }
}

// ---------------------------------------------------------------------------
// Finding a monitor again
// ---------------------------------------------------------------------------

/// A walk over the devices that looks for the physical monitor at an index.
pub struct PhysicalWalk {
    target: usize,
    passed: usize,
}

/// The position within the next device of the monitor that is looked for, if it is there.
pub open spec fn position_in(target: int, passed: int, count: int) -> Option<int> {
    if target - passed < count {
        Some(target - passed)
    } else {
        None
    }
}

impl PhysicalWalk {
    /// The index that is looked for.
    pub closed spec fn target(&self) -> int {
        self.target as int
    }

    /// The number of physical monitors that were passed.
    pub closed spec fn passed(&self) -> int {
        self.passed as int
    }

    /// The walk has not gone past the index.
    pub open spec fn well_formed(&self) -> bool {
        0 <= self.passed() <= self.target()
    }

    /// Begins to look for the physical monitor at an index.
    pub fn new(target_index: usize) -> (r: Self)
        ensures
            r.well_formed(),
            r.target() == target_index,
            r.passed() == 0,
    {
        PhysicalWalk { target: target_index, passed: 0 }
    }

    /// Takes the next device, with the number of its physical monitors, or nothing where they
    /// could not be had. Tells the position of the monitor within the device if it is there; else
    /// the device is passed.
    pub fn visit(&mut self, fetched: Option<usize>) -> (r: Option<usize>)
        requires
            old(self).well_formed(),
        ensures
            final(self).well_formed(),
            final(self).target() == old(self).target(),
            ({
                let count = match fetched {
                    Some(n) => n as int,
                    None => 0,
                };
                match r {
                    Some(i) => {
                        &&& position_in(old(self).target(), old(self).passed(), count) == Some(
                            i as int,
                        )
                        &&& final(self).passed() == old(self).passed()
                    },
                    None => {
                        &&& position_in(old(self).target(), old(self).passed(), count) is None
                        &&& final(self).passed() == old(self).passed() + count
                    },
                }
            }),
    {
        let count: usize = match fetched {
            Some(n) => n,
            None => 0,
        };
        let left: usize = self.target - self.passed;
        if left < count {
            return Some(left);
        }
        self.passed = self.passed + count;
        None
    }

    /// The message for an index that no device has.
    pub fn not_found(&self) -> (r: String)
        requires
            self.well_formed(),
        ensures
            r@ == "DDC monitor at index "@ + numbers::decimal(self.target() as nat) + " not found"@,
    {
        text::concat3(
            "DDC monitor at index ",
            numbers::decimal_string(self.target as u64).as_str(),
            " not found",
        )
    }
}

// ---------------------------------------------------------------------------
// Reading a level
// ---------------------------------------------------------------------------

/// What a probe says of the level, as a percentage.
pub open spec fn probed_percent(probe: Probe) -> Option<int> {
    match probe {
        Probe::HighLevel { min, current, max } => Some(
            level::percent_of(current as int, min as int, max as int),
        ),
        Probe::Vcp { current, max } => Some(level::percent_of(current as int, 0, max as int)),
        Probe::Dead { .. } => None,
    }
}

/// The hint at the end of an error message.
pub open spec fn osd_hint() -> Seq<char> {
    "). Please check if DDC/CI is enabled in monitor OSD."@
}

/// Reads the level of a monitor, given its probe or why it could not be found.
pub fn get_ddc_brightness(probed: Result<Probe, String>) -> (r: Result<u32, String>)
    ensures
        match probed {
            Ok(probe) => match r {
                Ok(p) => probed_percent(probe) == Some(p as int),
                Err(e) => probe matches Probe::Dead { le_bright, le_vcp } && e@
                    == "Failed to read brightness ("@ + probe_errors(
                    le_bright as nat,
                    le_vcp as nat,
                ) + osd_hint(),
            },
            Err(e) => r == Err::<u32, String>(e),
        },
{
    match probed {
        Ok(Probe::HighLevel { min, current, max }) => Ok(
            level::native_to_percent(current, min, max),
        ),
        Ok(Probe::Vcp { current, max }) => Ok(level::native_to_percent(current, 0, max)),
        Ok(Probe::Dead { le_bright, le_vcp }) => Err(
            text::concat3(
                "Failed to read brightness (",
                probe_errors_string(le_bright, le_vcp).as_str(),
                "). Please check if DDC/CI is enabled in monitor OSD.",
            ),
        ),
        Err(e) => Err(e),
    }
}

// ---------------------------------------------------------------------------
// Setting a level
// ---------------------------------------------------------------------------

/// The interface over which a level is set.
#[derive(Debug, Clone, Copy)]
pub enum MonitorApi {
    HighLevel,
    Vcp,
}

/// What to do next to set the level of a monitor.
pub enum SetStep {
    /// Write a native value without probing first.
    WriteCached { api: MonitorApi, native: u32 },
    /// Probe the monitor.
    Probe,
    /// Write a native value to the monitor that was just probed.
    Write { api: MonitorApi, native: u32 },
    /// The attempt has ended.
    Done { outcome: Result<(), String> },
}

/// The interface of a mode.
pub open spec fn api_of(mode: CachedMode) -> MonitorApi {
    match mode {
        CachedMode::HighLevel { .. } => MonitorApi::HighLevel,
        CachedMode::Vcp { .. } => MonitorApi::Vcp,
    }
}

/// The native value that is written for a percentage.
pub open spec fn native_for(mode: CachedMode, percent: int) -> int {
    match mode {
        CachedMode::HighLevel { min_native, max_native } => level::native_of(
            percent,
            min_native as int,
            max_native as int,
        ),
        CachedMode::Vcp { max_native } => level::native_of(percent, 0, max_native as int),
    }
}

fn write_for(mode: CachedMode, percent: u32) -> (r: (MonitorApi, u32))
    ensures
        r.0 == api_of(mode),
        r.1 == native_for(mode, percent as int),
{
    match mode {
        CachedMode::HighLevel { min_native, max_native } => (
            MonitorApi::HighLevel,
            level::percent_to_native(percent, min_native, max_native),
        ),
        CachedMode::Vcp { max_native } => (
            MonitorApi::Vcp,
            level::percent_to_native(percent, 0, max_native),
        ),
    }
}

/// Begins to set the level of the monitor at an index. If its mode is known, the level is written
/// at once; else the monitor is probed.
pub fn set_ddc_brightness(cache: &DdcCache, index: usize, percent: u32) -> (r: SetStep)
    ensures
        match known_mode(cache@, index as int) {
            Some(mode) => r matches SetStep::WriteCached { api, native } && api == api_of(mode)
                && native == native_for(mode, percent as int),
            None => r is Probe,
        },
{
    match ddc_cache_get(cache, index) {
        Some(mode) => {
            let (api, native) = write_for(mode, percent);
            SetStep::WriteCached { api, native }
        },
        None => SetStep::Probe,
    }
}

/// Goes on after a write without probing. If it failed, the mode is forgotten and the monitor is
/// probed.
pub fn after_cached_write(cache: &mut DdcCache, index: usize, written: bool) -> (r: SetStep)
    ensures
        if written {
            r == (SetStep::Done { outcome: Ok(()) }) && final(cache)@ == old(cache)@
        } else {
            r is Probe && final(cache)@ == old(cache)@.remove(index)
        },
{
    if written {
        SetStep::Done { outcome: Ok(()) }
    } else {
        ddc_cache_remove(cache, index);
        SetStep::Probe
    }
}

/// Goes on after a probe: the mode is kept, and the level is written. A monitor that does not
/// answer ends the attempt.
pub fn after_probe(cache: &mut DdcCache, index: usize, percent: u32, probe: Probe) -> (r: SetStep)
    ensures
        match mode_of(probe) {
            Some(mode) => {
                &&& r matches SetStep::Write { api, native }
                &&& api == api_of(mode)
                &&& native == native_for(mode, percent as int)
                &&& final(cache)@ == old(cache)@.insert(index, mode)
            },
            None => {
                &&& probe matches Probe::Dead { le_bright, le_vcp }
                &&& r matches SetStep::Done { outcome: Err(e) }
                &&& e@ == "Failed to set brightness ("@ + probe_errors(
                    le_bright as nat,
                    le_vcp as nat,
                ) + osd_hint()
                &&& final(cache)@ == old(cache)@
            },
        },
{
    let mode = match probe {
        Probe::HighLevel { min, current: _, max } => CachedMode::HighLevel {
            min_native: min,
            max_native: max,
        },
        Probe::Vcp { current: _, max } => CachedMode::Vcp { max_native: max },
        Probe::Dead { le_bright, le_vcp } => {
            let e = text::concat3(
                "Failed to set brightness (",
                probe_errors_string(le_bright, le_vcp).as_str(),
                "). Please check if DDC/CI is enabled in monitor OSD.",
            );
            return SetStep::Done { outcome: Err(e) };
        },
    };
    ddc_cache_insert(cache, index, mode);
    let (api, native) = write_for(mode, percent);
    SetStep::Write { api, native }
}

/// The call that a failed write is reported under.
pub open spec fn write_context(api: MonitorApi) -> Seq<char> {
    match api {
        MonitorApi::HighLevel =>
            "SetMonitorBrightness failed (check if DDC/CI is enabled in monitor OSD)"@,
        MonitorApi::Vcp =>
            "SetVCPFeature(0x10) failed (check if DDC/CI is enabled in monitor OSD)"@,
    }
}

/// Ends the attempt after a write to a probed monitor, which succeeded or failed with an error
/// code. If it failed, the mode is forgotten.
pub fn after_write(
    cache: &mut DdcCache,
    index: usize,
    api: MonitorApi,
    written: Result<(), u32>,
) -> (r: Result<(), String>)
    ensures
        match written {
            Ok(_) => r is Ok && final(cache)@ == old(cache)@,
            Err(code) => {
                &&& r matches Err(e)
                &&& e@ == last_error_text(write_context(api), code as nat)
                &&& final(cache)@ == old(cache)@.remove(index)
            },
        },
{
    match written {
        Ok(_) => Ok(()),
        Err(code) => {
            ddc_cache_remove(cache, index);
            let ctx = match api {
                MonitorApi::HighLevel =>
                    "SetMonitorBrightness failed (check if DDC/CI is enabled in monitor OSD)",
                MonitorApi::Vcp =>
                    "SetVCPFeature(0x10) failed (check if DDC/CI is enabled in monitor OSD)",
            };
            Err(last_error_msg(ctx, code))
        },
    }
}

// ---------------------------------------------------------------------------
// Laws
// ---------------------------------------------------------------------------

proof fn lemma_visit_finds_listed(scans: Seq<HmonitorScan>, h: int, target: int)
    requires
        0 <= h < scans.len(),
        flat(scans.take(h)).len() <= target,
    ensures
        ({
            let passed = flat(scans.take(h)).len() as int;
            let here = physical_of(scans[h]);
            match position_in(target, passed, here.len() as int) {
                Some(i) => {
                    &&& 0 <= i < here.len()
                    &&& target < flat(scans).len()
                    &&& flat(scans)[target] == tagged(scans[h], here[i])
                },
                None => {
                    &&& passed + here.len() == flat(scans.take(h + 1)).len()
                    &&& flat(scans.take(h + 1)).len() <= target
                },
            }
        }),
{
    lemma_flat_prefix(scans, h);
    lemma_flat_take(scans, h + 1);
    let passed = flat(scans.take(h)).len() as int;
    let here = physical_of(scans[h]);
    if target - passed < here.len() {
        let i = target - passed;
        assert(flat(scans)[target] == flat(scans.take(h + 1))[target]);
        assert(flat(scans.take(h + 1))[target] == tagged_all(scans[h])[i]);
    }
}

proof fn lemma_flat_take(scans: Seq<HmonitorScan>, h: int)
    requires
        0 <= h <= scans.len(),
    ensures
        flat(scans.take(h)).is_prefix_of(flat(scans)),
    decreases scans.len(),
{
    if h == scans.len() {
        assert(scans.take(h) =~= scans);
    } else {
        lemma_flat_take(scans.drop_last(), h);
        assert(scans.drop_last().take(h) =~= scans.take(h));
        let a = flat(scans.take(h));
        let b = flat(scans.drop_last());
        let c = flat(scans);
        assert(c.subrange(0, a.len() as int) =~= b.subrange(0, a.len() as int));
    }
}

/// Where a walk that visits the devices from the `h`-th on, after so many passed monitors, finds
/// the monitor at an index: the device, and the position in it.
pub open spec fn walk_from(
    scans: Seq<HmonitorScan>,
    h: int,
    passed: int,
    target: int,
) -> Option<(int, int)>
    decreases scans.len() - h,
{
    if h < 0 || h >= scans.len() {
        None
    } else {
        let count = physical_of(scans[h]).len() as int;
        match position_in(target, passed, count) {
            Some(i) => Some((h, i)),
            None => walk_from(scans, h + 1, passed + count, target),
        }
    }
}

proof fn lemma_walk_from(scans: Seq<HmonitorScan>, h: int, target: int)
    requires
        0 <= h <= scans.len(),
        flat(scans.take(h)).len() <= target,
    ensures
        match walk_from(scans, h, flat(scans.take(h)).len() as int, target) {
            Some((g, i)) => {
                &&& 0 <= g < scans.len()
                &&& 0 <= i < physical_of(scans[g]).len()
                &&& target < flat(scans).len()
                &&& flat(scans)[target] == tagged(scans[g], physical_of(scans[g])[i])
            },
            None => target >= flat(scans).len(),
        },
    decreases scans.len() - h,
{
    if h < scans.len() {
        lemma_visit_finds_listed(scans, h, target);
        let passed = flat(scans.take(h)).len() as int;
        if position_in(target, passed, physical_of(scans[h]).len() as int) is None {
            lemma_walk_from(scans, h + 1, target);
        }
    } else {
        assert(scans.take(h) =~= scans);
    }
}

/// A walk over the devices finds the monitor that is listed under the index, and finds nothing
/// exactly where the list has no such index.
pub proof fn walk_finds_listed(scans: Seq<HmonitorScan>, target: int)
    requires
        0 <= target,
    ensures
        match walk_from(scans, 0, 0, target) {
            Some((h, i)) => {
                &&& 0 <= h < scans.len()
                &&& 0 <= i < physical_of(scans[h]).len()
                &&& target < flat(scans).len()
                &&& flat(scans)[target] == tagged(scans[h], physical_of(scans[h])[i])
            },
            None => target >= flat(scans).len(),
        },
{
    assert(scans.take(0) =~= Seq::<HmonitorScan>::empty());
    lemma_walk_from(scans, 0, target);
}

/// The entries of the list carry their positions as indices.
pub proof fn listed_under_position(ids: Seq<wmi::WmiIdView>, all: Seq<Physical>, i: int)
    requires
        0 <= i < all.len(),
    ensures
        entries(ids, all)[i].index == i,
        entries(ids, all)[i].capable <==> mode_of(all[i].probe) is Some,
{
}

/// After a list was made, a level is set without probing exactly on the monitors that answered,
/// and the value that is written is the one that probing would have given.
pub proof fn listing_enables_cached_write(
    before: Map<usize, CachedMode>,
    after: Map<usize, CachedMode>,
    all: Seq<Physical>,
    index: int,
)
    requires
        taught(before, after, all),
        0 <= index < all.len(),
    ensures
        known_mode(after, index) == mode_of(all[index].probe),
{
}

/// An attempt that kept a mode and then failed to write leaves no mode for the index, and the
/// modes of all other indices as they were.
pub proof fn failed_write_forgets(
    modes: Map<usize, CachedMode>,
    index: usize,
    mode: CachedMode,
    k: int,
)
    ensures
        known_mode(modes.insert(index, mode).remove(index), k) == (if k == index {
            None
        } else {
            known_mode(modes, k)
        }),
{
}

/// A level that was written reads back within one percent of the safe percentage, if the native
/// range has no steps or at least thirty-four: that is what a probe shows that reports the same
/// range and the written value.
pub proof fn written_level_reads_back(mode: CachedMode, percent: int, current: u32)
    requires
        current == native_for(mode, percent),
        ({
            let span = match mode {
                CachedMode::HighLevel { min_native, max_native } => level::native_span(
                    min_native as int,
                    max_native as int,
                ),
                CachedMode::Vcp { max_native } => level::native_span(0, max_native as int),
            };
            span <= 0 || span >= 34
        }),
    ensures
        ({
            let probe = match mode {
                CachedMode::HighLevel { min_native, max_native } => Probe::HighLevel {
                    min: min_native,
                    current,
                    max: max_native,
                },
                CachedMode::Vcp { max_native } => Probe::Vcp { current, max: max_native },
            };
            &&& probed_percent(probe) matches Some(p)
            &&& -1 <= p - level::clamped(percent) <= 1
        }),
{
    match mode {
        CachedMode::HighLevel { min_native, max_native } => {
            level::reads_back_within_one(percent, min_native as int, max_native as int);
        },
        CachedMode::Vcp { max_native } => {
            level::reads_back_within_one(percent, 0, max_native as int);
        },
    }
}

/// Black-screen protection: no write is below the one for the lowest safe percentage.
pub proof fn write_never_blackens(mode: CachedMode, percent: int)
    ensures
        native_for(mode, percent) >= native_for(mode, level::MIN_BRIGHTNESS_PERCENT as int),
{
    match mode {
        CachedMode::HighLevel { min_native, max_native } => {
            level::setting_never_blackens(percent, min_native as int, max_native as int);
        },
        CachedMode::Vcp { max_native } => {
            level::setting_never_blackens(percent, 0, max_native as int);
        },
    }
}

/// The tokens of the devices on the desktop are distinct, and they are all the tokens that the
/// devices have.
pub proof fn tokens_are_distinct(device_ids: Seq<Option<Vec<u16>>>)
    ensures
        distinct_tokens(device_ids).no_duplicates(),
        forall|t: Seq<char>| #[trigger]
            distinct_tokens(device_ids).contains(t) <==> exists|i: int|
                0 <= i < device_ids.len() && ident::device_token(
                    ident::units_of(#[trigger] device_ids[i]),
                ) == Some(t),
    decreases device_ids.len(),
{
    if device_ids.len() > 0 {
        let front = device_ids.drop_last();
        tokens_are_distinct(front);
        let before = distinct_tokens(front);
        let after = distinct_tokens(device_ids);
        let last = ident::device_token(ident::units_of(device_ids.last()));
        assert forall|t: Seq<char>| #[trigger] after.contains(t) <==> exists|i: int|
            0 <= i < device_ids.len() && ident::device_token(
                ident::units_of(#[trigger] device_ids[i]),
            ) == Some(t) by {
            if after.contains(t) {
                if before.contains(t) {
                    let i = choose|i: int|
                        0 <= i < front.len() && ident::device_token(
                            ident::units_of(#[trigger] front[i]),
                        ) == Some(t);
                    assert(device_ids[i] == front[i]);
                } else {
                    assert(last == Some(t));
                    assert(device_ids[device_ids.len() - 1] == device_ids.last());
                }
            }
            if exists|i: int|
                0 <= i < device_ids.len() && ident::device_token(
                    ident::units_of(#[trigger] device_ids[i]),
                ) == Some(t) {
                let i = choose|i: int|
                    0 <= i < device_ids.len() && ident::device_token(
                        ident::units_of(#[trigger] device_ids[i]),
                    ) == Some(t);
                if i < front.len() {
                    assert(front[i] == device_ids[i]);
                    assert(before.contains(t));
                    let k = choose|k: int| 0 <= k < before.len() && before[k] == t;
                    assert(after[k] == t);
                } else if !before.contains(t) {
                    assert(after == before.push(t));
                    assert(after[before.len() as int] == t);
                }
            }
        }
    }
}

/// The name of a monitor can be shown as it is: it is not empty, neither begins nor ends with white
/// space, and has no control characters.
pub proof fn names_can_be_shown(
    token: Option<Seq<char>>,
    ids: Seq<wmi::WmiIdView>,
    desc: Seq<char>,
    index: nat,
)
    ensures
        ({
            let name = resolved_name(token, ids, desc, index);
            &&& name.len() > 0
            &&& !text::is_white_space(name[0])
            &&& !text::is_white_space(name.last())
            &&& forall|i: int| 0 <= i < name.len() ==> !text::is_control_char(#[trigger] name[i])
        }),
{
    reveal_strlit("External Display ");
    text::lemma_cleaned(desc);
    if let Some(t) = token {
        if let Some(w) = wmi::named(ids, t) {
            text::lemma_cleaned(w.friendly);
            text::lemma_cleaned(w.manufacturer);
        }
    }
    let number = numbers::decimal(index + 1);
    let numbered = "External Display "@ + number;
    numbers::decimal_denotes(index + 1);
    assert(numbered.last() == number.last());
    assert forall|i: int| 0 <= i < numbered.len() implies !text::is_control_char(
        #[trigger] numbered[i],
    ) by {
        if i >= 17 {
            assert(numbered[i] == number[i - 17]);
        }
    }
}

/// What is written after a probe goes over the interface that answered, and is the step of the range
/// that the probe reported which is nearest to the safe percentage of it. A range without an upper
/// end counts to one hundred, and the VCP interface counts from zero. In a range without steps the
/// safe percentage itself is written. A monitor that does not answer is not written to.
pub proof fn writes_follow_the_probed_range(probe: Probe, percent: int)
    ensures
        ({
            let safe = if percent < 10 {
                10
            } else if percent > 100 {
                100
            } else {
                percent
            };
            match probe {
                Probe::HighLevel { min, max, .. } => {
                    let top: int = if max == 0 {
                        100
                    } else {
                        max as int
                    };
                    &&& mode_of(probe) matches Some(mode)
                    &&& api_of(mode) is HighLevel
                    &&& native_for(mode, percent) == level::native_of(
                        percent,
                        min as int,
                        max as int,
                    )
                    &&& top > min ==> -50 < 100 * (native_for(mode, percent) - min) - safe * (top
                        - min) <= 50
                    &&& top <= min ==> native_for(mode, percent) == safe
                },
                Probe::Vcp { max, .. } => {
                    let top: int = if max == 0 {
                        100
                    } else {
                        max as int
                    };
                    &&& mode_of(probe) matches Some(mode)
                    &&& api_of(mode) is Vcp
                    &&& native_for(mode, percent) == level::native_of(percent, 0, max as int)
                    &&& -50 < 100 * native_for(mode, percent) - safe * top <= 50
                },
                Probe::Dead { .. } => mode_of(probe) is None,
            }
        }),
{
    match probe {
        Probe::HighLevel { min, max, .. } => {
            level::setting_is_nearest(percent, min as int, max as int);
        },
        Probe::Vcp { max, .. } => {
            level::setting_is_nearest(percent, 0, max as int);
        },
        Probe::Dead { .. } => {},
    }
}

/// What is read of a monitor is the percentage that is nearest to where the value that its probe
/// reported stands in the range that it reported. The ends of the range read as zero and one
/// hundred. A monitor that does not answer is not read.
pub proof fn reads_follow_the_probed_range(probe: Probe)
    ensures
        match probe {
            Probe::HighLevel { min, current, max } => {
                &&& probed_percent(probe) matches Some(p)
                &&& p == level::percent_of(current as int, min as int, max as int)
                &&& min <= current <= max && min < max ==> -(max - min) < 2 * (p * (max - min) - 100
                    * (current - min)) <= max - min
                &&& min < max && current <= min ==> p == 0
                &&& min < max && current >= max ==> p == 100
            },
            Probe::Vcp { current, max } => {
                &&& probed_percent(probe) matches Some(p)
                &&& p == level::percent_of(current as int, 0, max as int)
                &&& current <= max && 0 < max ==> -max < 2 * (p * max - 100 * current) <= max
                &&& max == 0 && current <= 100 ==> p == current
            },
            Probe::Dead { .. } => probed_percent(probe) is None,
        },
{
    match probe {
        Probe::HighLevel { min, current, max } => {
            level::reading_is_nearest(current as int, min as int, max as int);
            if min < max {
                level::ends_read_as_zero_and_hundred(min as int, max as int);
                let a = level::into_range(current as int, min as int, max as int);
                if current <= min {
                    assert(a == min);
                } else if current >= max {
                    assert(a == max);
                }
            }
        },
        Probe::Vcp { current, max } => {
            level::reading_is_nearest(current as int, 0, max as int);
            if max == 0 && current <= 100 {
                let p = level::percent_of(current as int, 0, 0);
                assert(-100 < 2 * (p * 100 - 100 * current) <= 100);
            }
        },
        Probe::Dead { .. } => {},
    }
}

/// Setting a level on a probed monitor and probing it again reads the safe percentage back: exactly
/// in a range without steps or with one hundred or more, and within one in a range of at least
/// thirty-four steps.
pub proof fn probed_monitors_read_back(min: u32, max: u32, first: u32, percent: int, current: u32)
    requires
        mode_of(Probe::HighLevel { min, current: first, max }) matches Some(mode) && current
            == native_for(mode, percent),
    ensures
        ({
            let top: int = if max == 0 {
                100
            } else {
                max as int
            };
            let safe = if percent < 10 {
                10
            } else if percent > 100 {
                100
            } else {
                percent
            };
            &&& probed_percent(Probe::HighLevel { min, current, max }) matches Some(p)
            &&& top - min >= 34 || top <= min ==> -1 <= p - safe <= 1
            &&& top - min >= 100 || top <= min ==> p == safe
        }),
{
    level::reads_back_within_one(percent, min as int, max as int);
}

/// The same over the VCP interface.
pub proof fn vcp_monitors_read_back(max: u32, first: u32, percent: int, current: u32)
    requires
        mode_of(Probe::Vcp { current: first, max }) matches Some(mode) && current == native_for(
            mode,
            percent,
        ),
    ensures
        ({
            let top: int = if max == 0 {
                100
            } else {
                max as int
            };
            let safe = if percent < 10 {
                10
            } else if percent > 100 {
                100
            } else {
                percent
            };
            &&& probed_percent(Probe::Vcp { current, max }) matches Some(p)
            &&& top >= 34 ==> -1 <= p - safe <= 1
            &&& top >= 100 ==> p == safe
        }),
{
    level::reads_back_within_one(percent, 0, max as int);
}

/// A listed monitor carries what its probe reported: its range and its value, or, where it did not
/// answer, that it cannot be controlled, and both error codes. It stands at its position, with the
/// token of its device.
pub proof fn lists_carry_the_probes(ids: Seq<wmi::WmiIdView>, all: Seq<Physical>, i: int)
    requires
        0 <= i < all.len(),
    ensures
        entries(ids, all).len() == all.len(),
        ({
            let m = entries(ids, all)[i];
            &&& m.index == i
            &&& m.token == all[i].token
            &&& m.name == resolved_name(
                all[i].token,
                ids,
                wide::wide_text(all[i].description),
                i as nat,
            )
            &&& match all[i].probe {
                Probe::HighLevel { min, current, max } => {
                    &&& m.capable && !m.vcp_fallback && m.error.len() == 0
                    &&& m.min_native == min && m.current_native == current && m.max_native == max
                },
                Probe::Vcp { current, max } => {
                    &&& m.capable && m.vcp_fallback && m.error.len() == 0
                    &&& m.min_native == 0 && m.current_native == current && m.max_native == max
                },
                Probe::Dead { le_bright, le_vcp } => {
                    &&& !m.capable && !m.vcp_fallback
                    &&& m.error == probe_errors(le_bright as nat, le_vcp as nat)
                },
            }
        }),
{
}

/// A listed monitor that answers is at the level that reading it gives.
pub proof fn lists_show_what_reading_gives(ids: Seq<wmi::WmiIdView>, all: Seq<Physical>, i: int)
    requires
        0 <= i < all.len(),
    ensures
        ({
            let m = entries(ids, all)[i];
            probed_percent(all[i].probe) == (if m.capable {
                Some(
                    level::percent_of(
                        m.current_native as int,
                        m.min_native as int,
                        m.max_native as int,
                    ),
                )
            } else {
                None
            })
        }),
{
}

/// Once the monitors were listed, what is written to one without probing it is what would be written
/// after a probe that reports what the list was made from.
pub proof fn cached_writes_equal_probed_ones(
    before: Map<usize, CachedMode>,
    after: Map<usize, CachedMode>,
    all: Seq<Physical>,
    index: int,
    percent: int,
)
    requires
        taught(before, after, all),
        0 <= index < all.len(),
    ensures
        match all[index].probe {
            Probe::HighLevel { min, max, .. } => known_mode(after, index) matches Some(mode)
                && api_of(mode) is HighLevel && native_for(mode, percent) == level::native_of(
                percent,
                min as int,
                max as int,
            ),
            Probe::Vcp { max, .. } => known_mode(after, index) matches Some(mode) && api_of(mode)
                is Vcp && native_for(mode, percent) == level::native_of(percent, 0, max as int),
            Probe::Dead { .. } => known_mode(after, index) is None,
        },
{
    assert(known_mode(after, index) == mode_of(all[index].probe));
}

/// The cache gives back the mode that was put in last, for its index and for no other; what was
/// taken out, or never put in, is not there.
pub proof fn cache_gives_back(
    modes: Map<usize, CachedMode>,
    index: usize,
    mode: CachedMode,
    other: usize,
)
    ensures
        known_mode(modes.insert(index, mode), index as int) == Some(mode),
        known_mode(modes.remove(index), index as int) is None,
        known_mode(Map::<usize, CachedMode>::empty(), index as int) is None,
        other != index ==> {
            &&& known_mode(modes.insert(index, mode), other as int) == known_mode(
                modes,
                other as int,
            )
            &&& known_mode(modes.remove(index), other as int) == known_mode(modes, other as int)
        },
        learned(modes, index, Some(mode)) == modes.insert(index, mode),
        learned(modes, index, None) == modes.remove(index),
{
}

/// A device adds its physical monitors behind those of the devices before it, in order, each with
/// the token of the device.
pub proof fn devices_add_their_monitors(scans: Seq<HmonitorScan>, scan: HmonitorScan, i: int)
    ensures
        flat(Seq::<HmonitorScan>::empty()).len() == 0,
        flat(scans).is_prefix_of(flat(scans.push(scan))),
        flat(scans.push(scan)).len() == flat(scans).len() + (match scan.physical {
            Some(list) => list@.len(),
            None => 0,
        }),
        scan.physical matches Some(list) ==> 0 <= i < list@.len() ==> {
            let added = flat(scans.push(scan))[flat(scans).len() + i];
            &&& added.token == ident::device_token(ident::units_of(scan.device_id))
            &&& added.description == list@[i].description@
            &&& added.probe == list@[i].probe
        },
{
    let longer = scans.push(scan);
    assert(longer.drop_last() =~= scans);
    assert(flat(scans) =~= flat(longer).take(flat(scans).len() as int));
}

/// A device has the monitor that is looked for if fewer monitors were passed than its index says,
/// but not by as many as the device has; its position is by how many.
pub proof fn positions_count_what_was_passed(target: int, passed: int, count: int, i: int)
    ensures
        position_in(target, passed, count) == Some(i) <==> passed + i == target && i < count,
        position_in(target, passed, count) is None <==> target >= passed + count,
{
}

/// The name of a monitor is the first of these that is not blank: the friendly name that WMI has for
/// its token, the manufacturer that it has, the description, and a number counted from one. Where
/// WMI has nothing for the token, or there is no token, the first two are left out.
pub proof fn names_come_in_order(
    token: Seq<char>,
    ids: Seq<wmi::WmiIdView>,
    desc: Seq<char>,
    index: nat,
)
    ensures
        ({
            let described = if text::cleaned(desc).len() > 0 {
                text::cleaned(desc)
            } else {
                "External Display "@ + numbers::decimal(index + 1)
            };
            &&& resolved_name(None, ids, desc, index) == described
            &&& match wmi::named(ids, token) {
                None => resolved_name(Some(token), ids, desc, index) == described,
                Some(w) => {
                    let name = resolved_name(Some(token), ids, desc, index);
                    &&& text::cleaned(w.friendly).len() > 0 ==> name == text::cleaned(w.friendly)
                    &&& text::cleaned(w.friendly).len() == 0 && text::cleaned(w.manufacturer).len()
                        > 0 ==> name == text::cleaned(w.manufacturer)
                    &&& text::cleaned(w.friendly).len() == 0 && text::cleaned(w.manufacturer).len()
                        == 0 ==> name == described
                },
            }
        }),
{
}

/// The messages carry the error codes: that of a failed call behind what failed, and those of a
/// monitor that does not answer one after the other.
pub proof fn messages_carry_the_codes(ctx: Seq<char>, a: nat, b: nat)
    ensures
        ({
            let m = last_error_text(ctx, a);
            &&& ctx.is_prefix_of(m)
            &&& m.skip(ctx.len() as int + 15) == numbers::decimal(a).push(')')
        }),
        ({
            let m = probe_errors(a, b);
            let n = numbers::decimal(a).len() as int;
            &&& m.subrange(14, 14 + n) == numbers::decimal(a)
            &&& m.skip(28 + n) == numbers::decimal(b)
        }),
{
    reveal_strlit(" (GetLastError=");
    reveal_strlit(")");
    reveal_strlit("brightness le=");
    reveal_strlit(", VCP 0x10 le=");
    let m = last_error_text(ctx, a);
    assert(ctx =~= m.take(ctx.len() as int));
    assert(m.skip(ctx.len() as int + 15) =~= numbers::decimal(a).push(')'));
    let e = probe_errors(a, b);
    let n = numbers::decimal(a).len() as int;
    assert(e.subrange(14, 14 + n) =~= numbers::decimal(a));
    assert(e.skip(28 + n) =~= numbers::decimal(b));
}

/// The tokens of the devices on the desktop come in the order of the devices: a further device adds
/// its token at the end, unless it is there already or the device has none.
pub proof fn tokens_keep_their_order(
    device_ids: Seq<Option<Vec<u16>>>,
    device_id: Option<Vec<u16>>,
)
    ensures
        ({
            let before = distinct_tokens(device_ids);
            let after = distinct_tokens(device_ids.push(device_id));
            match ident::device_token(ident::units_of(device_id)) {
                Some(t) => if exists|i: int| 0 <= i < before.len() && before[i] == t {
                    after == before
                } else {
                    after == before.push(t)
                },
                None => after == before,
            }
        }),
        distinct_tokens(Seq::<Option<Vec<u16>>>::empty()).len() == 0,
{
    assert(device_ids.push(device_id).drop_last() =~= device_ids);
}

/// A list teaches nothing about indices beyond it.
pub proof fn lists_leave_other_modes(
    before: Map<usize, CachedMode>,
    after: Map<usize, CachedMode>,
    all: Seq<Physical>,
    index: usize,
)
    requires
        taught(before, after, all),
        index >= all.len(),
    ensures
        after.dom().contains(index) <==> before.dom().contains(index),
        before.dom().contains(index) ==> after[index] == before[index],
{
    assert(known_mode(after, index as int) == known_mode(before, index as int));
}

} // verus!
