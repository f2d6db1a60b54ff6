//! The state behind the system tray: the displays that it shows, its tooltip and its flyout.

use vstd::prelude::*;
use crate::level;
use crate::monitors;
use crate::monitors::MonitorInfo;
use crate::numbers;
use crate::text;
use crate::wmi;

verus! {

pub const TRAY_ID: &'static str = "main-tray";

pub const EVENT_CHANGED: &'static str = "tray-brightness-changed";

pub const MAIN_LABEL: &'static str = "main";

pub const FLYOUT_LABEL: &'static str = "flyout";

/// The width of the flyout, in logical pixels.
pub const FLYOUT_WIDTH: u32 = 350;

// ---------------------------------------------------------------------------
// State
// ---------------------------------------------------------------------------

/// The displays as they were last seen.
pub struct TrayState {
    monitors: Vec<MonitorInfo>,
}

impl View for TrayState {
    type V = Seq<MonitorInfo>;

    closed spec fn view(&self) -> Seq<MonitorInfo> {
        self.monitors@
    }
}

impl Default for TrayState {
    fn default() -> (r: Self)
        ensures
            r@.len() == 0,
    {
        TrayState { monitors: Vec::new() }
    }
}

/// The displays as they were last seen.
pub fn snapshot(state: &TrayState) -> (r: Vec<MonitorInfo>)
    ensures
        r@ == state@,
{
    monitors::clone_list(state.monitors.as_slice())
}

/// Replaces the displays after a scan.
pub fn replace_state(state: &mut TrayState, monitors: Vec<MonitorInfo>)
    ensures
        final(state)@ == monitors@,
{
    state.monitors = monitors;
}

/// The position of the first display with an identifier, or the length if there is none.
pub open spec fn position_of(list: Seq<MonitorInfo>, id: Seq<char>) -> int
    decreases list.len(),
{
    if list.len() == 0 || list[0].id@ == id {
        0
    } else {
        1 + position_of(list.skip(1), id)
    }
}

proof fn lemma_position_of(list: Seq<MonitorInfo>, id: Seq<char>, i: int)
    requires
        0 <= i <= list.len(),
        forall|k: int| 0 <= k < i ==> (#[trigger] list[k]).id@ != id,
        i == list.len() || list[i].id@ == id,
    ensures
        position_of(list, id) == i,
    decreases list.len(),
{
    if i > 0 {
        let t = list.skip(1);
        assert forall|k: int| 0 <= k < i - 1 implies (#[trigger] t[k]).id@ != id by {
            assert(t[k] == list[k + 1]);
        }
        lemma_position_of(t, id, i - 1);
    }
}

/// A display at another level.
pub open spec fn at_level(m: MonitorInfo, value: u32) -> MonitorInfo {
    MonitorInfo { current: value, ..m }
}

/// The displays after the first one with an identifier was given a level.
pub open spec fn updated(list: Seq<MonitorInfo>, id: Seq<char>, value: u32) -> Seq<MonitorInfo> {
    let i = position_of(list, id);
    if 0 <= i < list.len() {
        list.update(i, at_level(list[i], value))
    } else {
        list
    }
}

/// Gives the display with an identifier a level.
pub fn update_one(state: &mut TrayState, id: &str, value: u32)
    ensures
        final(state)@ == updated(old(state)@, id@, value),
{
    let ghost list = state.monitors@;
    let mut i: usize = 0;
    while i < state.monitors.len()
        invariant
            i <= state.monitors@.len(),
            state.monitors@ == list,
            forall|k: int| 0 <= k < i ==> (#[trigger] list[k]).id@ != id@,
            list == old(state)@,
        decreases state.monitors.len() - i,
    {
        if text::same_text(state.monitors[i].id.as_str(), id) {
            proof {
                lemma_position_of(list, id@, i as int);
            }
            let mut m = state.monitors[i].clone();
            m.current = value;
            state.monitors.set(i, m);
            return;
        }
        i += 1;
    }
    proof {
        lemma_position_of(list, id@, i as int);
    }
}

/// How work that was handed to a worker thread came out: what the work gave, or why the worker
/// failed.
pub open spec fn settled<T>(
    outcome: Result<Result<T, String>, String>,
    doing: Seq<char>,
    r: Result<T, String>,
) -> bool {
    match outcome {
        Ok(given) => r == given,
        Err(e) => r matches Err(message) && message@ == "Worker thread error while "@ + doing + ": "@
            + e@,
    }
}

fn settle<T>(outcome: Result<Result<T, String>, String>, doing: &str) -> (r: Result<T, String>)
    ensures
        settled(outcome, doing@, r),
{
    match outcome {
        Ok(given) => given,
        Err(e) => {
            let head = text::concat3("Worker thread error while ", doing, ": ");
            Err(text::concat2(head.as_str(), e.as_str()))
        },
    }
}

/// Answers a window that asked for a scan, and takes the scan into the state. A failed scan changes
/// nothing.
pub fn list_monitors(
    state: &mut TrayState,
    outcome: Result<Result<Vec<MonitorInfo>, String>, String>,
) -> (r: Result<Vec<MonitorInfo>, String>)
    ensures
        match outcome {
            Ok(Ok(list)) => r matches Ok(given) && given@ == list@ && final(state)@ == list@,
            _ => settled(outcome, "listing monitors"@, r) && final(state)@ == old(state)@,
        },
{
    let list = settle(outcome, "listing monitors");
    if let Ok(monitors) = &list {
        replace_state(state, monitors::clone_list(monitors.as_slice()));
    }
    list
}

/// Answers a window that asked for a level.
pub fn get_brightness(outcome: Result<Result<u32, String>, String>) -> (r: Result<u32, String>)
    ensures
        settled(outcome, "reading brightness"@, r),
{
    settle(outcome, "reading brightness")
}

/// Answers a window that set a level, and takes the level into the state. What is shown is the safe
/// percentage, which is what was set. A failure changes nothing.
pub fn set_brightness(
    state: &mut TrayState,
    id: &str,
    value: u32,
    outcome: Result<Result<(), String>, String>,
) -> (r: Result<(), String>)
    ensures
        settled(outcome, "setting brightness"@, r),
        final(state)@ == (if r is Ok {
            updated(old(state)@, id@, level::clamped(value as int) as u32)
        } else {
            old(state)@
        }),
{
    let result = settle(outcome, "setting brightness");
    if result.is_ok() {
        update_one(state, id, level::clamp_brightness_percent(value));
    }
    result
}

/// What to do after a scan in the background.
pub enum RefreshAction {
    /// Announce the new state.
    Announce,
    /// Report why the scan failed.
    Report { message: String },
}

/// Takes the outcome of a scan in the background into the state. A failed scan changes nothing.
pub fn refresh_from_system(
    state: &mut TrayState,
    outcome: Result<Result<Vec<MonitorInfo>, String>, String>,
) -> (r: RefreshAction)
    ensures
        match outcome {
            Ok(Ok(list)) => r is Announce && final(state)@ == list@,
            Ok(Err(e)) => {
                &&& r matches RefreshAction::Report { message }
                &&& message@ == "[tray] rescan failed: "@ + e@
                &&& final(state)@ == old(state)@
            },
            Err(e) => {
                &&& r matches RefreshAction::Report { message }
                &&& message@ == "[tray] rescan failed: "@ + ("Worker thread error while "@
                    + "listing monitors"@ + ": "@ + e@)
                &&& final(state)@ == old(state)@
            },
        },
{
    match settle(outcome, "listing monitors") {
        Ok(list) => {
            replace_state(state, list);
            RefreshAction::Announce
        },
        Err(e) => RefreshAction::Report {
            message: text::concat2("[tray] rescan failed: ", e.as_str()),
        },
    }
}

/// Keeps scans in the background apart: DDC talks over a serial bus, on which two scans at a time
/// would hold each other up.
pub struct RefreshGate {
    busy: bool,
}

impl RefreshGate {
    /// Whether a scan is in flight.
    pub closed spec fn is_busy(&self) -> bool {
        self.busy
    }

    /// No scan is in flight.
    pub fn new() -> (r: Self)
        ensures
            !r.is_busy(),
    {
        RefreshGate { busy: false }
    }

    /// Begins a scan, unless one is in flight.
    pub fn enter(&mut self) -> (r: bool)
        ensures
            r == !old(self).is_busy(),
            final(self).is_busy(),
    {
        let entered = !self.busy;
        self.busy = true;
        entered
    }

    /// Ends a scan.
    pub fn leave(&mut self)
        ensures
            !final(self).is_busy(),
    {
        self.busy = false;
    }
}

// ---------------------------------------------------------------------------
// Tooltip
// ---------------------------------------------------------------------------

/// How many characters of a name the tooltip shows.
pub const SHORT_NAME_LEN: usize = 24;

/// How many displays the tooltip names.
pub const TOOLTIP_DISPLAYS: usize = 3;

/// How many characters the tooltip has at most; the system cuts it off a little beyond.
pub const TOOLTIP_LEN: usize = 120;

/// A name, cut off with an ellipsis where it is long.
pub open spec fn shortened(name: Seq<char>) -> Seq<char> {
    if name.len() <= SHORT_NAME_LEN {
        name
    } else {
        name.take(SHORT_NAME_LEN as int).push('\u{2026}')
    }
}

/// Cuts off a long name with an ellipsis.
pub fn short_name(name: &str) -> (r: String)
    ensures
        r@ == shortened(name@),
{
    let chars = text::chars_of(name);
    if chars.len() <= SHORT_NAME_LEN {
        return text::string_of(chars.as_slice());
    }
    let mut s = text::string_of(
        vstd::slice::slice_subrange(chars.as_slice(), 0, SHORT_NAME_LEN),
    );
    s.push('\u{2026}');
    s
}

/// The displays that can be controlled.
pub open spec fn capable_of(list: Seq<MonitorInfo>) -> Seq<MonitorInfo> {
    list.filter(|m: MonitorInfo| m.capable)
}

/// What the tooltip says of a display.
pub open spec fn label(m: MonitorInfo) -> Seq<char> {
    shortened(m.name@) + " "@ + numbers::decimal(m.current as nat) + "%"@
}

/// What the tooltip says of some displays.
pub open spec fn labels(list: Seq<MonitorInfo>) -> Seq<Seq<char>> {
    list.map_values(|m: MonitorInfo| label(m))
}

/// Texts with a separator between them.
pub open spec fn joined(parts: Seq<Seq<char>>, sep: Seq<char>) -> Seq<char>
    decreases parts.len(),
{
    if parts.len() == 0 {
        seq![]
    } else if parts.len() == 1 {
        parts[0]
    } else {
        joined(parts.drop_last(), sep) + sep + parts.last()
    }
}

/// The tooltip before it is cut to length.
pub open spec fn long_tooltip(list: Seq<MonitorInfo>) -> Seq<char> {
    let capable = capable_of(list);
    let limit = TOOLTIP_DISPLAYS as int;
    if capable.len() == 0 {
        "Brightness Control"@
    } else if capable.len() <= limit {
        joined(labels(capable), " \u{2022} "@)
    } else {
        joined(labels(capable.take(limit)), " \u{2022} "@) + " (+"@ + numbers::decimal(
            (capable.len() - limit) as nat,
        ) + " more)"@
    }
}

/// The tooltip: the first displays that can be controlled with their levels, and how many more
/// there are.
pub open spec fn tooltip(list: Seq<MonitorInfo>) -> Seq<char> {
    let long = long_tooltip(list);
    if long.len() > TOOLTIP_LEN {
        long.take(TOOLTIP_LEN as int)
    } else {
        long
    }
}

fn label_of(m: &MonitorInfo) -> (r: String)
    ensures
        r@ == label(*m),
{
    let mut s = text::concat3(
        short_name(m.name.as_str()).as_str(),
        " ",
        numbers::decimal_string(m.current as u64).as_str(),
    );
    s.append("%");
    s
}

/// The first capable displays, at most as many as the tooltip names.
spec fn named_first(list: Seq<MonitorInfo>) -> Seq<MonitorInfo> {
    let capable = capable_of(list);
    if capable.len() <= TOOLTIP_DISPLAYS {
        capable
    } else {
        capable.take(TOOLTIP_DISPLAYS as int)
    }
}

proof fn lemma_capable_step(list: Seq<MonitorInfo>, i: int)
    requires
        0 <= i < list.len(),
    ensures
        capable_of(list.take(i + 1)) == (if list[i].capable {
            capable_of(list.take(i)).push(list[i])
        } else {
            capable_of(list.take(i))
        }),
{
    reveal(Seq::filter);
    assert(list.take(i + 1).drop_last() =~= list.take(i));
}

/// Counts the displays that can be controlled.
fn count_capable(list: &[MonitorInfo]) -> (r: usize)
    ensures
        r as nat == capable_of(list@).len(),
        r <= list@.len(),
{
    let mut n: usize = 0;
    let mut i: usize = 0;
    assert(capable_of(list@.take(0)) =~= Seq::<MonitorInfo>::empty()) by {
        reveal(Seq::filter);
    }
    while i < list.len()
        invariant
            i <= list@.len(),
            n <= i,
            n as nat == capable_of(list@.take(i as int)).len(),
        decreases list.len() - i,
    {
        proof {
            lemma_capable_step(list@, i as int);
        }
        if list[i].capable {
            n += 1;
        }
        i += 1;
    }
    assert(list@.take(i as int) =~= list@);
    n
}

/// The tooltip for the displays.
pub fn tooltip_text(monitors: &[MonitorInfo]) -> (r: String)
    ensures
        r@ == tooltip(monitors@),
{
    let total = count_capable(monitors);
    if total == 0 {
        let s = "Brightness Control".to_string();
        proof {
            reveal_strlit("Brightness Control");
        }
        return s;
    }
    let mut s = String::new();
    let mut n: usize = 0;
    let mut i: usize = 0;
    let ghost sep = " \u{2022} "@;
    assert(capable_of(monitors@.take(0)) =~= Seq::<MonitorInfo>::empty()) by {
        reveal(Seq::filter);
    }
    assert(labels(named_first(monitors@.take(0))) =~= Seq::<Seq<char>>::empty());
    while i < monitors.len()
        invariant
            i <= monitors@.len(),
            n <= i,
            n as nat == capable_of(monitors@.take(i as int)).len(),
            sep == " \u{2022} "@,
            s@ == joined(labels(named_first(monitors@.take(i as int))), sep),
        decreases monitors.len() - i,
    {
        let ghost before = named_first(monitors@.take(i as int));
        let ghost after = named_first(monitors@.take(i + 1));
        proof {
            lemma_capable_step(monitors@, i as int);
        }
        if monitors[i].capable {
            if n < TOOLTIP_DISPLAYS {
                let l = label_of(&monitors[i]);
                assert(after =~= before.push(monitors@[i as int]));
                assert(labels(after) =~= labels(before).push(l@));
                assert(labels(after).drop_last() =~= labels(before));
                if n > 0 {
                    s.append(" \u{2022} ");
                    s.append(l.as_str());
                } else {
                    s = l;
                }
            } else {
                assert(after =~= before);
            }
            n += 1;
        }
        i += 1;
    }
    assert(monitors@.take(i as int) =~= monitors@);
    if n > TOOLTIP_DISPLAYS {
        s.append(" (+");
        s.append(numbers::decimal_string((n - TOOLTIP_DISPLAYS) as u64).as_str());
        s.append(" more)");
    }
    assert(s@ =~= long_tooltip(monitors@));
    let chars = text::chars_of(s.as_str());
    if chars.len() > TOOLTIP_LEN {
        text::string_of(vstd::slice::slice_subrange(chars.as_slice(), 0, TOOLTIP_LEN))
    } else {
        s
    }
}

// ---------------------------------------------------------------------------
// Icons
// ---------------------------------------------------------------------------

/// The icon of the tray.
#[derive(Debug, Clone, Copy, PartialEq, Eq, Structural)]
pub enum TrayIcon {
    Light,
    Dark,
}

/// The registry key under which the theme of the taskbar stands.
pub const THEME_KEY: &'static str = "HKCU\\Software\\Microsoft\\Windows\\CurrentVersion\\Themes\\Personalize";

/// The registry value that tells the theme of the taskbar.
pub const THEME_VALUE: &'static str = "SystemUsesLightTheme";

/// The arguments of the registry query for the theme of the taskbar.
pub fn theme_args() -> (r: Vec<String>)
    ensures
        text::texts_of(r@) == seq!["query"@, THEME_KEY@, "/v"@, THEME_VALUE@],
{
    let args = vec![
        "query".to_string(),
        THEME_KEY.to_string(),
        "/v".to_string(),
        THEME_VALUE.to_string(),
    ];
    assert(text::texts_of(args@) =~= seq!["query"@, THEME_KEY@, "/v"@, THEME_VALUE@]);
    args
}

/// Whether the output of the registry query says that the taskbar is light.
pub fn says_light(stdout: &str) -> (r: bool)
    ensures
        r == (text::find_text(stdout@, "0x1"@) is Some),
{
    let chars = text::chars_of(stdout);
    let flag = text::chars_of("0x1");
    text::find_chars(chars.as_slice(), flag.as_slice()).is_some()
}

/// Whether the taskbar is light, given the output of the registry query, if it could be run.
pub fn is_system_light_theme(stdout: Option<Vec<u8>>) -> (r: bool)
    ensures
        r == (match stdout {
            Some(bytes) => text::find_text(wmi::decoded(bytes@), "0x1"@) is Some,
            None => false,
        }),
{
    match stdout {
        Some(bytes) => says_light(wmi::utf8_lossy_string(bytes.as_slice()).as_str()),
        None => false,
    }
}

/// The icon for the theme of the system.
pub fn initial_tray_icon(system_light: bool) -> (r: TrayIcon)
    ensures
        r == (if system_light {
            TrayIcon::Light
        } else {
            TrayIcon::Dark
        }),
{
    if system_light {
        TrayIcon::Light
    } else {
        TrayIcon::Dark
    }
}

/// The icon for a theme by name, or nothing where the theme of the system decides.
pub fn set_tray_icon_theme(theme: &str) -> (r: Option<TrayIcon>)
    ensures
        r == (if theme@ == "light"@ {
            Some(TrayIcon::Light)
        } else if theme@ == "dark"@ {
            Some(TrayIcon::Dark)
        } else {
            None
        }),
{
    if text::same_text(theme, "light") {
        Some(TrayIcon::Light)
    } else if text::same_text(theme, "dark") {
        Some(TrayIcon::Dark)
    } else {
        None
    }
}

// ---------------------------------------------------------------------------
// Flyout
// ---------------------------------------------------------------------------

/// The height of the flyout, in logical pixels: a row for each display that can be controlled, and
/// one for the master slider where there are two or more.
pub open spec fn flyout_height(list: Seq<MonitorInfo>) -> nat {
    let n = capable_of(list).len();
    if n == 0 {
        155
    } else if n == 1 {
        95 + 72
    } else {
        95 + (n + 1) * 72
    }
}

/// The height of the flyout, in logical pixels.
pub fn calculate_flyout_height(monitors: &[MonitorInfo]) -> (r: u128)
    ensures
        r as nat == flyout_height(monitors@),
{
    let active_capable = count_capable(monitors) as u128;
    let master_count: u128 = if active_capable >= 2 {
        1
    } else {
        0
    };
    if active_capable == 0 {
        return 155;
    }
    95 + (active_capable + master_count) * 72
}

/// Places the flyout, given where it would stand above the icon, how far right it may go if that is
/// known, and where it would stand below the icon. It is moved back from the right edge and then
/// from the left edge; where there is no room above, it stands below.
pub fn place_flyout(x: i32, y: i32, max_x: Option<i32>, below: i32) -> (r: (i32, i32))
    ensures
        ({
            let right = match max_x {
                Some(m) => if x > m {
                    m
                } else {
                    x
                },
                None => x,
            };
            &&& r.0 == (if right < 0 {
                0
            } else {
                right
            })
            &&& r.1 == (if y < 0 {
                below
            } else {
                y
            })
        }),
{
    let right = match max_x {
        Some(m) => if x > m {
            m
        } else {
            x
        },
        None => x,
    };
    let left = if right < 0 {
        0
    } else {
        right
    };
    let top = if y < 0 {
        below
    } else {
        y
    };
    (left, top)
}

// ---------------------------------------------------------------------------
// Laws
// ---------------------------------------------------------------------------

/// A shortened name has at most one character more than the limit, for the ellipsis.
pub proof fn shortened_is_short(name: Seq<char>)
    ensures
        shortened(name).len() <= SHORT_NAME_LEN + 1,
        name.len() <= SHORT_NAME_LEN ==> shortened(name) == name,
{
}

proof fn lemma_joined_not_empty(parts: Seq<Seq<char>>, sep: Seq<char>)
    requires
        parts.len() > 0,
        parts.last().len() > 0,
    ensures
        joined(parts, sep).len() > 0,
{
}

/// The tooltip is never empty, and keeps within its length.
pub proof fn tooltip_is_short(list: Seq<MonitorInfo>)
    ensures
        0 < tooltip(list).len() <= TOOLTIP_LEN,
{
    reveal_strlit("Brightness Control");
    reveal_strlit("%");
    let capable = capable_of(list);
    let first = named_first(list);
    if capable.len() > 0 {
        assert(labels(first).last() == label(first.last()));
        lemma_joined_not_empty(labels(first), " \u{2022} "@);
    }
}

/// After a display was given a level, it is shown at that level; nothing else about it changes,
/// and no other display changes. Where no display has the identifier, nothing changes.
pub proof fn update_changes_one_level(list: Seq<MonitorInfo>, id: Seq<char>, value: u32)
    ensures
        updated(list, id, value).len() == list.len(),
        forall|k: int|
            0 <= k < list.len() ==> #[trigger] updated(list, id, value)[k] == (if k == position_of(
                list,
                id,
            ) {
                at_level(list[k], value)
            } else {
                list[k]
            }),
        forall|k: int|
            0 <= k < list.len() && (#[trigger] list[k]).id@ == id ==> {
                &&& 0 <= position_of(list, id) <= k
                &&& updated(list, id, value)[position_of(list, id)].id@ == id
                &&& updated(list, id, value)[position_of(list, id)].current == value
            },
{
    lemma_position_bounds(list, id);
}

proof fn lemma_position_bounds(list: Seq<MonitorInfo>, id: Seq<char>)
    ensures
        0 <= position_of(list, id) <= list.len(),
        position_of(list, id) < list.len() ==> list[position_of(list, id)].id@ == id,
        forall|k: int| 0 <= k < position_of(list, id) ==> (#[trigger] list[k]).id@ != id,
    decreases list.len(),
{
    if list.len() > 0 && list[0].id@ != id {
        let t = list.skip(1);
        lemma_position_bounds(t, id);
        assert forall|k: int| 0 <= k < position_of(list, id) implies (#[trigger] list[k]).id@
            != id by {
            if k > 0 {
                assert(list[k] == t[k - 1]);
            }
        }
    }
}

/// The flyout grows with the number of displays that can be controlled, and is never lower than
/// what it shows without any.
pub proof fn flyout_grows(a: Seq<MonitorInfo>, b: Seq<MonitorInfo>)
    requires
        capable_of(a).len() < capable_of(b).len(),
    ensures
        155 <= flyout_height(a) < flyout_height(b),
{
}

/// A name of up to twenty-four characters is shown whole; of a longer one the first twenty-four are
/// shown, and an ellipsis.
pub proof fn long_names_are_cut(name: Seq<char>)
    ensures
        name.len() <= 24 ==> shortened(name) == name,
        name.len() > 24 ==> {
            &&& shortened(name).len() == 25
            &&& shortened(name).take(24) == name.take(24)
            &&& shortened(name)[24] == '\u{2026}'
        },
{
    if name.len() > 24 {
        assert(shortened(name).take(24) =~= name.take(24));
    }
}

/// The displays that can be controlled are kept in order, and no others.
pub proof fn capable_displays_are_kept(list: Seq<MonitorInfo>, m: MonitorInfo)
    ensures
        capable_of(Seq::<MonitorInfo>::empty()).len() == 0,
        m.capable ==> capable_of(list.push(m)) == capable_of(list).push(m),
        !m.capable ==> capable_of(list.push(m)) == capable_of(list),
{
    reveal(Seq::filter);
    assert(list.push(m).drop_last() =~= list);
}

/// What the tooltip says of a display is its short name, a space, its level in decimal and a percent
/// sign.
pub proof fn labels_tell_name_and_level(m: MonitorInfo)
    ensures
        label(m) == shortened(m.name@) + seq![' '] + numbers::decimal(m.current as nat) + seq!['%'],
        label(m).len() <= 37,
{
    reveal_strlit(" ");
    reveal_strlit("%");
    assert(" "@ =~= seq![' ']);
    assert("%"@ =~= seq!['%']);
    numbers::words_are_short(m.current);
}

proof fn lemma_no_capable(list: Seq<MonitorInfo>)
    requires
        forall|k: int| 0 <= k < list.len() ==> !(#[trigger] list[k]).capable,
    ensures
        capable_of(list).len() == 0,
    decreases list.len(),
{
    reveal(Seq::filter);
    if list.len() > 0 {
        let front = list.drop_last();
        assert forall|k: int| 0 <= k < front.len() implies !(#[trigger] front[k]).capable by {
            assert(front[k] == list[k]);
        }
        assert(!list[list.len() - 1].capable);
        lemma_no_capable(front);
    }
}

proof fn lemma_first_capable(list: Seq<MonitorInfo>, i: int)
    requires
        0 <= i < list.len(),
        list[i].capable,
        forall|k: int| 0 <= k < i ==> !(#[trigger] list[k]).capable,
    ensures
        capable_of(list).len() > 0,
        capable_of(list)[0] == list[i],
    decreases list.len(),
{
    let front = list.drop_last();
    lemma_capable_step(list, list.len() - 1);
    assert(list.take(list.len() as int) =~= list);
    assert(list.take(list.len() - 1) =~= front);
    if i < front.len() {
        lemma_first_capable(front, i);
    } else {
        assert forall|k: int| 0 <= k < front.len() implies !(#[trigger] front[k]).capable by {
            assert(front[k] == list[k]);
        }
        lemma_no_capable(front);
    }
}

/// The tooltip names up to three displays that can be controlled, with their levels and with bullets
/// between them, and then tells how many more there are. Only that last part may be cut off.
pub proof fn tooltip_names_three_displays(list: Seq<MonitorInfo>)
    ensures
        ({
            let c = capable_of(list);
            let t = tooltip(list);
            let bullet = seq![' ', '\u{2022}', ' '];
            &&& c.len() == 0 ==> t == "Brightness Control"@
            &&& c.len() == 1 ==> t == label(c[0])
            &&& c.len() == 2 ==> t == label(c[0]) + bullet + label(c[1])
            &&& c.len() == 3 ==> t == label(c[0]) + bullet + label(c[1]) + bullet + label(c[2])
            &&& c.len() > 3 ==> {
                let three = label(c[0]) + bullet + label(c[1]) + bullet + label(c[2]);
                let whole = three + " (+"@ + numbers::decimal((c.len() - 3) as nat) + " more)"@;
                &&& three.is_prefix_of(t)
                &&& t == (if whole.len() <= 120 {
                    whole
                } else {
                    whole.take(120)
                })
            }
        }),
{
    reveal_strlit("Brightness Control");
    reveal_strlit(" \u{2022} ");
    let bullet = seq![' ', '\u{2022}', ' '];
    assert(" \u{2022} "@ =~= bullet);
    reveal_with_fuel(joined, 4);
    let c = capable_of(list);
    if c.len() > 0 {
        labels_tell_name_and_level(c[0]);
    }
    if c.len() == 1 {
        assert(labels(c) =~= seq![label(c[0])]);
    } else if c.len() == 2 {
        labels_tell_name_and_level(c[1]);
        assert(labels(c) =~= seq![label(c[0]), label(c[1])]);
        assert(labels(c).drop_last() =~= seq![label(c[0])]);
    } else if c.len() >= 3 {
        labels_tell_name_and_level(c[1]);
        labels_tell_name_and_level(c[2]);
        let first = if c.len() == 3 {
            c
        } else {
            c.take(3)
        };
        assert(labels(first) =~= seq![label(c[0]), label(c[1]), label(c[2])]);
        assert(labels(first).drop_last() =~= seq![label(c[0]), label(c[1])]);
        assert(seq![label(c[0]), label(c[1])].drop_last() =~= seq![label(c[0])]);
        let three = label(c[0]) + bullet + label(c[1]) + bullet + label(c[2]);
        assert(joined(labels(first), bullet) =~= three);
        assert(three.len() <= 117);
        if c.len() > 3 {
            assert(three =~= tooltip(list).take(three.len() as int));
        }
    }
}

/// Where a display can be controlled, the tooltip begins with the first such display: its short name,
/// a space, its level in decimal and a percent sign.
pub proof fn tooltip_begins_with_the_first_display(list: Seq<MonitorInfo>, i: int)
    requires
        0 <= i < list.len(),
        list[i].capable,
        forall|k: int| 0 <= k < i ==> !(#[trigger] list[k]).capable,
    ensures
        ({
            let first = shortened(list[i].name@) + seq![' '] + numbers::decimal(
                list[i].current as nat,
            ) + seq!['%'];
            first.is_prefix_of(tooltip(list))
        }),
        tooltip(list) != "Brightness Control"@,
{
    reveal_strlit("Brightness Control");
    lemma_first_capable(list, i);
    labels_tell_name_and_level(list[i]);
    tooltip_names_three_displays(list);
    let c = capable_of(list);
    let first = label(list[i]);
    let t = tooltip(list);
    if c.len() > 3 {
        let bullet = seq![' ', '\u{2022}', ' '];
        let three = label(c[0]) + bullet + label(c[1]) + bullet + label(c[2]);
        assert(first =~= three.take(first.len() as int));
        assert(t.take(three.len() as int) =~= three);
    }
    assert(first =~= t.take(first.len() as int));
    assert(t[first.len() - 1] == '%');
}

/// Where no display can be controlled, the tooltip is the name of the program.
pub proof fn tooltip_without_displays(list: Seq<MonitorInfo>)
    requires
        forall|k: int| 0 <= k < list.len() ==> !(#[trigger] list[k]).capable,
    ensures
        tooltip(list) == "Brightness Control"@,
{
    lemma_no_capable(list);
    tooltip_names_three_displays(list);
}

/// A level is given to the first display with the identifier, and changes nothing else about it and
/// about the others. Where no display has the identifier, nothing changes.
pub proof fn levels_are_given_to_the_first(
    list: Seq<MonitorInfo>,
    id: Seq<char>,
    value: u32,
    i: int,
)
    requires
        0 <= i <= list.len(),
        forall|k: int| 0 <= k < i ==> (#[trigger] list[k]).id@ != id,
        i < list.len() ==> list[i].id@ == id,
    ensures
        i < list.len() ==> updated(list, id, value) == list.update(
            i,
            (MonitorInfo { current: value, ..list[i] }),
        ),
        i == list.len() ==> updated(list, id, value) == list,
{
    lemma_position_of(list, id, i);
}

/// The flyout has one height without displays that can be controlled. The first one makes it as high
/// as its frame and one row; the second one adds two rows, one of them for the slider that moves
/// both; each further one adds a row.
pub proof fn flyout_has_rows(list: Seq<MonitorInfo>, m: MonitorInfo)
    requires
        m.capable,
    ensures
        capable_of(list).len() == 0 ==> flyout_height(list) == 155 && flyout_height(list.push(m))
            == 167,
        capable_of(list).len() == 1 ==> flyout_height(list.push(m)) == flyout_height(list) + 144,
        capable_of(list).len() >= 2 ==> flyout_height(list.push(m)) == flyout_height(list) + 72,
{
    capable_displays_are_kept(list, m);
}

/// A worker that came to an end hands on what its work gave; one that failed is an error that says
/// what it was doing and why.
pub proof fn workers_hand_on<T>(
    outcome: Result<Result<T, String>, String>,
    doing: Seq<char>,
    r: Result<T, String>,
)
    requires
        settled(outcome, doing, r),
    ensures
        outcome matches Ok(given) ==> r == given,
        outcome matches Err(e) ==> (r matches Err(message) && message@
            == "Worker thread error while "@ + doing + ": "@ + e@),
{
}

} // verus!
