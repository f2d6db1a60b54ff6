//! The WMI side: PowerShell queries and what their output means.

use vstd::prelude::*;
use crate::ident;
use crate::level;
use crate::numbers;
use crate::text;

verus! {

// ---------------------------------------------------------------------------
// Processes
// ---------------------------------------------------------------------------

/// What a finished process left.
pub struct ProcessOutput {
    pub success: bool,
    pub stdout: Vec<u8>,
    pub stderr: Vec<u8>,
}

/// The text of a byte sequence, with what is not UTF-8 replaced.
pub uninterp spec fn utf8_lossy(bytes: Seq<u8>) -> Seq<char>;

/// `String::from_utf8_lossy` decodes UTF-8 and replaces what is not UTF-8. The replacement is only
/// named; a valid sequence is decoded to the text that it encodes.
#[verifier::external_body]
pub(crate) fn utf8_lossy_string(bytes: &[u8]) -> (r: String)
    ensures
        r@ == utf8_lossy(bytes@),
        vstd::utf8::valid_utf8(bytes@) ==> r@ == vstd::utf8::decode_utf8(bytes@),
{
    String::from_utf8_lossy(bytes).into_owned()
}

/// The text of a byte sequence. It is spelled out for valid UTF-8; beyond, it is what is left once
/// what is not UTF-8 was replaced.
pub open spec fn decoded(bytes: Seq<u8>) -> Seq<char> {
    if vstd::utf8::valid_utf8(bytes) {
        vstd::utf8::decode_utf8(bytes)
    } else {
        utf8_lossy(bytes)
    }
}

/// The texts of a result.
pub open spec fn outcome_text(r: Result<String, String>) -> Result<Seq<char>, Seq<char>> {
    match r {
        Ok(s) => Ok(s@),
        Err(e) => Err(e@),
    }
}

/// What a PowerShell run comes to: its trimmed output, or the trimmed error output, or, where that
/// is empty, the trimmed output as an error.
pub open spec fn powershell_outcome(
    success: bool,
    stdout: Seq<char>,
    stderr: Seq<char>,
) -> Result<Seq<char>, Seq<char>> {
    if success {
        Ok(text::trimmed(stdout))
    } else if text::trimmed(stderr).len() > 0 {
        Err("PowerShell error (WMI): "@ + text::trimmed(stderr))
    } else {
        Err("PowerShell error (WMI): "@ + text::trimmed(stdout))
    }
}

/// Judges a PowerShell run by its exit status and its decoded output.
pub fn judge_powershell(success: bool, stdout: &str, stderr: &str) -> (r: Result<String, String>)
    ensures
        outcome_text(r) == powershell_outcome(success, stdout@, stderr@),
{
    let out = text::trim_str(stdout);
    if success {
        return Ok(out);
    }
    let err = text::trim_str(stderr);
    if err.as_str().is_empty() {
        Err(text::concat2("PowerShell error (WMI): ", out.as_str()))
    } else {
        Err(text::concat2("PowerShell error (WMI): ", err.as_str()))
    }
}

/// Judges a PowerShell run, given what the process left or why it could not be started.
pub fn run_powershell(output: Result<ProcessOutput, String>) -> (r: Result<String, String>)
    ensures
        match output {
            Ok(o) => outcome_text(r) == powershell_outcome(
                o.success,
                decoded(o.stdout@),
                decoded(o.stderr@),
            ),
            Err(e) => outcome_text(r) == Err::<Seq<char>, Seq<char>>(
                "Failed to execute powershell.exe: "@ + e@,
            ),
        },
{
    match output {
        Ok(o) => {
            let stdout = utf8_lossy_string(o.stdout.as_slice());
            let stderr = utf8_lossy_string(o.stderr.as_slice());
            judge_powershell(o.success, stdout.as_str(), stderr.as_str())
        },
        Err(e) => Err(text::concat2("Failed to execute powershell.exe: ", e.as_str())),
    }
}

/// The program that runs scripts.
pub const POWERSHELL: &'static str = "powershell.exe";

/// The arguments with which a script is run: without the profile of the user, and without asking
/// anything.
pub fn powershell_args(script: &str) -> (r: Vec<String>)
    ensures
        text::texts_of(r@) == seq!["-NoProfile"@, "-NonInteractive"@, "-Command"@, script@],
{
    let args = vec![
        "-NoProfile".to_string(),
        "-NonInteractive".to_string(),
        "-Command".to_string(),
        script.to_string(),
    ];
    assert(text::texts_of(args@) =~= seq![
        "-NoProfile"@,
        "-NonInteractive"@,
        "-Command"@,
        script@,
    ]);
    args
}

// ---------------------------------------------------------------------------
// Reading and setting the brightness of the internal display
// ---------------------------------------------------------------------------

/// Prints the brightness of the first active internal display, or nothing.
pub const QUERY_SCRIPT: &'static str = "(Get-CimInstance -Namespace root/wmi -ClassName WmiMonitorBrightness | Where-Object { $_.Active } | Select-Object -First 1).CurrentBrightness";

/// The script that sets brightness, up to the percentage.
pub const SET_SCRIPT_HEAD: &'static str = "$m = Get-CimInstance -Namespace root/wmi -ClassName WmiMonitorBrightnessMethods | Select-Object -First 1; if ($null -eq $m) { Write-Error 'No WmiMonitorBrightnessMethods'; exit 1 }; $r = Invoke-CimMethod -InputObject $m -MethodName WmiSetBrightness -Arguments @{ Timeout = 1; Brightness = ";

/// The script that sets brightness, after the percentage.
pub const SET_SCRIPT_TAIL: &'static str = " }; if ($r.ReturnValue -ne 0) { Write-Error ('WmiSetBrightness failed: ' + $r.ReturnValue); exit $r.ReturnValue }; exit 0";

/// What to do to read the brightness of the internal display.
pub enum WmiRead {
    /// The brightness is known.
    Known { percent: u32 },
    /// `QUERY_SCRIPT` has to be run.
    RunScript,
}

/// Takes the brightness that the native interface gave, up to one hundred percent; where it gave
/// none, the script is run. A low level is not raised, so that what the keys of the machine set is
/// shown as it is.
pub fn query_wmi_brightness(native: Result<u32, String>) -> (r: WmiRead)
    ensures
        match native {
            Ok(b) => r matches WmiRead::Known { percent } && percent == level::capped(b as int),
            Err(_) => r == WmiRead::RunScript,
        },
{
    match native {
        Ok(b) => WmiRead::Known { percent: level::cap_percent(b) },
        Err(_) => WmiRead::RunScript,
    }
}

/// The message for a machine without WMI brightness.
pub open spec fn no_wmi_brightness() -> Seq<char> {
    "WMI brightness not found (this machine may be a desktop PC without an internal display)."@
}

/// What the output of `QUERY_SCRIPT` says: a level up to one hundred percent, or why there is none.
/// A low level is not raised.
pub open spec fn queried_brightness(out: Seq<char>) -> Result<nat, Seq<char>> {
    if out.len() == 0 || text::same_ignoring_case(out, "null"@) {
        Err(no_wmi_brightness())
    } else {
        match numbers::unsigned(out, u32::MAX as nat) {
            Some(n) => Ok(level::capped(n as int) as nat),
            None => Err("Failed to parse WMI brightness: '"@ + out + "'"@),
        }
    }
}

/// Reads the brightness out of the output of `QUERY_SCRIPT`.
pub fn read_wmi_brightness(output: Result<String, String>) -> (r: Result<u32, String>)
    ensures
        match output {
            Ok(out) => match r {
                Ok(b) => queried_brightness(out@) == Ok::<nat, Seq<char>>(b as nat),
                Err(e) => queried_brightness(out@) == Err::<nat, Seq<char>>(e@),
            },
            Err(e) => r == Err::<u32, String>(e),
        },
{
    match output {
        Ok(out) => {
            if out.as_str().is_empty() || text::equals_ignoring_case(out.as_str(), "null") {
                return Err(
                    "WMI brightness not found (this machine may be a desktop PC without an internal display).".to_string(),
                );
            }
            let chars = text::chars_of(out.as_str());
            match numbers::parse_unsigned(chars.as_slice(), u32::MAX as u64) {
                Some(n) => Ok(level::cap_percent(n as u32)),
                None => Err(
                    text::concat3("Failed to parse WMI brightness: '", out.as_str(), "'"),
                ),
            }
        },
        Err(e) => Err(e),
    }
}

/// What to do to set the brightness of the internal display.
pub enum WmiSetStep {
    /// The native interface has to be asked to set the percentage.
    Native { percent: u32 },
    /// The script has to be run.
    RunScript { script: String },
    /// The brightness is set.
    Done,
}

/// The script that sets a percentage.
pub open spec fn set_script(percent: nat) -> Seq<char> {
    SET_SCRIPT_HEAD@ + numbers::decimal(percent) + SET_SCRIPT_TAIL@
}

/// Begins to set the brightness of the internal display. No percentage outside the safe range is
/// handed on.
pub fn set_wmi_brightness(value: u32) -> (r: WmiSetStep)
    ensures
        r matches WmiSetStep::Native { percent } && percent == level::clamped(value as int),
{
    WmiSetStep::Native { percent: level::clamp_brightness(value) }
}

/// Goes on after the native interface was asked to set a percentage: where it failed, the script
/// that sets the same percentage is run.
pub fn after_native_set(percent: u32, native: Result<(), String>) -> (r: WmiSetStep)
    ensures
        match native {
            Ok(_) => r is Done,
            Err(_) => r matches WmiSetStep::RunScript { script } && script@ == set_script(
                percent as nat,
            ),
        },
{
    match native {
        Ok(_) => WmiSetStep::Done,
        Err(_) => {
            let number = numbers::decimal_string(percent as u64);
            let script = text::concat3(SET_SCRIPT_HEAD, number.as_str(), SET_SCRIPT_TAIL);
            WmiSetStep::RunScript { script }
        },
    }
}

/// Ends the setting of brightness after the script was run.
pub fn after_script_set(output: Result<String, String>) -> (r: Result<(), String>)
    ensures
        match output {
            Ok(_) => r is Ok,
            Err(e) => r == Err::<(), String>(e),
        },
{
    match output {
        Ok(_) => Ok(()),
        Err(e) => Err(e),
    }
}

// ---------------------------------------------------------------------------
// The scan of all displays
// ---------------------------------------------------------------------------

/// Prints one line for the internal display and one for each monitor that WMI knows.
pub const SCAN_SCRIPT: &'static str = "$b = Get-CimInstance -Namespace root/wmi -ClassName WmiMonitorBrightness -ErrorAction SilentlyContinue | Where-Object { $_.Active } | Select-Object -First 1; if ($b) { Write-Output ('INTERNAL|{0}|{1}' -f $b.InstanceName, $b.CurrentBrightness) }; $mons = Get-CimInstance -Namespace root/wmi -ClassName WmiMonitorID -ErrorAction SilentlyContinue | Where-Object { $_.Active }; foreach ($m in $mons) { $fn = ($m.UserFriendlyName | Where-Object { $_ -ne 0 } | ForEach-Object { [char]$_ }) -join ''; $mf = ($m.ManufacturerName | Where-Object { $_ -ne 0 } | ForEach-Object { [char]$_ }) -join ''; $se = ($m.SerialNumberID | Where-Object { $_ -ne 0 } | ForEach-Object { [char]$_ }) -join ''; Write-Output ('ID|{0}|{1}|{2}|{3}' -f $m.InstanceName, $mf, $fn, $se) }";

/// One monitor as WMI names it. The token is matched with the tokens of the devices on the desktop.
pub struct WmiMonitorId {
    pub token: String,
    pub manufacturer: String,
    pub friendly: String,
    /// Tells monitors of one model apart.
    pub serial: String,
}

/// The texts of a `WmiMonitorId`.
pub struct WmiIdView {
    pub token: Seq<char>,
    pub manufacturer: Seq<char>,
    pub friendly: Seq<char>,
    pub serial: Seq<char>,
}

impl View for WmiMonitorId {
    type V = WmiIdView;

    open spec fn view(&self) -> WmiIdView {
        WmiIdView {
            token: self.token@,
            manufacturer: self.manufacturer@,
            friendly: self.friendly@,
            serial: self.serial@,
        }
    }
}

/// The texts of a list of `WmiMonitorId`s.
pub open spec fn ids_of(ids: Seq<WmiMonitorId>) -> Seq<WmiIdView> {
    ids.map_values(|id: WmiMonitorId| id@)
}

/// What one scan of WMI found.
pub struct WmiScan {
    pub ids: Vec<WmiMonitorId>,
    pub internal_token: Option<String>,
    pub current_brightness: Option<u32>,
}

/// The contents of a `WmiScan`.
pub struct WmiScanView {
    pub ids: Seq<WmiIdView>,
    pub internal_token: Option<Seq<char>>,
    pub current_brightness: Option<nat>,
}

/// An optional level as a number.
pub open spec fn level_of(o: Option<u32>) -> Option<nat> {
    match o {
        Some(n) => Some(n as nat),
        None => None,
    }
}

impl View for WmiScan {
    type V = WmiScanView;

    open spec fn view(&self) -> WmiScanView {
        WmiScanView {
            ids: ids_of(self.ids@),
            internal_token: text::text_of(self.internal_token),
            current_brightness: level_of(self.current_brightness),
        }
    }
}

/// A scan that found nothing.
pub open spec fn empty_scan() -> WmiScanView {
    WmiScanView { ids: seq![], internal_token: None, current_brightness: None }
}

impl Default for WmiScan {
    fn default() -> (r: Self)
        ensures
            r@ == empty_scan(),
            tokens_given(r),
    {
        let r = WmiScan { ids: Vec::new(), internal_token: None, current_brightness: None };
        assert(r@.ids =~= Seq::<WmiIdView>::empty());
        r
    }
}

/// What a line about the internal display adds to a scan.
pub open spec fn with_internal(scan: WmiScanView, line: Seq<char>) -> WmiScanView {
    let parts = text::split_first(line, 3, '|');
    WmiScanView {
        internal_token: if parts.len() >= 2 {
            ident::token_of(parts[1])
        } else {
            scan.internal_token
        },
        current_brightness: if parts.len() >= 3 {
            numbers::unsigned(text::trimmed(parts[2]), u32::MAX as nat)
        } else {
            scan.current_brightness
        },
        ..scan
    }
}

/// What a line about a monitor adds to a scan: nothing, unless it has five parts and the second
/// one has a model token.
pub open spec fn with_monitor(scan: WmiScanView, line: Seq<char>) -> WmiScanView {
    let parts = text::split_first(line, 5, '|');
    if parts.len() >= 5 {
        match ident::token_of(parts[1]) {
            Some(token) => WmiScanView {
                ids: scan.ids.push(
                    WmiIdView {
                        token,
                        manufacturer: text::trimmed(parts[2]),
                        friendly: text::trimmed(parts[3]),
                        serial: text::trimmed(parts[4]),
                    },
                ),
                ..scan
            },
            None => scan,
        }
    } else {
        scan
    }
}

/// What a line of output adds to a scan.
pub open spec fn with_line(scan: WmiScanView, line: Seq<char>) -> WmiScanView {
    let t = text::trimmed(line);
    if "INTERNAL|"@.is_prefix_of(t) {
        with_internal(scan, t)
    } else if "ID|"@.is_prefix_of(t) {
        with_monitor(scan, t)
    } else {
        scan
    }
}

/// What a sequence of lines adds up to.
pub open spec fn scan_of_lines(lines: Seq<Seq<char>>) -> WmiScanView
    decreases lines.len(),
{
    if lines.len() == 0 {
        empty_scan()
    } else {
        with_line(scan_of_lines(lines.drop_last()), lines.last())
    }
}

/// What the output of `SCAN_SCRIPT` says.
pub open spec fn scan_of(out: Seq<char>) -> WmiScanView {
    scan_of_lines(text::lines_of(out))
}

/// Whether no token of a scan is empty.
pub open spec fn tokens_given(scan: WmiScan) -> bool {
    &&& scan.internal_token matches Some(t) ==> t@.len() > 0
    &&& forall|i: int| 0 <= i < scan.ids@.len() ==> (#[trigger] scan.ids@[i]).token@.len() > 0
}

fn scan_internal(scan: &mut WmiScan, line: &[char])
    requires
        tokens_given(*old(scan)),
    ensures
        final(scan)@ == with_internal(old(scan)@, line@),
        tokens_given(*final(scan)),
{
    let parts = text::split_n(line, 3, '|');
    let ghost pieces = text::pieces_of(parts@);
    if parts.len() >= 2 {
        let instance = text::string_of(parts[1].as_slice());
        assert(instance@ == pieces[1]);
        scan.internal_token = ident::extract_token_from_instance(instance.as_str());
    }
    if parts.len() >= 3 {
        let number = text::trim(parts[2].as_slice());
        assert(number@ == text::trimmed(pieces[2]));
        scan.current_brightness = match numbers::parse_unsigned(number, u32::MAX as u64) {
            Some(n) => Some(n as u32),
            None => None,
        };
    }
}

fn scan_monitor(scan: &mut WmiScan, line: &[char])
    requires
        tokens_given(*old(scan)),
    ensures
        final(scan)@ == with_monitor(old(scan)@, line@),
        tokens_given(*final(scan)),
{
    let parts = text::split_n(line, 5, '|');
    let ghost pieces = text::pieces_of(parts@);
    if parts.len() >= 5 {
        let instance = text::string_of(parts[1].as_slice());
        assert(instance@ == pieces[1]);
        match ident::extract_token_from_instance(instance.as_str()) {
            Some(token) => {
                let id = WmiMonitorId {
                    token,
                    manufacturer: text::string_of(text::trim(parts[2].as_slice())),
                    friendly: text::string_of(text::trim(parts[3].as_slice())),
                    serial: text::string_of(text::trim(parts[4].as_slice())),
                };
                assert(id.manufacturer@ == text::trimmed(pieces[2]));
                assert(id.friendly@ == text::trimmed(pieces[3]));
                assert(id.serial@ == text::trimmed(pieces[4]));
                scan.ids.push(id);
                assert(ids_of(scan.ids@) =~= ids_of(old(scan).ids@).push(id@));
            },
            None => {},
        }
    }
}

/// Reads the output of `SCAN_SCRIPT`; where the script failed, nothing was found. No token is
/// empty.
pub fn query_wmi_scan(output: Result<String, String>) -> (r: WmiScan)
    ensures
        match output {
            Ok(out) => r@ == scan_of(out@),
            Err(_) => r@ == empty_scan(),
        },
        tokens_given(r),
{
    let out = match output {
        Ok(o) => o,
        Err(_) => {
            return WmiScan::default();
        },
    };
    let chars = text::chars_of(out.as_str());
    let lines = text::lines(chars.as_slice());
    let internal = text::chars_of("INTERNAL|");
    let id = text::chars_of("ID|");
    let mut scan = WmiScan::default();
    let mut i: usize = 0;
    let ghost pieces = text::pieces_of(lines@);
    while i < lines.len()
        invariant
            i <= lines@.len(),
            pieces == text::pieces_of(lines@),
            internal@ == "INTERNAL|"@,
            id@ == "ID|"@,
            scan@ == scan_of_lines(pieces.take(i as int)),
            tokens_given(scan),
        decreases lines.len() - i,
    {
        let line = text::trim(lines[i].as_slice());
        assert(lines[i as int]@ == pieces[i as int]);
        assert(pieces.take(i + 1).drop_last() =~= pieces.take(i as int));
        if text::starts_with(line, internal.as_slice()) {
            scan_internal(&mut scan, line);
        } else if text::starts_with(line, id.as_slice()) {
            scan_monitor(&mut scan, line);
        }
        i += 1;
    }
    assert(pieces.take(i as int) =~= pieces);
    scan
}

/// The monitors that WMI knows. No token is empty.
pub fn query_wmi_monitor_ids(output: Result<String, String>) -> (r: Vec<WmiMonitorId>)
    ensures
        match output {
            Ok(out) => ids_of(r@) == scan_of(out@).ids,
            Err(_) => r@.len() == 0,
        },
        forall|i: int| 0 <= i < r@.len() ==> (#[trigger] r@[i]).token@.len() > 0,
{
    let scan = query_wmi_scan(output);
    assert(scan@.ids.len() == scan.ids@.len());
    scan.ids
}

/// What to do to learn the model token of the internal display.
pub enum TokenRead {
    /// The token is known.
    Known { token: String },
    /// `SCAN_SCRIPT` has to be run; its `internal_token` is the answer.
    RunScan,
}

/// Takes the token that the native interface gave; where it gave none, the scan is run.
pub fn query_wmi_internal_token(native: Result<(u32, Option<String>), String>) -> (r: TokenRead)
    ensures
        match native {
            Ok((_, Some(token))) => r == (TokenRead::Known { token }),
            _ => r == TokenRead::RunScan,
        },
{
    match native {
        Ok((_, Some(token))) => TokenRead::Known { token },
        _ => TokenRead::RunScan,
    }
}

// ---------------------------------------------------------------------------
// Looking monitors up
// ---------------------------------------------------------------------------

/// The first monitor with a token, up to the case of ASCII letters.
pub open spec fn named(ids: Seq<WmiIdView>, token: Seq<char>) -> Option<WmiIdView>
    decreases ids.len(),
{
    if ids.len() == 0 {
        None
    } else if text::same_ignoring_case(ids[0].token, token) {
        Some(ids[0])
    } else {
        named(ids.skip(1), token)
    }
}

proof fn lemma_named(ids: Seq<WmiIdView>, token: Seq<char>, i: int)
    requires
        0 <= i <= ids.len(),
        forall|k: int| 0 <= k < i ==> !text::same_ignoring_case((#[trigger] ids[k]).token, token),
        i == ids.len() || text::same_ignoring_case(ids[i].token, token),
    ensures
        named(ids, token) == (if i == ids.len() {
            None
        } else {
            Some(ids[i])
        }),
    decreases ids.len(),
{
    if i > 0 {
        let t = ids.skip(1);
        assert forall|k: int| 0 <= k < i - 1 implies !text::same_ignoring_case(
            (#[trigger] t[k]).token,
            token,
        ) by {
            assert(t[k] == ids[k + 1]);
        }
        lemma_named(t, token, i - 1);
    }
}

/// Finds the first monitor with a token, up to the case of ASCII letters.
pub fn find_named<'a>(ids: &'a [WmiMonitorId], token: &str) -> (r: Option<&'a WmiMonitorId>)
    ensures
        match r {
            Some(id) => named(ids_of(ids@), token@) == Some(id@),
            None => named(ids_of(ids@), token@) is None,
        },
{
    let ghost views = ids_of(ids@);
    let mut i: usize = 0;
    while i < ids.len()
        invariant
            i <= ids@.len(),
            views == ids_of(ids@),
            forall|k: int|
                0 <= k < i ==> !text::same_ignoring_case((#[trigger] views[k]).token, token@),
        decreases ids.len() - i,
    {
        assert(views[i as int] == ids@[i as int]@);
        if text::equals_ignoring_case(ids[i].token.as_str(), token) {
            proof {
                lemma_named(views, token@, i as int);
            }
            return Some(&ids[i]);
        }
        i += 1;
    }
    proof {
        lemma_named(views, token@, i as int);
    }
    None
}

// ---------------------------------------------------------------------------
// Laws
// ---------------------------------------------------------------------------

/// The line that `SCAN_SCRIPT` writes for the internal display.
pub open spec fn internal_line(instance: Seq<char>, brightness: nat) -> Seq<char> {
    "INTERNAL"@ + seq!['|'] + (instance + seq!['|'] + numbers::decimal(brightness))
}

/// The parts of a line about the internal display.
proof fn lemma_internal_parts(instance: Seq<char>, brightness: nat)
    requires
        !instance.contains('|'),
    ensures
        text::split_first(internal_line(instance, brightness), 3, '|') == seq![
            "INTERNAL"@,
            instance,
            numbers::decimal(brightness),
        ],
{
    reveal_strlit("INTERNAL");
    let number = numbers::decimal(brightness);
    text::lemma_split_step("INTERNAL"@, instance + seq!['|'] + number, 3, '|');
    text::lemma_split_step(instance, number, 2, '|');
    assert(text::split_first(number, 1, '|') =~= seq![number]);
    assert(seq!["INTERNAL"@] + (seq![instance] + seq![number]) =~= seq![
        "INTERNAL"@,
        instance,
        number,
    ]);
}

/// Trimming changes neither a line about the internal display nor the level in it.
proof fn lemma_internal_trimmed(instance: Seq<char>, brightness: nat)
    ensures
        text::trimmed(internal_line(instance, brightness)) == internal_line(instance, brightness),
        text::trimmed(numbers::decimal(brightness)) == numbers::decimal(brightness),
        "INTERNAL|"@.is_prefix_of(internal_line(instance, brightness)),
{
    reveal_strlit("INTERNAL|");
    reveal_strlit("INTERNAL");
    let line = internal_line(instance, brightness);
    let number = numbers::decimal(brightness);
    let e = Seq::<char>::empty();
    numbers::decimal_denotes(brightness);
    assert(numbers::is_decimal_digit(number[0]) && numbers::is_decimal_digit(number.last()));
    assert(line.last() == number.last());
    assert(line[0] == 'I');
    assert(e + line + e =~= line);
    text::lemma_trimmed(e, line, e);
    assert(e + number + e =~= number);
    text::lemma_trimmed(e, number, e);
    assert(line.subrange(0, 9) =~= "INTERNAL|"@);
}

/// A scan takes the model token and the level of the internal display from the line that the script
/// writes for it, provided that the instance name holds no bar.
pub proof fn internal_line_reads_back(scan: WmiScanView, instance: Seq<char>, brightness: nat)
    requires
        !instance.contains('|'),
        brightness <= u32::MAX,
    ensures
        with_line(scan, internal_line(instance, brightness)) == (WmiScanView {
            internal_token: ident::token_of(instance),
            current_brightness: Some(brightness),
            ..scan
        }),
{
    lemma_internal_trimmed(instance, brightness);
    lemma_internal_parts(instance, brightness);
    numbers::decimal_reads_back(brightness, u32::MAX as nat);
}

/// The line that `SCAN_SCRIPT` writes for a monitor.
pub open spec fn monitor_line(
    instance: Seq<char>,
    manufacturer: Seq<char>,
    friendly: Seq<char>,
    serial: Seq<char>,
) -> Seq<char> {
    "ID"@ + seq!['|'] + (instance + seq!['|'] + (manufacturer + seq!['|'] + (friendly + seq!['|']
        + serial)))
}

/// The parts of a line about a monitor.
proof fn lemma_monitor_parts(
    instance: Seq<char>,
    manufacturer: Seq<char>,
    friendly: Seq<char>,
    serial: Seq<char>,
)
    requires
        !instance.contains('|'),
        !manufacturer.contains('|'),
        !friendly.contains('|'),
    ensures
        text::split_first(monitor_line(instance, manufacturer, friendly, serial), 5, '|') == seq![
            "ID"@,
            instance,
            manufacturer,
            friendly,
            serial,
        ],
{
    reveal_strlit("ID");
    let t3 = friendly + seq!['|'] + serial;
    let t2 = manufacturer + seq!['|'] + t3;
    let t1 = instance + seq!['|'] + t2;
    text::lemma_split_step("ID"@, t1, 5, '|');
    text::lemma_split_step(instance, t2, 4, '|');
    text::lemma_split_step(manufacturer, t3, 3, '|');
    text::lemma_split_step(friendly, serial, 2, '|');
    assert(text::split_first(serial, 1, '|') =~= seq![serial]);
    assert(seq!["ID"@] + (seq![instance] + (seq![manufacturer] + (seq![friendly] + seq![serial])))
        =~= seq!["ID"@, instance, manufacturer, friendly, serial]);
}

/// Trimming a line about a monitor trims the end of the serial number.
proof fn lemma_monitor_trimmed(
    instance: Seq<char>,
    manufacturer: Seq<char>,
    friendly: Seq<char>,
    serial: Seq<char>,
)
    ensures
        text::trimmed(monitor_line(instance, manufacturer, friendly, serial)) == monitor_line(
            instance,
            manufacturer,
            friendly,
            text::trimmed_end(serial),
        ),
{
    reveal_strlit("ID");
    let head = "ID"@ + seq!['|'] + (instance + seq!['|'] + (manufacturer + seq!['|'] + (friendly
        + seq!['|'])));
    assert(head[0] == 'I');
    assert(head.last() == '|');
    text::lemma_trim_after_head(head, serial);
    let rest = text::trimmed_end(serial);
    assert(monitor_line(instance, manufacturer, friendly, serial) =~= head + serial);
    assert(monitor_line(instance, manufacturer, friendly, rest) =~= head + rest);
}

/// A line about a monitor is told by its first part.
proof fn lemma_monitor_prefix(
    instance: Seq<char>,
    manufacturer: Seq<char>,
    friendly: Seq<char>,
    serial: Seq<char>,
)
    ensures
        "ID|"@.is_prefix_of(monitor_line(instance, manufacturer, friendly, serial)),
        !"INTERNAL|"@.is_prefix_of(monitor_line(instance, manufacturer, friendly, serial)),
{
    reveal_strlit("INTERNAL|");
    reveal_strlit("ID|");
    reveal_strlit("ID");
    let line = monitor_line(instance, manufacturer, friendly, serial);
    assert(line.subrange(0, 3) =~= "ID|"@);
    if "INTERNAL|"@.is_prefix_of(line) {
        assert(line.subrange(0, 9)[1] == line[1]);
        assert(line[1] == 'D');
    }
}

/// A scan takes a monitor from the line that the script writes for it, provided that it has a model
/// token and that no bar comes before the serial number.
pub proof fn monitor_line_reads_back(
    scan: WmiScanView,
    instance: Seq<char>,
    manufacturer: Seq<char>,
    friendly: Seq<char>,
    serial: Seq<char>,
)
    requires
        ident::token_of(instance) is Some,
        !instance.contains('|'),
        !manufacturer.contains('|'),
        !friendly.contains('|'),
    ensures
        with_line(scan, monitor_line(instance, manufacturer, friendly, serial)) == (WmiScanView {
            ids: scan.ids.push(
                WmiIdView {
                    token: ident::token_of(instance)->0,
                    manufacturer: text::trimmed(manufacturer),
                    friendly: text::trimmed(friendly),
                    serial: text::trimmed(serial),
                },
            ),
            ..scan
        }),
{
    let rest = text::trimmed_end(serial);
    lemma_monitor_trimmed(instance, manufacturer, friendly, serial);
    lemma_monitor_prefix(instance, manufacturer, friendly, rest);
    lemma_monitor_parts(instance, manufacturer, friendly, rest);
    text::lemma_trim_trimmed_end(serial);
}

/// The lines of a scan add up one by one: the last line about the internal display counts, and
/// every monitor is kept.
pub proof fn scans_add_up(lines: Seq<Seq<char>>, line: Seq<char>)
    ensures
        scan_of_lines(lines.push(line)) == with_line(scan_of_lines(lines), line),
        scan_of_lines(lines).ids.is_prefix_of(scan_of_lines(lines.push(line)).ids),
{
    assert(lines.push(line).drop_last() =~= lines);
    let before = scan_of_lines(lines);
    let after = scan_of_lines(lines.push(line));
    assert(after == with_line(before, line));
    assert(before.ids =~= after.ids.take(before.ids.len() as int));
}

/// A run that succeeded gives its output without surrounding white space, whatever stands in the
/// error output. A run that failed is an error, which carries the error output, or the output where
/// that is blank.
pub proof fn runs_are_judged_by_their_status(stdout: Seq<char>, stderr: Seq<char>)
    ensures
        powershell_outcome(true, stdout, stderr) == Ok::<Seq<char>, Seq<char>>(
            text::trimmed(stdout),
        ),
        powershell_outcome(false, stdout, stderr) matches Err(message) && message
            == "PowerShell error (WMI): "@ + (if text::trimmed(stderr).len() > 0 {
            text::trimmed(stderr)
        } else {
            text::trimmed(stdout)
        }),
{
}

/// A level up to one hundred percent that the script prints is read as it is printed; a higher one is
/// read as one hundred.
pub proof fn printed_levels_are_read(n: nat)
    requires
        n <= u32::MAX,
    ensures
        n <= 100 ==> queried_brightness(numbers::decimal(n)) == Ok::<nat, Seq<char>>(n),
        n > 100 ==> queried_brightness(numbers::decimal(n)) == Ok::<nat, Seq<char>>(100),
{
    reveal_strlit("null");
    let d = numbers::decimal(n);
    numbers::decimal_is_plain(n);
    numbers::decimal_reads_back(n, u32::MAX as nat);
    if text::same_ignoring_case(d, "null"@) {
        assert(text::ascii_upper(d[0]) == text::ascii_upper("null"@[0]));
        assert('0' <= d[0] <= '9');
    }
}

/// Output that is empty, or `null` in whatever case, means that there is no level; output that is no
/// number is an error that quotes it.
pub proof fn other_output_is_no_level(out: Seq<char>)
    ensures
        out.len() == 0 || text::same_ignoring_case(out, "null"@) ==> queried_brightness(out)
            == Err::<nat, Seq<char>>(
            "WMI brightness not found (this machine may be a desktop PC without an internal display)."@,
        ),
        out.len() > 0 && !text::same_ignoring_case(out, "null"@) && numbers::unsigned(
            out,
            u32::MAX as nat,
        ) is None ==> queried_brightness(out) == Err::<nat, Seq<char>>(
            "Failed to parse WMI brightness: '"@ + out + "'"@,
        ),
        queried_brightness(out) matches Ok(n) ==> n <= 100,
{
}

/// The script that sets a level names that level, between two parts that do not depend on it.
pub proof fn scripts_name_the_level(percent: nat, other: nat)
    ensures
        set_script(percent) == SET_SCRIPT_HEAD@ + numbers::decimal(percent) + SET_SCRIPT_TAIL@,
        set_script(percent) == set_script(other) ==> percent == other,
{
    let h = SET_SCRIPT_HEAD@.len() as int;
    let t = SET_SCRIPT_TAIL@.len() as int;
    let a = numbers::decimal(percent);
    let b = numbers::decimal(other);
    if set_script(percent) == set_script(other) {
        assert(set_script(percent).subrange(h, h + a.len()) =~= a);
        assert(set_script(other).subrange(h, h + b.len()) =~= b);
        assert(set_script(percent).len() == h + a.len() + t);
        assert(set_script(other).len() == h + b.len() + t);
        numbers::decimal_injective(percent, other);
    }
}

/// A line that is neither about the internal display nor about a monitor adds nothing. White space
/// around a line makes no difference.
pub proof fn other_lines_add_nothing(scan: WmiScanView, line: Seq<char>)
    ensures
        !"INTERNAL|"@.is_prefix_of(text::trimmed(line)) && !"ID|"@.is_prefix_of(
            text::trimmed(line),
        ) ==> with_line(scan, line) == scan,
        with_line(scan, text::trimmed(line)) == with_line(scan, line),
{
    let (before, after) = text::lemma_trim_parts(line);
    let t = text::trimmed(line);
    text::trimming_leaves_the_middle(Seq::empty(), t, Seq::empty());
    assert(Seq::<char>::empty() + t + Seq::<char>::empty() =~= t);
}

/// A line about a monitor without a model token adds nothing, and neither does one that breaks off
/// before the serial number.
pub proof fn monitors_without_token_are_left_out(
    scan: WmiScanView,
    instance: Seq<char>,
    manufacturer: Seq<char>,
    friendly: Seq<char>,
    serial: Seq<char>,
)
    requires
        !instance.contains('|'),
        !manufacturer.contains('|'),
        !friendly.contains('|'),
    ensures
        ident::token_of(instance) is None ==> with_line(
            scan,
            monitor_line(instance, manufacturer, friendly, serial),
        ) == scan,
        with_monitor(scan, "ID"@ + seq!['|'] + (instance + seq!['|'] + (manufacturer + seq!['|'] + friendly)))
            == scan,
{
    let rest = text::trimmed_end(serial);
    lemma_monitor_trimmed(instance, manufacturer, friendly, serial);
    lemma_monitor_prefix(instance, manufacturer, friendly, rest);
    lemma_monitor_parts(instance, manufacturer, friendly, rest);
    reveal_strlit("ID");
    let t2 = manufacturer + seq!['|'] + friendly;
    let t1 = instance + seq!['|'] + t2;
    text::lemma_split_step("ID"@, t1, 5, '|');
    text::lemma_split_step(instance, t2, 4, '|');
    text::lemma_split_step(manufacturer, friendly, 3, '|');
    text::last_part_is_the_rest(friendly, 2, '|');
}

/// What a line about the internal display without a level tells is the token alone.
pub proof fn internal_line_without_level(scan: WmiScanView, instance: Seq<char>)
    requires
        !instance.contains('|'),
    ensures
        ({
            let after = with_internal(scan, "INTERNAL"@ + seq!['|'] + instance);
            &&& after.internal_token == ident::token_of(instance)
            &&& after.current_brightness == scan.current_brightness
            &&& after.ids == scan.ids
        }),
{
    reveal_strlit("INTERNAL");
    text::lemma_split_step("INTERNAL"@, instance, 3, '|');
    text::last_part_is_the_rest(instance, 2, '|');
}

/// A further line of output adds to the scan what the line says; the carriage return at its end makes
/// no difference.
pub proof fn output_is_read_line_by_line(out: Seq<char>, line: Seq<char>)
    requires
        out.len() > 0 ==> out.last() == '\n',
        !line.contains('\n'),
    ensures
        scan_of(Seq::<char>::empty()) == empty_scan(),
        scan_of(out + line + seq!['\r', '\n']) == with_line(scan_of(out), line),
        line.len() > 0 ==> scan_of(out + line) == with_line(scan_of(out), line),
{
    let e = Seq::<char>::empty();
    text::lines_end_at_line_feeds(line, e);
    let ended = line + seq!['\r', '\n'];
    assert(ended + e =~= ended);
    assert(text::lines_of(e) =~= Seq::<Seq<char>>::empty());
    assert(text::lines_of(ended) =~= seq![line]);
    text::lemma_lines_append(out, ended);
    text::lemma_lines_append(out, line);
    assert(out + line + seq!['\r', '\n'] =~= out + ended);
    let lines = text::lines_of(out);
    assert(lines + seq![line] =~= lines.push(line));
    scans_add_up(lines, line);
}

/// The monitor with a token is the first one whose token is equal up to the case of ASCII letters.
pub proof fn first_monitor_with_the_token(ids: Seq<WmiIdView>, token: Seq<char>, i: int)
    requires
        0 <= i <= ids.len(),
        forall|k: int| 0 <= k < i ==> !text::same_ignoring_case((#[trigger] ids[k]).token, token),
        i < ids.len() ==> text::same_ignoring_case(ids[i].token, token),
    ensures
        i < ids.len() ==> named(ids, token) == Some(ids[i]),
        i == ids.len() ==> named(ids, token) is None,
{
    lemma_named(ids, token, i);
}

/// The scripts ask for what is read from them: the level of the first active internal display; and
/// lines with the instance name and the level of that display, and with the instance name, the
/// manufacturer, the friendly name and the serial number of each monitor, in this order.
pub proof fn scripts_print_what_is_read()
    ensures
        text::find_text(QUERY_SCRIPT@, "-ClassName WmiMonitorBrightness | Where-Object { $_.Active }"@) is Some,
        text::find_text(QUERY_SCRIPT@, ").CurrentBrightness"@) is Some,
        text::find_text(SCAN_SCRIPT@, "'INTERNAL|{0}|{1}' -f $b.InstanceName, $b.CurrentBrightness"@) is Some,
        text::find_text(SCAN_SCRIPT@, "'ID|{0}|{1}|{2}|{3}' -f $m.InstanceName, $mf, $fn, $se"@) is Some,
{
    reveal_strlit("(Get-CimInstance -Namespace root/wmi -ClassName WmiMonitorBrightness | Where-Object { $_.Active } | Select-Object -First 1).CurrentBrightness");
    reveal_strlit("$b = Get-CimInstance -Namespace root/wmi -ClassName WmiMonitorBrightness -ErrorAction SilentlyContinue | Where-Object { $_.Active } | Select-Object -First 1; if ($b) { Write-Output ('INTERNAL|{0}|{1}' -f $b.InstanceName, $b.CurrentBrightness) }; $mons = Get-CimInstance -Namespace root/wmi -ClassName WmiMonitorID -ErrorAction SilentlyContinue | Where-Object { $_.Active }; foreach ($m in $mons) { $fn = ($m.UserFriendlyName | Where-Object { $_ -ne 0 } | ForEach-Object { [char]$_ }) -join ''; $mf = ($m.ManufacturerName | Where-Object { $_ -ne 0 } | ForEach-Object { [char]$_ }) -join ''; $se = ($m.SerialNumberID | Where-Object { $_ -ne 0 } | ForEach-Object { [char]$_ }) -join ''; Write-Output ('ID|{0}|{1}|{2}|{3}' -f $m.InstanceName, $mf, $fn, $se) }");
    reveal_strlit("-ClassName WmiMonitorBrightness | Where-Object { $_.Active }");
    reveal_strlit(").CurrentBrightness");
    reveal_strlit("'INTERNAL|{0}|{1}' -f $b.InstanceName, $b.CurrentBrightness");
    reveal_strlit("'ID|{0}|{1}|{2}|{3}' -f $m.InstanceName, $mf, $fn, $se");
    assert(QUERY_SCRIPT@ =~= QUERY_SCRIPT@.take(37) + "-ClassName WmiMonitorBrightness | Where-Object { $_.Active }"@ + QUERY_SCRIPT@.skip(97));
    text::texts_are_found_anywhere(QUERY_SCRIPT@.take(37), "-ClassName WmiMonitorBrightness | Where-Object { $_.Active }"@, QUERY_SCRIPT@.skip(97));
    assert(QUERY_SCRIPT@ =~= QUERY_SCRIPT@.take(122) + ").CurrentBrightness"@ + QUERY_SCRIPT@.skip(141));
    text::texts_are_found_anywhere(QUERY_SCRIPT@.take(122), ").CurrentBrightness"@, QUERY_SCRIPT@.skip(141));
    assert(SCAN_SCRIPT@ =~= SCAN_SCRIPT@.take(182) + "'INTERNAL|{0}|{1}' -f $b.InstanceName, $b.CurrentBrightness"@ + SCAN_SCRIPT@.skip(241));
    text::texts_are_found_anywhere(SCAN_SCRIPT@.take(182), "'INTERNAL|{0}|{1}' -f $b.InstanceName, $b.CurrentBrightness"@, SCAN_SCRIPT@.skip(241));
    assert(SCAN_SCRIPT@ =~= SCAN_SCRIPT@.take(698) + "'ID|{0}|{1}|{2}|{3}' -f $m.InstanceName, $mf, $fn, $se"@ + SCAN_SCRIPT@.skip(752));
    text::texts_are_found_anywhere(SCAN_SCRIPT@.take(698), "'ID|{0}|{1}|{2}|{3}' -f $m.InstanceName, $mf, $fn, $se"@, SCAN_SCRIPT@.skip(752));
}

} // verus!
