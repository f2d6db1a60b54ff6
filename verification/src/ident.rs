//! Monitor identifiers and model tokens.

use vstd::prelude::*;
use vstd::slice::slice_subrange;
use crate::level;
use crate::numbers;
use crate::text;
use crate::wide;

verus! {

// ---------------------------------------------------------------------------
// Identifiers
// ---------------------------------------------------------------------------

/// The identifier of the monitor at a DDC index.
pub open spec fn ddc_id(index: nat) -> Seq<char> {
    "ddc:"@ + numbers::decimal(index)
}

/// The DDC index that an identifier names.
pub open spec fn ddc_index(id: Seq<char>) -> Option<nat> {
    if "ddc:"@.is_prefix_of(id) {
        numbers::unsigned(id.skip("ddc:"@.len() as int), usize::MAX as nat)
    } else {
        None
    }
}

/// Whether an identifier names a display that is controlled through WMI.
pub open spec fn is_wmi_id(id: Seq<char>) -> bool {
    "wmi:"@.is_prefix_of(id)
}

/// The message for an identifier that names no monitor.
pub open spec fn invalid_id(id: Seq<char>) -> Seq<char> {
    "Invalid monitor ID: "@ + id
}

/// The identifier of the monitor at a DDC index.
pub fn ddc_id_string(index: usize) -> (r: String)
    ensures
        r@ == ddc_id(index as nat),
{
    text::concat2("ddc:", numbers::decimal_string(index as u64).as_str())
}

/// Reads the index out of a DDC identifier.
pub fn parse_ddc_index(id: &str) -> (r: Result<usize, String>)
    ensures
        match r {
            Ok(i) => ddc_index(id@) == Some(i as nat),
            Err(e) => ddc_index(id@) is None && e@ == invalid_id(id@),
        },
{
    let chars = text::chars_of(id);
    let prefix = text::chars_of("ddc:");
    if text::starts_with(chars.as_slice(), prefix.as_slice()) {
        let digits = slice_subrange(chars.as_slice(), prefix.len(), chars.len());
        assert(digits@ =~= id@.skip("ddc:"@.len() as int));
        match numbers::parse_unsigned(digits, usize::MAX as u64) {
            Some(n) => {
                return Ok(n as usize);
            },
            None => {},
        }
    }
    Err(text::concat2("Invalid monitor ID: ", id))
}

/// Where the brightness of a monitor is read.
pub enum BrightnessSource {
    Wmi,
    Ddc { index: usize },
}

/// What a request to set brightness comes to.
pub enum SetRequest {
    Wmi { percent: u32 },
    Ddc { index: usize, percent: u32 },
}

/// Decides where the brightness of the monitor with an identifier is read.
pub fn get_brightness_blocking(id: String) -> (r: Result<BrightnessSource, String>)
    ensures
        match r {
            Ok(BrightnessSource::Wmi) => is_wmi_id(id@),
            Ok(BrightnessSource::Ddc { index }) => !is_wmi_id(id@) && ddc_index(id@) == Some(
                index as nat,
            ),
            Err(e) => !is_wmi_id(id@) && ddc_index(id@) is None && e@ == invalid_id(id@),
        },
{
    let chars = text::chars_of(id.as_str());
    let wmi = text::chars_of("wmi:");
    if text::starts_with(chars.as_slice(), wmi.as_slice()) {
        return Ok(BrightnessSource::Wmi);
    }
    let ddc = text::chars_of("ddc:");
    if text::starts_with(chars.as_slice(), ddc.as_slice()) {
        return match parse_ddc_index(id.as_str()) {
            Ok(index) => Ok(BrightnessSource::Ddc { index }),
            Err(e) => Err(e),
        };
    }
    Err(text::concat2("Invalid monitor ID: ", id.as_str()))
}

/// Decides what a request to set the brightness of a monitor comes to. The percentage is clamped
/// to the safe range before anything is done with it.
pub fn set_brightness_blocking(id: String, value: u32) -> (r: Result<SetRequest, String>)
    ensures
        match r {
            Ok(SetRequest::Wmi { percent }) => is_wmi_id(id@) && percent == level::clamped(value as int),
            Ok(SetRequest::Ddc { index, percent }) => {
                &&& !is_wmi_id(id@)
                &&& ddc_index(id@) == Some(index as nat)
                &&& percent == level::clamped(value as int)
            },
            Err(e) => !is_wmi_id(id@) && ddc_index(id@) is None && e@ == invalid_id(id@),
        },
{
    let percent = level::clamp_brightness(value);
    match get_brightness_blocking(id) {
        Ok(BrightnessSource::Wmi) => Ok(SetRequest::Wmi { percent }),
        Ok(BrightnessSource::Ddc { index }) => Ok(SetRequest::Ddc { index, percent }),
        Err(e) => Err(e),
    }
}

// ---------------------------------------------------------------------------
// Model tokens
// ---------------------------------------------------------------------------

/// The model token of an instance name or device name such as `DISPLAY\MSI30D2\5&1f9d8a86_0`: the
/// second segment, without surrounding white space and in upper case. There is none exactly where
/// that segment is missing or blank.
pub open spec fn token_of(instance: Seq<char>) -> Option<Seq<char>> {
    match text::second_segment(instance, '\\') {
        Some(segment) => if text::trimmed(segment).len() > 0 {
            Some(text::upper_text(text::trimmed(segment)))
        } else {
            None
        },
        None => None,
    }
}

/// Extracts the model token of an instance name. Tokens are in upper case, so that they can be
/// matched with those of the devices on the desktop. A token that is given is never empty.
pub fn extract_token_from_instance(instance: &str) -> (r: Option<String>)
    ensures
        text::text_of(r) == token_of(instance@),
        r matches Some(t) ==> t@.len() > 0,
{
    let chars = text::chars_of(instance);
    match text::segment_after(chars.as_slice(), '\\') {
        Some(segment) => {
            let name = text::string_of(text::trim(segment.as_slice()));
            text::non_empty_string(name.as_str().to_uppercase())
        },
        None => None,
    }
}

/// The model token of a device on the desktop, given its zero-terminated device name; there is
/// none if the device name could not be had.
pub open spec fn device_token(device_id: Option<Seq<u16>>) -> Option<Seq<char>> {
    match device_id {
        Some(raw) => token_of(wide::wide_text(raw)),
        None => None,
    }
}

/// The units of an optional buffer.
pub open spec fn units_of(o: Option<Vec<u16>>) -> Option<Seq<u16>> {
    match o {
        Some(v) => Some(v@),
        None => None,
    }
}

/// Extracts the model token of a device on the desktop. A token that is given is never empty.
pub fn hmonitor_device_token(device_id: &Option<Vec<u16>>) -> (r: Option<String>)
    ensures
        text::text_of(r) == device_token(units_of(*device_id)),
        r matches Some(t) ==> t@.len() > 0,
{
    match device_id {
        Some(raw) => extract_token_from_instance(wide::wide_to_string(raw.as_slice()).as_str()),
        None => None,
    }
}

// ---------------------------------------------------------------------------
// Laws
// ---------------------------------------------------------------------------

/// The identifier of a DDC monitor names its index, and is no WMI identifier.
pub proof fn ddc_id_reads_back(index: nat)
    requires
        index <= usize::MAX,
    ensures
        ddc_index(ddc_id(index)) == Some(index),
        !is_wmi_id(ddc_id(index)),
{
    reveal_strlit("ddc:");
    reveal_strlit("wmi:");
    let id = ddc_id(index);
    assert(id.subrange(0, 4) =~= "ddc:"@);
    assert(id.skip(4) =~= numbers::decimal(index));
    numbers::decimal_reads_back(index, usize::MAX as nat);
    assert("ddc:"@[0] == 'd');
    assert("wmi:"@[0] == 'w');
    if is_wmi_id(id) {
        assert(id.subrange(0, 4)[0] == 'w');
    }
}

/// Monitors at different indices have different identifiers.
pub proof fn ddc_id_injective(i: nat, j: nat)
    requires
        ddc_id(i) == ddc_id(j),
    ensures
        i == j,
{
    let n = "ddc:"@.len() as int;
    assert(ddc_id(i).skip(n) =~= numbers::decimal(i));
    assert(ddc_id(j).skip(n) =~= numbers::decimal(j));
    numbers::decimal_injective(i, j);
}

/// No identifier names both a WMI display and a DDC monitor.
pub proof fn routes_are_exclusive(id: Seq<char>)
    ensures
        !(is_wmi_id(id) && ddc_index(id) is Some),
{
    reveal_strlit("ddc:");
    reveal_strlit("wmi:");
    assert("ddc:"@[0] == 'd');
    assert("wmi:"@[0] == 'w');
    if is_wmi_id(id) && "ddc:"@.is_prefix_of(id) {
        assert(id.subrange(0, 4)[0] == id[0]);
    }
}

/// The identifier of a DDC monitor is four characters that say so, and its index in decimal.
pub proof fn ddc_ids_are_spelled_out(index: nat)
    ensures
        ddc_id(index) == seq!['d', 'd', 'c', ':'] + numbers::decimal(index),
{
    reveal_strlit("ddc:");
    assert(ddc_id(index) =~= seq!['d', 'd', 'c', ':'] + numbers::decimal(index));
}

/// Whatever follows the first four characters of a WMI identifier, it is one; and whatever numeral
/// follows those of a DDC identifier, it names that index. Anything else names nothing.
pub proof fn ids_are_told_by_their_beginning(id: Seq<char>, rest: Seq<char>)
    ensures
        is_wmi_id(seq!['w', 'm', 'i', ':'] + rest),
        ddc_index(seq!['d', 'd', 'c', ':'] + rest) == numbers::unsigned(rest, usize::MAX as nat),
        is_wmi_id(id) ==> id.len() >= 4 && id.take(4) == seq!['w', 'm', 'i', ':'],
        ddc_index(id) is Some ==> id.len() >= 4 && id.take(4) == seq!['d', 'd', 'c', ':'],
{
    reveal_strlit("ddc:");
    reveal_strlit("wmi:");
    let w = seq!['w', 'm', 'i', ':'] + rest;
    let d = seq!['d', 'd', 'c', ':'] + rest;
    assert(w.subrange(0, 4) =~= "wmi:"@);
    assert(d.subrange(0, 4) =~= "ddc:"@);
    assert(d.skip(4) =~= rest);
    if is_wmi_id(id) {
        assert(id.take(4) =~= id.subrange(0, 4));
        assert(id.take(4) =~= seq!['w', 'm', 'i', ':']);
    }
    if ddc_index(id) is Some {
        assert(id.take(4) =~= id.subrange(0, 4));
        assert(id.take(4) =~= seq!['d', 'd', 'c', ':']);
    }
}

/// The message about an identifier ends in the identifier.
pub proof fn invalid_ids_are_quoted(id: Seq<char>)
    ensures
        invalid_id(id).skip(20) == id,
{
    reveal_strlit("Invalid monitor ID: ");
    assert(invalid_id(id).skip(20) =~= id);
}

/// The token of a name lies between its first two backslashes, or after the only one; white space
/// around it does not count, and it is in upper case. What stands before and after makes no
/// difference. Where there is no backslash, or only white space, there is no token.
pub proof fn token_is_the_second_segment(
    bus: Seq<char>,
    before: Seq<char>,
    model: Seq<char>,
    after: Seq<char>,
    rest: Seq<char>,
)
    requires
        !bus.contains('\\'),
        !model.contains('\\'),
        forall|i: int| 0 <= i < before.len() ==> text::is_white_space(#[trigger] before[i]),
        forall|i: int| 0 <= i < after.len() ==> text::is_white_space(#[trigger] after[i]),
        model.len() > 0 ==> !text::is_white_space(model[0]) && !text::is_white_space(model.last()),
    ensures
        ({
            let token = if model.len() > 0 {
                Some(text::upper_text(model))
            } else {
                None
            };
            let segment = before + model + after;
            &&& token_of(bus + seq!['\\'] + segment + seq!['\\'] + rest) == token
            &&& token_of(bus + seq!['\\'] + segment) == token
            &&& token_of(bus) is None
        }),
{
    let segment = before + model + after;
    assert(!segment.contains('\\')) by {
        if segment.contains('\\') {
            let i = choose|i: int| 0 <= i < segment.len() && segment[i] == '\\';
            if i < before.len() {
                assert(before[i] == '\\');
            } else if i < before.len() + model.len() {
                assert(model[i - before.len()] == '\\');
                assert(model.contains('\\'));
            } else {
                assert(after[i - before.len() - model.len()] == '\\');
            }
        }
    }
    text::second_segment_is_between(bus, segment, rest, '\\');
    text::trimming_leaves_the_middle(before, model, after);
}

/// The token of a device is that of its name, up to the first zero.
pub proof fn device_tokens_are_those_of_names(name: Seq<char>, junk: Seq<u16>)
    requires
        !name.contains('\0'),
        name.len() > 0 ==> !text::is_white_space(name[0]) && !text::is_white_space(name.last()),
    ensures
        device_token(Some(wide::utf16_of(name) + seq![0u16] + junk)) == token_of(name),
        device_token(None) is None,
{
    wide::lemma_utf16_of_zero_free(name);
    wide::buffers_end_at_the_first_zero(wide::utf16_of(name), junk);
    wide::utf16_decodes_back(name);
    text::trimming_leaves_the_middle(Seq::empty(), name, Seq::empty());
    assert(Seq::<char>::empty() + name + Seq::<char>::empty() =~= name);
}

} // verus!
