//! The native WMI interface: which COM calls are made in which order, what is released when, and
//! what the answers mean.
//!
//! A session begins with `WmiCall::CreateLocator`. After each call its reply is judged: the step
//! tells which objects to release, in order, and then which call comes next, or how the session
//! ends.

use vstd::prelude::*;
use crate::ident;
use crate::numbers;
use crate::text;
use crate::wide;

verus! {

// ---------------------------------------------------------------------------
// Sessions
// ---------------------------------------------------------------------------

/// An object that a session holds.
#[derive(Debug, Clone, Copy, PartialEq, Eq, Structural)]
pub enum ComObject {
    Locator,
    Services,
    Enumerator,
    Instance,
    Class,
    InParamsDef,
    InParams,
    OutParams,
}

/// What a session is for.
#[derive(Debug, Clone, Copy, PartialEq, Eq, Structural)]
pub enum Purpose {
    /// Setting the brightness of the internal display.
    Adjust,
    /// Reading its brightness and its name.
    Query,
}

/// A call of a session.
#[derive(Debug, Clone, Copy, PartialEq, Eq, Structural)]
pub enum WmiCall {
    CreateLocator,
    ConnectServer,
    SetProxyBlanket,
    ExecQuery,
    NextInstance,
    /// Reads the path of the instance.
    GetRelPath,
    GetClass,
    GetMethod,
    SpawnInParams,
    PutTimeout,
    PutBrightness,
    ExecMethod,
    /// Reads the brightness of the instance.
    GetCurrent,
    /// Reads the name of the instance.
    GetInstanceName,
}

/// How a call was answered.
#[derive(Debug, Clone, Copy)]
pub struct ComReply {
    /// The status code.
    pub hr: i32,
    /// Whether an object was handed out.
    pub present: bool,
    /// How many instances were handed out.
    pub returned: u32,
    /// Whether the property that was read is a text.
    pub is_text: bool,
}

/// How a session goes on.
pub enum ComNext {
    Call { call: WmiCall },
    Fail { message: String },
    Done,
}

/// What follows a reply.
pub struct ComStep {
    /// The objects to release, in order.
    pub release: Vec<ComObject>,
    pub next: ComNext,
}

/// How a session goes on.
#[verifier::ext_equal]
pub enum NextView {
    Call(WmiCall),
    Fail(Seq<char>),
    Done,
}

/// What follows a reply.
#[verifier::ext_equal]
pub struct StepView {
    pub release: Seq<ComObject>,
    pub next: NextView,
}

impl View for ComStep {
    type V = StepView;

    open spec fn view(&self) -> StepView {
        StepView {
            release: self.release@,
            next: match self.next {
                ComNext::Call { call } => NextView::Call(call),
                ComNext::Fail { message } => NextView::Fail(message@),
                ComNext::Done => NextView::Done,
            },
        }
    }
}

/// Whether a call is one of a session.
pub open spec fn belongs(purpose: Purpose, call: WmiCall) -> bool {
    match call {
        WmiCall::CreateLocator
        | WmiCall::ConnectServer
        | WmiCall::SetProxyBlanket
        | WmiCall::ExecQuery
        | WmiCall::NextInstance => true,
        WmiCall::GetCurrent | WmiCall::GetInstanceName => purpose == Purpose::Query,
        _ => purpose == Purpose::Adjust,
    }
}

/// A message that ends in a status code.
pub open spec fn with_code(message: Seq<char>, hr: i32) -> Seq<char> {
    message + numbers::hex(numbers::as_unsigned(hr) as nat, 8)
}

/// A step that releases `always`, and, where the call failed, `on_failure` as well and ends the
/// session.
pub open spec fn step_of(
    ok: bool,
    always: Seq<ComObject>,
    next: NextView,
    on_failure: Seq<ComObject>,
    message: Seq<char>,
) -> StepView {
    if ok {
        StepView { release: always, next }
    } else {
        StepView { release: always + on_failure, next: NextView::Fail(message) }
    }
}

/// The message where there is no display to control.
pub open spec fn no_instance(purpose: Purpose) -> Seq<char> {
    match purpose {
        Purpose::Adjust => "No active WmiMonitorBrightnessMethods instance found"@,
        Purpose::Query => "No active WmiMonitorBrightness instance found"@,
    }
}

/// What follows the reply to a call.
pub open spec fn judged(purpose: Purpose, call: WmiCall, reply: ComReply) -> StepView {
    let ok = reply.hr >= 0;
    let handed = ok && reply.present;
    let both = seq![ComObject::Services, ComObject::Locator];
    let hr = reply.hr;
    match call {
        WmiCall::CreateLocator => step_of(
            handed,
            seq![],
            NextView::Call(WmiCall::ConnectServer),
            seq![],
            with_code("CoCreateInstance(CLSID_WbemLocator) failed: 0x"@, hr),
        ),
        WmiCall::ConnectServer => step_of(
            handed,
            seq![],
            NextView::Call(WmiCall::SetProxyBlanket),
            seq![ComObject::Locator],
            with_code("ConnectServer(ROOT\\WMI) failed: 0x"@, hr),
        ),
        WmiCall::SetProxyBlanket => step_of(
            ok,
            seq![],
            NextView::Call(WmiCall::ExecQuery),
            both,
            with_code("CoSetProxyBlanket failed: 0x"@, hr),
        ),
        WmiCall::ExecQuery => step_of(
            handed,
            seq![],
            NextView::Call(WmiCall::NextInstance),
            both,
            with_code("ExecQuery failed: 0x"@, hr),
        ),
        WmiCall::NextInstance => step_of(
            handed && reply.returned != 0,
            seq![ComObject::Enumerator],
            NextView::Call(
                match purpose {
                    Purpose::Adjust => WmiCall::GetRelPath,
                    Purpose::Query => WmiCall::GetCurrent,
                },
            ),
            both,
            no_instance(purpose),
        ),
        WmiCall::GetRelPath => step_of(
            ok && reply.is_text,
            seq![ComObject::Instance],
            NextView::Call(WmiCall::GetClass),
            both,
            with_code("Failed to retrieve __RELPATH: 0x"@, hr),
        ),
        WmiCall::GetClass => step_of(
            handed,
            seq![],
            NextView::Call(WmiCall::GetMethod),
            both,
            with_code("GetObject(WmiMonitorBrightnessMethods) failed: 0x"@, hr),
        ),
        WmiCall::GetMethod => step_of(
            handed,
            seq![ComObject::Class],
            NextView::Call(WmiCall::SpawnInParams),
            both,
            with_code("GetMethod(WmiSetBrightness) failed: 0x"@, hr),
        ),
        WmiCall::SpawnInParams => step_of(
            handed,
            seq![ComObject::InParamsDef],
            NextView::Call(WmiCall::PutTimeout),
            both,
            with_code("SpawnInstance failed: 0x"@, hr),
        ),
        WmiCall::PutTimeout => step_of(
            ok,
            seq![],
            NextView::Call(WmiCall::PutBrightness),
            seq![ComObject::InParams] + both,
            with_code("Put(Timeout) failed: 0x"@, hr),
        ),
        WmiCall::PutBrightness => step_of(
            ok,
            seq![],
            NextView::Call(WmiCall::ExecMethod),
            seq![ComObject::InParams] + both,
            with_code("Put(Brightness) failed: 0x"@, hr),
        ),
        WmiCall::ExecMethod => step_of(
            ok,
            (if reply.present {
                seq![ComObject::InParams, ComObject::OutParams]
            } else {
                seq![ComObject::InParams]
            }) + both,
            NextView::Done,
            seq![],
            with_code("ExecMethod(WmiSetBrightness) failed: 0x"@, hr),
        ),
        WmiCall::GetCurrent => StepView {
            release: seq![],
            next: NextView::Call(WmiCall::GetInstanceName),
        },
        WmiCall::GetInstanceName => StepView {
            release: seq![ComObject::Instance] + both,
            next: NextView::Done,
        },
    }
}

fn make_step(
    ok: bool,
    always: Vec<ComObject>,
    next: ComNext,
    on_failure: Vec<ComObject>,
    message: String,
) -> (r: ComStep)
    requires
        !(next is Fail),
    ensures
        r@ == step_of(
            ok,
            always@,
            match next {
                ComNext::Call { call } => NextView::Call(call),
                _ => NextView::Done,
            },
            on_failure@,
            message@,
        ),
{
    let mut release = always;
    let mut on_failure = on_failure;
    if ok {
        ComStep { release, next }
    } else {
        release.append(&mut on_failure);
        ComStep { release, next: ComNext::Fail { message } }
    }
}

fn coded(message: &str, hr: i32) -> (r: String)
    ensures
        r@ == with_code(message@, hr),
{
    text::concat2(message, numbers::hex_string(hr).as_str())
}

/// Judges a reply of the calls that connect to WMI.
fn connect_wmi(purpose: Purpose, call: WmiCall, reply: ComReply) -> (r: ComStep)
    requires
        call == WmiCall::CreateLocator || call == WmiCall::ConnectServer || call
            == WmiCall::SetProxyBlanket,
    ensures
        r@ == judged(purpose, call, reply),
{
    let ok = reply.hr >= 0;
    let handed = ok && reply.present;
    match call {
        WmiCall::CreateLocator => make_step(
            handed,
            vec![],
            ComNext::Call { call: WmiCall::ConnectServer },
            vec![],
            coded("CoCreateInstance(CLSID_WbemLocator) failed: 0x", reply.hr),
        ),
        WmiCall::ConnectServer => make_step(
            handed,
            vec![],
            ComNext::Call { call: WmiCall::SetProxyBlanket },
            vec![ComObject::Locator],
            coded("ConnectServer(ROOT\\WMI) failed: 0x", reply.hr),
        ),
        _ => make_step(
            ok,
            vec![],
            ComNext::Call { call: WmiCall::ExecQuery },
            vec![ComObject::Services, ComObject::Locator],
            coded("CoSetProxyBlanket failed: 0x", reply.hr),
        ),
    }
}

/// Judges the reply to a call of a session: what is released, and how the session goes on.
pub fn judge_reply(purpose: Purpose, call: WmiCall, reply: ComReply) -> (r: ComStep)
    requires
        belongs(purpose, call),
    ensures
        r@ == judged(purpose, call, reply),
        r.next matches ComNext::Call { call: following } ==> belongs(purpose, following),
{
    let ok = reply.hr >= 0;
    let handed = ok && reply.present;
    let both = vec![ComObject::Services, ComObject::Locator];
    match call {
        WmiCall::CreateLocator | WmiCall::ConnectServer | WmiCall::SetProxyBlanket => connect_wmi(
            purpose,
            call,
            reply,
        ),
        WmiCall::ExecQuery => make_step(
            handed,
            vec![],
            ComNext::Call { call: WmiCall::NextInstance },
            both,
            coded("ExecQuery failed: 0x", reply.hr),
        ),
        WmiCall::NextInstance => {
            let (following, message) = match purpose {
                Purpose::Adjust => (
                    WmiCall::GetRelPath,
                    "No active WmiMonitorBrightnessMethods instance found".to_string(),
                ),
                Purpose::Query => (
                    WmiCall::GetCurrent,
                    "No active WmiMonitorBrightness instance found".to_string(),
                ),
            };
            make_step(
                handed && reply.returned != 0,
                vec![ComObject::Enumerator],
                ComNext::Call { call: following },
                both,
                message,
            )
        },
        WmiCall::GetRelPath => make_step(
            ok && reply.is_text,
            vec![ComObject::Instance],
            ComNext::Call { call: WmiCall::GetClass },
            both,
            coded("Failed to retrieve __RELPATH: 0x", reply.hr),
        ),
        WmiCall::GetClass => make_step(
            handed,
            vec![],
            ComNext::Call { call: WmiCall::GetMethod },
            both,
            coded("GetObject(WmiMonitorBrightnessMethods) failed: 0x", reply.hr),
        ),
        WmiCall::GetMethod => make_step(
            handed,
            vec![ComObject::Class],
            ComNext::Call { call: WmiCall::SpawnInParams },
            both,
            coded("GetMethod(WmiSetBrightness) failed: 0x", reply.hr),
        ),
        WmiCall::SpawnInParams => make_step(
            handed,
            vec![ComObject::InParamsDef],
            ComNext::Call { call: WmiCall::PutTimeout },
            both,
            coded("SpawnInstance failed: 0x", reply.hr),
        ),
        WmiCall::PutTimeout => make_step(
            ok,
            vec![],
            ComNext::Call { call: WmiCall::PutBrightness },
            vec![ComObject::InParams, ComObject::Services, ComObject::Locator],
            coded("Put(Timeout) failed: 0x", reply.hr),
        ),
        WmiCall::PutBrightness => make_step(
            ok,
            vec![],
            ComNext::Call { call: WmiCall::ExecMethod },
            vec![ComObject::InParams, ComObject::Services, ComObject::Locator],
            coded("Put(Brightness) failed: 0x", reply.hr),
        ),
        WmiCall::ExecMethod => {
            let always = if reply.present {
                vec![
                    ComObject::InParams,
                    ComObject::OutParams,
                    ComObject::Services,
                    ComObject::Locator,
                ]
            } else {
                vec![ComObject::InParams, ComObject::Services, ComObject::Locator]
            };
            make_step(
                ok,
                always,
                ComNext::Done,
                vec![],
                coded("ExecMethod(WmiSetBrightness) failed: 0x", reply.hr),
            )
        },
        WmiCall::GetCurrent => ComStep {
            release: vec![],
            next: ComNext::Call { call: WmiCall::GetInstanceName },
        },
        WmiCall::GetInstanceName => ComStep {
            release: vec![ComObject::Instance, ComObject::Services, ComObject::Locator],
            next: ComNext::Done,
        },
    }
}

// ---------------------------------------------------------------------------
// What the calls are handed
// ---------------------------------------------------------------------------

/// The namespace that `ConnectServer` connects to.
pub const NAMESPACE: &'static str = "ROOT\\WMI";

/// The language of the text that `ExecQuery` is handed.
pub const QUERY_LANGUAGE: &'static str = "WQL";

/// The property that `GetRelPath` reads.
pub const PATH_PROPERTY: &'static str = "__RELPATH";

/// The class that `GetClass` gets.
pub const METHODS_CLASS: &'static str = "WmiMonitorBrightnessMethods";

/// The method that `GetMethod` gets and `ExecMethod` executes.
pub const SET_METHOD: &'static str = "WmiSetBrightness";

/// The parameter that `PutTimeout` fills.
pub const TIMEOUT_PROPERTY: &'static str = "Timeout";

/// What `PutTimeout` fills it with.
pub const TIMEOUT: i32 = 1;

/// The parameter that `PutBrightness` fills.
pub const BRIGHTNESS_PROPERTY: &'static str = "Brightness";

/// The property that `GetCurrent` reads.
pub const CURRENT_PROPERTY: &'static str = "CurrentBrightness";

/// The property that `GetInstanceName` reads.
pub const NAME_PROPERTY: &'static str = "InstanceName";

/// The query that `ExecQuery` is handed: the active instances of the class that sets the brightness,
/// or of the one that tells it.
pub fn query_text(purpose: Purpose) -> (r: &'static str)
    ensures
        r@ == (match purpose {
            Purpose::Adjust => "SELECT * FROM WmiMonitorBrightnessMethods WHERE Active = True"@,
            Purpose::Query => "SELECT * FROM WmiMonitorBrightness WHERE Active = True"@,
        }),
{
    match purpose {
        Purpose::Adjust => "SELECT * FROM WmiMonitorBrightnessMethods WHERE Active = True",
        Purpose::Query => "SELECT * FROM WmiMonitorBrightness WHERE Active = True",
    }
}

/// Begins a session that sets a brightness: the first call, and the byte that `PutBrightness` hands
/// over.
pub fn set_wmi_brightness(brightness: u32) -> (r: (WmiCall, u8))
    ensures
        r.0 == WmiCall::CreateLocator,
        r.1 == brightness % 256,
{
    assert(brightness as u8 == brightness % 256) by (bit_vector);
    (WmiCall::CreateLocator, #[verifier::truncate] (brightness as u8))
}

// ---------------------------------------------------------------------------
// Answers
// ---------------------------------------------------------------------------

/// A property value.
pub enum Variant {
    Byte { byte: u8 },
    Word { word: u32 },
    Signed { signed: i32 },
    /// A text, in UTF-16.
    Text { units: Vec<u16> },
    /// A value of another type.
    Other { vt: u32 },
}

/// The type code of a text.
pub const VT_TEXT: u32 = 8;

/// The brightness that a property value stands for, or its type code if it stands for none.
pub open spec fn brightness_in(v: Variant) -> Result<int, int> {
    match v {
        Variant::Byte { byte } => Ok(byte as int),
        Variant::Word { word } => Ok(word as int),
        Variant::Signed { signed } => Ok(numbers::as_unsigned(signed)),
        Variant::Text { .. } => Err(VT_TEXT as int),
        Variant::Other { vt } => Err(vt as int),
    }
}

/// The model token in a property value.
pub open spec fn token_in(v: Variant) -> Option<Seq<char>> {
    match v {
        Variant::Text { units } => ident::token_of(wide::utf16_text(units@)),
        _ => None,
    }
}

/// Ends a session that reads: the brightness and the model token of the internal display, given the
/// status of reading the brightness and the two property values. A token that is given is never
/// empty.
pub fn query_wmi_brightness_and_token(hr: i32, current: Variant, instance: Variant) -> (r: Result<
    (u32, Option<String>),
    String,
>)
    ensures
        if hr < 0 {
            r matches Err(e) && e@ == with_code("Failed to read CurrentBrightness: 0x"@, hr)
        } else {
            match brightness_in(current) {
                Ok(b) => {
                    &&& r matches Ok((brightness, token))
                    &&& brightness == b
                    &&& text::text_of(token) == token_in(instance)
                    &&& token matches Some(t) ==> t@.len() > 0
                },
                Err(vt) => r matches Err(e) && e@
                    == "Unexpected CurrentBrightness VARIANT type: "@ + numbers::decimal(vt as nat),
            }
        },
{
    if hr < 0 {
        return Err(coded("Failed to read CurrentBrightness: 0x", hr));
    }
    let brightness = match current {
        Variant::Byte { byte } => byte as u32,
        Variant::Word { word } => word,
        Variant::Signed { signed } => numbers::unsigned_word(signed),
        Variant::Text { .. } => {
            return Err(
                text::concat2(
                    "Unexpected CurrentBrightness VARIANT type: ",
                    numbers::decimal_string(VT_TEXT as u64).as_str(),
                ),
            );
        },
        Variant::Other { vt } => {
            return Err(
                text::concat2(
                    "Unexpected CurrentBrightness VARIANT type: ",
                    numbers::decimal_string(vt as u64).as_str(),
                ),
            );
        },
    };
    let token = match instance {
        Variant::Text { units } => {
            let name = text::string_of(wide::decode_utf16(units.as_slice()).as_slice());
            ident::extract_token_from_instance(name.as_str())
        },
        _ => None,
    };
    Ok((brightness, token))
}

/// The brightness of the internal display, out of what a session read.
pub fn query_wmi_brightness(read: Result<(u32, Option<String>), String>) -> (r: Result<u32, String>)
    ensures
        match read {
            Ok((b, _)) => r == Ok::<u32, String>(b),
            Err(e) => r == Err::<u32, String>(e),
        },
{
    match read {
        Ok((b, _)) => Ok(b),
        Err(e) => Err(e),
    }
}

// ---------------------------------------------------------------------------
// Laws
// ---------------------------------------------------------------------------

/// The objects that a session holds when it makes a call.
pub open spec fn held(call: WmiCall) -> Set<ComObject> {
    match call {
        WmiCall::CreateLocator => set![],
        WmiCall::ConnectServer => set![ComObject::Locator],
        WmiCall::SetProxyBlanket | WmiCall::ExecQuery | WmiCall::GetClass => set![
            ComObject::Locator,
            ComObject::Services,
        ],
        WmiCall::NextInstance => set![
            ComObject::Locator,
            ComObject::Services,
            ComObject::Enumerator,
        ],
        WmiCall::GetRelPath | WmiCall::GetCurrent | WmiCall::GetInstanceName => set![
            ComObject::Locator,
            ComObject::Services,
            ComObject::Instance,
        ],
        WmiCall::GetMethod => set![ComObject::Locator, ComObject::Services, ComObject::Class],
        WmiCall::SpawnInParams => set![
            ComObject::Locator,
            ComObject::Services,
            ComObject::InParamsDef,
        ],
        WmiCall::PutTimeout | WmiCall::PutBrightness | WmiCall::ExecMethod => set![
            ComObject::Locator,
            ComObject::Services,
            ComObject::InParams,
        ],
    }
}

/// The object that a call may hand out.
pub open spec fn product(call: WmiCall) -> Option<ComObject> {
    match call {
        WmiCall::CreateLocator => Some(ComObject::Locator),
        WmiCall::ConnectServer => Some(ComObject::Services),
        WmiCall::ExecQuery => Some(ComObject::Enumerator),
        WmiCall::NextInstance => Some(ComObject::Instance),
        WmiCall::GetClass => Some(ComObject::Class),
        WmiCall::GetMethod => Some(ComObject::InParamsDef),
        WmiCall::SpawnInParams => Some(ComObject::InParams),
        WmiCall::ExecMethod => Some(ComObject::OutParams),
        _ => None,
    }
}

/// The objects that a session holds after a call was answered.
pub open spec fn held_after(call: WmiCall, reply: ComReply) -> Set<ComObject> {
    match product(call) {
        Some(o) => if reply.present {
            held(call).insert(o)
        } else {
            held(call)
        },
        None => held(call),
    }
}

/// Whether a call hands out an object although its status says that there is none.
pub open spec fn hands_out_in_vain(call: WmiCall, reply: ComReply) -> bool {
    &&& product(call) is Some
    &&& call != WmiCall::ExecMethod
    &&& reply.present
    &&& reply.hr < 0 || (call == WmiCall::NextInstance && reply.returned == 0)
}

/// No object leaks and none is released twice: a step releases only objects that are held, each
/// once. What is left is what the next call needs, and at the end of a session nothing is left.
/// The law leaves out a call that hands out an object and reports that it failed.
pub proof fn objects_are_released_once(purpose: Purpose, call: WmiCall, reply: ComReply)
    requires
        belongs(purpose, call),
        !hands_out_in_vain(call, reply),
    ensures
        ({
            let step = judged(purpose, call, reply);
            let left = held_after(call, reply).difference(step.release.to_set());
            &&& step.release.no_duplicates()
            &&& step.release.to_set().subset_of(held_after(call, reply))
            &&& match step.next {
                NextView::Call(following) => left =~= held(following),
                _ => left =~= Set::<ComObject>::empty(),
            }
        }),
{
    let step = judged(purpose, call, reply);
    let release = step.release;
    assert forall|o: ComObject| release.to_set().contains(o) <==> release.contains(o) by {}
    lemma_members(release);
}

proof fn lemma_members(s: Seq<ComObject>)
    ensures
        s.len() == 0 ==> forall|o: ComObject| !#[trigger] s.to_set().contains(o),
        s.len() == 1 ==> forall|o: ComObject| #[trigger] s.to_set().contains(o) <==> o == s[0],
        s.len() == 2 ==> forall|o: ComObject| #[trigger]
            s.to_set().contains(o) <==> o == s[0] || o == s[1],
        s.len() == 3 ==> forall|o: ComObject| #[trigger]
            s.to_set().contains(o) <==> o == s[0] || o == s[1] || o == s[2],
        s.len() == 4 ==> forall|o: ComObject| #[trigger]
            s.to_set().contains(o) <==> o == s[0] || o == s[1] || o == s[2] || o == s[3],
{
    assert forall|o: ComObject| #[trigger] s.to_set().contains(o) <==> s.contains(o) by {}
    if s.len() == 1 {
        assert(s.contains(s[0]));
    } else if s.len() == 2 {
        assert(s.contains(s[0]) && s.contains(s[1]));
    } else if s.len() == 3 {
        assert(s.contains(s[0]) && s.contains(s[1]) && s.contains(s[2]));
    } else if s.len() == 4 {
        assert(s.contains(s[0]) && s.contains(s[1]) && s.contains(s[2]) && s.contains(s[3]));
    }
}

/// The number of calls that a session still makes at most.
pub open spec fn calls_left(call: WmiCall) -> nat {
    match call {
        WmiCall::CreateLocator => 12,
        WmiCall::ConnectServer => 11,
        WmiCall::SetProxyBlanket => 10,
        WmiCall::ExecQuery => 9,
        WmiCall::NextInstance => 8,
        WmiCall::GetRelPath => 7,
        WmiCall::GetClass => 6,
        WmiCall::GetMethod => 5,
        WmiCall::SpawnInParams => 4,
        WmiCall::PutTimeout => 3,
        WmiCall::PutBrightness => 2,
        WmiCall::ExecMethod => 1,
        WmiCall::GetCurrent => 2,
        WmiCall::GetInstanceName => 1,
    }
}

/// A session ends, after twelve calls at the latest, whatever the replies are.
pub proof fn sessions_end(purpose: Purpose, call: WmiCall, reply: ComReply)
    requires
        belongs(purpose, call),
    ensures
        calls_left(call) <= 12,
        judged(purpose, call, reply).next matches NextView::Call(following) ==> {
            &&& belongs(purpose, following)
            &&& calls_left(following) < calls_left(call)
        },
{
}

/// A call that succeeds leads on to the next one, whatever its status code is: the calls that
/// connect, the query, and then those that set or those that read.
pub proof fn sessions_go_through_their_calls(purpose: Purpose, reply: ComReply)
    requires
        reply.hr >= 0,
        reply.present,
        reply.returned > 0,
        reply.is_text,
    ensures
        judged(purpose, WmiCall::CreateLocator, reply).next == NextView::Call(
            WmiCall::ConnectServer,
        ),
        judged(purpose, WmiCall::ConnectServer, reply).next == NextView::Call(
            WmiCall::SetProxyBlanket,
        ),
        judged(purpose, WmiCall::SetProxyBlanket, reply).next == NextView::Call(WmiCall::ExecQuery),
        judged(purpose, WmiCall::ExecQuery, reply).next == NextView::Call(WmiCall::NextInstance),
        judged(Purpose::Adjust, WmiCall::NextInstance, reply).next == NextView::Call(
            WmiCall::GetRelPath,
        ),
        judged(Purpose::Adjust, WmiCall::GetRelPath, reply).next == NextView::Call(
            WmiCall::GetClass,
        ),
        judged(Purpose::Adjust, WmiCall::GetClass, reply).next == NextView::Call(
            WmiCall::GetMethod,
        ),
        judged(Purpose::Adjust, WmiCall::GetMethod, reply).next == NextView::Call(
            WmiCall::SpawnInParams,
        ),
        judged(Purpose::Adjust, WmiCall::SpawnInParams, reply).next == NextView::Call(
            WmiCall::PutTimeout,
        ),
        judged(Purpose::Adjust, WmiCall::PutTimeout, reply).next == NextView::Call(
            WmiCall::PutBrightness,
        ),
        judged(Purpose::Adjust, WmiCall::PutBrightness, reply).next == NextView::Call(
            WmiCall::ExecMethod,
        ),
        judged(Purpose::Adjust, WmiCall::ExecMethod, reply).next == NextView::Done,
        judged(Purpose::Query, WmiCall::NextInstance, reply).next == NextView::Call(
            WmiCall::GetCurrent,
        ),
        judged(Purpose::Query, WmiCall::GetCurrent, reply).next == NextView::Call(
            WmiCall::GetInstanceName,
        ),
        judged(Purpose::Query, WmiCall::GetInstanceName, reply).next == NextView::Done,
{
}

/// A call with a negative status ends its session in a failure, but for the two calls that read
/// properties at the end of a reading session. So does a call that should have handed out an object
/// and did not, a query without an instance, and a path that is no text. No other reply does.
pub proof fn sessions_fail_with_their_calls(purpose: Purpose, call: WmiCall, reply: ComReply)
    requires
        belongs(purpose, call),
    ensures
        ({
            let reads = call == WmiCall::GetCurrent || call == WmiCall::GetInstanceName;
            let hands_out = call == WmiCall::CreateLocator || call == WmiCall::ConnectServer || call
                == WmiCall::ExecQuery || call == WmiCall::NextInstance || call == WmiCall::GetClass
                || call == WmiCall::GetMethod || call == WmiCall::SpawnInParams;
            judged(purpose, call, reply).next is Fail <==> !reads && {
                ||| reply.hr < 0
                ||| hands_out && !reply.present
                ||| call == WmiCall::NextInstance && reply.returned == 0
                ||| call == WmiCall::GetRelPath && !reply.is_text
            }
        }),
{
}

/// The message of a failed call ends in its status code, in eight hexadecimal digits; where there is
/// no instance, it says so instead.
pub proof fn failures_carry_their_code(purpose: Purpose, call: WmiCall, reply: ComReply)
    requires
        belongs(purpose, call),
        call != WmiCall::NextInstance,
    ensures
        judged(purpose, call, reply).next matches NextView::Fail(message) ==> {
            let code = numbers::hex(numbers::as_unsigned(reply.hr) as nat, 8);
            &&& message.len() >= 8
            &&& message.skip(message.len() - 8) == code
        },
{
    numbers::hexadecimals_are_positional(numbers::as_unsigned(reply.hr) as nat, 8);
    if let NextView::Fail(message) = judged(purpose, call, reply).next {
        let code = numbers::hex(numbers::as_unsigned(reply.hr) as nat, 8);
        assert(message.skip(message.len() - 8) =~= code);
    }
}

/// A number is the brightness that it stands for: a byte or a word is its value, and a signed word is
/// its value where it is not negative. Nothing else is a brightness.
pub proof fn numbers_are_brightness(byte: u8, word: u32, signed: i32, v: Variant)
    ensures
        brightness_in(Variant::Byte { byte }) == Ok::<int, int>(byte as int),
        brightness_in(Variant::Word { word }) == Ok::<int, int>(word as int),
        signed >= 0 ==> brightness_in(Variant::Signed { signed }) == Ok::<int, int>(signed as int),
        v is Text ==> brightness_in(v) == Err::<int, int>(8),
        v matches Variant::Other { vt } ==> brightness_in(v) == Err::<int, int>(vt as int),
{
}

/// The token is that of the instance name, if the name is a text.
pub proof fn instance_names_give_the_token(units: Vec<u16>, v: Variant)
    ensures
        token_in(Variant::Text { units }) == ident::token_of(wide::utf16_text(units@)),
        !(v is Text) ==> token_in(v) is None,
{
}

/// Whatever its reply is, a call releases first what it has used up: the enumerator, the instance, the
/// class, the definition of the parameters, or the parameters. If the session goes on, it releases
/// nothing else.
pub proof fn calls_release_what_they_used_up(purpose: Purpose, call: WmiCall, reply: ComReply)
    requires
        belongs(purpose, call),
    ensures
        ({
            let step = judged(purpose, call, reply);
            let used = match call {
                WmiCall::NextInstance => Some(ComObject::Enumerator),
                WmiCall::GetRelPath => Some(ComObject::Instance),
                WmiCall::GetMethod => Some(ComObject::Class),
                WmiCall::SpawnInParams => Some(ComObject::InParamsDef),
                WmiCall::ExecMethod => Some(ComObject::InParams),
                WmiCall::GetInstanceName => Some(ComObject::Instance),
                _ => None,
            };
            &&& used matches Some(o) ==> step.release.len() > 0 && step.release[0] == o
            &&& step.next is Call ==> step.release.len() == (if used is Some {
                1nat
            } else {
                0nat
            })
        }),
{
}

/// A session that ends releases the services and then the locator last, as soon as it has them.
pub proof fn sessions_release_the_connection_last(purpose: Purpose, call: WmiCall, reply: ComReply)
    requires
        belongs(purpose, call),
        !(judged(purpose, call, reply).next is Call),
    ensures
        ({
            let release = judged(purpose, call, reply).release;
            let n = release.len() as int;
            if call == WmiCall::CreateLocator {
                n == 0
            } else if call == WmiCall::ConnectServer {
                release == seq![ComObject::Locator]
            } else {
                &&& n >= 2
                &&& release[n - 2] == ComObject::Services
                &&& release[n - 1] == ComObject::Locator
                &&& release.contains(ComObject::InParams) <==> (call == WmiCall::PutTimeout || call
                    == WmiCall::PutBrightness || call == WmiCall::ExecMethod)
                &&& release.contains(ComObject::OutParams) <==> (call == WmiCall::ExecMethod
                    && reply.present)
            }
        }),
{
    let release = judged(purpose, call, reply).release;
    if call == WmiCall::PutTimeout || call == WmiCall::PutBrightness || call
        == WmiCall::ExecMethod {
        assert(release[0] == ComObject::InParams);
    }
    if call == WmiCall::ExecMethod && reply.present {
        assert(release[1] == ComObject::OutParams);
    }
    if call == WmiCall::ConnectServer {
        assert(release =~= seq![ComObject::Locator]);
    }
}

} // verus!
