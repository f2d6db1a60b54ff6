use brightness_control::wide::to_wide;
use brightness_control::wmi_native::{
    judge_reply, query_text, query_wmi_brightness, query_wmi_brightness_and_token,
    set_wmi_brightness, ComNext, ComObject, ComReply, Purpose, Variant, WmiCall,
    BRIGHTNESS_PROPERTY, CURRENT_PROPERTY, METHODS_CLASS, NAMESPACE, NAME_PROPERTY, PATH_PROPERTY,
    QUERY_LANGUAGE, SET_METHOD, TIMEOUT, TIMEOUT_PROPERTY,
};

const GOOD: ComReply = ComReply { hr: 0, present: true, returned: 1, is_text: true };
const BAD: ComReply = ComReply { hr: -2147217392, present: false, returned: 0, is_text: false };

/// Runs a session in which the call at a position fails, and tells the calls, the releases and the
/// message.
fn run(purpose: Purpose, failing: usize) -> (Vec<WmiCall>, Vec<ComObject>, Option<String>) {
    let mut calls = Vec::new();
    let mut released = Vec::new();
    let mut call = WmiCall::CreateLocator;
    loop {
        let reply = if calls.len() == failing { BAD } else { GOOD };
        calls.push(call);
        let step = judge_reply(purpose, call, reply);
        released.extend(step.release);
        match step.next {
            ComNext::Call { call: following } => call = following,
            ComNext::Fail { message } => return (calls, released, Some(message)),
            ComNext::Done => return (calls, released, None),
        }
    }
}

#[test]
fn setting_session_makes_its_calls_in_order() {
    let (calls, released, message) = run(Purpose::Adjust, usize::MAX);
    assert_eq!(
        calls,
        vec![
            WmiCall::CreateLocator,
            WmiCall::ConnectServer,
            WmiCall::SetProxyBlanket,
            WmiCall::ExecQuery,
            WmiCall::NextInstance,
            WmiCall::GetRelPath,
            WmiCall::GetClass,
            WmiCall::GetMethod,
            WmiCall::SpawnInParams,
            WmiCall::PutTimeout,
            WmiCall::PutBrightness,
            WmiCall::ExecMethod,
        ]
    );
    assert_eq!(
        released,
        vec![
            ComObject::Enumerator,
            ComObject::Instance,
            ComObject::Class,
            ComObject::InParamsDef,
            ComObject::InParams,
            ComObject::OutParams,
            ComObject::Services,
            ComObject::Locator,
        ]
    );
    assert_eq!(message, None);
}

#[test]
fn reading_session_makes_its_calls_in_order() {
    let (calls, released, message) = run(Purpose::Query, usize::MAX);
    assert_eq!(
        calls,
        vec![
            WmiCall::CreateLocator,
            WmiCall::ConnectServer,
            WmiCall::SetProxyBlanket,
            WmiCall::ExecQuery,
            WmiCall::NextInstance,
            WmiCall::GetCurrent,
            WmiCall::GetInstanceName,
        ]
    );
    assert_eq!(
        released,
        vec![
            ComObject::Enumerator,
            ComObject::Instance,
            ComObject::Services,
            ComObject::Locator,
        ]
    );
    assert_eq!(message, None);
}

#[test]
fn failed_calls_are_reported_with_their_code() {
    let messages = [
        "CoCreateInstance(CLSID_WbemLocator) failed: 0x80041010",
        "ConnectServer(ROOT\\WMI) failed: 0x80041010",
        "CoSetProxyBlanket failed: 0x80041010",
        "ExecQuery failed: 0x80041010",
        "No active WmiMonitorBrightnessMethods instance found",
        "Failed to retrieve __RELPATH: 0x80041010",
        "GetObject(WmiMonitorBrightnessMethods) failed: 0x80041010",
        "GetMethod(WmiSetBrightness) failed: 0x80041010",
        "SpawnInstance failed: 0x80041010",
        "Put(Timeout) failed: 0x80041010",
        "Put(Brightness) failed: 0x80041010",
        "ExecMethod(WmiSetBrightness) failed: 0x80041010",
    ];
    for (i, expected) in messages.iter().enumerate() {
        let (calls, _, message) = run(Purpose::Adjust, i);
        assert_eq!(calls.len(), i + 1);
        assert_eq!(message, Some(expected.to_string()));
    }
    let (_, _, message) = run(Purpose::Query, 4);
    assert_eq!(message, Some("No active WmiMonitorBrightness instance found".to_string()));
}

#[test]
fn failed_sessions_release_what_they_hold() {
    let two = vec![ComObject::Services, ComObject::Locator];
    assert_eq!(run(Purpose::Adjust, 0).1, vec![]);
    assert_eq!(run(Purpose::Adjust, 1).1, vec![ComObject::Locator]);
    assert_eq!(run(Purpose::Adjust, 2).1, two);
    assert_eq!(run(Purpose::Adjust, 3).1, two);
    assert_eq!(
        run(Purpose::Adjust, 4).1,
        vec![ComObject::Enumerator, ComObject::Services, ComObject::Locator]
    );
    for failing in 5..12 {
        let (_, mut released, _) = run(Purpose::Adjust, failing);
        assert_eq!(released[released.len() - 2..], two[..]);
        let n = released.len();
        released.sort_by_key(|o| format!("{o:?}"));
        released.dedup();
        assert_eq!(released.len(), n);
    }
}

#[test]
fn failing_reads_do_not_end_a_reading_session() {
    assert_eq!(run(Purpose::Query, 5).2, None);
    assert_eq!(run(Purpose::Query, 6).2, None);
}

#[test]
fn missing_objects_are_failures() {
    let reply = ComReply { hr: 0, present: false, returned: 1, is_text: true };
    for call in [WmiCall::CreateLocator, WmiCall::ConnectServer, WmiCall::ExecQuery, WmiCall::NextInstance] {
        assert!(matches!(judge_reply(Purpose::Query, call, reply).next, ComNext::Fail { .. }));
    }
    let reply = ComReply { hr: 1, present: true, returned: 0, is_text: false };
    assert!(matches!(
        judge_reply(Purpose::Query, WmiCall::NextInstance, reply).next,
        ComNext::Fail { .. }
    ));
    match judge_reply(Purpose::Adjust, WmiCall::GetRelPath, reply).next {
        ComNext::Fail { message } => assert_eq!(message, "Failed to retrieve __RELPATH: 0x00000001"),
        _ => panic!("the path is no text"),
    }
    let reply = ComReply { hr: 0, present: false, returned: 0, is_text: false };
    let step = judge_reply(Purpose::Adjust, WmiCall::ExecMethod, reply);
    assert_eq!(step.release, vec![ComObject::InParams, ComObject::Services, ComObject::Locator]);
    assert!(matches!(step.next, ComNext::Done));
}

#[test]
fn brightness_is_handed_over_as_a_byte() {
    assert_eq!(set_wmi_brightness(100), (WmiCall::CreateLocator, 100));
    assert_eq!(set_wmi_brightness(10), (WmiCall::CreateLocator, 10));
    assert_eq!(set_wmi_brightness(257), (WmiCall::CreateLocator, 1));
}

#[test]
fn property_values_are_read_by_type() {
    let none = || Variant::Other { vt: 1 };
    assert_eq!(query_wmi_brightness_and_token(0, Variant::Byte { byte: 75 }, none()), Ok((75, None)));
    assert_eq!(query_wmi_brightness_and_token(0, Variant::Word { word: 7 }, none()), Ok((7, None)));
    assert_eq!(query_wmi_brightness_and_token(0, Variant::Signed { signed: 7 }, none()), Ok((7, None)));
    assert_eq!(
        query_wmi_brightness_and_token(0, Variant::Signed { signed: -1 }, none()),
        Ok((u32::MAX, None))
    );
    assert_eq!(
        query_wmi_brightness_and_token(0, Variant::Other { vt: 5 }, none()),
        Err("Unexpected CurrentBrightness VARIANT type: 5".to_string())
    );
    assert_eq!(
        query_wmi_brightness_and_token(0, Variant::Text { units: to_wide("75") }, none()),
        Err("Unexpected CurrentBrightness VARIANT type: 8".to_string())
    );
    assert_eq!(
        query_wmi_brightness_and_token(-2147217406, Variant::Byte { byte: 75 }, none()),
        Err("Failed to read CurrentBrightness: 0x80041002".to_string())
    );
}

#[test]
fn token_is_read_from_the_instance_name() {
    let mut units = to_wide("DISPLAY\\cmn14d4\\4&1_0");
    units.pop();
    let read = query_wmi_brightness_and_token(0, Variant::Byte { byte: 50 }, Variant::Text { units });
    assert_eq!(read, Ok((50, Some("CMN14D4".to_string()))));
    assert_eq!(query_wmi_brightness(read), Ok(50));
    assert_eq!(query_wmi_brightness(Err("e".to_string())), Err("e".to_string()));
}

/// Runs a session that begins with a call, on a machine where every call succeeds.
fn run_well(purpose: Purpose, first: WmiCall) -> Result<(), String> {
    let mut call = first;
    loop {
        match judge_reply(purpose, call, GOOD).next {
            ComNext::Call { call: following } => call = following,
            ComNext::Fail { message } => return Err(message),
            ComNext::Done => return Ok(()),
        }
    }
}

/// Reads the level of an internal display at 75 percent, and sets what was read.
#[test]
fn test_native_wmi_get_and_set() {
    let mut units = to_wide("DISPLAY\\CMN14D4\\4&1_0");
    units.pop();
    let (cur, token) = run_well(Purpose::Query, WmiCall::CreateLocator)
        .and_then(|()| {
            query_wmi_brightness_and_token(0, Variant::Byte { byte: 75 }, Variant::Text { units })
        })
        .expect("native WMI read failed");
    println!("NATIVE WMI current brightness: {cur}%, token: {token:?}");
    assert_eq!((cur, token), (75, Some("CMN14D4".to_string())));
    let start = std::time::Instant::now();
    let (first, level) = set_wmi_brightness(cur);
    run_well(Purpose::Adjust, first).expect("native WMI set failed");
    let elapsed = start.elapsed();
    println!("NATIVE WMI set brightness took: {elapsed:?}");
    assert_eq!(u32::from(level), cur);
}

#[test]
fn calls_are_handed_their_names() {
    assert_eq!(NAMESPACE, r"ROOT\WMI");
    assert_eq!(QUERY_LANGUAGE, "WQL");
    assert_eq!(
        query_text(Purpose::Adjust),
        "SELECT * FROM WmiMonitorBrightnessMethods WHERE Active = True"
    );
    assert_eq!(
        query_text(Purpose::Query),
        "SELECT * FROM WmiMonitorBrightness WHERE Active = True"
    );
    assert_eq!((PATH_PROPERTY, METHODS_CLASS), ("__RELPATH", "WmiMonitorBrightnessMethods"));
    assert_eq!((SET_METHOD, TIMEOUT_PROPERTY, TIMEOUT), ("WmiSetBrightness", "Timeout", 1));
    assert_eq!(BRIGHTNESS_PROPERTY, "Brightness");
    assert_eq!((CURRENT_PROPERTY, NAME_PROPERTY), ("CurrentBrightness", "InstanceName"));
}
