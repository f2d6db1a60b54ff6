use brightness_control::ident::{
    ddc_id_string, extract_token_from_instance, get_brightness_blocking, hmonitor_device_token,
    parse_ddc_index, set_brightness_blocking, BrightnessSource, SetRequest,
};
use brightness_control::wide::to_wide;

#[test]
fn parse_ddc_index_ok_and_err() {
    assert_eq!(parse_ddc_index("ddc:0").unwrap(), 0);
    assert_eq!(parse_ddc_index("ddc:12").unwrap(), 12);
    assert!(parse_ddc_index("wmi:internal").is_err());
    assert!(parse_ddc_index("ddc:").is_err());
    assert!(parse_ddc_index("ddc:abc").is_err());
    assert!(parse_ddc_index("").is_err());
}

#[test]
fn extract_token_handles_real_formats() {
    assert_eq!(
        extract_token_from_instance("DISPLAY\\MSI30D2\\5&1f9d8a86&0&UID4352_0"),
        Some("MSI30D2".to_string())
    );
    // Lowercase is still converted to uppercase to match DeviceID
    assert_eq!(
        extract_token_from_instance("DISPLAY\\cmn14d4\\5&1234&0_0"),
        Some("CMN14D4".to_string())
    );
    assert_eq!(extract_token_from_instance(""), None);
    assert_eq!(extract_token_from_instance("NO-BACKSLASH"), None);
    assert_eq!(extract_token_from_instance("DISPLAY\\\\5&x"), None);
}

#[test]
fn ddc_ids_read_back() {
    for i in [0usize, 1, 9, 10, 12345, usize::MAX] {
        let id = ddc_id_string(i);
        assert_eq!(id, format!("ddc:{i}"));
        assert_eq!(parse_ddc_index(&id), Ok(i));
    }
}

#[test]
fn invalid_ids_are_reported() {
    for id in ["", "ddc", "ddc:", "ddc:-1", "ddc:1 ", "ddc:0x1", "DDC:1", "ddc:+", "x"] {
        assert_eq!(parse_ddc_index(id), Err(format!("Invalid monitor ID: {id}")));
    }
    let over = format!("ddc:{}0", usize::MAX);
    assert_eq!(parse_ddc_index(&over), Err(format!("Invalid monitor ID: {over}")));
    let by_one = format!("ddc:{}", usize::MAX as u128 + 1);
    assert!(parse_ddc_index(&by_one).is_err());
}

#[test]
fn indices_may_have_a_plus_and_leading_zeros() {
    assert_eq!(parse_ddc_index("ddc:+7"), Ok(7));
    assert_eq!(parse_ddc_index("ddc:0007"), Ok(7));
}

#[test]
fn tokens_are_trimmed_and_upper_cased() {
    assert_eq!(extract_token_from_instance("A\\ b c \\D"), Some("B C".to_string()));
    assert_eq!(extract_token_from_instance("A\\straße"), Some("STRASSE".to_string()));
    assert_eq!(extract_token_from_instance("A\\  \\D"), None);
    assert_eq!(extract_token_from_instance("\\x"), Some("X".to_string()));
}

#[test]
fn device_names_end_at_the_first_zero() {
    let mut raw = to_wide("MONITOR\\msi30d2\\{guid}");
    raw.extend_from_slice(&to_wide("\\junk\\"));
    assert_eq!(hmonitor_device_token(&Some(raw)), Some("MSI30D2".to_string()));
    assert_eq!(hmonitor_device_token(&Some(to_wide("MONITOR"))), None);
    assert_eq!(hmonitor_device_token(&Some(Vec::new())), None);
    assert_eq!(hmonitor_device_token(&None), None);
}

#[test]
fn reads_are_routed_by_id() {
    assert!(matches!(
        get_brightness_blocking("wmi:internal".to_string()),
        Ok(BrightnessSource::Wmi)
    ));
    assert!(matches!(get_brightness_blocking("wmi:".to_string()), Ok(BrightnessSource::Wmi)));
    assert!(matches!(
        get_brightness_blocking("ddc:3".to_string()),
        Ok(BrightnessSource::Ddc { index: 3 })
    ));
    for id in ["ddc:x", "", "usb:1", "wmi"] {
        match get_brightness_blocking(id.to_string()) {
            Err(e) => assert_eq!(e, format!("Invalid monitor ID: {id}")),
            Ok(_) => panic!("{id} was routed"),
        }
    }
}

#[test]
fn writes_are_routed_by_id_and_clamped() {
    assert!(matches!(
        set_brightness_blocking("wmi:internal".to_string(), 0),
        Ok(SetRequest::Wmi { percent: 10 })
    ));
    assert!(matches!(
        set_brightness_blocking("ddc:2".to_string(), 999),
        Ok(SetRequest::Ddc { index: 2, percent: 100 })
    ));
    assert!(matches!(
        set_brightness_blocking("ddc:0".to_string(), 42),
        Ok(SetRequest::Ddc { index: 0, percent: 42 })
    ));
    match set_brightness_blocking("ddc:".to_string(), 42) {
        Err(e) => assert_eq!(e, "Invalid monitor ID: ddc:"),
        Ok(_) => panic!("an empty index was routed"),
    }
}
