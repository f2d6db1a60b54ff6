use brightness_control::ddc::DdcMonitor;
use brightness_control::ddc_unsupported::{
    get_active_hmonitor_count, get_active_hmonitor_tokens, list_ddc_monitors,
};
use brightness_control::monitors::{
    cached_monitors, compose_monitors, is_internal_display_active, list_monitors_blocking, ScanCache,
};
use brightness_control::wmi::{
    query_wmi_internal_token, query_wmi_monitor_ids, query_wmi_scan, run_powershell, TokenRead,
    WmiMonitorId, WmiScan,
};

/// Inspects the monitors of a machine on which neither powershell.exe nor the native interfaces
/// can be had.
#[test]
fn debug_list_monitors() {
    let unavailable = || run_powershell(Err("entity not found".to_string()));
    println!("WMI IDs:");
    for id in query_wmi_monitor_ids(unavailable()) {
        println!(
            "  token={} manufacturer='{}' friendly='{}' serial='{}'",
            id.token, id.manufacturer, id.friendly, id.serial
        );
    }
    let token = match query_wmi_internal_token(Err("unavailable".to_string())) {
        TokenRead::Known { token } => Some(token),
        TokenRead::RunScan => query_wmi_scan(unavailable()).internal_token,
    };
    println!("WMI internal token: {:?}", token);
    let scan = query_wmi_scan(unavailable());
    let ddc = list_ddc_monitors(&scan.ids);
    let mut cache = ScanCache::default();
    let listed = list_monitors_blocking(
        &mut cache,
        0,
        scan,
        &get_active_hmonitor_tokens(),
        get_active_hmonitor_count(),
        ddc,
    );
    match listed {
        Ok(list) => {
            println!("FOUND {} monitor(s)", list.len());
            for m in &list {
                println!(
                    "MONITOR id={} name='{}' kind={} current={} capable={} detail='{}'",
                    m.id, m.name, m.kind, m.current, m.capable, m.detail
                );
            }
        }
        Err(e) => println!("LIST ERROR: {e}"),
    }
}

fn wmi(token: Option<&str>, brightness: Option<u32>, friendly: &str) -> WmiScan {
    WmiScan {
        ids: vec![WmiMonitorId {
            token: "CMN14D4".to_string(),
            manufacturer: "CMN".to_string(),
            friendly: friendly.to_string(),
            serial: String::new(),
        }],
        internal_token: token.map(|t| t.to_string()),
        current_brightness: brightness,
    }
}

fn external(index: usize, token: Option<&str>) -> DdcMonitor {
    DdcMonitor {
        index,
        token: token.map(|t| t.to_string()),
        name: format!("M{index}"),
        min_native: 0,
        current_native: 128,
        max_native: 255,
        capable: true,
        vcp_fallback: false,
        error: String::new(),
    }
}

fn tokens(list: &[&str]) -> Vec<String> {
    list.iter().map(|t| t.to_string()).collect()
}

#[test]
fn internal_display_is_active_with_its_token() {
    let active = tokens(&["MSI30D2", "cmn14d4"]);
    assert!(is_internal_display_active(Some("CMN14D4"), &active, 2, 5));
    assert!(!is_internal_display_active(Some("XXX"), &active, 2, 0));
    assert!(!is_internal_display_active(Some("CMN14D4"), &active, 0, 0));
    assert!(is_internal_display_active(Some(""), &active, 2, 1));
    assert!(!is_internal_display_active(Some(""), &active, 2, 2));
    assert!(is_internal_display_active(None, &[], 1, 0));
    assert!(!is_internal_display_active(None, &[], 1, 1));
    assert!(!is_internal_display_active(None, &[], 0, 0));
}

#[test]
fn internal_display_comes_first() {
    let list = compose_monitors(
        wmi(Some("cmn14d4"), Some(7), "Panel\u{0} "),
        &tokens(&["CMN14D4", "MSI30D2"]),
        2,
        Ok(vec![external(0, Some("CMN14D4")), external(1, Some("MSI30D2"))]),
    )
    .unwrap();
    assert_eq!(list.len(), 2);
    assert_eq!(list[0].id, "wmi:internal");
    assert_eq!(list[0].name, "Laptop Display (Panel)");
    assert_eq!(list[0].kind, "wmi");
    assert_eq!((list[0].min, list[0].max, list[0].current), (10, 100, 7));
    assert!(list[0].capable);
    assert_eq!(list[0].detail, "Controlled via WMI");
    assert_eq!(list[1].id, "ddc:1");
    assert_eq!(list[1].name, "M1");
    assert_eq!(list[1].kind, "ddc");
    assert_eq!((list[1].min, list[1].max, list[1].current), (10, 100, 50));
    assert_eq!(list[1].detail, "Controlled via DDC/CI");
}

#[test]
fn internal_display_has_a_name_in_any_case() {
    let name = |scan: WmiScan| {
        compose_monitors(scan, &tokens(&["CMN14D4", "ABC"]), 1, Ok(Vec::new())).unwrap()[0].name.clone()
    };
    assert_eq!(name(wmi(Some("CMN14D4"), Some(50), " ")), "Laptop Display (CMN14D4)");
    assert_eq!(name(wmi(Some("abc"), Some(50), "Panel")), "Laptop Display (Internal)");
    assert_eq!(name(wmi(None, Some(50), "Panel")), "Laptop Display (Internal)");
}

#[test]
fn internal_level_is_at_most_a_hundred() {
    let list = compose_monitors(wmi(None, Some(255), ""), &[], 1, Ok(Vec::new())).unwrap();
    assert_eq!(list[0].current, 100);
}

#[test]
fn closed_lid_hides_the_internal_display() {
    let list = compose_monitors(
        wmi(Some("CMN14D4"), Some(50), ""),
        &tokens(&["MSI30D2"]),
        1,
        Ok(vec![external(0, Some("CMN14D4"))]),
    )
    .unwrap();
    assert_eq!(list.len(), 1);
    assert_eq!(list[0].id, "ddc:0");
}

#[test]
fn external_details_tell_how_they_are_controlled() {
    let mut vcp = external(0, None);
    vcp.vcp_fallback = true;
    let mut off = external(1, None);
    off.capable = false;
    let mut dead = external(2, None);
    dead.capable = false;
    dead.error = "brightness le=1, VCP 0x10 le=2".to_string();
    let list = compose_monitors(WmiScan::default(), &[], 3, Ok(vec![vcp, off, dead])).unwrap();
    assert_eq!(list[0].detail, "Controlled via DDC/CI (VCP mode)");
    assert_eq!(list[1].detail, "Display is turned off or DDC/CI is disabled in monitor OSD.");
    assert_eq!(
        list[2].detail,
        "Display is turned off or DDC/CI is disabled (brightness le=1, VCP 0x10 le=2)."
    );
    assert_eq!(list[0].current, 50);
    assert_eq!(list[1].current, 0);
    assert!(!list[1].capable);
}

#[test]
fn nothing_to_list_is_an_error() {
    let failed = Err("EnumDisplayMonitors failed (GetLastError=5)".to_string());
    match compose_monitors(WmiScan::default(), &[], 0, failed) {
        Err(e) => assert_eq!(
            e,
            "Failed to list displays: EnumDisplayMonitors failed (GetLastError=5)"
        ),
        Ok(_) => panic!("nothing was found"),
    }
    match compose_monitors(WmiScan::default(), &[], 0, Ok(Vec::new())) {
        Err(e) => assert_eq!(e, "No controllable displays found. Please check: ensure DDC/CI is enabled in monitor OSD and use a direct HDMI/DP cable."),
        Ok(_) => panic!("nothing was found"),
    }
}

#[test]
fn internal_display_stands_in_for_failed_enumeration() {
    let list = compose_monitors(wmi(None, Some(50), ""), &[], 1, Err("e".to_string())).unwrap();
    assert_eq!(list.len(), 1);
    assert_eq!(list[0].id, "wmi:internal");
}

#[test]
fn scans_serve_their_lifetime() {
    let mut cache = ScanCache::default();
    assert!(cached_monitors(&cache, 0).is_none());
    let found = list_monitors_blocking(
        &mut cache,
        1_000,
        WmiScan::default(),
        &[],
        1,
        Ok(vec![external(0, None)]),
    );
    assert_eq!(found.unwrap().len(), 1);
    let served = cached_monitors(&cache, 1_000 + 1_499_999_999).unwrap();
    assert_eq!(served.len(), 1);
    assert_eq!(served[0].id, "ddc:0");
    assert_eq!(served[0].name, "M0");
    assert!(cached_monitors(&cache, 1_000 + 1_500_000_000).is_none());
    let failed = list_monitors_blocking(&mut cache, 2_000, WmiScan::default(), &[], 0, Ok(Vec::new()));
    assert!(failed.is_err());
    assert!(cached_monitors(&cache, 1_000).is_some());
}

#[test]
fn listed_ids_are_distinct() {
    let list = compose_monitors(
        wmi(None, Some(50), ""),
        &[],
        9,
        Ok((0usize..5).map(|i| external(i, None)).collect()),
    )
    .unwrap();
    let mut ids: Vec<String> = list.iter().map(|m| m.id.clone()).collect();
    assert_eq!(ids.len(), 6);
    ids.sort();
    ids.dedup();
    assert_eq!(ids.len(), 6);
}

#[test]
fn listed_indices_rise() {
    let list = compose_monitors(
        wmi(Some("CMN14D4"), Some(50), ""),
        &tokens(&["CMN14D4"]),
        4,
        Ok(vec![
            external(0, None),
            external(1, Some("cmn14d4")),
            external(2, Some("B")),
            external(10, None),
        ]),
    )
    .unwrap();
    let ids: Vec<&str> = list.iter().map(|m| m.id.as_str()).collect();
    assert_eq!(ids, ["wmi:internal", "ddc:0", "ddc:2", "ddc:10"]);
}
