use brightness_control::ddc::{
    after_cached_write, after_probe, after_write, ddc_cache_get, ddc_cache_insert, ddc_cache_remove,
    get_active_hmonitor_count, get_active_hmonitor_tokens, get_ddc_brightness, last_error_msg,
    list_ddc_monitors, probe, probe_vcp, resolve_name, set_ddc_brightness, CachedMode, DdcCache,
    HmonitorScan, MonitorApi, PhysicalScan, PhysicalWalk, Probe, ProbeStep, SetStep, VCP_BRIGHTNESS,
};
use brightness_control::ddc_unsupported;
use brightness_control::wide::to_wide;
use brightness_control::wmi::WmiMonitorId;

fn id(token: &str, manufacturer: &str, friendly: &str) -> WmiMonitorId {
    WmiMonitorId {
        token: token.to_string(),
        manufacturer: manufacturer.to_string(),
        friendly: friendly.to_string(),
        serial: String::new(),
    }
}

fn physical(description: &str, probe: Probe) -> PhysicalScan {
    PhysicalScan { description: to_wide(description), probe }
}

fn scans() -> Vec<HmonitorScan> {
    vec![
        HmonitorScan {
            device_id: Some(to_wide("MONITOR\\msi30d2\\{guid}\\0001")),
            physical: Some(vec![physical(
                "Generic PnP Monitor",
                Probe::HighLevel { min: 0, current: 40, max: 80 },
            )]),
        },
        HmonitorScan { device_id: None, physical: None },
        HmonitorScan {
            device_id: None,
            physical: Some(vec![
                physical("", Probe::Vcp { current: 51, max: 255 }),
                physical("Dell\u{7}", Probe::Dead { le_bright: 1, le_vcp: 2 }),
            ]),
        },
    ]
}

#[test]
fn high_level_interface_is_asked_first() {
    assert_eq!(VCP_BRIGHTNESS, 16);
    assert!(matches!(
        probe(Ok((1, 2, 3))),
        ProbeStep::Answered { probe: Probe::HighLevel { min: 1, current: 2, max: 3 } }
    ));
    assert!(matches!(probe(Err(31)), ProbeStep::AskVcp { le_bright: 31 }));
    assert!(matches!(probe_vcp(31, Ok((4, 5))), Probe::Vcp { current: 4, max: 5 }));
    assert!(matches!(probe_vcp(31, Err(32)), Probe::Dead { le_bright: 31, le_vcp: 32 }));
}

#[test]
fn error_codes_are_reported() {
    assert_eq!(
        last_error_msg("EnumDisplayMonitors failed", 5),
        "EnumDisplayMonitors failed (GetLastError=5)"
    );
}

#[test]
fn modes_are_cached_by_index() {
    let mut cache = DdcCache::default();
    assert!(ddc_cache_get(&cache, 1).is_none());
    ddc_cache_insert(&mut cache, 1, CachedMode::Vcp { max_native: 9 });
    assert!(matches!(ddc_cache_get(&cache, 1), Some(CachedMode::Vcp { max_native: 9 })));
    assert!(ddc_cache_get(&cache, 0).is_none());
    ddc_cache_remove(&mut cache, 1);
    assert!(ddc_cache_get(&cache, 1).is_none());
}

#[test]
fn most_telling_name_wins() {
    let ids = [id("MSI30D2", "MSI", " MSI MP251\u{0} "), id("DEL1", "DEL", ""), id("XXX1", "", "\u{1}")];
    let token = |t: &str| Some(t.to_string());
    assert_eq!(resolve_name(&token("msi30d2"), &ids, "Generic PnP Monitor", 0), "MSI MP251");
    assert_eq!(resolve_name(&token("DEL1"), &ids, "Generic PnP Monitor", 0), "DEL");
    assert_eq!(resolve_name(&token("DEL1"), &ids, " ", 0), "DEL");
    assert_eq!(resolve_name(&token("DEL1"), &ids, "Dell U27", 0), "DEL");
    assert_eq!(resolve_name(&token("XXX1"), &ids, "Dell U27", 0), "Dell U27");
    assert_eq!(resolve_name(&token("XXX1"), &ids, "Generic PnP Monitor", 0), "Generic PnP Monitor");
    assert_eq!(resolve_name(&token("NONE"), &ids, "\r\n", 2), "External Display 3");
    assert_eq!(resolve_name(&None, &ids, "", 0), "External Display 1");
}

#[test]
fn physical_monitors_are_listed_in_order() {
    let mut cache = DdcCache::default();
    ddc_cache_insert(&mut cache, 2, CachedMode::Vcp { max_native: 1 });
    let ids = [id("MSI30D2", "MSI", "MSI MP251 E2")];
    let list = list_ddc_monitors(&ids, Ok(scans()), &mut cache).unwrap();
    assert_eq!(list.len(), 3);

    assert_eq!(list[0].index, 0);
    assert_eq!(list[0].token, Some("MSI30D2".to_string()));
    assert_eq!(list[0].name, "MSI MP251 E2");
    assert_eq!((list[0].min_native, list[0].current_native, list[0].max_native), (0, 40, 80));
    assert!(list[0].capable && !list[0].vcp_fallback);
    assert_eq!(list[0].error, "");

    assert_eq!(list[1].index, 1);
    assert_eq!(list[1].token, None);
    assert_eq!(list[1].name, "External Display 2");
    assert_eq!((list[1].min_native, list[1].current_native, list[1].max_native), (0, 51, 255));
    assert!(list[1].capable && list[1].vcp_fallback);

    assert_eq!(list[2].index, 2);
    assert_eq!(list[2].name, "Dell");
    assert_eq!((list[2].min_native, list[2].current_native, list[2].max_native), (0, 50, 100));
    assert!(!list[2].capable && !list[2].vcp_fallback);
    assert_eq!(list[2].error, "brightness le=1, VCP 0x10 le=2");

    assert!(matches!(
        ddc_cache_get(&cache, 0),
        Some(CachedMode::HighLevel { min_native: 0, max_native: 80 })
    ));
    assert!(matches!(ddc_cache_get(&cache, 1), Some(CachedMode::Vcp { max_native: 255 })));
    assert!(ddc_cache_get(&cache, 2).is_none());
}

#[test]
fn failed_enumeration_is_handed_on() {
    let mut cache = DdcCache::default();
    match list_ddc_monitors(&[], Err("no".to_string()), &mut cache) {
        Err(e) => assert_eq!(e, "no"),
        Ok(_) => panic!("nothing was enumerated"),
    }
}

#[test]
fn desktop_tokens_are_listed_once() {
    let names = vec![
        Some(to_wide("MONITOR\\b\\1")),
        None,
        Some(to_wide("MONITOR\\a\\1")),
        Some(to_wide("MONITOR\\B\\2")),
        Some(to_wide("MONITOR")),
    ];
    assert_eq!(get_active_hmonitor_tokens(Ok(names)), vec!["B".to_string(), "A".to_string()]);
    assert!(get_active_hmonitor_tokens(Err("no".to_string())).is_empty());
    assert_eq!(get_active_hmonitor_count(Ok(4)), 4);
    assert_eq!(get_active_hmonitor_count(Err("no".to_string())), 0);
}

#[test]
fn walk_finds_listed_monitors() {
    let counts = [Some(1), None, Some(2)];
    let find = |target: usize| {
        let mut walk = PhysicalWalk::new(target);
        for (h, count) in counts.iter().enumerate() {
            if let Some(i) = walk.visit(*count) {
                return Ok((h, i));
            }
        }
        Err(walk.not_found())
    };
    assert_eq!(find(0), Ok((0, 0)));
    assert_eq!(find(1), Ok((2, 0)));
    assert_eq!(find(2), Ok((2, 1)));
    assert_eq!(find(3), Err("DDC monitor at index 3 not found".to_string()));
}

#[test]
fn levels_are_read_from_probes() {
    assert_eq!(get_ddc_brightness(Ok(Probe::HighLevel { min: 20, current: 50, max: 80 })), Ok(50));
    assert_eq!(get_ddc_brightness(Ok(Probe::Vcp { current: 255, max: 255 })), Ok(100));
    assert_eq!(
        get_ddc_brightness(Ok(Probe::Dead { le_bright: 7, le_vcp: 8 })),
        Err("Failed to read brightness (brightness le=7, VCP 0x10 le=8). Please check if DDC/CI is enabled in monitor OSD.".to_string())
    );
    assert_eq!(get_ddc_brightness(Err("gone".to_string())), Err("gone".to_string()));
}

#[test]
fn known_mode_is_written_at_once() {
    let mut cache = DdcCache::default();
    assert!(matches!(set_ddc_brightness(&cache, 0, 50), SetStep::Probe));
    ddc_cache_insert(&mut cache, 0, CachedMode::HighLevel { min_native: 20, max_native: 80 });
    assert!(matches!(
        set_ddc_brightness(&cache, 0, 50),
        SetStep::WriteCached { api: MonitorApi::HighLevel, native: 50 }
    ));
    ddc_cache_insert(&mut cache, 0, CachedMode::Vcp { max_native: 255 });
    assert!(matches!(
        set_ddc_brightness(&cache, 0, 0),
        SetStep::WriteCached { api: MonitorApi::Vcp, native: 26 }
    ));
    assert!(matches!(
        after_cached_write(&mut cache, 0, true),
        SetStep::Done { outcome: Ok(()) }
    ));
    assert!(ddc_cache_get(&cache, 0).is_some());
    assert!(matches!(after_cached_write(&mut cache, 0, false), SetStep::Probe));
    assert!(ddc_cache_get(&cache, 0).is_none());
}

#[test]
fn probed_mode_is_kept_and_written() {
    let mut cache = DdcCache::default();
    assert!(matches!(
        after_probe(&mut cache, 3, 100, Probe::HighLevel { min: 1, current: 2, max: 31 }),
        SetStep::Write { api: MonitorApi::HighLevel, native: 31 }
    ));
    assert!(matches!(
        ddc_cache_get(&cache, 3),
        Some(CachedMode::HighLevel { min_native: 1, max_native: 31 })
    ));
    assert!(matches!(
        after_probe(&mut cache, 3, 5, Probe::Vcp { current: 2, max: 200 }),
        SetStep::Write { api: MonitorApi::Vcp, native: 20 }
    ));
    assert_eq!(after_write(&mut cache, 3, MonitorApi::Vcp, Ok(())), Ok(()));
    assert!(ddc_cache_get(&cache, 3).is_some());
}

#[test]
fn failed_writes_forget_the_mode() {
    let mut cache = DdcCache::default();
    for (api, call) in [
        (MonitorApi::HighLevel, "SetMonitorBrightness"),
        (MonitorApi::Vcp, "SetVCPFeature(0x10)"),
    ] {
        ddc_cache_insert(&mut cache, 3, CachedMode::Vcp { max_native: 1 });
        assert_eq!(
            after_write(&mut cache, 3, api, Err(87)),
            Err(format!("{call} failed (check if DDC/CI is enabled in monitor OSD) (GetLastError=87)"))
        );
        assert!(ddc_cache_get(&cache, 3).is_none());
    }
}

#[test]
fn dead_monitors_cannot_be_set() {
    let mut cache = DdcCache::default();
    match after_probe(&mut cache, 0, 50, Probe::Dead { le_bright: 1, le_vcp: 2 }) {
        SetStep::Done { outcome: Err(e) } => assert_eq!(
            e,
            "Failed to set brightness (brightness le=1, VCP 0x10 le=2). Please check if DDC/CI is enabled in monitor OSD."
        ),
        _ => panic!("a dead monitor was written to"),
    }
}

#[test]
fn written_levels_read_back() {
    let mut cache = DdcCache::default();
    list_ddc_monitors(&[], Ok(scans()), &mut cache).unwrap();
    match set_ddc_brightness(&cache, 1, 42) {
        SetStep::WriteCached { api: MonitorApi::Vcp, native } => {
            assert_eq!(get_ddc_brightness(Ok(Probe::Vcp { current: native, max: 255 })), Ok(42))
        }
        _ => panic!("the mode is known"),
    }
}

#[test]
fn other_systems_have_no_ddc() {
    assert!(ddc_unsupported::list_ddc_monitors(&[]).unwrap().is_empty());
    assert_eq!(
        ddc_unsupported::get_ddc_brightness(0),
        Err("DDC/CI is only supported on Windows.".to_string())
    );
    assert_eq!(
        ddc_unsupported::set_ddc_brightness(0, 50),
        Err("DDC/CI is only supported on Windows.".to_string())
    );
    assert!(ddc_unsupported::get_active_hmonitor_tokens().is_empty());
    assert_eq!(ddc_unsupported::get_active_hmonitor_count(), 0);
}

#[test]
fn names_come_in_order() {
    let token = Some("MSI30D2".to_string());
    let desc = "MSI MP251 E2";
    assert_eq!(resolve_name(&token, &[id("MSI30D2", "MSI", "MP251")], desc, 0), "MP251");
    assert_eq!(resolve_name(&token, &[id("MSI30D2", "MSI", "")], desc, 0), "MSI");
    assert_eq!(resolve_name(&token, &[id("MSI30D2", "", "")], desc, 0), "MSI MP251 E2");
    assert_eq!(resolve_name(&token, &[id("MSI30D2", "", "")], "", 0), "External Display 1");
}

#[test]
fn names_can_be_shown() {
    let ids = [id("A", " M\u{0}SI\t", "\u{7}"), id("B", "", " \u{1} x \u{2} ")];
    for (t, desc) in [("A", ""), ("B", ""), ("C", " \r\n d \u{85}"), ("C", "\u{9f} ")] {
        let name = resolve_name(&Some(t.to_string()), &ids, desc, 41);
        assert!(!name.is_empty());
        assert_eq!(name.trim(), name);
        assert!(!name.chars().any(|c| c.is_control()));
    }
}

#[test]
fn tokens_of_devices_are_never_empty() {
    let names = || vec![
        Some(to_wide("MONITOR\\ßé\\1")),
        Some(to_wide("MONITOR\\ \u{3000}\\1")),
        Some(to_wide("MONITOR\\\\1")),
        Some(to_wide("MONITOR\\世\\1")),
    ];
    assert_eq!(get_active_hmonitor_tokens(Ok(names())), ["SSÉ", "世"]);
    let devices = names()
        .into_iter()
        .map(|device_id| HmonitorScan {
            device_id,
            physical: Some(vec![physical("M", Probe::Vcp { current: 1, max: 2 })]),
        })
        .collect();
    let list = list_ddc_monitors(&[], Ok(devices), &mut DdcCache::default()).unwrap();
    let tokens: Vec<Option<String>> = list.into_iter().map(|m| m.token).collect();
    assert_eq!(tokens, [Some("SSÉ".to_string()), None, None, Some("世".to_string())]);
}
