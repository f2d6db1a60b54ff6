use brightness_control::monitors::MonitorInfo;
use brightness_control::tray::{
    calculate_flyout_height, get_brightness, initial_tray_icon, is_system_light_theme, list_monitors,
    place_flyout, refresh_from_system, replace_state, says_light, set_brightness,
    set_tray_icon_theme, short_name, snapshot, theme_args, tooltip_text, update_one, RefreshAction, RefreshGate,
    TrayIcon, TrayState,
};

fn monitor(id: &str, name: &str, current: u32, capable: bool) -> MonitorInfo {
    MonitorInfo {
        id: id.to_string(),
        name: name.to_string(),
        kind: "ddc".to_string(),
        min: 10,
        max: 100,
        current,
        capable,
        detail: String::new(),
    }
}

fn levels(state: &TrayState) -> Vec<(String, u32)> {
    snapshot(state).into_iter().map(|m| (m.id, m.current)).collect()
}

fn filled() -> TrayState {
    let mut state = TrayState::default();
    replace_state(&mut state, vec![monitor("wmi:internal", "L", 40, true), monitor("ddc:0", "M", 60, true)]);
    state
}

#[test]
fn state_starts_empty_and_is_replaced() {
    let mut state = TrayState::default();
    assert!(snapshot(&state).is_empty());
    replace_state(&mut state, vec![monitor("ddc:0", "M", 60, true)]);
    assert_eq!(levels(&state), vec![("ddc:0".to_string(), 60)]);
}

#[test]
fn updates_change_one_level() {
    let mut state = filled();
    update_one(&mut state, "ddc:0", 33);
    assert_eq!(levels(&state), vec![("wmi:internal".to_string(), 40), ("ddc:0".to_string(), 33)]);
    update_one(&mut state, "ddc:7", 1);
    assert_eq!(levels(&state), vec![("wmi:internal".to_string(), 40), ("ddc:0".to_string(), 33)]);
}

#[test]
fn windows_get_scans_and_the_state_follows() {
    let mut state = filled();
    let list = list_monitors(&mut state, Ok(Ok(vec![monitor("ddc:5", "N", 5, true)]))).unwrap();
    assert_eq!(list.len(), 1);
    assert_eq!(levels(&state), vec![("ddc:5".to_string(), 5)]);
    assert_eq!(list_monitors(&mut state, Ok(Err("e".to_string()))).unwrap_err(), "e");
    assert_eq!(
        list_monitors(&mut state, Err("gone".to_string())).unwrap_err(),
        "Worker thread error while listing monitors: gone"
    );
    assert_eq!(levels(&state), vec![("ddc:5".to_string(), 5)]);
}

#[test]
fn windows_get_levels() {
    assert_eq!(get_brightness(Ok(Ok(5))), Ok(5));
    assert_eq!(get_brightness(Ok(Err("e".to_string()))), Err("e".to_string()));
    assert_eq!(
        get_brightness(Err("gone".to_string())),
        Err("Worker thread error while reading brightness: gone".to_string())
    );
}

#[test]
fn set_levels_are_shown_clamped() {
    let mut state = filled();
    assert_eq!(set_brightness(&mut state, "ddc:0", 3, Ok(Ok(()))), Ok(()));
    assert_eq!(levels(&state)[1], ("ddc:0".to_string(), 10));
    assert_eq!(set_brightness(&mut state, "ddc:0", 77, Ok(Err("e".to_string()))), Err("e".to_string()));
    assert_eq!(
        set_brightness(&mut state, "ddc:0", 77, Err("gone".to_string())),
        Err("Worker thread error while setting brightness: gone".to_string())
    );
    assert_eq!(levels(&state)[1], ("ddc:0".to_string(), 10));
}

#[test]
fn background_scans_announce_or_report() {
    let mut state = filled();
    match refresh_from_system(&mut state, Ok(Err("e".to_string()))) {
        RefreshAction::Report { message } => assert_eq!(message, "[tray] rescan failed: e"),
        RefreshAction::Announce => panic!("the scan failed"),
    }
    match refresh_from_system(&mut state, Err("gone".to_string())) {
        RefreshAction::Report { message } => assert_eq!(
            message,
            "[tray] rescan failed: Worker thread error while listing monitors: gone"
        ),
        RefreshAction::Announce => panic!("the worker failed"),
    }
    assert_eq!(levels(&state).len(), 2);
    assert!(matches!(
        refresh_from_system(&mut state, Ok(Ok(Vec::new()))),
        RefreshAction::Announce
    ));
    assert!(levels(&state).is_empty());
}

#[test]
fn background_scans_do_not_overlap() {
    let mut gate = RefreshGate::new();
    assert!(gate.enter());
    assert!(!gate.enter());
    gate.leave();
    assert!(gate.enter());
}

#[test]
fn long_names_are_shortened() {
    assert_eq!(short_name("MSI MP251 E2"), "MSI MP251 E2");
    assert_eq!(short_name("abcdefghijklmnopqrstuvwx"), "abcdefghijklmnopqrstuvwx");
    assert_eq!(short_name("abcdefghijklmnopqrstuvwxy"), "abcdefghijklmnopqrstuvwx…");
    assert_eq!(short_name(&"ü".repeat(30)), format!("{}…", "ü".repeat(24)));
}

#[test]
fn tooltip_names_three_displays() {
    assert_eq!(tooltip_text(&[]), "Brightness Control");
    assert_eq!(tooltip_text(&[monitor("a", "A", 1, false)]), "Brightness Control");
    let mut list = vec![
        monitor("a", "A", 1, true),
        monitor("x", "X", 9, false),
        monitor("b", "B", 20, true),
        monitor("c", "C", 100, true),
    ];
    assert_eq!(tooltip_text(&list), "A 1% • B 20% • C 100%");
    list.push(monitor("d", "D", 4, true));
    list.push(monitor("e", "E", 5, true));
    assert_eq!(tooltip_text(&list), "A 1% • B 20% • C 100% (+2 more)");
}

#[test]
fn tooltip_is_cut_off() {
    let list: Vec<MonitorInfo> =
        (0u32..14).map(|i| monitor("a", &"n".repeat(30), 4_000_000_000 + i, true)).collect();
    let text = tooltip_text(&list);
    let part = format!("{}… 400000000", "n".repeat(24));
    assert_eq!(text.chars().count(), 120);
    assert!(text.starts_with(&part));
    let whole = format!("{part}0% • {part}1% • {part}2% (+11 more)");
    assert_eq!(text, whole.chars().take(120).collect::<String>());
}

#[test]
fn taskbar_theme_is_read_from_the_registry() {
    let light = b"    SystemUsesLightTheme    REG_DWORD    0x1\r\n".to_vec();
    let dark = b"    SystemUsesLightTheme    REG_DWORD    0x0\r\n".to_vec();
    assert!(is_system_light_theme(Some(light)));
    assert!(!is_system_light_theme(Some(dark)));
    assert!(is_system_light_theme(Some(b"\xff0x1".to_vec())));
    assert!(!is_system_light_theme(Some(Vec::new())));
    assert!(!is_system_light_theme(None));
    assert!(says_light("0x1"));
    assert!(!says_light("0x"));
}

#[test]
fn icon_follows_the_theme() {
    assert_eq!(initial_tray_icon(true), TrayIcon::Light);
    assert_eq!(initial_tray_icon(false), TrayIcon::Dark);
    assert_eq!(set_tray_icon_theme("light"), Some(TrayIcon::Light));
    assert_eq!(set_tray_icon_theme("dark"), Some(TrayIcon::Dark));
    assert_eq!(set_tray_icon_theme("system"), None);
    assert_eq!(set_tray_icon_theme("Light"), None);
}

#[test]
fn flyout_has_a_row_for_each_display() {
    let list = |n: usize| -> Vec<MonitorInfo> { (0..n).map(|_| monitor("a", "A", 1, true)).collect() };
    assert_eq!(calculate_flyout_height(&[monitor("a", "A", 1, false)]), 155);
    assert_eq!(calculate_flyout_height(&list(0)), 155);
    assert_eq!(calculate_flyout_height(&list(1)), 167);
    assert_eq!(calculate_flyout_height(&list(2)), 311);
    assert_eq!(calculate_flyout_height(&list(3)), 383);
}

#[test]
fn flyout_stays_on_the_screen() {
    assert_eq!(place_flyout(100, 200, Some(500), 900), (100, 200));
    assert_eq!(place_flyout(600, 200, Some(500), 900), (500, 200));
    assert_eq!(place_flyout(600, 200, Some(-5), 900), (0, 200));
    assert_eq!(place_flyout(-1, -1, None, 52), (0, 52));
    assert_eq!(place_flyout(600, 0, None, 52), (600, 0));
}

#[test]
fn taskbar_theme_is_queried_by_its_key() {
    assert_eq!(
        theme_args(),
        [
            "query",
            r"HKCU\Software\Microsoft\Windows\CurrentVersion\Themes\Personalize",
            "/v",
            "SystemUsesLightTheme"
        ]
    );
}

#[test]
fn tooltip_is_never_empty() {
    for list in [vec![], vec![monitor("a", "", 0, true)], vec![monitor("a", "", 0, false)]] {
        assert!(!tooltip_text(&list).is_empty());
    }
}
