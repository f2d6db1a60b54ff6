use brightness_control::autostart::{
    after_registry_add, get_registered_exe_path, is_autostart_enabled, judge_registry_add,
    read_registered_path, registry_args, set_autostart, sync_autostart_path, RegistryCommand,
};
use brightness_control::display_listener::{
    message_action, should_notify, Debounce, MessageAction, WM_DESTROY, WM_DISPLAYCHANGE,
    WM_SETTINGCHANGE,
};
use brightness_control::shell::{
    hide_main_window, is_background_launch, show_main_window, toggle_flyout_at, window_reaction,
    FlyoutAction, WindowHappening, WindowReaction,
};
use brightness_control::wmi::ProcessOutput;

const EXE: &str = "C:\\Program Files\\Brightness Control\\app.exe";

fn query_output(value: &str) -> String {
    format!("\r\nHKEY_CURRENT_USER\\Software\\Microsoft\\Windows\\CurrentVersion\\Run\r\n    BrightnessControl    REG_SZ    {value}\r\n\r\n")
}

fn finished(success: bool, stdout: &str, stderr: &str) -> Result<ProcessOutput, String> {
    Ok(ProcessOutput {
        success,
        stdout: stdout.as_bytes().to_vec(),
        stderr: stderr.as_bytes().to_vec(),
    })
}

#[test]
fn registered_program_is_read() {
    let quoted = query_output(&format!("\"{EXE}\" --autostart"));
    assert_eq!(read_registered_path(&quoted), Some(EXE.to_string()));
    assert_eq!(
        read_registered_path(&query_output("C:\\app.exe --autostart")),
        Some("C:\\app.exe".to_string())
    );
    assert_eq!(read_registered_path(&query_output("\"\"C:\\a b.exe")), Some("C:\\a b.exe".to_string()));
    assert_eq!(read_registered_path(&query_output("\"\"")), None);
    assert_eq!(read_registered_path(&query_output("")), None);
    assert_eq!(read_registered_path("BrightnessControl REG_DWORD 0x1"), None);
    assert_eq!(read_registered_path("Other    REG_SZ    C:\\app.exe"), None);
    assert_eq!(read_registered_path(""), None);
}

#[test]
fn later_lines_are_read_where_earlier_ones_name_nothing() {
    assert_eq!(
        read_registered_path("BrightnessControl REG_SZ\nBrightnessControl2 REG_SZ x y"),
        Some("x".to_string())
    );
}

#[test]
fn registry_query_is_judged() {
    let out = query_output(&format!("\"{EXE}\" --autostart"));
    assert_eq!(get_registered_exe_path(finished(true, &out, "")), Ok(Some(EXE.to_string())));
    assert_eq!(get_registered_exe_path(finished(false, &out, "ERROR")), Ok(None));
    assert_eq!(
        get_registered_exe_path(Err("no reg.exe".to_string())),
        Err("Failed to query registry: no reg.exe".to_string())
    );
}

#[test]
fn paths_that_are_no_utf8_are_replaced() {
    let mut stdout = b"BrightnessControl REG_SZ C:\\".to_vec();
    stdout.extend_from_slice(b"\xff.exe");
    let output = Ok(ProcessOutput { success: true, stdout, stderr: Vec::new() });
    assert_eq!(get_registered_exe_path(output), Ok(Some("C:\\\u{fffd}.exe".to_string())));
}

#[test]
fn outdated_entries_are_written_anew() {
    let entry = |p: &str| Ok(Some(p.to_string()));
    let exe = Some(EXE.to_string());
    assert!(sync_autostart_path(&entry("C:\\old.exe"), &exe));
    assert!(!sync_autostart_path(&entry(&EXE.to_uppercase()), &exe));
    assert!(!sync_autostart_path(&Ok(None), &exe));
    assert!(!sync_autostart_path(&Err("e".to_string()), &exe));
    assert!(!sync_autostart_path(&entry("C:\\old.exe"), &None));
    assert_eq!(is_autostart_enabled(entry("C:\\old.exe"), &exe), (Ok(true), true));
    assert_eq!(is_autostart_enabled(entry(EXE), &exe), (Ok(true), false));
    assert_eq!(is_autostart_enabled(entry(EXE), &None), (Ok(true), false));
    assert_eq!(is_autostart_enabled(Ok(None), &exe), (Ok(false), false));
    assert_eq!(is_autostart_enabled(Err("e".to_string()), &exe), (Err("e".to_string()), false));
}

#[test]
fn written_entries_read_back() {
    match set_autostart(true, Ok(EXE.to_string())) {
        Ok(RegistryCommand::Add { value }) => {
            assert_eq!(value, format!("\"{EXE}\" --autostart"));
            let registered = Ok(read_registered_path(&query_output(&value)));
            assert_eq!(registered, Ok(Some(EXE.to_string())));
            assert!(!sync_autostart_path(&registered, &Some(EXE.to_string())));
        }
        _ => panic!("an entry has to be added"),
    }
}

#[test]
fn switching_autostart_makes_requests() {
    assert!(matches!(set_autostart(false, Err("unknown".to_string())), Ok(RegistryCommand::Delete)));
    match set_autostart(true, Err("unknown".to_string())) {
        Err(e) => assert_eq!(e, "Failed to retrieve current executable path: unknown"),
        Ok(_) => panic!("the program is not known"),
    }
}

#[test]
fn registry_requests_have_their_arguments() {
    let key = "HKCU\\Software\\Microsoft\\Windows\\CurrentVersion\\Run";
    assert_eq!(registry_args(&RegistryCommand::Query), ["query", key, "/v", "BrightnessControl"]);
    assert_eq!(
        registry_args(&RegistryCommand::Add { value: "v".to_string() }),
        ["add", key, "/v", "BrightnessControl", "/t", "REG_SZ", "/d", "v", "/f"]
    );
    assert_eq!(
        registry_args(&RegistryCommand::Delete),
        ["delete", key, "/v", "BrightnessControl", "/f"]
    );
}

#[test]
fn registry_writes_are_judged() {
    assert_eq!(after_registry_add(finished(true, "", "")), Ok(()));
    assert_eq!(
        after_registry_add(finished(false, "", "ERROR: Access is denied.\r\n")),
        Err("Failed to enable start on boot: ERROR: Access is denied.\r\n".to_string())
    );
    assert_eq!(
        after_registry_add(Err("no reg.exe".to_string())),
        Err("Failed to execute reg add command: no reg.exe".to_string())
    );
    assert_eq!(judge_registry_add(false, "x"), Err("Failed to enable start on boot: x".to_string()));
    assert_eq!(judge_registry_add(true, "x"), Ok(()));
}

#[test]
fn window_messages_are_told_apart() {
    assert_eq!(message_action(WM_DISPLAYCHANGE), MessageAction::Notify);
    assert_eq!(message_action(WM_SETTINGCHANGE), MessageAction::Notify);
    assert_eq!(message_action(WM_DESTROY), MessageAction::Quit);
    assert_eq!(message_action(0), MessageAction::Default);
    assert_eq!((WM_DISPLAYCHANGE, WM_SETTINGCHANGE, WM_DESTROY), (126, 26, 2));
}

#[test]
fn bursts_of_notifications_are_accepted_once() {
    let mut debounce = Debounce::new();
    assert!(should_notify(&mut debounce, 5));
    assert!(!should_notify(&mut debounce, 6));
    assert!(!should_notify(&mut debounce, 5 + 1_199_999_999));
    assert!(should_notify(&mut debounce, 5 + 1_200_000_000));
    assert!(!should_notify(&mut debounce, 5 + 1_200_000_001));
    assert!(!should_notify(&mut debounce, 0));
}

#[test]
fn background_launches_are_told_by_their_arguments() {
    let args = |list: &[&str]| -> Vec<String> { list.iter().map(|a| a.to_string()).collect() };
    assert!(is_background_launch(&args(&["app.exe", "--autostart"])));
    assert!(is_background_launch(&args(&["app.exe", "x", "--minimized"])));
    assert!(!is_background_launch(&args(&["app.exe", "--Autostart", "autostart"])));
    assert!(!is_background_launch(&[]));
}

#[test]
fn windows_hide_instead_of_closing() {
    for label in ["main", "flyout"] {
        assert_eq!(
            window_reaction(label, WindowHappening::CloseRequested),
            WindowReaction::HideInsteadOfClosing
        );
        assert_eq!(window_reaction(label, WindowHappening::Other), WindowReaction::Nothing);
    }
    assert_eq!(window_reaction("flyout", WindowHappening::FocusLost), WindowReaction::Hide);
    assert_eq!(window_reaction("main", WindowHappening::FocusLost), WindowReaction::Nothing);
}

#[test]
fn tray_clicks_toggle_the_flyout() {
    assert_eq!(toggle_flyout_at(Some(true)), FlyoutAction::Hide);
    assert_eq!(toggle_flyout_at(Some(false)), FlyoutAction::Open);
    assert_eq!(toggle_flyout_at(None), FlyoutAction::Open);
}

#[test]
fn main_window_is_hidden_and_shown() {
    assert_eq!(hide_main_window(None), Err("Main window not found.".to_string()));
    assert_eq!(hide_main_window(Some(Ok(()))), Ok(()));
    assert_eq!(
        hide_main_window(Some(Err("e".to_string()))),
        Err("Failed to hide window: e".to_string())
    );
    assert_eq!(show_main_window(None), Err("Main window not found.".to_string()));
    assert_eq!(show_main_window(Some(Ok(()))), Ok(()));
    assert_eq!(
        show_main_window(Some(Err("e".to_string()))),
        Err("Failed to show window: e".to_string())
    );
}

#[test]
fn launches_by_the_entry_start_in_the_background() {
    match set_autostart(true, Ok(EXE.to_string())) {
        Ok(RegistryCommand::Add { value }) => {
            let rest = value.strip_prefix(&format!("\"{EXE}\" ")).unwrap();
            assert!(is_background_launch(&[EXE.to_string(), rest.to_string()]));
        }
        _ => panic!("an entry has to be added"),
    }
}
