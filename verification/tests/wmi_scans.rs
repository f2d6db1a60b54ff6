use brightness_control::wmi::{
    after_native_set, after_script_set, find_named, judge_powershell, powershell_args,
    query_wmi_brightness, query_wmi_internal_token, query_wmi_monitor_ids, query_wmi_scan,
    read_wmi_brightness, run_powershell, set_wmi_brightness, ProcessOutput, TokenRead, WmiRead,
    WmiSetStep, POWERSHELL,
};

fn output(success: bool, stdout: &[u8], stderr: &[u8]) -> Result<ProcessOutput, String> {
    Ok(ProcessOutput { success, stdout: stdout.to_vec(), stderr: stderr.to_vec() })
}

#[test]
fn powershell_output_is_trimmed() {
    assert_eq!(run_powershell(output(true, b"  75\r\n", b"noise")), Ok("75".to_string()));
    assert_eq!(run_powershell(output(true, b"", b"")), Ok(String::new()));
}

#[test]
fn powershell_failures_prefer_stderr() {
    assert_eq!(
        run_powershell(output(false, b"out", b" err \n")),
        Err("PowerShell error (WMI): err".to_string())
    );
    assert_eq!(
        run_powershell(output(false, b" out ", b" \n")),
        Err("PowerShell error (WMI): out".to_string())
    );
    assert_eq!(
        run_powershell(output(false, b"", b"")),
        Err("PowerShell error (WMI): ".to_string())
    );
    assert_eq!(
        run_powershell(Err("not found".to_string())),
        Err("Failed to execute powershell.exe: not found".to_string())
    );
}

#[test]
fn output_that_is_no_utf8_is_replaced() {
    assert_eq!(
        run_powershell(output(true, b"MSI \xff\xc3\xbc", b"")),
        Ok("MSI \u{fffd}\u{fc}".to_string())
    );
}

#[test]
fn judging_powershell_takes_texts() {
    assert_eq!(judge_powershell(true, " a ", "b"), Ok("a".to_string()));
    assert_eq!(judge_powershell(false, " a ", "b"), Err("PowerShell error (WMI): b".to_string()));
}

#[test]
fn native_brightness_comes_first() {
    assert!(matches!(query_wmi_brightness(Ok(3)), WmiRead::Known { percent: 3 }));
    assert!(matches!(query_wmi_brightness(Ok(0)), WmiRead::Known { percent: 0 }));
    assert!(matches!(query_wmi_brightness(Ok(100)), WmiRead::Known { percent: 100 }));
    assert!(matches!(query_wmi_brightness(Ok(150)), WmiRead::Known { percent: 100 }));
    assert!(matches!(query_wmi_brightness(Err("no".to_string())), WmiRead::RunScript));
}

#[test]
fn script_brightness_is_parsed() {
    assert_eq!(read_wmi_brightness(Ok("75".to_string())), Ok(75));
    assert_eq!(read_wmi_brightness(Ok("0".to_string())), Ok(0));
    assert_eq!(read_wmi_brightness(Ok("100".to_string())), Ok(100));
    assert_eq!(read_wmi_brightness(Ok("150".to_string())), Ok(100));
    assert_eq!(read_wmi_brightness(Ok("4294967295".to_string())), Ok(100));
    assert_eq!(read_wmi_brightness(Err("broken".to_string())), Err("broken".to_string()));
    let missing =
        "WMI brightness not found (this machine may be a desktop PC without an internal display).";
    assert_eq!(read_wmi_brightness(Ok(String::new())), Err(missing.to_string()));
    assert_eq!(read_wmi_brightness(Ok("NULL".to_string())), Err(missing.to_string()));
    assert_eq!(
        read_wmi_brightness(Ok("7x".to_string())),
        Err("Failed to parse WMI brightness: '7x'".to_string())
    );
    assert_eq!(
        read_wmi_brightness(Ok("4294967296".to_string())),
        Err("Failed to parse WMI brightness: '4294967296'".to_string())
    );
}

#[test]
fn setting_asks_the_native_interface_first() {
    assert!(matches!(set_wmi_brightness(0), WmiSetStep::Native { percent: 10 }));
    assert!(matches!(set_wmi_brightness(55), WmiSetStep::Native { percent: 55 }));
    assert!(matches!(set_wmi_brightness(101), WmiSetStep::Native { percent: 100 }));
    assert!(matches!(after_native_set(55, Ok(())), WmiSetStep::Done));
}

#[test]
fn setting_falls_back_to_the_script() {
    match after_native_set(55, Err("0x80041010".to_string())) {
        WmiSetStep::RunScript { script } => assert_eq!(
            script,
            "$m = Get-CimInstance -Namespace root/wmi -ClassName WmiMonitorBrightnessMethods | Select-Object -First 1; if ($null -eq $m) { Write-Error 'No WmiMonitorBrightnessMethods'; exit 1 }; $r = Invoke-CimMethod -InputObject $m -MethodName WmiSetBrightness -Arguments @{ Timeout = 1; Brightness = 55 }; if ($r.ReturnValue -ne 0) { Write-Error ('WmiSetBrightness failed: ' + $r.ReturnValue); exit $r.ReturnValue }; exit 0"
        ),
        _ => panic!("the script has to be run"),
    }
    assert_eq!(after_script_set(Ok("anything".to_string())), Ok(()));
    assert_eq!(after_script_set(Err("e".to_string())), Err("e".to_string()));
}

const SCAN: &str = "INTERNAL|DISPLAY\\cmn14d4\\4&1_0|75\r\nID|DISPLAY\\CMN14D4\\4&1_0|CMN||0\r\nID|DISPLAY\\msi30d2\\5&2_0| MSI | MSI MP251 E2 |ABC|1 \r\n";

#[test]
fn scans_are_read_line_by_line() {
    let scan = query_wmi_scan(Ok(SCAN.to_string()));
    assert_eq!(scan.internal_token, Some("CMN14D4".to_string()));
    assert_eq!(scan.current_brightness, Some(75));
    assert_eq!(scan.ids.len(), 2);
    assert_eq!(scan.ids[0].token, "CMN14D4");
    assert_eq!(scan.ids[0].manufacturer, "CMN");
    assert_eq!(scan.ids[0].friendly, "");
    assert_eq!(scan.ids[0].serial, "0");
    assert_eq!(scan.ids[1].token, "MSI30D2");
    assert_eq!(scan.ids[1].manufacturer, "MSI");
    assert_eq!(scan.ids[1].friendly, "MSI MP251 E2");
    assert_eq!(scan.ids[1].serial, "ABC|1");
}

#[test]
fn failed_scans_find_nothing() {
    let scan = query_wmi_scan(Err("e".to_string()));
    assert!(scan.ids.is_empty());
    assert_eq!(scan.internal_token, None);
    assert_eq!(scan.current_brightness, None);
    assert!(query_wmi_monitor_ids(Err("e".to_string())).is_empty());
}

#[test]
fn odd_scan_lines_add_what_they_can() {
    let scan = query_wmi_scan(Ok("  INTERNAL|DISPLAY\\A  ".to_string()));
    assert_eq!(scan.internal_token, Some("A".to_string()));
    assert_eq!(scan.current_brightness, None);
    let scan = query_wmi_scan(Ok("INTERNAL|x|12|3\nINTERNAL|DISPLAY\\B| 12 ".to_string()));
    assert_eq!(scan.internal_token, Some("B".to_string()));
    assert_eq!(scan.current_brightness, Some(12));
    let scan = query_wmi_scan(Ok("INTERNAL|DISPLAY\\B|9\nINTERNAL|none|x".to_string()));
    assert_eq!(scan.internal_token, None);
    assert_eq!(scan.current_brightness, None);
    let ids = query_wmi_monitor_ids(Ok("ID|DISPLAY\\A|m|f\nID|none|m|f|s\nother\nid|DISPLAY\\A|m|f|s".to_string()));
    assert!(ids.is_empty());
    let ids = query_wmi_monitor_ids(Ok(SCAN.to_string()));
    assert_eq!(ids.len(), 2);
}

#[test]
fn monitors_are_found_by_token() {
    let ids = query_wmi_monitor_ids(Ok(SCAN.to_string()));
    assert_eq!(find_named(&ids, "msi30D2").map(|id| id.friendly.clone()), Some("MSI MP251 E2".to_string()));
    assert!(find_named(&ids, "MSI30D").is_none());
}

#[test]
fn native_token_comes_first() {
    match query_wmi_internal_token(Ok((50, Some("CMN14D4".to_string())))) {
        TokenRead::Known { token } => assert_eq!(token, "CMN14D4"),
        TokenRead::RunScan => panic!("the token is known"),
    }
    assert!(matches!(query_wmi_internal_token(Ok((50, None))), TokenRead::RunScan));
    assert!(matches!(query_wmi_internal_token(Err("e".to_string())), TokenRead::RunScan));
}

#[test]
fn scripts_are_run_without_profile_and_questions() {
    assert_eq!(POWERSHELL, "powershell.exe");
    assert_eq!(powershell_args("exit 0"), ["-NoProfile", "-NonInteractive", "-Command", "exit 0"]);
}

#[test]
fn tokens_beyond_ascii_are_kept() {
    let ids = query_wmi_monitor_ids(Ok("ID|DISPLAY\\é1\\x|m|f|s".to_string()));
    assert_eq!(ids.len(), 1);
    assert_eq!(ids[0].token, "É1");
}
