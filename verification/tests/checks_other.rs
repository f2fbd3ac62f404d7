use byte_check::checks::av::{self, AvCheck, AvClass, AvState};
use byte_check::checks::clock;
use byte_check::checks::ocean;
use byte_check::checks::screen::{self, ScreenSnapshot};
use byte_check::checks::trace::{self, TraceSnapshot, WindowsTrace};
use byte_check::checks::{NamedProcess, Platform, ProcEntry, Status};

fn reply(secs: u32, frac: u32) -> Vec<u8> {
    let mut b = vec![0u8; 48];
    b[40..44].copy_from_slice(&secs.to_be_bytes());
    b[44..48].copy_from_slice(&frac.to_be_bytes());
    b
}

#[test]
fn ntp_request_packet() {
    let r = clock::ntp_request();
    assert_eq!(r.len(), 48);
    assert_eq!(r[0], 0x1b);
    assert!(r[1..].iter().all(|b| *b == 0));
    assert_eq!(clock::ntp_server_list(), vec!["time.google.com", "pool.ntp.org", "time.cloudflare.com"]);
}

#[test]
fn ntp_offset_from_reply() {
    let b = reply(2_208_988_800 + 1000, 0x8000_0000);
    assert_eq!(clock::ntp_offset_ms(&b, 1_000_000), Some(500));
    assert_eq!(clock::ntp_offset_ms(&b, 1_000_600), Some(-100));
    assert_eq!(clock::ntp_offset_ms(&reply(0, 0), 0), Some(-2_208_988_800_000));
    assert_eq!(clock::ntp_offset_ms(&b, i64::MIN), None);
}

#[test]
fn clock_verdicts() {
    let r = clock::run(&Ok(60_000));
    assert_eq!(r.status, Status::Pass);
    assert_eq!(r.detail, "System time within 60s of the network time.");
    let r = clock::run(&Ok(-60_001));
    assert_eq!(r.status, Status::Fail { fixable: true });
    assert_eq!(r.detail, "Clock is -60s off from network time; timestamps would be unreliable.");
    let r = clock::run(&Ok(125_500));
    assert_eq!(r.detail, "Clock is 125s off from network time; timestamps would be unreliable.");
    let r = clock::run(&Err("all NTP servers unreachable".to_string()));
    assert_eq!(r.status, Status::Warning);
    assert_eq!(r.detail, "Could not reach an NTP server (all NTP servers unreachable); clock not verified.");
    assert_eq!(r.key, "clock");
}

const HOSTS: &str = "127.0.0.1 localhost\n0.0.0.0 anticheat.ac\r\n# 0.0.0.0 anticheat.ac\n  0.0.0.0 API.ANTICHEAT.AC  \n\n";

#[test]
fn hosts_blocks_are_found() {
    let found = ocean::scan_hosts(&Some(HOSTS.to_string()));
    assert_eq!(
        found,
        vec![
            "hosts file blocks an Ocean domain: '0.0.0.0 anticheat.ac'".to_string(),
            "hosts file blocks an Ocean domain: '  0.0.0.0 API.ANTICHEAT.AC  '".to_string(),
        ]
    );
    assert!(ocean::scan_hosts(&None).is_empty());
    let r = ocean::run(&found, false);
    assert_eq!(r.status, Status::Fail { fixable: true });
    assert_eq!(r.detail, format!("{}; {}", found[0], found[1]));
}

#[test]
fn ocean_resolution_verdicts() {
    let r = ocean::run(&Vec::new(), true);
    assert_eq!(r.status, Status::Pass);
    assert_eq!(r.detail, "Ocean's domains are reachable.");
    let r = ocean::run(&Vec::new(), false);
    assert_eq!(r.status, Status::Warning);
    assert_eq!(r.detail, "anticheat.ac does not resolve - a DNS-level block or network issue may be present.");
}

#[test]
fn hosts_filter_then_rescan_is_clean() {
    let filtered = ocean::filter_hosts(HOSTS);
    assert_eq!(filtered, "127.0.0.1 localhost\n");
    assert!(ocean::scan_hosts(&Some(filtered)).is_empty());
    assert_eq!(ocean::hosts_path(Platform::Linux), "/etc/hosts");
    assert_eq!(ocean::hosts_path(Platform::Windows), "C:\\Windows\\System32\\drivers\\etc\\hosts");
}

fn comm(pid: &str, c: &str) -> ProcEntry {
    ProcEntry { pid: pid.to_string(), comm: Some(format!("{c}\n")), status: None, environ: None, maps: None }
}

#[test]
fn screen_linux_verdicts() {
    let none = ScreenSnapshot::Linux { display: None, wayland: Some(String::new()), procs: vec![] };
    let r = screen::run(&none);
    assert_eq!(r.status, Status::Fail { fixable: true });
    assert_eq!(r.detail, "No display session detected; screenshare would be impossible.");
    let no_portal = ScreenSnapshot::Linux {
        display: None,
        wayland: Some("wayland-0".to_string()),
        procs: vec![comm("5", "XDG-desktop-portal"), comm("x", "xdg-desktop-portal")],
    };
    assert_eq!(
        screen::run(&no_portal).detail,
        "Wayland session detected but the XDG desktop portal is not running, so screen capture permission cannot be granted."
    );
    assert!(!screen::fix(&no_portal));
    let x11 = ScreenSnapshot::Linux { display: Some(":0".to_string()), wayland: None, procs: vec![] };
    assert_eq!(screen::run(&x11).status, Status::Pass);
    assert_eq!(screen::run(&x11).detail, "Screen capture is available.");
    let portal = ScreenSnapshot::Linux {
        display: None,
        wayland: Some("wayland-0".to_string()),
        procs: vec![comm("9", "xdg-desktop-portal")],
    };
    assert_eq!(screen::run(&portal).status, Status::Pass);
    assert!(screen::fix(&portal));
    let cut = ScreenSnapshot::Linux {
        display: None,
        wayland: Some("wayland-0".to_string()),
        procs: vec![comm("1", "systemd"), comm("2210", "xdg-desktop-por")],
    };
    assert_eq!(screen::run(&cut).status, Status::Pass);
    assert!(screen::fix(&cut));
    assert!(screen::process_running_linux(&vec![comm("3", "xdg-desktop-por")], "xdg-desktop-portal"));
    assert!(!screen::process_running_linux(&vec![comm("3", "xdg-desktop-pox")], "xdg-desktop-portal"));
    assert!(!screen::process_running_linux(&vec![comm("3", "xdg-desktop")], "xdg-desktop-portal"));
    assert!(!screen::process_running_linux(&vec![comm("3", "xdg-desktop-portal-gtk")], "xdg-desktop-portal"));
    assert_eq!(screen::name_value(), "screen");
}

#[test]
fn screen_windows_and_other() {
    let p = |n: &str| NamedProcess { pid: "1".to_string(), name: n.to_string() };
    let r = screen::run(&ScreenSnapshot::Windows { procs: vec![p("explorer.exe")] });
    assert_eq!(r.detail, "Desktop Window Manager is not running; screen capture unavailable.");
    let r = screen::run(&ScreenSnapshot::Windows { procs: vec![p("DWM.exe")] });
    assert_eq!(r.detail, "No active desktop session detected.");
    let ok = ScreenSnapshot::Windows { procs: vec![p("dwm.exe"), p("Explorer.EXE")] };
    assert_eq!(screen::run(&ok).status, Status::Pass);
    assert!(!screen::fix(&ok));
    assert_eq!(screen::run(&ScreenSnapshot::Other).detail, "unsupported platform");
}

fn strings(v: &[&str]) -> Vec<String> {
    v.iter().map(|s| s.to_string()).collect()
}

#[test]
fn av_classification() {
    assert!(matches!(av::classify(&strings(&["Windows Defender"]), &vec![]), AvClass::Defender));
    assert!(matches!(av::classify(&vec![], &strings(&["MsMpEng.exe"])), AvClass::Defender));
    assert!(matches!(av::classify(&vec![], &strings(&["explorer.exe"])), AvClass::Nothing));
    assert!(matches!(
        av::classify(&strings(&["Microsoft Security Essentials"]), &strings(&["MsMpEng.exe", "msseces.exe"])),
        AvClass::Defender
    ));
    assert!(matches!(av::classify(&vec![], &strings(&["msseces.exe"])), AvClass::Defender));
    match av::classify(
        &strings(&["Windows Defender", "Norton Security", "NORTON SECURITY"]),
        &strings(&["AvastUI.exe", "avastui.exe", "MsMpEng.exe"]),
    ) {
        AvClass::ThirdParty(names) => assert_eq!(names, strings(&["Norton Security", "avastui.exe"])),
        _ => panic!("third-party antivirus expected"),
    }
}

#[test]
fn av_output_parsing() {
    assert_eq!(av::parse_products("Windows Defender\r\n\r\n  Norton  \r\n"), strings(&["Windows Defender", "Norton"]));
    assert!(av::parse_realtime(&None));
    assert!(av::parse_realtime(&Some("False\r\n".to_string())));
    assert!(av::parse_realtime(&Some("0".to_string())));
    assert!(av::parse_realtime(&Some("".to_string())));
    assert!(!av::parse_realtime(&Some("True\r\n".to_string())));
}

#[test]
fn av_verdicts() {
    let r = av::run(&AvCheck::Windows(AvState::Defender { realtime_on: true }));
    assert_eq!(r.status, Status::Fail { fixable: true });
    let r = av::run(&AvCheck::Windows(AvState::Defender { realtime_on: false }));
    assert_eq!(r.status, Status::Pass);
    assert_eq!(r.detail, "Windows Defender realtime protection is off (as Ocean recommends).");
    let r = av::run(&AvCheck::Windows(AvState::ThirdParty { names: strings(&["a", "b", "c", "d", "e", "f"]) }));
    assert_eq!(r.status, Status::Warning);
    assert_eq!(
        r.detail,
        "Third-party antivirus detected (a, b, c, d and 2 more). Ocean recommends disabling it for an accurate scan - disable it manually and re-enable it afterwards."
    );
    let r = av::run(&AvCheck::Windows(AvState::ThirdParty { names: strings(&["x"]) }));
    assert!(r.detail.starts_with("Third-party antivirus detected (x). "));
    assert_eq!(av::run(&AvCheck::Windows(AvState::Absent)).detail, "No antivirus interference detected.");
    assert_eq!(av::run(&AvCheck::Linux).detail, "N/A on Linux - antivirus does not interfere.");
    assert_eq!(av::run(&AvCheck::Other).detail, "N/A.");
}

#[test]
fn trace_linux_history() {
    let r = trace::run(&TraceSnapshot::Linux {
        histories: vec![Some("ls\nUnRAR x cheat.rar\ncurl keyauth.win\n".to_string()), None],
    });
    assert_eq!(r.status, Status::Fail { fixable: false });
    assert_eq!(r.detail, "shell history shows: 'UnRAR x cheat.rar'; shell history shows: 'curl keyauth.win'");
    let clean = trace::run(&TraceSnapshot::Linux { histories: vec![Some("ls\n".to_string())] });
    assert_eq!(clean.status, Status::Pass);
    assert_eq!(clean.detail, "No tamper or laundering traces found.");
}

#[test]
fn trace_windows_findings() {
    let w = WindowsTrace {
        prefetch: Some(strings(&[".pf", "notes.txt"])),
        enable_prefetcher: Some(0),
        usn_output: Some("Error: The USN journal was NOT FOUND.".to_string()),
        event_output: Some("  3/1/2024 10:00:00 \r\n".to_string()),
    };
    assert_eq!(
        trace::scan(&TraceSnapshot::Windows(w)),
        strings(&[
            "Prefetch directory is empty (all .pf files deleted).",
            "EnablePrefetcher is 0 (prefetch recording disabled).",
            "USN journal is missing or disabled (journal deletion / anti-forensics).",
            "System event log was cleared (Event 104, 3/1/2024 10:00:00).",
        ])
    );
    let ok = WindowsTrace {
        prefetch: Some(strings(&["CHROME.EXE-1234.pf"])),
        enable_prefetcher: Some(3),
        usn_output: Some("Usn Journal ID : 0x01".to_string()),
        event_output: Some(" \r\n".to_string()),
    };
    assert!(trace::scan(&TraceSnapshot::Windows(ok)).is_empty());
    let missing = WindowsTrace { prefetch: None, enable_prefetcher: None, usn_output: None, event_output: None };
    assert_eq!(trace::scan(&TraceSnapshot::Windows(missing)), strings(&["Prefetch directory is missing or inaccessible."]));
    assert_eq!(trace::count_prefetch(&strings(&["a.pf", ".pf", "b.PF", "c.pf.bak", "..pf"])), 2);
}

#[test]
fn hosts_fix_on_linux_keeps_other_lines_byte_for_byte() {
    let fixed = ocean::fix(Platform::Linux, "127.0.0.1 localhost\n0.0.0.0 anticheat.ac\n").unwrap();
    assert_eq!(fixed, "127.0.0.1 localhost\n");
    let fixed = ocean::fix(Platform::Linux, HOSTS).unwrap();
    assert_eq!(fixed, "127.0.0.1 localhost\n\n");
    assert!(ocean::scan_hosts(&Some(fixed)).is_empty());
    let crlf = "::1 localhost\r\n0.0.0.0 AntiCheat.AC\r\n10.0.0.2 nas\r\n";
    assert_eq!(ocean::strip_hosts(crlf), "::1 localhost\r\n10.0.0.2 nas\r\n");
    assert_eq!(ocean::strip_hosts("a\n0.0.0.0 anticheat.ac"), "a\n");
    assert_eq!(ocean::strip_hosts("a\nb"), "a\nb");
    assert_eq!(ocean::strip_hosts(""), "");
}

#[test]
fn hosts_fix_per_platform() {
    assert_eq!(ocean::fix(Platform::Windows, HOSTS), Some("127.0.0.1 localhost\n".to_string()));
    assert_eq!(ocean::fix(Platform::Other, HOSTS), None);
}
