use byte_check::checks::{
    all_checks, fail_event, report_event, running_event, CheckKind, CheckReport, Initial, ScanState,
    Status,
};
use byte_check::{ensure_elevated, home_dir, prefer_x11, restore_av_result, start_scan_result, webkit_defaults};

fn report(key: &'static str, status: Status, detail: &str) -> CheckReport {
    match status {
        Status::Pass => CheckReport::pass(key, "Name", detail.to_string()),
        Status::Warning => CheckReport::warning(key, "Name", detail.to_string()),
        Status::Fail { fixable } => CheckReport::fail(key, "Name", fixable, detail.to_string()),
        Status::Fixed => CheckReport { key, name: "Name", status, detail: detail.to_string() },
    }
}

#[test]
fn check_order_and_names() {
    let kinds = all_checks();
    let keys: Vec<&str> = kinds.iter().map(|k| k.key()).collect();
    assert_eq!(keys, vec!["process", "overlay", "clock", "screen", "ocean", "av", "trace"]);
    assert_eq!(CheckKind::Process.name(), "Scan interference sweep");
    assert_eq!(CheckKind::Av.name(), "Antivirus mode");
    let fixable: Vec<bool> = kinds.iter().map(|k| k.has_fix()).collect();
    assert_eq!(fixable, vec![false, true, true, true, true, true, false]);
}

#[test]
fn status_words() {
    assert_eq!(report("k", Status::Pass, "").status_str(), "pass");
    assert_eq!(report("k", Status::Fixed, "").status_str(), "fixed");
    assert_eq!(report("k", Status::Fail { fixable: true }, "").status_str(), "fail");
    assert_eq!(report("k", Status::Warning, "").status_str(), "warning");
}

#[test]
fn clean_scan_is_eligible() {
    let mut st = ScanState::new();
    for k in ["process", "clock"] {
        let r = report(k, Status::Pass, "ok");
        assert!(matches!(st.on_initial(k, r), Initial::Settled(_)));
    }
    assert!(matches!(st.on_initial("ocean", report("ocean", Status::Warning, "dns")), Initial::Settled(_)));
    let s = st.finish();
    assert_eq!(s.outcome, "eligible");
    assert!(s.fixed.is_empty() && s.hard_fails.is_empty());
    assert_eq!(s.detail, "Every check passed. You can start your scan now - no changes needed.");
}

#[test]
fn fixed_only_after_passing_recheck() {
    let mut st = ScanState::new();
    assert!(matches!(st.on_initial("clock", report("clock", Status::Fail { fixable: true }, "off")), Initial::NeedsFix));
    assert!(st.fixed.is_empty());
    let r = st.on_recheck("clock", report("clock", Status::Pass, "within 60s"));
    assert_eq!(r.status, Status::Fixed);
    assert_eq!(r.detail, "Auto-fixed: within 60s");
    assert!(matches!(st.on_initial("screen", report("screen", Status::Fail { fixable: true }, "x")), Initial::NeedsFix));
    let r = st.on_recheck("screen", report("screen", Status::Warning, "w"));
    assert_eq!(r.status, Status::Fixed);
    let s = st.finish();
    assert_eq!(s.outcome, "fixable");
    assert_eq!(s.fixed, vec!["clock", "screen"]);
    assert_eq!(s.detail, "clock, screen were corrected automatically, so your scan will still be accurate.");
}

#[test]
fn failed_recheck_or_hard_fail_is_ineligible() {
    let mut st = ScanState::new();
    st.on_initial("clock", report("clock", Status::Fail { fixable: true }, "off"));
    let r = st.on_recheck("clock", report("clock", Status::Fail { fixable: true }, "still off"));
    assert_eq!(r.status, Status::Fail { fixable: true });
    assert_eq!(r.detail, "still off");
    assert_eq!(st.hard_fails, vec!["clock"]);

    let mut st2 = ScanState::new();
    let r = report("trace", Status::Fail { fixable: false }, "history");
    assert!(matches!(st2.on_initial("trace", r), Initial::Settled(_)));
    st2.on_initial("ocean", report("ocean", Status::Fail { fixable: true }, "hosts"));
    st2.on_recheck("ocean", report("ocean", Status::Pass, "ok"));
    let s = st2.finish();
    assert_eq!(s.outcome, "ineligible");
    assert_eq!(s.hard_fails, vec!["trace"]);
    assert_eq!(s.fixed, vec!["ocean"]);
    assert_eq!(
        s.detail,
        "A non-correctable issue was found. A scan run now would not be accurate. Contact staff before continuing."
    );
}

#[test]
fn progress_events() {
    let e = running_event(CheckKind::Clock);
    assert_eq!((e.key, e.name, e.status, e.detail.as_str()), ("clock", "System clock sync", "running", "Checking"));
    let r = report("clock", Status::Fail { fixable: true }, "off by 2m");
    let e = fail_event(CheckKind::Clock, &r);
    assert_eq!((e.status, e.detail.as_str()), ("fail", "off by 2m"));
    let e = report_event(CheckKind::Trace, &report("trace", Status::Pass, "clean"));
    assert_eq!((e.key, e.name, e.status, e.detail.as_str()), ("trace", "Tamper log trace", "pass", "clean"));
}

#[test]
fn command_answers() {
    assert!(ensure_elevated());
    let r = restore_av_result(true);
    assert!(r.ok);
    assert_eq!(r.message, "Antivirus realtime protection re-enabled.");
    let r = restore_av_result(false);
    assert!(!r.ok);
    assert_eq!(r.message, "Could not re-enable antivirus realtime protection. Re-enable it manually.");
    let r = start_scan_result();
    assert!(r.ok);
    assert_eq!(r.message, "Open Ocean Anticheat and enter your PIN to scan.");
}

#[test]
fn environment_decisions() {
    assert_eq!(home_dir(Some("/home/a".to_string()), Some("/root".to_string())), "/home/a");
    assert_eq!(home_dir(None, Some("/home/b".to_string())), "/home/b");
    assert_eq!(home_dir(None, None), "/root");
    let s = |x: &str| Some(x.to_string());
    assert!(prefer_x11(&None, &s(":0")));
    assert!(prefer_x11(&s("Wayland"), &s(":0")));
    assert!(!prefer_x11(&s("x11"), &s(":0")));
    assert!(!prefer_x11(&None, &s("")));
    assert!(!prefer_x11(&None, &None));
    assert_eq!(
        webkit_defaults(),
        vec![("WEBKIT_DISABLE_DMABUF_RENDERER", "1"), ("WEBKIT_DISABLE_COMPOSITING_MODE", "1")]
    );
}
