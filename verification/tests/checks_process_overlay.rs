use byte_check::checks::overlay::{
    self, preload_entry_suspicious, preload_env_suspicious, IfeoEntry, LinuxOverlay, OverlayFix,
    OverlaySnapshot, RcFile, WindowsOverlay,
};
use byte_check::checks::process::{self, ProcessSnapshot};
use byte_check::checks::{NamedProcess, ProcEntry, Status};
use byte_check::text::chars_of;

fn proc_entry(pid: &str, comm: Option<&str>, status: Option<&str>) -> ProcEntry {
    ProcEntry {
        pid: pid.to_string(),
        comm: comm.map(|c| c.to_string()),
        status: status.map(|c| c.to_string()),
        environ: None,
        maps: None,
    }
}

#[test]
fn process_linux_flags_names_and_tracers() {
    let procs = vec![
        proc_entry("12", Some("StreamProof\n"), Some("Name:\tx\nTracerPid:\t0\n")),
        proc_entry("13", Some("bash\n"), Some("TracerPid:\t4242\n")),
        proc_entry("self", Some("streamproof\n"), None),
        proc_entry("14", None, None),
    ];
    let found = process::scan(&ProcessSnapshot::Linux(procs.clone()));
    assert_eq!(
        found,
        vec!["process 'streamproof' (pid 12)".to_string(), "debugger attached to 'bash' (pid 13)".to_string()]
    );
    let r = process::run(&ProcessSnapshot::Linux(procs));
    assert_eq!(r.status, Status::Fail { fixable: false });
    assert_eq!(r.detail, "process 'streamproof' (pid 12); debugger attached to 'bash' (pid 13)");
    assert_eq!(r.key, "process");
    assert_eq!(r.name, "Process integrity");
}

#[test]
fn process_windows_matches_lowercased_names() {
    let procs = vec![
        NamedProcess { pid: "100".to_string(), name: "StreamProof.exe".to_string() },
        NamedProcess { pid: "101".to_string(), name: "notepad.exe".to_string() },
    ];
    let found = process::scan(&ProcessSnapshot::Windows(procs));
    assert_eq!(found, vec!["process 'streamproof.exe' (pid 100)".to_string()]);
}

#[test]
fn process_clean_passes() {
    let r = process::run(&ProcessSnapshot::Other);
    assert_eq!(r.status, Status::Pass);
    assert_eq!(r.detail, "No suspicious processes or attached debuggers.");
}

#[test]
fn preload_entries() {
    assert!(preload_entry_suspicious(&chars_of("/tmp/libHook.so")));
    assert!(preload_entry_suspicious(&chars_of("/home/u/evil.so")));
    assert!(!preload_entry_suspicious(&chars_of("libmozsandbox.so")));
    assert!(preload_entry_suspicious(&chars_of("libinject.so")));
    assert!(!preload_entry_suspicious(&chars_of("/usr/lib/libfoo.so")));
    assert!(!preload_entry_suspicious(&chars_of("/lib/x86_64-linux-gnu/libc.so.6")));
    assert!(!preload_entry_suspicious(&chars_of("/home/u/.steam/gameoverlayrenderer.so")));
    assert!(!preload_entry_suspicious(&chars_of("/home/u/GameOverlayRenderer-hook.so")));
}

#[test]
fn preload_assignments() {
    assert!(preload_env_suspicious(&chars_of("LD_PRELOAD=/usr/lib/a.so:/tmp/b.so")));
    assert!(!preload_env_suspicious(&chars_of("LD_PRELOAD=/usr/lib/a.so")));
    assert!(!preload_env_suspicious(&chars_of("LD_PRELOAD")));
    assert!(!preload_env_suspicious(&chars_of("LD_PRELOAD=")));
}

fn java(pid: &str, maps: &str, environ: &[u8]) -> ProcEntry {
    ProcEntry {
        pid: pid.to_string(),
        comm: Some("java\n".to_string()),
        status: None,
        environ: Some(environ.to_vec()),
        maps: Some(maps.to_string()),
    }
}

fn linux_snapshot() -> LinuxOverlay {
    LinuxOverlay {
        ld_preload: Some("/tmp/evil.so\n\n  /usr/lib/ok.so  \n".to_string()),
        rc_files: vec![
            RcFile {
                name: ".bashrc".to_string(),
                content: Some(
                    "export LD_PRELOAD=/tmp/x.so\nLD_PRELOAD=LD_PRELOAD=/tmp/x.so\n# LD_PRELOAD=x=/tmp/y.so\nalias a=b"
                        .to_string(),
                ),
            },
            RcFile { name: ".zshrc".to_string(), content: None },
        ],
        procs: vec![
            java(
                "7",
                "7f00-7f01 r-xp 00000000 00:01 123 /memfd:jit (deleted)\n7f02-7f03 r--p 0 0 0 /opt/libhook.so\n7f04-7f05 r--p 0 0 0 /tmp/xcache (deleted)\n",
                b"HOME=/root\0LD_PRELOAD=/tmp/inject.so\0\xff\xfe\0",
            ),
            ProcEntry {
                pid: "8".to_string(),
                comm: Some("bash\n".to_string()),
                status: None,
                environ: Some(b"PATH=/bin\0".to_vec()),
                maps: Some("7f00-7f01 r-xp 0 0 0 /memfd:x\n".to_string()),
            },
        ],
    }
}

#[test]
fn overlay_linux_findings() {
    let found = overlay::scan(&OverlaySnapshot::Linux(linux_snapshot()));
    assert_eq!(
        found,
        vec![
            "unexpected entry in /etc/ld.so.preload: '/tmp/evil.so'".to_string(),
            ".bashrc sets LD_PRELOAD/LD_AUDIT: 'export LD_PRELOAD=/tmp/x.so'".to_string(),
            ".bashrc sets LD_PRELOAD/LD_AUDIT: 'LD_PRELOAD=LD_PRELOAD=/tmp/x.so'".to_string(),
            "pid 7 runs with LD_PRELOAD=/tmp/inject.so".to_string(),
            "pid 7 has executable anonymous/memfd region: (deleted)".to_string(),
            "pid 7 loaded suspicious module: libhook.so".to_string(),
        ]
    );
    let r = overlay::run(&OverlaySnapshot::Linux(linux_snapshot()));
    assert_eq!(r.status, Status::Fail { fixable: true });
    assert_eq!(r.key, "overlay");
}

#[test]
fn overlay_linux_fix_plan() {
    match overlay::fix(&OverlaySnapshot::Linux(linux_snapshot())) {
        OverlayFix::Linux(plan) => {
            assert_eq!(plan.preload_rewrite, Some("\n  /usr/lib/ok.so  ".to_string()));
            assert_eq!(plan.rewrites.len(), 1);
            assert_eq!(plan.rewrites[0].name, ".bashrc");
            assert_eq!(plan.rewrites[0].content, "alias a=b");
            assert_eq!(plan.kill, vec!["7".to_string()]);
        }
        _ => panic!("expected a Linux plan"),
    }
}

#[test]
fn overlay_fix_kills_what_the_sweep_reports() {
    let s = linux_snapshot();
    let reported: Vec<String> = s
        .procs
        .iter()
        .filter(|e| !overlay::scan_proc(e).is_empty())
        .map(|e| e.pid.clone())
        .collect();
    match overlay::fix(&OverlaySnapshot::Linux(s)) {
        OverlayFix::Linux(plan) => {
            for pid in reported {
                assert!(plan.kill.contains(&pid));
            }
        }
        _ => panic!("expected a Linux plan"),
    }
}

#[test]
fn overlay_preload_cleared_iff_reported() {
    for c in [Some("/usr/lib/a.so\n".to_string()), Some(" /tmp/b.so".to_string()), None] {
        let reported = !overlay::scan_preload_file(&c).is_empty();
        assert_eq!(overlay::preload_needs_clear(&c), reported);
    }
}

#[test]
fn overlay_clean_linux_passes() {
    let r = overlay::run(&OverlaySnapshot::Linux(LinuxOverlay {
        ld_preload: Some(String::new()),
        rc_files: vec![],
        procs: vec![],
    }));
    assert_eq!(r.status, Status::Pass);
    assert_eq!(r.detail, "No injected modules, overlays or loader hijacks.");
}

fn windows_snapshot() -> WindowsOverlay {
    WindowsOverlay {
        appinit: Some("C:\\x.dll".to_string()),
        ifeo: vec![
            IfeoEntry { key: "sethc.exe".to_string(), debugger: Some("cmd.exe".to_string()) },
            IfeoEntry { key: "blank.exe".to_string(), debugger: Some("  ".to_string()) },
            IfeoEntry { key: "none.exe".to_string(), debugger: None },
        ],
    }
}

#[test]
fn overlay_windows_findings_and_plan() {
    let found = overlay::scan(&OverlaySnapshot::Windows(windows_snapshot()));
    assert_eq!(
        found,
        vec![
            "AppInit_DLLs is set: 'C:\\x.dll'".to_string(),
            "IFEO 'sethc.exe' has a Debugger set: 'cmd.exe'".to_string(),
        ]
    );
    match overlay::fix(&OverlaySnapshot::Windows(windows_snapshot())) {
        OverlayFix::Windows(plan) => {
            assert!(plan.clear_appinit);
            assert_eq!(plan.clear_debuggers, vec!["sethc.exe".to_string(), "blank.exe".to_string()]);
        }
        _ => panic!("expected a Windows plan"),
    }
    let blank = WindowsOverlay { appinit: Some(" ".to_string()), ifeo: vec![] };
    assert!(overlay::scan(&OverlaySnapshot::Windows(blank)).is_empty());
}

#[test]
fn overlay_other_platform() {
    assert!(matches!(overlay::fix(&OverlaySnapshot::Other), OverlayFix::Unsupported));
    assert_eq!(overlay::run(&OverlaySnapshot::Other).status, Status::Pass);
}

fn bashrc(content: &str) -> LinuxOverlay {
    LinuxOverlay {
        ld_preload: None,
        rc_files: vec![RcFile { name: ".bashrc".to_string(), content: Some(content.to_string()) }],
        procs: vec![],
    }
}

#[test]
fn overlay_rc_export_reported_and_stripped() {
    let s = bashrc("alias ll='ls -l'\nexport LD_PRELOAD=/tmp/evil.so\n");
    assert_eq!(
        overlay::scan_linux(&s),
        vec![".bashrc sets LD_PRELOAD/LD_AUDIT: 'export LD_PRELOAD=/tmp/evil.so'".to_string()]
    );
    let plan = overlay::fix_linux(&s);
    assert_eq!(plan.rewrites.len(), 1);
    assert_eq!(plan.rewrites[0].content, "alias ll='ls -l'");
    assert!(plan.preload_rewrite.is_none());
    assert!(plan.kill.is_empty());
}

#[test]
fn overlay_rc_line_with_whitelisted_overlay_is_still_stripped() {
    let line = "export LD_PRELOAD=/home/u/gameoverlayrenderer.so:/tmp/evil.so";
    assert!(overlay::rc_line_is_flagged(&chars_of(line)));
    assert!(!overlay::rc_line_kept(&chars_of(line)));
    let plan = overlay::fix_linux(&bashrc(&format!("{line}\r\nexport LD_PRELOAD=/home/u/gameoverlayrenderer.so\r\n")));
    assert_eq!(plan.rewrites[0].content, "export LD_PRELOAD=/home/u/gameoverlayrenderer.so");
    assert!(overlay::rc_line_kept(&chars_of("export PATH=/tmp/bin")));
    assert!(overlay::rc_line_kept(&chars_of("export LD_PRELOAD=/usr/lib/libfoo.so")));
    assert!(!overlay::rc_line_kept(&chars_of("# export LD_AUDIT=/tmp/a.so\r")));
    assert!(!overlay::rc_line_is_flagged(&chars_of("  # export LD_AUDIT=/tmp/a.so")));
}

#[test]
fn overlay_exec_region_reads_the_permission_field() {
    assert!(overlay::is_exec_region(&chars_of("7f00-7f01 r-xp 0 00:01 5 /memfd:jit (deleted)")));
    assert!(overlay::is_exec_region(&chars_of("7f00-7f01 rwxp 0 00:01 5 /tmp/a (DELETED)")));
    assert!(!overlay::is_exec_region(&chars_of("7f00-7f10 r--p 00000000 00:01 5 /tmp/xcache (deleted)")));
    assert!(!overlay::is_exec_region(&chars_of("7f00-7f01 r-xp 0 00:01 5 /usr/lib/libc.so.6")));
    assert!(!overlay::is_exec_region(&chars_of("memfd:x")));
    let s = LinuxOverlay {
        ld_preload: None,
        rc_files: vec![],
        procs: vec![java("12", "7f00-7f10 r--p 00000000 00:01 5 /tmp/xcache (deleted)\n", b"")],
    };
    assert!(overlay::scan_linux(&s).is_empty());
    assert!(overlay::fix_linux(&s).kill.is_empty());
}

#[test]
fn overlay_preload_rewrite_keeps_legitimate_entries() {
    let c = "/usr/lib/libgood.so\n/tmp/evil.so\n".to_string();
    let new = overlay::rewrite_preload(&c);
    assert_eq!(new, "/usr/lib/libgood.so");
    assert!(overlay::scan_preload_file(&Some(new)).is_empty());
    let s = LinuxOverlay { ld_preload: Some(c), rc_files: vec![], procs: vec![] };
    assert_eq!(overlay::fix_linux(&s).preload_rewrite, Some("/usr/lib/libgood.so".to_string()));
    let clean = LinuxOverlay { ld_preload: Some("/usr/lib/libgood.so\n".to_string()), rc_files: vec![], procs: vec![] };
    assert!(overlay::fix_linux(&clean).preload_rewrite.is_none());
}

#[test]
fn overlay_linux_fix_leaves_nothing() {
    let s = linux_snapshot();
    let plan = overlay::fix_linux(&s);
    let ld_preload = match &plan.preload_rewrite {
        Some(w) => Some(w.clone()),
        None => s.ld_preload.clone(),
    };
    let rc_files = s
        .rc_files
        .iter()
        .map(|f| RcFile {
            name: f.name.clone(),
            content: f.content.as_ref().map(|c| overlay::rewrite_rc(c)),
        })
        .collect();
    let procs = s.procs.iter().filter(|e| !plan.kill.contains(&e.pid)).cloned().collect();
    let t = LinuxOverlay { ld_preload, rc_files, procs };
    assert!(overlay::scan_linux(&t).is_empty());
    assert_eq!(overlay::run(&OverlaySnapshot::Linux(t)).status, Status::Pass);
}

#[test]
fn overlay_windows_fix_leaves_nothing() {
    let s = windows_snapshot();
    let plan = overlay::fix_windows(&s);
    let t = WindowsOverlay {
        appinit: if plan.clear_appinit { None } else { s.appinit.clone() },
        ifeo: s
            .ifeo
            .iter()
            .map(|e| IfeoEntry {
                key: e.key.clone(),
                debugger: if plan.clear_debuggers.contains(&e.key) { None } else { e.debugger.clone() },
            })
            .collect(),
    };
    assert!(overlay::scan_windows(&t).is_empty());
}

#[test]
fn overlay_fix_outcome_counts_the_writes_only() {
    assert!(overlay::overlay_fix_ok(None, &vec![]));
    assert!(overlay::overlay_fix_ok(Some(true), &vec![true, true]));
    assert!(!overlay::overlay_fix_ok(Some(false), &vec![true]));
    assert!(!overlay::overlay_fix_ok(None, &vec![true, false]));
}
