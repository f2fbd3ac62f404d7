//! Smoke test for the check engine: every check runs on a clean host and
//! reports a sane outcome.

use byte_check::checks::av::{self, AvCheck, AvState};
use byte_check::checks::clock;
use byte_check::checks::ocean;
use byte_check::checks::overlay::{self, LinuxOverlay, OverlaySnapshot, RcFile};
use byte_check::checks::process::{self, ProcessSnapshot};
use byte_check::checks::screen::{self, ScreenSnapshot};
use byte_check::checks::trace::{self, TraceSnapshot};
use byte_check::checks::{ProcEntry, Status};

fn entry(pid: &str, comm: &str) -> ProcEntry {
    ProcEntry {
        pid: pid.to_string(),
        comm: Some(format!("{comm}\n")),
        status: Some("Name:\tx\nTracerPid:\t0\n".to_string()),
        environ: Some(b"HOME=/home/u\0PATH=/usr/bin\0".to_vec()),
        maps: Some(String::new()),
    }
}

#[test]
fn engine_smoke() {
    let procs = vec![entry("1", "systemd"), entry("42", "xdg-desktop-portal")];

    let process = process::run(&ProcessSnapshot::Linux(procs.clone()));
    println!("[process] {:?} — {}", process.status_str(), process.detail);
    assert_eq!(process.status, Status::Pass);

    let overlay = overlay::run(&OverlaySnapshot::Linux(LinuxOverlay {
        ld_preload: None,
        rc_files: vec![RcFile { name: ".bashrc".to_string(), content: Some("alias ll='ls -l'\n".to_string()) }],
        procs: procs.clone(),
    }));
    println!("[overlay] {:?} — {}", overlay.status_str(), overlay.detail);
    assert_eq!(overlay.status, Status::Pass);

    let clock = clock::run(&Ok(1200));
    println!("[clock] {:?} — {}", clock.status_str(), clock.detail);
    assert_eq!(clock.status, Status::Pass);

    let screen = screen::run(&ScreenSnapshot::Linux {
        display: Some(":0".to_string()),
        wayland: Some("wayland-0".to_string()),
        procs: procs.clone(),
    });
    println!("[screen] {:?} — {}", screen.status_str(), screen.detail);
    assert_eq!(screen.status, Status::Pass);

    let av = av::run(&AvCheck::Linux);
    println!("[av] {:?} — {}", av.status_str(), av.detail);
    assert_eq!(av.status, Status::Pass);

    let found = ocean::scan_hosts(&Some("127.0.0.1 localhost\n".to_string()));
    let ocean = ocean::run(&found, true);
    println!("[ocean] {:?} — {}", ocean.status_str(), ocean.detail);
    assert_eq!(ocean.status, Status::Pass);

    let trace = trace::run(&TraceSnapshot::Linux { histories: vec![Some("ls\ncd /tmp\n".to_string()), None] });
    println!("[trace] {:?} — {}", trace.status_str(), trace.detail);
    assert_eq!(trace.status, Status::Pass);

    let _ = AvState::Absent;
}
