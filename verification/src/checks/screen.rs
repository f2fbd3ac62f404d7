//! Screen access permission: the scanner must be able to capture the
//! screen. Fixable on Linux by restarting the desktop portal.

use vstd::prelude::*;

use super::{CheckReport, NamedProcess, ProcEntry};
use crate::text::{
    all_digits, all_digits_exec, chars_eq, chars_of, has_prefix, lower, lower_chars, starts_with_chars,
    trim, trim_chars,
};

verus! {

/// What the screen check reads.
pub enum ScreenSnapshot {
    /// The `DISPLAY` and `WAYLAND_DISPLAY` variables (`None` when unset or
    /// not Unicode) and the entries of `/proc`.
    Linux { display: Option<String>, wayland: Option<String>, procs: Vec<ProcEntry> },
    /// The process list.
    Windows { procs: Vec<NamedProcess> },
    Other,
}

/// An environment variable that is set and not empty.
pub open spec fn var_set(v: Option<String>) -> bool {
    match v {
        Some(x) => x@.len() > 0,
        None => false,
    }
}

/// The longest name the kernel keeps in `comm`; longer names are cut to
/// their first 15 bytes.
pub open spec fn comm_limit() -> nat {
    15
}

/// A trimmed `comm` that names `target`: equal to it, or its first
/// `comm_limit()` characters when the kernel had to cut it (the names looked
/// for here are ASCII, one byte per character).
pub open spec fn comm_names(comm: Seq<char>, target: Seq<char>) -> bool {
    let t = trim(comm);
    t == target || (t.len() == comm_limit() && target.len() > comm_limit() && has_prefix(target, t))
}

/// A process entry whose trimmed `comm` names `target`.
pub open spec fn linux_running(procs: Seq<ProcEntry>, target: Seq<char>) -> bool {
    exists|i: int|
        0 <= i < procs.len() && all_digits((#[trigger] procs[i]).pid@) && procs[i].comm is Some
            && comm_names(procs[i].comm->0@, target)
}

/// A process whose lower-cased name is exactly `target`.
pub open spec fn windows_running(procs: Seq<NamedProcess>, target: Seq<char>) -> bool {
    exists|i: int| 0 <= i < procs.len() && lower((#[trigger] procs[i]).name@) == target
}

/// Why screen capture is unavailable, or `None` when it is available.
pub open spec fn problem(s: ScreenSnapshot) -> Option<Seq<char>> {
    match s {
        ScreenSnapshot::Linux { display, wayland, procs } => {
            if !var_set(display) && !var_set(wayland) {
                Some("No display session detected; screenshare would be impossible."@)
            } else if var_set(wayland) && !linux_running(procs@, "xdg-desktop-portal"@) {
                Some(
                    "Wayland session detected but the XDG desktop portal is not running, so screen capture permission cannot be granted."@,
                )
            } else {
                None
            }
        },
        ScreenSnapshot::Windows { procs } => {
            if !windows_running(procs@, "dwm.exe"@) {
                Some("Desktop Window Manager is not running; screen capture unavailable."@)
            } else if !windows_running(procs@, "explorer.exe"@) {
                Some("No active desktop session detected."@)
            } else {
                None
            }
        },
        ScreenSnapshot::Other => Some("unsupported platform"@),
    }
}

fn var_is_set(v: &Option<String>) -> (r: bool)
    ensures
        r == var_set(*v),
{
    match v {
        Some(x) => {
            let c = chars_of(x.as_str());
            c.len() > 0
        },
        None => false,
    }
}

/// Whether a `comm` file names the target.
pub fn comm_names_exec(comm: &String, target: &Vec<char>) -> (r: bool)
    ensures
        r == comm_names(comm@, target@),
{
    let v = chars_of(comm.as_str());
    let tc = trim_chars(&v);
    chars_eq(&tc, target) || (tc.len() == 15 && target.len() > 15 && starts_with_chars(target, &tc))
}

/// Whether a process with the given `comm` runs (Linux).
pub fn process_running_linux(procs: &Vec<ProcEntry>, target: &str) -> (r: bool)
    ensures
        r == linux_running(procs@, target@),
{
    let t = chars_of(target);
    let mut i: usize = 0;
    while i < procs.len()
        invariant
            i <= procs.len(),
            t@ == target@,
            forall|k: int|
                0 <= k < i ==> !(all_digits((#[trigger] procs@[k]).pid@) && procs@[k].comm is Some
                    && comm_names(procs@[k].comm->0@, target@)),
        decreases procs.len() - i,
    {
        let e = &procs[i];
        let pid = chars_of(e.pid.as_str());
        if all_digits_exec(&pid) {
            match &e.comm {
                Some(c) => {
                    if comm_names_exec(c, &t) {
                        return true;
                    }
                },
                None => {},
            }
        }
        i = i + 1;
    }
    false
}

/// Whether a process with the given lower-case name runs (Windows).
pub fn process_running_windows(procs: &Vec<NamedProcess>, target: &str) -> (r: bool)
    ensures
        r == windows_running(procs@, target@),
{
    let t = chars_of(target);
    let mut i: usize = 0;
    while i < procs.len()
        invariant
            i <= procs.len(),
            t@ == target@,
            forall|k: int| 0 <= k < i ==> lower((#[trigger] procs@[k]).name@) != target@,
        decreases procs.len() - i,
    {
        let n = chars_of(procs[i].name.as_str());
        let l = lower_chars(&n);
        if chars_eq(&l, &t) {
            return true;
        }
        i = i + 1;
    }
    false
}

/// Why screen capture is unavailable, if it is.
pub fn find_problem(s: &ScreenSnapshot) -> (r: Option<String>)
    ensures
        r matches Some(d) ==> problem(*s) == Some(d@),
        r is None ==> problem(*s) is None,
{
    match s {
        ScreenSnapshot::Linux { display, wayland, procs } => {
            let has_display = var_is_set(display);
            let has_wayland = var_is_set(wayland);
            if !has_display && !has_wayland {
                return Some(
                    "No display session detected; screenshare would be impossible.".to_owned(),
                );
            }
            if has_wayland {
                if !process_running_linux(procs, "xdg-desktop-portal") {
                    return Some(
                        "Wayland session detected but the XDG desktop portal is not running, so screen capture permission cannot be granted.".to_owned(),
                    );
                }
            }
            None
        },
        ScreenSnapshot::Windows { procs } => {
            if !process_running_windows(procs, "dwm.exe") {
                return Some(
                    "Desktop Window Manager is not running; screen capture unavailable.".to_owned(),
                );
            }
            if !process_running_windows(procs, "explorer.exe") {
                return Some("No active desktop session detected.".to_owned());
            }
            None
        },
        ScreenSnapshot::Other => Some("unsupported platform".to_owned()),
    }
}

/// The check's key.
pub fn name_value() -> (r: &'static str)
    ensures
        r@ == "screen"@,
{
    "screen"
}

pub open spec fn check_name() -> Seq<char> {
    "Screen access permission"@
}

/// The screen check: pass when capture is available, otherwise a fixable
/// failure that says why.
pub fn run(s: &ScreenSnapshot) -> (r: CheckReport)
    ensures
        r.key@ == "screen"@,
        r.name@ == check_name(),
        problem(*s) is None ==> r.status == super::Status::Pass && r.detail@
            == "Screen capture is available."@,
        problem(*s) matches Some(d) ==> r.status == (super::Status::Fail { fixable: true })
            && r.detail@ == d,
{
    match find_problem(s) {
        None => CheckReport::pass(name_value(), "Screen access permission", "Screen capture is available.".to_owned()),
        Some(d) => CheckReport::fail(name_value(), "Screen access permission", true, d),
    }
}

/// The fix's result, judged from a snapshot taken after the fix ran: on
/// Linux the portal was restarted and the fix worked when the portal now
/// runs; elsewhere there is no fix and it reports failure.
pub fn fix(after: &ScreenSnapshot) -> (r: bool)
    ensures
        after matches ScreenSnapshot::Linux { procs, .. } ==> r == linux_running(
            procs@,
            "xdg-desktop-portal"@,
        ),
        !(after is Linux) ==> !r,
{
    match after {
        ScreenSnapshot::Linux { procs, .. } => process_running_linux(procs, "xdg-desktop-portal"),
        _ => false,
    }
}

} // verus!

verus! {

/// A Wayland session (`WAYLAND_DISPLAY` set and not empty) without a
/// running desktop portal fails the screen check, whether or not `DISPLAY`
/// is set as well.
pub proof fn law_wayland_needs_portal(
    display: Option<String>,
    wayland: Option<String>,
    procs: Vec<ProcEntry>,
)
    requires
        wayland matches Some(w) && w@.len() > 0,
        !linux_running(procs@, "xdg-desktop-portal"@),
    ensures
        problem(ScreenSnapshot::Linux { display, wayland, procs }) == Some(
            "Wayland session detected but the XDG desktop portal is not running, so screen capture permission cannot be granted."@,
        ),
{
}

/// Screen capture is available in an X11 session (`DISPLAY` set, no
/// Wayland) and in a Wayland session whose desktop portal runs.
pub proof fn law_session_with_capture_passes(
    display: Option<String>,
    wayland: Option<String>,
    procs: Vec<ProcEntry>,
)
    requires
        (wayland matches Some(w) && w@.len() > 0 && linux_running(procs@, "xdg-desktop-portal"@)) || (
        display matches Some(d) && d@.len() > 0 && !(wayland matches Some(w) && w@.len() > 0)),
    ensures
        problem(ScreenSnapshot::Linux { display, wayland, procs }) is None,
{
}

/// Without `DISPLAY` and `WAYLAND_DISPLAY` (unset or empty) there is no
/// session to capture.
pub proof fn law_no_session_fails(display: Option<String>, wayland: Option<String>, procs: Vec<ProcEntry>)
    requires
        !(display matches Some(d) && d@.len() > 0),
        !(wayland matches Some(w) && w@.len() > 0),
    ensures
        problem(ScreenSnapshot::Linux { display, wayland, procs }) == Some(
            "No display session detected; screenshare would be impossible."@,
        ),
{
}

} // verus!
