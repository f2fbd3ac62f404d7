//! Pre-scan environment checks: the decision logic of each check, the
//! signature lists it matches against, and the runner that turns check
//! reports into an eligibility outcome.

pub mod checks;
pub mod signatures;
pub mod text;

use vstd::prelude::*;

use crate::text::{chars_eq, chars_of, lower, lower_chars};

verus! {

/// Whether the process already runs with the privileges it needs.
///
/// On every supported platform the answer is fixed: Windows runs the whole
/// program elevated (the executable requires administrator rights), and Linux elevates each privileged
/// fix on its own, so there is never a relaunch to perform.
pub fn ensure_elevated() -> (r: bool)
    ensures
        r,
{
    true
}

/// The answer to a user command.
pub struct CmdResult {
    pub ok: bool,
    pub message: String,
}

/// The answer to the request to re-enable antivirus protection, given
/// whether re-enabling worked.
pub fn restore_av_result(restored: bool) -> (r: CmdResult)
    ensures
        r.ok == restored,
        restored ==> r.message@ == "Antivirus realtime protection re-enabled."@,
        !restored ==> r.message@
            == "Could not re-enable antivirus realtime protection. Re-enable it manually."@,
{
    if restored {
        CmdResult { ok: true, message: "Antivirus realtime protection re-enabled.".to_owned() }
    } else {
        CmdResult {
            ok: false,
            message: "Could not re-enable antivirus realtime protection. Re-enable it manually.".to_owned(),
        }
    }
}

/// The answer to the request to start the scan: the scan itself runs in
/// the scanner, so the user is sent there.
pub fn start_scan_result() -> (r: CmdResult)
    ensures
        r.ok,
        r.message@ == "Open Ocean Anticheat and enter your PIN to scan."@,
{
    CmdResult { ok: true, message: "Open Ocean Anticheat and enter your PIN to scan.".to_owned() }
}

/// The home directory of the user who started the program: the one carried
/// over through elevation (`BYTE_CHECK_HOME`), else `HOME`, else `/root`.
pub fn home_dir(carried: Option<String>, home: Option<String>) -> (r: String)
    ensures
        carried matches Some(c) ==> r@ == c@,
        carried is None ==> (home matches Some(h) ==> r@ == h@),
        carried is None && home is None ==> r@ == "/root"@,
{
    match carried {
        Some(c) => c,
        None => match home {
            Some(h) => h,
            None => "/root".to_owned(),
        },
    }
}

/// Whether to switch the GUI toolkit to the X11 backend: a display is
/// available and the backend is unset or forced to Wayland (in any case).
pub open spec fn x11_preferred(gdk_backend: Option<String>, display: Option<String>) -> bool {
    let forced_wayland = (gdk_backend matches Some(b) && lower(b@) == "wayland"@);
    let has_display = (display matches Some(d) && d@.len() > 0);
    (gdk_backend is None || forced_wayland) && has_display
}

pub fn prefer_x11(gdk_backend: &Option<String>, display: &Option<String>) -> (r: bool)
    ensures
        r == x11_preferred(*gdk_backend, *display),
{
    let forced_wayland = match gdk_backend {
        Some(b) => {
            let v = chars_of(b.as_str());
            let l = lower_chars(&v);
            let w = chars_of("wayland");
            chars_eq(&l, &w)
        },
        None => false,
    };
    let has_display = match display {
        Some(d) => {
            let v = chars_of(d.as_str());
            v.len() > 0
        },
        None => false,
    };
    (gdk_backend.is_none() || forced_wayland) && has_display
}

/// Rendering settings for the web view, applied when the user set none:
/// software rendering avoids blank windows on some compositors.
pub fn webkit_defaults() -> (r: Vec<(&'static str, &'static str)>)
    ensures
        r@.len() == 2,
        r@[0].0@ == "WEBKIT_DISABLE_DMABUF_RENDERER"@ && r@[0].1@ == "1"@,
        r@[1].0@ == "WEBKIT_DISABLE_COMPOSITING_MODE"@ && r@[1].1@ == "1"@,
{
    vec![("WEBKIT_DISABLE_DMABUF_RENDERER", "1"), ("WEBKIT_DISABLE_COMPOSITING_MODE", "1")]
}

} // verus!
