//! Signature lists the checks match against. They are deliberately small
//! and conservative: exact names first, then a few high-confidence tokens.

use vstd::prelude::*;
use crate::text::{chars_of, chars_eq, contains_chars, starts_with_chars, has_sub, has_prefix};

verus! {

/// The views of a list of string slices.
pub open spec fn strs(v: Seq<&str>) -> Seq<Seq<char>> {
    v.map_values(|s: &str| s@)
}

/// Process names (lower-case basename) of tools that block or interfere with
/// the scan itself: anti-screenshare and capture blockers, and tools that
/// force-close the scanner.
pub open spec fn suspicious_processes() -> Seq<Seq<char>> {
    seq![
        "antisstool"@, "anti-ss"@, "antiss"@, "streamproof"@, "ssblocker"@, "screenblocker"@,
        "captureblocker"@, "ss-protector"@, "processkiller"@, "taskkiller"@, "killswitch"@,
        "oceanblocker"@, "antiocean"@, "sskiller"@, "forceclose"@, "crashinjector"@,
        "anticrash"@,
    ]
}

pub fn suspicious_process_list() -> (v: Vec<&'static str>)
    ensures
        strs(v@) == suspicious_processes(),
{
    let v = vec![
        "antisstool", "anti-ss", "antiss", "streamproof", "ssblocker", "screenblocker",
        "captureblocker", "ss-protector", "processkiller", "taskkiller", "killswitch",
        "oceanblocker", "antiocean", "sskiller", "forceclose", "crashinjector", "anticrash",
    ];
    assert(strs(v@) =~= suspicious_processes());
    v
}

} // verus!

verus! {

/// Substring tokens with very high confidence, matched anywhere in a
/// lower-case process name.
pub open spec fn suspicious_tokens() -> Seq<Seq<char>> {
    seq![
        "antiscreenshare"@, "killocean"@, "processkiller"@, "streamproof"@, "ssblocker"@,
    ]
}

pub fn suspicious_token_list() -> (v: Vec<&'static str>)
    ensures
        strs(v@) == suspicious_tokens(),
{
    let v = vec![
        "antiscreenshare", "killocean", "processkiller", "streamproof", "ssblocker",
    ];
    assert(strs(v@) =~= suspicious_tokens());
    v
}

/// Legitimate overlay/injection mechanisms that are always allowed (the
/// Steam overlay on Linux).
pub open spec fn preload_whitelist() -> Seq<Seq<char>> {
    seq![
        "gameoverlayrenderer"@, "steamoverlayvulkanlayer"@,
    ]
}

pub fn preload_whitelist_list() -> (v: Vec<&'static str>)
    ensures
        strs(v@) == preload_whitelist(),
{
    let v = vec![
        "gameoverlayrenderer", "steamoverlayvulkanlayer",
    ];
    assert(strs(v@) =~= preload_whitelist());
    v
}

/// Executable/shared-object name fragments of injected modules or overlay
/// and hook code.
pub open spec fn suspicious_modules() -> Seq<Seq<char>> {
    seq![
        "inject"@, "hook"@, "overlay"@, "loader"@, "bypass"@,
    ]
}

pub fn suspicious_module_list() -> (v: Vec<&'static str>)
    ensures
        strs(v@) == suspicious_modules(),
{
    let v = vec![
        "inject", "hook", "overlay", "loader", "bypass",
    ];
    assert(strs(v@) =~= suspicious_modules());
    v
}

/// Shell-history fragments of execution laundering and cheat auth services.
pub open spec fn history_patterns() -> Seq<Seq<char>> {
    seq![
        "rar x"@, "unrar"@, "7z x"@, "unzip"@, "keyauth"@, "eauth"@,
    ]
}

pub fn history_pattern_list() -> (v: Vec<&'static str>)
    ensures
        strs(v@) == history_patterns(),
{
    let v = vec![
        "rar x", "unrar", "7z x", "unzip", "keyauth", "eauth",
    ];
    assert(strs(v@) =~= history_patterns());
    v
}

/// Known antivirus process names (lower case), the fallback for antivirus
/// products that are not registered with Windows Security Center.
pub open spec fn known_av_processes() -> Seq<Seq<char>> {
    seq![
        "msmpeng.exe"@, "msseces.exe"@, "nortonsecurity.exe"@, "ccsvchst.exe"@, "navw32.exe"@,
        "mcafee.exe"@, "mcshield.exe"@, "mfehcs.exe"@, "frameworkservice.exe"@, "mfemms.exe"@,
        "mcapexe.exe"@, "mfefire.exe"@, "aemservice.exe"@, "avp.exe"@, "kavsvc.exe"@,
        "ksde.exe"@, "kaspersky.exe"@, "ekrn.exe"@, "eguiproxy.exe"@, "bdagent.exe"@,
        "bdservicehost.exe"@, "bdscan.exe"@, "avastui.exe"@, "avastsvc.exe"@,
        "aswidsagenta.exe"@, "avgnt.exe"@, "avgui.exe"@, "avgsvc.exe"@, "avgemc.exe"@,
        "avgtray.exe"@, "avguard.exe"@, "avshadow.exe"@, "mbamservice.exe"@, "mbamtray.exe"@,
        "360tray.exe"@, "360sd.exe"@, "360safe.exe"@, "zhudongfangyu.exe"@, "pccntmon.exe"@,
        "tmbmsrv.exe"@, "tmccsf.exe"@, "ccevtmgr.exe"@, "tmproxy.exe"@, "sophosui.exe"@,
        "swi_service.exe"@, "sophosfs.exe"@, "wrsa.exe"@, "cmdagent.exe"@, "vsmon.exe"@,
        "psanhost.exe"@, "pavfwsrv.exe"@, "pavprsrv.exe"@, "fsaua.exe"@, "fssm32.exe"@,
        "fshoster32.exe"@, "avkcl.exe"@, "avktray.exe"@, "a2service.exe"@, "a2guard.exe"@,
        "hipstray.exe"@, "wsctrl.exe"@, "usysdiag.exe"@, "totalav.exe"@, "bullguard.exe"@,
        "vipremgr.exe"@, "adaware_service.exe"@, "adawaretray.exe"@,
    ]
}

pub fn known_av_process_list() -> (v: Vec<&'static str>)
    ensures
        strs(v@) == known_av_processes(),
{
    let v = vec![
        "msmpeng.exe", "msseces.exe", "nortonsecurity.exe", "ccsvchst.exe", "navw32.exe",
        "mcafee.exe", "mcshield.exe", "mfehcs.exe", "frameworkservice.exe", "mfemms.exe",
        "mcapexe.exe", "mfefire.exe", "aemservice.exe", "avp.exe", "kavsvc.exe", "ksde.exe",
        "kaspersky.exe", "ekrn.exe", "eguiproxy.exe", "bdagent.exe", "bdservicehost.exe",
        "bdscan.exe", "avastui.exe", "avastsvc.exe", "aswidsagenta.exe", "avgnt.exe",
        "avgui.exe", "avgsvc.exe", "avgemc.exe", "avgtray.exe", "avguard.exe", "avshadow.exe",
        "mbamservice.exe", "mbamtray.exe", "360tray.exe", "360sd.exe", "360safe.exe",
        "zhudongfangyu.exe", "pccntmon.exe", "tmbmsrv.exe", "tmccsf.exe", "ccevtmgr.exe",
        "tmproxy.exe", "sophosui.exe", "swi_service.exe", "sophosfs.exe", "wrsa.exe",
        "cmdagent.exe", "vsmon.exe", "psanhost.exe", "pavfwsrv.exe", "pavprsrv.exe", "fsaua.exe",
        "fssm32.exe", "fshoster32.exe", "avkcl.exe", "avktray.exe", "a2service.exe",
        "a2guard.exe", "hipstray.exe", "wsctrl.exe", "usysdiag.exe", "totalav.exe",
        "bullguard.exe", "vipremgr.exe", "adaware_service.exe", "adawaretray.exe",
    ];
    assert(strs(v@) =~= known_av_processes());
    v
}

/// Shell start-up files (relative to the home directory) that may export
/// `LD_PRELOAD`.
pub open spec fn shell_rc_files() -> Seq<Seq<char>> {
    seq![
        ".bashrc"@, ".profile"@, ".zshrc"@, ".bash_profile"@, ".xprofile"@,
    ]
}

pub fn shell_rc_file_list() -> (v: Vec<&'static str>)
    ensures
        strs(v@) == shell_rc_files(),
{
    let v = vec![
        ".bashrc", ".profile", ".zshrc", ".bash_profile", ".xprofile",
    ];
    assert(strs(v@) =~= shell_rc_files());
    v
}

/// The scanner's domains, which must resolve for a scan to upload results.
pub open spec fn ocean_domains() -> Seq<Seq<char>> {
    seq![
        "anticheat.ac"@, "api.anticheat.ac"@,
    ]
}

pub fn ocean_domain_list() -> (v: Vec<&'static str>)
    ensures
        strs(v@) == ocean_domains(),
{
    let v = vec![
        "anticheat.ac", "api.anticheat.ac",
    ];
    assert(strs(v@) =~= ocean_domains());
    v
}

/// Path prefixes of the system library directories; preload entries there
/// are legitimate.
pub open spec fn system_lib_prefixes() -> Seq<Seq<char>> {
    seq![
        "/usr/local/lib"@, "/usr/lib"@, "/lib64"@, "/lib/"@,
    ]
}

pub fn system_lib_prefix_list() -> (v: Vec<&'static str>)
    ensures
        strs(v@) == system_lib_prefixes(),
{
    let v = vec![
        "/usr/local/lib", "/usr/lib", "/lib64", "/lib/",
    ];
    assert(strs(v@) =~= system_lib_prefixes());
    v
}

/// Shell history files (relative to the home directory) searched for
/// laundering traces.
pub open spec fn history_files() -> Seq<Seq<char>> {
    seq![
        ".bash_history"@, ".zsh_history"@,
    ]
}

pub fn history_file_list() -> (v: Vec<&'static str>)
    ensures
        strs(v@) == history_files(),
{
    let v = vec![
        ".bash_history", ".zsh_history",
    ];
    assert(strs(v@) =~= history_files());
    v
}

} // verus!

verus! {

/// `s` is one of the items of `list`.
pub open spec fn listed(list: Seq<Seq<char>>, s: Seq<char>) -> bool {
    exists|i: int| 0 <= i < list.len() && list[i] == s
}

/// Some item of `list` occurs in `hay`.
pub open spec fn any_sub(list: Seq<Seq<char>>, hay: Seq<char>) -> bool {
    exists|i: int| 0 <= i < list.len() && has_sub(hay, #[trigger] list[i])
}

/// `hay` begins with some item of `list`.
pub open spec fn any_prefix(list: Seq<Seq<char>>, hay: Seq<char>) -> bool {
    exists|i: int| 0 <= i < list.len() && has_prefix(hay, #[trigger] list[i])
}

/// Whether `s` equals an item of `list`.
pub fn is_listed(list: &Vec<&str>, s: &Vec<char>) -> (r: bool)
    ensures
        r == listed(strs(list@), s@),
{
    let mut i: usize = 0;
    while i < list.len()
        invariant
            i <= list.len(),
            forall|k: int| 0 <= k < i ==> strs(list@)[k] != s@,
        decreases list.len() - i,
    {
        let item = chars_of(list[i]);
        if chars_eq(&item, s) {
            assert(strs(list@)[i as int] == s@);
            return true;
        }
        i = i + 1;
    }
    false
}

/// Whether some item of `list` occurs in `hay`.
pub fn any_contained(list: &Vec<&str>, hay: &Vec<char>) -> (r: bool)
    ensures
        r == any_sub(strs(list@), hay@),
{
    let mut i: usize = 0;
    while i < list.len()
        invariant
            i <= list.len(),
            forall|k: int| 0 <= k < i ==> !has_sub(hay@, #[trigger] strs(list@)[k]),
        decreases list.len() - i,
    {
        let item = chars_of(list[i]);
        if contains_chars(hay, &item) {
            assert(has_sub(hay@, strs(list@)[i as int]));
            return true;
        }
        i = i + 1;
    }
    false
}

/// Whether `hay` begins with some item of `list`.
pub fn any_starts(list: &Vec<&str>, hay: &Vec<char>) -> (r: bool)
    ensures
        r == any_prefix(strs(list@), hay@),
{
    let mut i: usize = 0;
    while i < list.len()
        invariant
            i <= list.len(),
            forall|k: int| 0 <= k < i ==> !has_prefix(hay@, #[trigger] strs(list@)[k]),
        decreases list.len() - i,
    {
        let item = chars_of(list[i]);
        if starts_with_chars(hay, &item) {
            assert(has_prefix(hay@, strs(list@)[i as int]));
            return true;
        }
        i = i + 1;
    }
    false
}

} // verus!
