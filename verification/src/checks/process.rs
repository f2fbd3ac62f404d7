//! Process integrity: processes that interfere with the scan, and debuggers
//! attached to any process. Never fixable.

use vstd::prelude::*;

use super::{CheckReport, NamedProcess, ProcEntry};
use crate::signatures::{
    any_contained, any_sub, is_listed, listed, suspicious_process_list, suspicious_processes,
    suspicious_token_list, suspicious_tokens,
};
use crate::text::{
    all_digits, all_digits_exec, append_chars, chars_of, find_prefixed, first_prefixed, join,
    join_strings, lines, lines_of, lower, lower_chars, push_str, string_of, string_views, trim,
    trim_chars, words, words_of,
};

verus! {

/// What the process check reads from the system.
pub enum ProcessSnapshot {
    /// The entries of `/proc`.
    Linux(Vec<ProcEntry>),
    /// The process list.
    Windows(Vec<NamedProcess>),
    /// A platform without a process check.
    Other,
}

/// The lower-cased, trimmed process name from a `comm` file; empty when the
/// file could not be read.
pub open spec fn comm_name(comm: Option<String>) -> Seq<char> {
    match comm {
        Some(c) => lower(trim(c@)),
        None => Seq::empty(),
    }
}

/// A process name that matches a signature exactly or contains a token.
pub open spec fn suspicious_name(n: Seq<char>) -> bool {
    listed(suspicious_processes(), n) || any_sub(suspicious_tokens(), n)
}

/// The tracer field of a `TracerPid:` line: its second word, `"0"` if absent.
pub open spec fn tracer_value(line: Seq<char>) -> Seq<char> {
    let w = words(line);
    if w.len() > 1 {
        w[1]
    } else {
        "0"@
    }
}

/// A `status` file whose first `TracerPid:` line names a tracer other than 0.
pub open spec fn debugger_attached(status: Option<String>) -> bool {
    match status {
        Some(s) => match first_prefixed(lines(s@), "TracerPid:"@) {
            Some(l) => tracer_value(l) != "0"@,
            None => false,
        },
        None => false,
    }
}

pub open spec fn process_msg(name: Seq<char>, pid: Seq<char>) -> Seq<char> {
    "process '"@ + name + "' (pid "@ + pid + ")"@
}

pub open spec fn debugger_msg(name: Seq<char>, pid: Seq<char>) -> Seq<char> {
    "debugger attached to '"@ + name + "' (pid "@ + pid + ")"@
}

/// The findings for one `/proc` entry; entries that are not processes
/// (names with a non-digit) are skipped.
pub open spec fn entry_findings(e: ProcEntry) -> Seq<Seq<char>> {
    if !all_digits(e.pid@) {
        seq![]
    } else {
        let name = comm_name(e.comm);
        (if suspicious_name(name) {
            seq![process_msg(name, e.pid@)]
        } else {
            seq![]
        }) + (if debugger_attached(e.status) {
            seq![debugger_msg(name, e.pid@)]
        } else {
            seq![]
        })
    }
}

/// The findings for all `/proc` entries, in order.
pub open spec fn linux_findings(es: Seq<ProcEntry>) -> Seq<Seq<char>>
    decreases es.len(),
{
    if es.len() == 0 {
        seq![]
    } else {
        linux_findings(es.drop_last()) + entry_findings(es.last())
    }
}

/// The findings for a process list.
pub open spec fn windows_findings(ps: Seq<NamedProcess>) -> Seq<Seq<char>>
    decreases ps.len(),
{
    if ps.len() == 0 {
        seq![]
    } else {
        let p = ps.last();
        let name = lower(p.name@);
        windows_findings(ps.drop_last()) + if suspicious_name(name) {
            seq![process_msg(name, p.pid@)]
        } else {
            seq![]
        }
    }
}

/// The findings on the platform of the snapshot.
pub open spec fn findings(s: ProcessSnapshot) -> Seq<Seq<char>> {
    match s {
        ProcessSnapshot::Linux(es) => linux_findings(es@),
        ProcessSnapshot::Windows(ps) => windows_findings(ps@),
        ProcessSnapshot::Other => seq![],
    }
}

/// The name of a `/proc` entry, as in `comm_name`.
pub fn read_comm_name(comm: &Option<String>) -> (r: Vec<char>)
    ensures
        r@ == comm_name(*comm),
{
    match comm {
        Some(c) => {
            let v = chars_of(c.as_str());
            let t = trim_chars(&v);
            lower_chars(&t)
        },
        None => Vec::new(),
    }
}

/// Whether a process name matches a signature.
pub fn is_suspicious_name(n: &Vec<char>) -> (r: bool)
    ensures
        r == suspicious_name(n@),
{
    let procs = suspicious_process_list();
    let tokens = suspicious_token_list();
    is_listed(&procs, n) || any_contained(&tokens, n)
}

/// Whether a `status` file shows an attached debugger.
pub fn has_debugger(status: &Option<String>) -> (r: bool)
    ensures
        r == debugger_attached(*status),
{
    match status {
        Some(s) => {
            let v = chars_of(s.as_str());
            let ls = lines_of(&v);
            let p = chars_of("TracerPid:");
            match find_prefixed(&ls, &p) {
                Some(l) => {
                    let w = words_of(&l);
                    let zero = chars_of("0");
                    if w.len() > 1 {
                        !crate::text::chars_eq(&w[1], &zero)
                    } else {
                        false
                    }
                },
                None => false,
            }
        },
        None => false,
    }
}

fn message(before: &str, name: &Vec<char>, middle: &str, pid: &Vec<char>) -> (r: String)
    ensures
        r@ == before@ + name@ + middle@ + pid@ + ")"@,
{
    let mut m = chars_of(before);
    append_chars(&mut m, name);
    push_str(&mut m, middle);
    append_chars(&mut m, pid);
    push_str(&mut m, ")");
    string_of(&m)
}

/// The findings for the entries of `/proc`.
pub fn scan_linux(es: &Vec<ProcEntry>) -> (r: Vec<String>)
    ensures
        string_views(r@) == linux_findings(es@),
{
    let mut r: Vec<String> = Vec::new();
    let mut i: usize = 0;
    while i < es.len()
        invariant
            i <= es.len(),
            string_views(r@) == linux_findings(es@.take(i as int)),
        decreases es.len() - i,
    {
        let e = &es[i];
        assert(es@.take(i + 1).drop_last() =~= es@.take(i as int));
        let ghost prev = string_views(r@);
        let pid = chars_of(e.pid.as_str());
        if all_digits_exec(&pid) {
            let name = read_comm_name(&e.comm);
            if is_suspicious_name(&name) {
                r.push(message("process '", &name, "' (pid ", &pid));
            }
            let ghost mid = string_views(r@);
            if has_debugger(&e.status) {
                r.push(message("debugger attached to '", &name, "' (pid ", &pid));
            }
            assert(string_views(r@) =~= prev + entry_findings(*e));
        } else {
            assert(string_views(r@) =~= prev + entry_findings(*e));
        }
        i = i + 1;
    }
    assert(es@.take(es.len() as int) =~= es@);
    r
}

/// The findings for a process list.
pub fn scan_windows(ps: &Vec<NamedProcess>) -> (r: Vec<String>)
    ensures
        string_views(r@) == windows_findings(ps@),
{
    let mut r: Vec<String> = Vec::new();
    let mut i: usize = 0;
    while i < ps.len()
        invariant
            i <= ps.len(),
            string_views(r@) == windows_findings(ps@.take(i as int)),
        decreases ps.len() - i,
    {
        let p = &ps[i];
        assert(ps@.take(i + 1).drop_last() =~= ps@.take(i as int));
        let ghost prev = string_views(r@);
        let raw = chars_of(p.name.as_str());
        let name = lower_chars(&raw);
        let pid = chars_of(p.pid.as_str());
        if is_suspicious_name(&name) {
            r.push(message("process '", &name, "' (pid ", &pid));
            assert(string_views(r@) =~= prev.push(process_msg(name@, pid@)));
        } else {
            assert(string_views(r@) =~= prev + Seq::<Seq<char>>::empty());
        }
        i = i + 1;
    }
    assert(ps@.take(ps.len() as int) =~= ps@);
    r
}

/// The findings on the snapshot's platform.
pub fn scan(s: &ProcessSnapshot) -> (r: Vec<String>)
    ensures
        string_views(r@) == findings(*s),
{
    match s {
        ProcessSnapshot::Linux(es) => scan_linux(es),
        ProcessSnapshot::Windows(ps) => scan_windows(ps),
        ProcessSnapshot::Other => {
            let r: Vec<String> = Vec::new();
            assert(string_views(r@) =~= seq![]);
            r
        },
    }
}

pub open spec fn check_name() -> Seq<char> {
    "Process integrity"@
}

/// The process check: pass when nothing was found, otherwise a failure that
/// cannot be fixed, listing every finding.
pub fn run(s: &ProcessSnapshot) -> (r: CheckReport)
    ensures
        r.key@ == "process"@,
        r.name@ == check_name(),
        findings(*s).len() == 0 ==> r.status == super::Status::Pass && r.detail@
            == "No suspicious processes or attached debuggers."@,
        findings(*s).len() > 0 ==> r.status == (super::Status::Fail { fixable: false })
            && r.detail@ == join(findings(*s), "; "@),
{
    let found = scan(s);
    if found.len() == 0 {
        CheckReport::pass(
            "process",
            "Process integrity",
            "No suspicious processes or attached debuggers.".to_owned(),
        )
    } else {
        CheckReport::fail("process", "Process integrity", false, join_strings(&found, "; "))
    }
}

} // verus!
