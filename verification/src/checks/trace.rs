//! Tamper log trace: evidence of anti-forensics (cleared prefetch, deleted
//! USN journal, cleared event log) and of execution laundering in shell
//! history. Never fixable: undoing it would be more tampering.

use vstd::prelude::*;

use super::CheckReport;
use crate::signatures::{any_contained, any_sub, history_pattern_list, history_patterns};
use crate::text::{
    append_chars, chars_of, contains_chars, ends_with_chars, flat_map, has_sub, has_suffix, join,
    join_strings, lemma_flat_map_all, lemma_flat_map_empty, lemma_flat_map_step, lines, lines_of,
    lower, lower_chars, push_str, string_of, string_views, trim, trim_chars, views,
    lemma_flat_map_contains,
};

verus! {

/// What the check reads on Windows.
#[derive(Clone, Debug)]
pub struct WindowsTrace {
    /// The file names in the prefetch directory; `None` when it is missing
    /// or cannot be read.
    pub prefetch: Option<Vec<String>>,
    /// The `EnablePrefetcher` registry value, if readable.
    pub enable_prefetcher: Option<u32>,
    /// What the USN journal query printed (output and errors), if it ran.
    pub usn_output: Option<String>,
    /// What the query for the latest event-log clearing printed, if it ran.
    pub event_output: Option<String>,
}

/// What the check reads, on the platform it runs on.
pub enum TraceSnapshot {
    /// The shell history files, in the order of `history_files()`; `None`
    /// where a file could not be read.
    Linux { histories: Vec<Option<String>> },
    Windows(WindowsTrace),
    Other,
}

/// A history line that shows a laundering pattern (compared lower-cased).
pub open spec fn history_line_findings(line: Seq<char>) -> Seq<Seq<char>> {
    if any_sub(history_patterns(), lower(line)) {
        seq!["shell history shows: '"@ + line + "'"@]
    } else {
        seq![]
    }
}

pub open spec fn history_findings(h: Option<String>) -> Seq<Seq<char>> {
    match h {
        Some(c) => flat_map(lines(c@), |l: Seq<char>| history_line_findings(l)),
        None => seq![],
    }
}

pub open spec fn linux_findings(hs: Seq<Option<String>>) -> Seq<Seq<char>> {
    flat_map(hs, |h: Option<String>| history_findings(h))
}

/// A file name whose extension is `pf` (`Path::extension`: the part after
/// the last `.`, unless that `.` starts the name).
pub open spec fn is_prefetch_file(name: Seq<char>) -> bool {
    name.len() >= 4 && has_suffix(name, ".pf"@)
}

pub open spec fn prefetch_count(names: Seq<String>) -> nat
    decreases names.len(),
{
    if names.len() == 0 {
        0
    } else {
        prefetch_count(names.drop_last()) + if is_prefetch_file(names.last()@) {
            1nat
        } else {
            0nat
        }
    }
}

pub open spec fn usn_missing(out: Seq<char>) -> bool {
    has_sub(lower(out), "not found"@) || has_sub(lower(out), "is not enabled"@)
}

/// Everything the check finds on Windows, in order.
pub open spec fn windows_findings(w: WindowsTrace) -> Seq<Seq<char>> {
    (match w.prefetch {
        Some(names) => if prefetch_count(names@) == 0 {
            seq!["Prefetch directory is empty (all .pf files deleted)."@]
        } else {
            seq![]
        },
        None => seq!["Prefetch directory is missing or inaccessible."@],
    }) + (if w.enable_prefetcher == Some(0u32) {
        seq!["EnablePrefetcher is 0 (prefetch recording disabled)."@]
    } else {
        seq![]
    }) + (match w.usn_output {
        Some(o) => if usn_missing(o@) {
            seq!["USN journal is missing or disabled (journal deletion / anti-forensics)."@]
        } else {
            seq![]
        },
        None => seq![],
    }) + (match w.event_output {
        Some(o) => if trim(o@).len() > 0 {
            seq!["System event log was cleared (Event 104, "@ + trim(o@) + ")."@]
        } else {
            seq![]
        },
        None => seq![],
    })
}

pub open spec fn findings(s: TraceSnapshot) -> Seq<Seq<char>> {
    match s {
        TraceSnapshot::Linux { histories } => linux_findings(histories@),
        TraceSnapshot::Windows(w) => windows_findings(w),
        TraceSnapshot::Other => seq![],
    }
}

/// Findings in one history file.
pub fn scan_history(h: &Option<String>) -> (r: Vec<String>)
    ensures
        string_views(r@) == history_findings(*h),
{
    let mut r: Vec<String> = Vec::new();
    match h {
        Some(c) => {
            let v = chars_of(c.as_str());
            let ls = lines_of(&v);
            let pats = history_pattern_list();
            let ghost f = |l: Seq<char>| history_line_findings(l);
            let mut i: usize = 0;
            proof {
                lemma_flat_map_empty(views(ls@), f);
            }
            while i < ls.len()
                invariant
                    i <= ls.len(),
                    views(ls@) == lines(c@),
                    crate::signatures::strs(pats@) == history_patterns(),
                    f == (|l: Seq<char>| history_line_findings(l)),
                    string_views(r@) == flat_map(views(ls@).take(i as int), f),
                decreases ls.len() - i,
            {
                proof {
                    lemma_flat_map_step(views(ls@), f, i as int);
                }
                let ghost prev = string_views(r@);
                assert(views(ls@)[i as int] == ls@[i as int]@);
                let lo = lower_chars(&ls[i]);
                if any_contained(&pats, &lo) {
                    let mut m = chars_of("shell history shows: '");
                    append_chars(&mut m, &ls[i]);
                    push_str(&mut m, "'");
                    r.push(string_of(&m));
                    assert(string_views(r@) =~= prev + f(views(ls@)[i as int]));
                } else {
                    assert(string_views(r@) =~= prev + f(views(ls@)[i as int]));
                }
                i = i + 1;
            }
            proof {
                lemma_flat_map_all(views(ls@), f);
            }
        },
        None => {
            assert(string_views(r@) =~= seq![]);
        },
    }
    r
}

/// Findings in the history files.
pub fn scan_linux(hs: &Vec<Option<String>>) -> (r: Vec<String>)
    ensures
        string_views(r@) == linux_findings(hs@),
{
    let mut r: Vec<String> = Vec::new();
    let ghost f = |h: Option<String>| history_findings(h);
    let mut i: usize = 0;
    proof {
        lemma_flat_map_empty(hs@, f);
    }
    while i < hs.len()
        invariant
            i <= hs.len(),
            f == (|h: Option<String>| history_findings(h)),
            string_views(r@) == flat_map(hs@.take(i as int), f),
        decreases hs.len() - i,
    {
        proof {
            lemma_flat_map_step(hs@, f, i as int);
        }
        let more = scan_history(&hs[i]);
        crate::text::extend_strings(&mut r, more);
        i = i + 1;
    }
    proof {
        lemma_flat_map_all(hs@, f);
    }
    r
}

/// How many of the names are prefetch files.
pub fn count_prefetch(names: &Vec<String>) -> (r: usize)
    ensures
        r == prefetch_count(names@),
{
    let mut c: usize = 0;
    let mut i: usize = 0;
    while i < names.len()
        invariant
            i <= names.len(),
            c == prefetch_count(names@.take(i as int)),
            c <= i,
        decreases names.len() - i,
    {
        assert(names@.take(i + 1).drop_last() =~= names@.take(i as int));
        assert(names@.take(i + 1).last() == names@[i as int]);
        let n = chars_of(names[i].as_str());
        let pf = chars_of(".pf");
        if n.len() >= 4 && ends_with_chars(&n, &pf) {
            c = c + 1;
        }
        i = i + 1;
    }
    assert(names@.take(names.len() as int) =~= names@);
    c
}

/// Everything the check finds on Windows.
pub fn scan_windows(w: &WindowsTrace) -> (r: Vec<String>)
    ensures
        string_views(r@) == windows_findings(*w),
{
    let mut r: Vec<String> = Vec::new();
    match &w.prefetch {
        Some(names) => {
            if count_prefetch(names) == 0 {
                r.push("Prefetch directory is empty (all .pf files deleted).".to_owned());
            }
        },
        None => {
            r.push("Prefetch directory is missing or inaccessible.".to_owned());
        },
    }
    let ghost a = string_views(r@);
    if w.enable_prefetcher == Some(0u32) {
        r.push("EnablePrefetcher is 0 (prefetch recording disabled).".to_owned());
    }
    let ghost b = string_views(r@);
    match &w.usn_output {
        Some(o) => {
            let v = chars_of(o.as_str());
            let lo = lower_chars(&v);
            let nf = chars_of("not found");
            let ne = chars_of("is not enabled");
            if contains_chars(&lo, &nf) || contains_chars(&lo, &ne) {
                r.push(
                    "USN journal is missing or disabled (journal deletion / anti-forensics).".to_owned(),
                );
            }
        },
        None => {},
    }
    let ghost c = string_views(r@);
    match &w.event_output {
        Some(o) => {
            let v = chars_of(o.as_str());
            let t = trim_chars(&v);
            if t.len() > 0 {
                let mut m = chars_of("System event log was cleared (Event 104, ");
                append_chars(&mut m, &t);
                push_str(&mut m, ").");
                r.push(string_of(&m));
            }
        },
        None => {},
    }
    assert(string_views(r@) =~= windows_findings(*w));
    r
}

/// The findings on the snapshot's platform.
pub fn scan(s: &TraceSnapshot) -> (r: Vec<String>)
    ensures
        string_views(r@) == findings(*s),
{
    match s {
        TraceSnapshot::Linux { histories } => scan_linux(histories),
        TraceSnapshot::Windows(w) => scan_windows(w),
        TraceSnapshot::Other => {
            let r: Vec<String> = Vec::new();
            assert(string_views(r@) =~= seq![]);
            r
        },
    }
}

pub open spec fn check_name() -> Seq<char> {
    "Tamper log trace"@
}

/// The trace check: pass when nothing was found, otherwise a failure that
/// cannot be fixed, listing every finding.
pub fn run(s: &TraceSnapshot) -> (r: CheckReport)
    ensures
        r.key@ == "trace"@,
        r.name@ == check_name(),
        findings(*s).len() == 0 ==> r.status == super::Status::Pass && r.detail@
            == "No tamper or laundering traces found."@,
        findings(*s).len() > 0 ==> r.status == (super::Status::Fail { fixable: false })
            && r.detail@ == join(findings(*s), "; "@),
{
    let found = scan(s);
    if found.len() == 0 {
        CheckReport::pass("trace", "Tamper log trace", "No tamper or laundering traces found.".to_owned())
    } else {
        CheckReport::fail("trace", "Tamper log trace", false, join_strings(&found, "; "))
    }
}

} // verus!

verus! {

/// Every history file is read: a line of any readable history file, the
/// first or a later one, that shows a laundering pattern (compared
/// lower-cased) is reported as it stands.
pub proof fn law_every_history_line_reported(hs: Seq<Option<String>>, i: int, k: int)
    requires
        0 <= i < hs.len(),
        hs[i] is Some,
        0 <= k < lines(hs[i]->0@).len(),
        exists|p: int|
            0 <= p < history_patterns().len() && has_sub(
                lower(lines(hs[i]->0@)[k]),
                #[trigger] history_patterns()[p],
            ),
    ensures
        linux_findings(hs).contains("shell history shows: '"@ + lines(hs[i]->0@)[k] + "'"@),
{
    let ls = lines(hs[i]->0@);
    let msg = "shell history shows: '"@ + ls[k] + "'"@;
    let f = |l: Seq<char>| history_line_findings(l);
    let g = |h: Option<String>| history_findings(h);
    lemma_flat_map_contains(ls, f, k, 0);
    let j = choose|j: int| 0 <= j < history_findings(hs[i]).len() && history_findings(hs[i])[j] == msg;
    lemma_flat_map_contains(hs, g, i, j);
}

} // verus!
