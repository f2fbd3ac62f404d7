//! Injection & hook sweep: loader hijacks (`/etc/ld.so.preload`,
//! `LD_PRELOAD`/`LD_AUDIT`), injected regions and modules in Java processes,
//! `AppInit_DLLs` and IFEO debuggers. Fixable: hijacks are cleared and
//! offending processes killed, then the check runs again.

use vstd::prelude::*;

use super::{CheckReport, ProcEntry};
use super::process::{comm_name, read_comm_name, suspicious_name, is_suspicious_name};
use crate::signatures::{
    any_contained, any_prefix, any_starts, any_sub, preload_whitelist, preload_whitelist_list,
    suspicious_module_list, suspicious_modules, system_lib_prefix_list, system_lib_prefixes,
};
use crate::text::{
    all_digits, all_digits_exec, append_chars, byte_views, chars_eq, chars_of, contains_chars,
    ends_with_chars, find_char, first_index, has_prefix, has_sub, has_suffix, join, join_chars,
    join_strings, last_piece, lines, lines_of, lower, lower_chars, pieces, push_str, skip_chars,
    split_bytes, split_chars, starts_with_chars, strip_cr, strip_cr_chars, string_of, string_views, trim, trim_chars,
    trim_start, trim_start_chars, utf8_text, views, words, words_of, flat_map,
    lemma_flat_map_step, lemma_flat_map_all, lemma_flat_map_empty, lemma_flat_map_any_len,
    lemma_flat_map_contains, lemma_flat_map_filter, lemma_lines_join, lemma_lines_no_newline,
    lemma_trim_strip_cr, occurs_at,
};

verus! {

/// A preload entry that points at a non-system library or names an
/// injection module. Whitelisted overlays are never suspicious; bare names
/// resolve from the system library path and are legitimate.
pub open spec fn entry_suspicious(entry: Seq<char>) -> bool {
    let e = lower(entry);
    let base = pieces(e, '/').last();
    if any_sub(preload_whitelist(), e) {
        false
    } else if any_sub(suspicious_modules(), base) {
        true
    } else if !has_sub(e, "/"@) {
        false
    } else {
        !any_prefix(system_lib_prefixes(), e)
    }
}

/// An assignment `NAME=a:b:c` with a suspicious entry in its value.
pub open spec fn env_suspicious(kv: Seq<char>) -> bool {
    match first_index(kv, '=') {
        Some(i) => value_suspicious(kv.skip(i + 1)),
        None => false,
    }
}

/// A `:`-separated list of preload entries with a suspicious entry.
pub open spec fn value_suspicious(v: Seq<char>) -> bool {
    exists|k: int| 0 <= k < pieces(v, ':').len() && entry_suspicious(#[trigger] pieces(v, ':')[k])
}

/// Whether a preload entry is suspicious.
pub fn preload_entry_suspicious(entry: &Vec<char>) -> (r: bool)
    ensures
        r == entry_suspicious(entry@),
{
    let e = lower_chars(entry);
    let wl = preload_whitelist_list();
    if any_contained(&wl, &e) {
        return false;
    }
    let base = last_piece(&e, '/');
    let mods = suspicious_module_list();
    if any_contained(&mods, &base) {
        return true;
    }
    let slash = chars_of("/");
    if !contains_chars(&e, &slash) {
        return false;
    }
    let sys = system_lib_prefix_list();
    !any_starts(&sys, &e)
}

/// Whether an assignment carries a suspicious preload entry.
pub fn preload_env_suspicious(kv: &Vec<char>) -> (r: bool)
    ensures
        r == env_suspicious(kv@),
{
    match find_char(kv, '=') {
        Some(i) => {
            let value = skip_chars(kv, i + 1);
            let parts = split_chars(&value, ':');
            let mut k: usize = 0;
            while k < parts.len()
                invariant
                    k <= parts.len(),
                    first_index(kv@, '=') == Some(i as int),
                    views(parts@) == pieces(kv@.skip(i + 1), ':'),
                    forall|j: int| 0 <= j < k ==> !entry_suspicious(#[trigger] pieces(kv@.skip(i + 1), ':')[j]),
                decreases parts.len() - k,
            {
                assert(parts@[k as int]@ == pieces(kv@.skip(i + 1), ':')[k as int]);
                if preload_entry_suspicious(&parts[k]) {
                    assert(entry_suspicious(pieces(kv@.skip(i + 1), ':')[k as int]));
                    return true;
                }
                k = k + 1;
            }
            false
        },
        None => false,
    }
}

} // verus!

verus! {

/// A shell start-up file in the home directory: its name and its content,
/// `None` when it could not be read.
#[derive(Clone, Debug)]
pub struct RcFile {
    pub name: String,
    pub content: Option<String>,
}

/// What the sweep reads on Linux.
#[derive(Clone, Debug)]
pub struct LinuxOverlay {
    /// `/etc/ld.so.preload`, if readable.
    pub ld_preload: Option<String>,
    /// The shell start-up files, in the order of `shell_rc_files()`.
    pub rc_files: Vec<RcFile>,
    /// The entries of `/proc`.
    pub procs: Vec<ProcEntry>,
}

pub open spec fn preload_line_findings(l: Seq<char>) -> Seq<Seq<char>> {
    let t = trim(l);
    if t.len() > 0 && entry_suspicious(t) {
        seq!["unexpected entry in /etc/ld.so.preload: '"@ + t + "'"@]
    } else {
        seq![]
    }
}

/// Findings in `/etc/ld.so.preload`: every non-blank suspicious entry.
pub open spec fn preload_file_findings(c: Option<String>) -> Seq<Seq<char>> {
    match c {
        Some(s) => flat_map(lines(s@), |l: Seq<char>| preload_line_findings(l)),
        None => seq![],
    }
}

/// A line that mentions `LD_PRELOAD` or `LD_AUDIT`, in any letter case.
pub open spec fn mentions_preload(line: Seq<char>) -> bool {
    has_sub(lower(line), "ld_preload"@) || has_sub(lower(line), "ld_audit"@)
}

/// An uncommented start-up line that mentions `LD_PRELOAD`/`LD_AUDIT` and
/// assigns a value with a suspicious entry: the text after its first `=` is
/// the assigned `:`-separated list.
pub open spec fn rc_line_flagged(line: Seq<char>) -> bool {
    &&& mentions_preload(line)
    &&& !has_prefix(trim_start(lower(line)), "#"@)
    &&& env_suspicious(line)
}

pub open spec fn rc_line_findings(name: Seq<char>, line: Seq<char>) -> Seq<Seq<char>> {
    if rc_line_flagged(line) {
        seq![name + " sets LD_PRELOAD/LD_AUDIT: '"@ + line + "'"@]
    } else {
        seq![]
    }
}

pub open spec fn rc_file_findings(f: RcFile) -> Seq<Seq<char>> {
    match f.content {
        Some(c) => flat_map(lines(c@), |l: Seq<char>| rc_line_findings(f.name@, l)),
        None => seq![],
    }
}

/// An environment entry that sets `LD_PRELOAD`/`LD_AUDIT` (any case) to a
/// suspicious, non-whitelisted value; entries that are not UTF-8 are ignored.
pub open spec fn env_entry_flagged(chunk: Seq<u8>) -> bool {
    let kv = vstd::utf8::decode_utf8(chunk);
    let k = lower(kv);
    &&& vstd::utf8::valid_utf8(chunk)
    &&& (has_prefix(k, "ld_preload="@) || has_prefix(k, "ld_audit="@))
    &&& !any_sub(preload_whitelist(), k)
    &&& env_suspicious(kv)
}

pub open spec fn env_entry_findings(pid: Seq<char>, chunk: Seq<u8>) -> Seq<Seq<char>> {
    if env_entry_flagged(chunk) {
        seq!["pid "@ + pid + " runs with "@ + vstd::utf8::decode_utf8(chunk)]
    } else {
        seq![]
    }
}

/// Findings in a process environment (entries separated by NUL bytes).
pub open spec fn environ_findings(pid: Seq<char>, env: Option<Vec<u8>>) -> Seq<Seq<char>> {
    match env {
        Some(b) => flat_map(pieces(b@, 0u8), |c: Seq<u8>| env_entry_findings(pid, c)),
        None => seq![],
    }
}

/// A `comm` file naming the Java runtime.
pub open spec fn is_java(comm: Option<String>) -> bool {
    match comm {
        Some(c) => trim(c@) == "java"@ || trim(c@) == "javaw"@,
        None => false,
    }
}

/// A memory map line (`address perms offset dev inode path`) whose
/// permission field allows execution, for an anonymous (`memfd:`) or deleted
/// file.
pub open spec fn exec_region(line: Seq<char>) -> bool {
    let lo = lower(line);
    &&& words(line).len() > 1
    &&& has_sub(words(line)[1], "x"@)
    &&& (has_sub(lo, "memfd:"@) || has_sub(lo, "(deleted)"@))
}

/// The last word of a line, empty when it has none.
pub open spec fn last_word(line: Seq<char>) -> Seq<char> {
    let w = words(line);
    if w.len() > 0 {
        w.last()
    } else {
        Seq::empty()
    }
}

/// The file name of a map line (lower case, after the last `/`).
pub open spec fn map_module(line: Seq<char>) -> Seq<char> {
    pieces(lower(line), '/').last()
}

pub open spec fn suspicious_module(m: Seq<char>) -> bool {
    has_suffix(m, ".so"@) && any_sub(suspicious_modules(), m)
}

pub open spec fn map_line_findings(pid: Seq<char>, line: Seq<char>) -> Seq<Seq<char>> {
    (if exec_region(line) {
        seq!["pid "@ + pid + " has executable anonymous/memfd region: "@ + last_word(line)]
    } else {
        seq![]
    }) + (if suspicious_module(map_module(line)) {
        seq!["pid "@ + pid + " loaded suspicious module: "@ + map_module(line)]
    } else {
        seq![]
    })
}

/// Findings for one `/proc` entry: its environment, and for Java processes
/// its memory map.
pub open spec fn proc_findings(e: ProcEntry) -> Seq<Seq<char>> {
    if !all_digits(e.pid@) {
        seq![]
    } else {
        environ_findings(e.pid@, e.environ) + if is_java(e.comm) {
            match e.maps {
                Some(m) => flat_map(lines(m@), |l: Seq<char>| map_line_findings(e.pid@, l)),
                None => seq![],
            }
        } else {
            seq![]
        }
    }
}

/// Everything the sweep finds on Linux, in order: preload file, start-up
/// files, processes.
pub open spec fn linux_findings(s: LinuxOverlay) -> Seq<Seq<char>> {
    preload_file_findings(s.ld_preload) + flat_map(s.rc_files@, |f: RcFile| rc_file_findings(f))
        + flat_map(s.procs@, |e: ProcEntry| proc_findings(e))
}

} // verus!

verus! {

/// Builds `a + b + c` as a string.
fn cat3(a: &str, b: &Vec<char>, c: &str) -> (r: String)
    ensures
        r@ == a@ + b@ + c@,
{
    let mut m = chars_of(a);
    append_chars(&mut m, b);
    push_str(&mut m, c);
    string_of(&m)
}

/// Builds `a + b + c + d` as a string.
fn cat4(a: &str, b: &Vec<char>, c: &str, d: &Vec<char>) -> (r: String)
    ensures
        r@ == a@ + b@ + c@ + d@,
{
    let mut m = chars_of(a);
    append_chars(&mut m, b);
    push_str(&mut m, c);
    append_chars(&mut m, d);
    string_of(&m)
}

/// Findings in `/etc/ld.so.preload`.
pub fn scan_preload_file(c: &Option<String>) -> (r: Vec<String>)
    ensures
        string_views(r@) == preload_file_findings(*c),
{
    let mut r: Vec<String> = Vec::new();
    match c {
        Some(s) => {
            let v = chars_of(s.as_str());
            let ls = lines_of(&v);
            let ghost f = |l: Seq<char>| preload_line_findings(l);
            let mut i: usize = 0;
            proof {
                lemma_flat_map_empty(views(ls@), f);
            }
            while i < ls.len()
                invariant
                    i <= ls.len(),
                    views(ls@) == lines(s@),
                    f == (|l: Seq<char>| preload_line_findings(l)),
                    string_views(r@) == flat_map(views(ls@).take(i as int), f),
                decreases ls.len() - i,
            {
                proof {
                    lemma_flat_map_step(views(ls@), f, i as int);
                }
                let ghost prev = string_views(r@);
                assert(views(ls@)[i as int] == ls@[i as int]@);
                let t = trim_chars(&ls[i]);
                if t.len() > 0 && preload_entry_suspicious(&t) {
                    r.push(cat3("unexpected entry in /etc/ld.so.preload: '", &t, "'"));
                    assert(string_views(r@) =~= prev + f(views(ls@)[i as int]));
                } else {
                    assert(string_views(r@) =~= prev + f(views(ls@)[i as int]));
                }
                i = i + 1;
            }
            proof {
                lemma_flat_map_all(views(ls@), f);
            }
        },
        None => {
            assert(string_views(r@) =~= seq![]);
        },
    }
    r
}

} // verus!

verus! {

/// Whether a start-up file line sets a suspicious preload.
pub fn rc_line_is_flagged(line: &Vec<char>) -> (r: bool)
    ensures
        r == rc_line_flagged(line@),
{
    if !mentions_preload_exec(line) {
        return false;
    }
    let l = lower_chars(line);
    let ts = trim_start_chars(&l);
    let hash = chars_of("#");
    if starts_with_chars(&ts, &hash) {
        return false;
    }
    preload_env_suspicious(line)
}

/// Whether a line mentions `LD_PRELOAD` or `LD_AUDIT`.
pub fn mentions_preload_exec(line: &Vec<char>) -> (r: bool)
    ensures
        r == mentions_preload(line@),
{
    let l = lower_chars(line);
    let p1 = chars_of("ld_preload");
    let p2 = chars_of("ld_audit");
    contains_chars(&l, &p1) || contains_chars(&l, &p2)
}

/// Findings in one shell start-up file.
pub fn scan_rc_file(file: &RcFile) -> (r: Vec<String>)
    ensures
        string_views(r@) == rc_file_findings(*file),
{
    let mut r: Vec<String> = Vec::new();
    match &file.content {
        Some(s) => {
            let name = chars_of(file.name.as_str());
            let v = chars_of(s.as_str());
            let ls = lines_of(&v);
            let ghost f = |l: Seq<char>| rc_line_findings(file.name@, l);
            let mut i: usize = 0;
            proof {
                lemma_flat_map_empty(views(ls@), f);
            }
            while i < ls.len()
                invariant
                    i <= ls.len(),
                    name@ == file.name@,
                    views(ls@) == lines(s@),
                    f == (|l: Seq<char>| rc_line_findings(file.name@, l)),
                    string_views(r@) == flat_map(views(ls@).take(i as int), f),
                decreases ls.len() - i,
            {
                proof {
                    lemma_flat_map_step(views(ls@), f, i as int);
                }
                let ghost prev = string_views(r@);
                assert(views(ls@)[i as int] == ls@[i as int]@);
                if rc_line_is_flagged(&ls[i]) {
                    let mut m = name.clone();
                    push_str(&mut m, " sets LD_PRELOAD/LD_AUDIT: '");
                    append_chars(&mut m, &ls[i]);
                    push_str(&mut m, "'");
                    r.push(string_of(&m));
                    assert(string_views(r@) =~= prev + f(views(ls@)[i as int]));
                } else {
                    assert(string_views(r@) =~= prev + f(views(ls@)[i as int]));
                }
                i = i + 1;
            }
            proof {
                lemma_flat_map_all(views(ls@), f);
            }
        },
        None => {
            assert(string_views(r@) =~= seq![]);
        },
    }
    r
}

/// Whether an environment entry sets a suspicious preload; also returns its
/// text when it is UTF-8.
pub fn env_entry_is_flagged(chunk: &Vec<u8>) -> (r: Option<Vec<char>>)
    ensures
        r is Some <==> env_entry_flagged(chunk@),
        r matches Some(kv) ==> kv@ == vstd::utf8::decode_utf8(chunk@),
{
    match utf8_text(chunk.as_slice()) {
        Some(t) => {
            let kv = chars_of(t);
            let k = lower_chars(&kv);
            let p1 = chars_of("ld_preload=");
            let p2 = chars_of("ld_audit=");
            let wl = preload_whitelist_list();
            if (starts_with_chars(&k, &p1) || starts_with_chars(&k, &p2)) && !any_contained(&wl, &k)
                && preload_env_suspicious(&kv) {
                Some(kv)
            } else {
                None
            }
        },
        None => None,
    }
}

/// Findings in a process environment.
pub fn scan_environ(pid: &Vec<char>, env: &Option<Vec<u8>>) -> (r: Vec<String>)
    ensures
        string_views(r@) == environ_findings(pid@, *env),
{
    let mut r: Vec<String> = Vec::new();
    match env {
        Some(b) => {
            let chunks = split_bytes(b, 0u8);
            let ghost f = |c: Seq<u8>| env_entry_findings(pid@, c);
            let mut i: usize = 0;
            proof {
                lemma_flat_map_empty(byte_views(chunks@), f);
            }
            while i < chunks.len()
                invariant
                    i <= chunks.len(),
                    byte_views(chunks@) == pieces(b@, 0u8),
                    f == (|c: Seq<u8>| env_entry_findings(pid@, c)),
                    string_views(r@) == flat_map(byte_views(chunks@).take(i as int), f),
                decreases chunks.len() - i,
            {
                proof {
                    lemma_flat_map_step(byte_views(chunks@), f, i as int);
                }
                let ghost prev = string_views(r@);
                assert(byte_views(chunks@)[i as int] == chunks@[i as int]@);
                match env_entry_is_flagged(&chunks[i]) {
                    Some(kv) => {
                        r.push(cat4("pid ", pid, " runs with ", &kv));
                        assert(string_views(r@) =~= prev + f(byte_views(chunks@)[i as int]));
                    },
                    None => {
                        assert(string_views(r@) =~= prev + f(byte_views(chunks@)[i as int]));
                    },
                }
                i = i + 1;
            }
            proof {
                lemma_flat_map_all(byte_views(chunks@), f);
            }
        },
        None => {
            assert(string_views(r@) =~= seq![]);
        },
    }
    r
}

} // verus!

verus! {

/// Whether a `comm` file names the Java runtime.
pub fn comm_is_java(comm: &Option<String>) -> (r: bool)
    ensures
        r == is_java(*comm),
{
    match comm {
        Some(c) => {
            let v = chars_of(c.as_str());
            let t = trim_chars(&v);
            let j = chars_of("java");
            let jw = chars_of("javaw");
            chars_eq(&t, &j) || chars_eq(&t, &jw)
        },
        None => false,
    }
}

/// Whether a map line shows an executable anonymous or deleted region.
pub fn is_exec_region(line: &Vec<char>) -> (r: bool)
    ensures
        r == exec_region(line@),
{
    let w = words_of(line);
    if w.len() < 2 {
        return false;
    }
    let x = chars_of("x");
    assert(views(w@)[1] == w@[1]@);
    if !contains_chars(&w[1], &x) {
        return false;
    }
    let lo = lower_chars(line);
    let memfd = chars_of("memfd:");
    let deleted = chars_of("(deleted)");
    contains_chars(&lo, &memfd) || contains_chars(&lo, &deleted)
}

/// Whether a module file name is a suspicious shared object.
pub fn is_suspicious_module(m: &Vec<char>) -> (r: bool)
    ensures
        r == suspicious_module(m@),
{
    let so = chars_of(".so");
    let mods = suspicious_module_list();
    ends_with_chars(m, &so) && any_contained(&mods, m)
}

/// Findings for one memory map line.
pub fn scan_map_line(pid: &Vec<char>, line: &Vec<char>) -> (r: Vec<String>)
    ensures
        string_views(r@) == map_line_findings(pid@, line@),
{
    let mut r: Vec<String> = Vec::new();
    if is_exec_region(line) {
        let w = words_of(line);
        let lw: Vec<char> = if w.len() > 0 {
            w[w.len() - 1].clone()
        } else {
            Vec::new()
        };
        assert(lw@ == last_word(line@)) by {
            if w.len() > 0 {
                assert(views(w@).last() == w@[w.len() - 1]@);
            }
        }
        r.push(cat4("pid ", pid, " has executable anonymous/memfd region: ", &lw));
    }
    let ghost first = string_views(r@);
    let lo = lower_chars(line);
    let m = last_piece(&lo, '/');
    if is_suspicious_module(&m) {
        r.push(cat4("pid ", pid, " loaded suspicious module: ", &m));
    }
    assert(string_views(r@) =~= map_line_findings(pid@, line@));
    r
}

/// Findings for one `/proc` entry.
pub fn scan_proc(e: &ProcEntry) -> (r: Vec<String>)
    ensures
        string_views(r@) == proc_findings(*e),
{
    let pid = chars_of(e.pid.as_str());
    if !all_digits_exec(&pid) {
        let r: Vec<String> = Vec::new();
        assert(string_views(r@) =~= seq![]);
        return r;
    }
    let mut r = scan_environ(&pid, &e.environ);
    let ghost env_part = string_views(r@);
    if comm_is_java(&e.comm) {
        match &e.maps {
            Some(m) => {
                let v = chars_of(m.as_str());
                let ls = lines_of(&v);
                let ghost f = |l: Seq<char>| map_line_findings(e.pid@, l);
                let mut i: usize = 0;
                proof {
                    lemma_flat_map_empty(views(ls@), f);
                }
                assert(string_views(r@) =~= env_part + flat_map(views(ls@).take(0), f));
                while i < ls.len()
                    invariant
                        i <= ls.len(),
                        pid@ == e.pid@,
                        views(ls@) == lines(m@),
                        f == (|l: Seq<char>| map_line_findings(e.pid@, l)),
                        string_views(r@) == env_part + flat_map(views(ls@).take(i as int), f),
                    decreases ls.len() - i,
                {
                    proof {
                        lemma_flat_map_step(views(ls@), f, i as int);
                    }
                    assert(views(ls@)[i as int] == ls@[i as int]@);
                    let more = scan_map_line(&pid, &ls[i]);
                    crate::text::extend_strings(&mut r, more);
                    i = i + 1;
                }
                proof {
                    lemma_flat_map_all(views(ls@), f);
                }
            },
            None => {
                assert(string_views(r@) =~= env_part + seq![]);
            },
        }
    } else {
        assert(string_views(r@) =~= env_part + seq![]);
    }
    r
}

/// Everything the sweep finds on Linux.
pub fn scan_linux(s: &LinuxOverlay) -> (r: Vec<String>)
    ensures
        string_views(r@) == linux_findings(*s),
{
    let mut r = scan_preload_file(&s.ld_preload);
    let ghost a = string_views(r@);
    let ghost frc = |f: RcFile| rc_file_findings(f);
    let mut i: usize = 0;
    proof {
        lemma_flat_map_empty(s.rc_files@, frc);
    }
    assert(string_views(r@) =~= a + flat_map(s.rc_files@.take(0), frc));
    while i < s.rc_files.len()
        invariant
            i <= s.rc_files.len(),
            frc == (|f: RcFile| rc_file_findings(f)),
            string_views(r@) == a + flat_map(s.rc_files@.take(i as int), frc),
        decreases s.rc_files.len() - i,
    {
        proof {
            lemma_flat_map_step(s.rc_files@, frc, i as int);
        }
        let more = scan_rc_file(&s.rc_files[i]);
        crate::text::extend_strings(&mut r, more);
        i = i + 1;
    }
    proof {
        lemma_flat_map_all(s.rc_files@, frc);
    }
    let ghost b = string_views(r@);
    let ghost fp = |e: ProcEntry| proc_findings(e);
    let mut k: usize = 0;
    proof {
        lemma_flat_map_empty(s.procs@, fp);
    }
    assert(string_views(r@) =~= b + flat_map(s.procs@.take(0), fp));
    while k < s.procs.len()
        invariant
            k <= s.procs.len(),
            fp == (|e: ProcEntry| proc_findings(e)),
            string_views(r@) == b + flat_map(s.procs@.take(k as int), fp),
        decreases s.procs.len() - k,
    {
        proof {
            lemma_flat_map_step(s.procs@, fp, k as int);
        }
        let more = scan_proc(&s.procs[k]);
        crate::text::extend_strings(&mut r, more);
        k = k + 1;
    }
    proof {
        lemma_flat_map_all(s.procs@, fp);
    }
    r
}

} // verus!

verus! {

/// What the fix does on Linux: write `/etc/ld.so.preload` back without its
/// suspicious entries, rewrite start-up files without their suspicious
/// preload lines, and kill processes.
#[derive(Clone, Debug)]
pub struct LinuxFixPlan {
    /// The new content of `/etc/ld.so.preload`, when it needs clearing.
    pub preload_rewrite: Option<String>,
    pub rewrites: Vec<RcRewrite>,
    pub kill: Vec<String>,
}

/// A start-up file to write back with new content.
#[derive(Clone, Debug)]
pub struct RcRewrite {
    pub name: String,
    pub content: String,
}

/// A non-blank line of `/etc/ld.so.preload` with a suspicious entry.
pub open spec fn preload_line_suspicious(l: Seq<char>) -> bool {
    trim(l).len() > 0 && entry_suspicious(trim(l))
}

/// `/etc/ld.so.preload` holds a non-blank suspicious entry.
pub open spec fn preload_needs_clearing(c: Option<String>) -> bool {
    match c {
        Some(s) => exists|i: int|
            0 <= i < lines(s@).len() && preload_line_suspicious(#[trigger] lines(s@)[i]),
        None => false,
    }
}

/// The entries of `/etc/ld.so.preload` the fix keeps, in order: every line
/// but the suspicious ones.
pub open spec fn preload_kept(c: Seq<char>) -> Seq<Seq<char>> {
    flat_map(
        lines(c),
        |l: Seq<char>|
            if preload_line_suspicious(l) {
                seq![]
            } else {
                seq![l]
            },
    )
}

/// `/etc/ld.so.preload` after the fix: the kept lines joined with `\n`.
pub open spec fn preload_rewritten(c: Seq<char>) -> Seq<char> {
    join(preload_kept(c), "\n"@)
}

/// A start-up line that assigns a suspicious preload, commented or not.
pub open spec fn rc_sets_preload(line: Seq<char>) -> bool {
    mentions_preload(line) && env_suspicious(line)
}

/// A start-up line the fix keeps: one that assigns no suspicious preload,
/// neither as it stands nor as it reads back without a trailing carriage
/// return. A line that also names a whitelisted overlay is not kept on that
/// account: the whitelist clears an entry, not the line, so a line the sweep
/// reports is always stripped and the re-check can pass.
pub open spec fn rc_keep(line: Seq<char>) -> bool {
    !rc_sets_preload(line) && !rc_sets_preload(strip_cr(line))
}

/// The kept lines of a start-up file, joined with `\n`.
pub open spec fn rc_rewritten(c: Seq<char>) -> Seq<char> {
    join(
        flat_map(
            lines(c),
            |l: Seq<char>|
                if rc_keep(l) {
                    seq![l]
                } else {
                    seq![]
                },
        ),
        "\n"@,
    )
}

/// The files whose content changes, with their new content.
pub open spec fn rc_rewrites(files: Seq<RcFile>) -> Seq<(Seq<char>, Seq<char>)> {
    flat_map(
        files,
        |f: RcFile|
            match f.content {
                Some(c) => if rc_rewritten(c@) != c@ {
                    seq![(f.name@, rc_rewritten(c@))]
                } else {
                    seq![]
                },
                None => seq![],
            },
    )
}

/// A process environment with a flagged preload entry.
pub open spec fn environ_bad(env: Option<Vec<u8>>) -> bool {
    match env {
        Some(b) => exists|i: int|
            0 <= i < pieces(b@, 0u8).len() && env_entry_flagged(#[trigger] pieces(b@, 0u8)[i]),
        None => false,
    }
}

/// A map line naming a shared object with an injection fragment anywhere in
/// its (lower-cased) path.
pub open spec fn injected_line(l: Seq<char>) -> bool {
    has_suffix(lower(l), ".so"@) && any_sub(suspicious_modules(), lower(l))
}

/// A Java process with an injected region or module in its memory map.
pub open spec fn injected(e: ProcEntry) -> bool {
    &&& (comm_name(e.comm) == "java"@ || comm_name(e.comm) == "javaw"@)
    &&& match e.maps {
        Some(m) => (exists|i: int| 0 <= i < lines(m@).len() && exec_region(#[trigger] lines(m@)[i]))
            || (exists|i: int| 0 <= i < lines(m@).len() && injected_line(#[trigger] lines(m@)[i])),
        None => false,
    }
}

/// A process the fix kills: a suspicious preload in its environment, a
/// known interfering name, or an injected Java process.
pub open spec fn kill_target(e: ProcEntry) -> bool {
    all_digits(e.pid@) && (environ_bad(e.environ) || suspicious_name(comm_name(e.comm)) || injected(
        e,
    ))
}

pub open spec fn kill_list(procs: Seq<ProcEntry>) -> Seq<Seq<char>> {
    flat_map(
        procs,
        |e: ProcEntry|
            if kill_target(e) {
                seq![e.pid@]
            } else {
                seq![]
            },
    )
}

pub open spec fn rewrite_views(v: Seq<RcRewrite>) -> Seq<(Seq<char>, Seq<char>)> {
    v.map_values(|w: RcRewrite| (w.name@, w.content@))
}

/// Whether `/etc/ld.so.preload` needs clearing.
#[verifier::loop_isolation(false)]
pub fn preload_needs_clear(c: &Option<String>) -> (r: bool)
    ensures
        r == preload_needs_clearing(*c),
{
    match c {
        Some(s) => {
            let v = chars_of(s.as_str());
            let ls = lines_of(&v);
            let mut i: usize = 0;
            while i < ls.len()
                invariant
                    i <= ls.len(),
                    views(ls@) == lines(s@),
                    forall|k: int| 0 <= k < i ==> !preload_line_suspicious(#[trigger] lines(s@)[k]),
                decreases ls.len() - i,
            {
                assert(views(ls@)[i as int] == ls@[i as int]@);
                let t = trim_chars(&ls[i]);
                if t.len() > 0 && preload_entry_suspicious(&t) {
                    assert(preload_line_suspicious(lines(s@)[i as int]));
                    return true;
                }
                i = i + 1;
            }
            false
        },
        None => false,
    }
}

/// The fix's plan on Linux.
pub fn fix_linux(s: &LinuxOverlay) -> (plan: LinuxFixPlan)
    ensures
        plan.preload_rewrite is Some <==> preload_needs_clearing(s.ld_preload),
        plan.preload_rewrite matches Some(w) ==> w@ == preload_rewritten(s.ld_preload->0@),
        rewrite_views(plan.rewrites@) == rc_rewrites(s.rc_files@),
        string_views(plan.kill@) == kill_list(s.procs@),
{
    let preload_rewrite = match &s.ld_preload {
        Some(c) => if preload_needs_clear(&s.ld_preload) {
            Some(rewrite_preload(c))
        } else {
            None
        },
        None => None,
    };
    let rewrites = plan_rewrites(&s.rc_files);
    let kill = plan_kills(&s.procs);
    LinuxFixPlan { preload_rewrite, rewrites, kill }
}

/// Whether the Linux fix succeeded, from the outcome of its writes: that of
/// `/etc/ld.so.preload` (`None` when the plan has none) and that of each
/// start-up file rewrite. The kills do not count.
pub fn overlay_fix_ok(preload_ok: Option<bool>, rc_ok: &Vec<bool>) -> (r: bool)
    ensures
        r == (preload_ok != Some(false) && forall|i: int| 0 <= i < rc_ok.len() ==> rc_ok@[i]),
{
    if let Some(false) = preload_ok {
        return false;
    }
    let mut i: usize = 0;
    while i < rc_ok.len()
        invariant
            i <= rc_ok.len(),
            forall|k: int| 0 <= k < i ==> rc_ok@[k],
        decreases rc_ok.len() - i,
    {
        if !rc_ok[i] {
            return false;
        }
        i = i + 1;
    }
    true
}

/// The new content of `/etc/ld.so.preload`.
pub fn rewrite_preload(c: &String) -> (r: String)
    ensures
        r@ == preload_rewritten(c@),
{
    let v = chars_of(c.as_str());
    let ls = lines_of(&v);
    let ghost f = |l: Seq<char>|
        if preload_line_suspicious(l) {
            seq![]
        } else {
            seq![l]
        };
    let mut kept: Vec<Vec<char>> = Vec::new();
    let mut i: usize = 0;
    proof {
        lemma_flat_map_empty(views(ls@), f);
    }
    while i < ls.len()
        invariant
            i <= ls.len(),
            views(ls@) == lines(c@),
            f == (|l: Seq<char>|
                if preload_line_suspicious(l) {
                    seq![]
                } else {
                    seq![l]
                }),
            views(kept@) == flat_map(views(ls@).take(i as int), f),
        decreases ls.len() - i,
    {
        proof {
            lemma_flat_map_step(views(ls@), f, i as int);
        }
        let ghost prev = views(kept@);
        assert(views(ls@)[i as int] == ls@[i as int]@);
        let t = trim_chars(&ls[i]);
        if t.len() > 0 && preload_entry_suspicious(&t) {
            assert(views(kept@) =~= prev + f(views(ls@)[i as int]));
        } else {
            kept.push(ls[i].clone());
            assert(views(kept@) =~= prev + f(views(ls@)[i as int]));
        }
        i = i + 1;
    }
    proof {
        lemma_flat_map_all(views(ls@), f);
    }
    let nl = chars_of("\n");
    let j = join_chars(&kept, &nl);
    string_of(&j)
}

} // verus!

verus! {

/// Whether a start-up line assigns a suspicious preload.
pub fn sets_preload(line: &Vec<char>) -> (r: bool)
    ensures
        r == rc_sets_preload(line@),
{
    mentions_preload_exec(line) && preload_env_suspicious(line)
}

/// Whether the fix keeps a start-up line.
pub fn rc_line_kept(line: &Vec<char>) -> (r: bool)
    ensures
        r == rc_keep(line@),
{
    let bare = strip_cr_chars(line);
    !sets_preload(line) && !sets_preload(&bare)
}

/// The new content of a start-up file.
pub fn rewrite_rc(c: &String) -> (r: String)
    ensures
        r@ == rc_rewritten(c@),
{
    let v = chars_of(c.as_str());
    let ls = lines_of(&v);
    let ghost f = |l: Seq<char>|
        if rc_keep(l) {
            seq![l]
        } else {
            seq![]
        };
    let mut kept: Vec<Vec<char>> = Vec::new();
    let mut i: usize = 0;
    proof {
        lemma_flat_map_empty(views(ls@), f);
    }
    while i < ls.len()
        invariant
            i <= ls.len(),
            views(ls@) == lines(c@),
            f == (|l: Seq<char>|
                if rc_keep(l) {
                    seq![l]
                } else {
                    seq![]
                }),
            views(kept@) == flat_map(views(ls@).take(i as int), f),
        decreases ls.len() - i,
    {
        proof {
            lemma_flat_map_step(views(ls@), f, i as int);
        }
        let ghost prev = views(kept@);
        assert(views(ls@)[i as int] == ls@[i as int]@);
        if rc_line_kept(&ls[i]) {
            kept.push(ls[i].clone());
            assert(views(kept@) =~= prev + f(views(ls@)[i as int]));
        } else {
            assert(views(kept@) =~= prev + f(views(ls@)[i as int]));
        }
        i = i + 1;
    }
    proof {
        lemma_flat_map_all(views(ls@), f);
    }
    let nl = chars_of("\n");
    let j = join_chars(&kept, &nl);
    string_of(&j)
}

/// The start-up files to rewrite.
pub fn plan_rewrites(files: &Vec<RcFile>) -> (r: Vec<RcRewrite>)
    ensures
        rewrite_views(r@) == rc_rewrites(files@),
{
    let ghost f = |f: RcFile|
        match f.content {
            Some(c) => if rc_rewritten(c@) != c@ {
                seq![(f.name@, rc_rewritten(c@))]
            } else {
                seq![]
            },
            None => seq![],
        };
    let mut r: Vec<RcRewrite> = Vec::new();
    let mut i: usize = 0;
    proof {
        lemma_flat_map_empty(files@, f);
    }
    assert(rewrite_views(r@) =~= flat_map(files@.take(0), f));
    while i < files.len()
        invariant
            i <= files.len(),
            f == (|f: RcFile|
                match f.content {
                    Some(c) => if rc_rewritten(c@) != c@ {
                        seq![(f.name@, rc_rewritten(c@))]
                    } else {
                        seq![]
                    },
                    None => seq![],
                }),
            rewrite_views(r@) == flat_map(files@.take(i as int), f),
        decreases files.len() - i,
    {
        proof {
            lemma_flat_map_step(files@, f, i as int);
        }
        let ghost prev = rewrite_views(r@);
        let file = &files[i];
        match &file.content {
            Some(c) => {
                let new = rewrite_rc(c);
                if new != *c {
                    r.push(RcRewrite { name: file.name.clone(), content: new });
                    assert(rewrite_views(r@) =~= prev + f(files@[i as int]));
                } else {
                    assert(rewrite_views(r@) =~= prev + f(files@[i as int]));
                }
            },
            None => {
                assert(rewrite_views(r@) =~= prev + f(files@[i as int]));
            },
        }
        i = i + 1;
    }
    proof {
        lemma_flat_map_all(files@, f);
    }
    r
}

/// Whether a process environment holds a flagged preload entry.
#[verifier::loop_isolation(false)]
pub fn environ_is_bad(env: &Option<Vec<u8>>) -> (r: bool)
    ensures
        r == environ_bad(*env),
{
    match env {
        Some(b) => {
            let chunks = split_bytes(b, 0u8);
            let mut i: usize = 0;
            while i < chunks.len()
                invariant
                    i <= chunks.len(),
                    byte_views(chunks@) == pieces(b@, 0u8),
                    forall|k: int| 0 <= k < i ==> !env_entry_flagged(#[trigger] pieces(b@, 0u8)[k]),
                decreases chunks.len() - i,
            {
                assert(byte_views(chunks@)[i as int] == chunks@[i as int]@);
                if env_entry_is_flagged(&chunks[i]).is_some() {
                    assert(env_entry_flagged(pieces(b@, 0u8)[i as int]));
                    return true;
                }
                i = i + 1;
            }
            false
        },
        None => false,
    }
}

/// Whether a process is an injected Java process.
#[verifier::loop_isolation(false)]
pub fn is_injected(e: &ProcEntry) -> (r: bool)
    ensures
        r == injected(*e),
{
    let name = read_comm_name(&e.comm);
    let j = chars_of("java");
    let jw = chars_of("javaw");
    if !(chars_eq(&name, &j) || chars_eq(&name, &jw)) {
        return false;
    }
    match &e.maps {
        Some(m) => {
            let v = chars_of(m.as_str());
            let ls = lines_of(&v);
            let mut i: usize = 0;
            while i < ls.len()
                invariant
                    i <= ls.len(),
                    views(ls@) == lines(m@),
                    forall|k: int| 0 <= k < i ==> !exec_region(#[trigger] lines(m@)[k]),
                decreases ls.len() - i,
            {
                assert(views(ls@)[i as int] == ls@[i as int]@);
                if is_exec_region(&ls[i]) {
                    assert(exec_region(lines(m@)[i as int]));
                    return true;
                }
                i = i + 1;
            }
            let mut k: usize = 0;
            while k < ls.len()
                invariant
                    k <= ls.len(),
                    views(ls@) == lines(m@),
                    forall|q: int| 0 <= q < lines(m@).len() ==> !exec_region(#[trigger] lines(m@)[q]),
                    forall|q: int| 0 <= q < k ==> !injected_line(#[trigger] lines(m@)[q]),
                decreases ls.len() - k,
            {
                assert(views(ls@)[k as int] == ls@[k as int]@);
                let lo = lower_chars(&ls[k]);
                let so = chars_of(".so");
                let mods = suspicious_module_list();
                if ends_with_chars(&lo, &so) && any_contained(&mods, &lo) {
                    assert(injected_line(lines(m@)[k as int]));
                    return true;
                }
                k = k + 1;
            }
            false
        },
        None => false,
    }
}

/// The processes the fix kills.
pub fn plan_kills(procs: &Vec<ProcEntry>) -> (r: Vec<String>)
    ensures
        string_views(r@) == kill_list(procs@),
{
    let ghost f = |e: ProcEntry|
        if kill_target(e) {
            seq![e.pid@]
        } else {
            seq![]
        };
    let mut r: Vec<String> = Vec::new();
    let mut i: usize = 0;
    proof {
        lemma_flat_map_empty(procs@, f);
    }
    while i < procs.len()
        invariant
            i <= procs.len(),
            f == (|e: ProcEntry|
                if kill_target(e) {
                    seq![e.pid@]
                } else {
                    seq![]
                }),
            string_views(r@) == flat_map(procs@.take(i as int), f),
        decreases procs.len() - i,
    {
        proof {
            lemma_flat_map_step(procs@, f, i as int);
        }
        let ghost prev = string_views(r@);
        let e = &procs[i];
        let pid = chars_of(e.pid.as_str());
        let kill = all_digits_exec(&pid) && (environ_is_bad(&e.environ) || {
            let name = read_comm_name(&e.comm);
            is_suspicious_name(&name)
        } || is_injected(e));
        if kill {
            r.push(e.pid.clone());
            assert(string_views(r@) =~= prev + f(procs@[i as int]));
        } else {
            assert(string_views(r@) =~= prev + f(procs@[i as int]));
        }
        i = i + 1;
    }
    proof {
        lemma_flat_map_all(procs@, f);
    }
    r
}

} // verus!

verus! {

/// One subkey of Image File Execution Options and its `Debugger` value,
/// `None` when the subkey or value could not be read.
#[derive(Clone, Debug)]
pub struct IfeoEntry {
    pub key: String,
    pub debugger: Option<String>,
}

/// What the sweep reads from the Windows registry.
#[derive(Clone, Debug)]
pub struct WindowsOverlay {
    /// The `AppInit_DLLs` value, if readable.
    pub appinit: Option<String>,
    /// The IFEO subkeys.
    pub ifeo: Vec<IfeoEntry>,
}

/// A registry value that is set to something other than whitespace.
pub open spec fn value_set(v: Option<String>) -> bool {
    match v {
        Some(x) => trim(x@).len() > 0,
        None => false,
    }
}

pub open spec fn ifeo_findings(e: IfeoEntry) -> Seq<Seq<char>> {
    if value_set(e.debugger) {
        seq!["IFEO '"@ + e.key@ + "' has a Debugger set: '"@ + e.debugger->0@ + "'"@]
    } else {
        seq![]
    }
}

/// Everything the sweep finds on Windows: a set `AppInit_DLLs`, then every
/// IFEO subkey with a `Debugger`.
pub open spec fn windows_findings(s: WindowsOverlay) -> Seq<Seq<char>> {
    (if value_set(s.appinit) {
        seq!["AppInit_DLLs is set: '"@ + s.appinit->0@ + "'"@]
    } else {
        seq![]
    }) + flat_map(s.ifeo@, |e: IfeoEntry| ifeo_findings(e))
}

/// Whether a registry value is set.
pub fn is_value_set(v: &Option<String>) -> (r: bool)
    ensures
        r == value_set(*v),
{
    match v {
        Some(x) => {
            let c = chars_of(x.as_str());
            let t = trim_chars(&c);
            t.len() > 0
        },
        None => false,
    }
}

/// Everything the sweep finds on Windows.
pub fn scan_windows(s: &WindowsOverlay) -> (r: Vec<String>)
    ensures
        string_views(r@) == windows_findings(*s),
{
    let mut r: Vec<String> = Vec::new();
    if is_value_set(&s.appinit) {
        let v = match &s.appinit {
            Some(x) => chars_of(x.as_str()),
            None => Vec::new(),
        };
        r.push(cat3("AppInit_DLLs is set: '", &v, "'"));
    }
    let ghost a = string_views(r@);
    let ghost f = |e: IfeoEntry| ifeo_findings(e);
    let mut i: usize = 0;
    proof {
        lemma_flat_map_empty(s.ifeo@, f);
    }
    assert(string_views(r@) =~= a + flat_map(s.ifeo@.take(0), f));
    while i < s.ifeo.len()
        invariant
            i <= s.ifeo.len(),
            f == (|e: IfeoEntry| ifeo_findings(e)),
            string_views(r@) == a + flat_map(s.ifeo@.take(i as int), f),
        decreases s.ifeo.len() - i,
    {
        proof {
            lemma_flat_map_step(s.ifeo@, f, i as int);
        }
        let ghost prev = string_views(r@);
        let e = &s.ifeo[i];
        if is_value_set(&e.debugger) {
            let d = match &e.debugger {
                Some(x) => chars_of(x.as_str()),
                None => Vec::new(),
            };
            let k = chars_of(e.key.as_str());
            let mut m = chars_of("IFEO '");
            append_chars(&mut m, &k);
            push_str(&mut m, "' has a Debugger set: '");
            append_chars(&mut m, &d);
            push_str(&mut m, "'");
            r.push(string_of(&m));
            assert(string_views(r@) =~= prev + f(s.ifeo@[i as int]));
        } else {
            assert(string_views(r@) =~= prev + f(s.ifeo@[i as int]));
        }
        i = i + 1;
    }
    proof {
        lemma_flat_map_all(s.ifeo@, f);
    }
    r
}

/// What the fix does on Windows: delete a set `AppInit_DLLs`, and delete the
/// `Debugger` value of every IFEO subkey that has one, set or blank.
#[derive(Clone, Debug)]
pub struct WindowsFixPlan {
    pub clear_appinit: bool,
    pub clear_debuggers: Vec<String>,
}

pub open spec fn debugger_keys(es: Seq<IfeoEntry>) -> Seq<Seq<char>> {
    flat_map(
        es,
        |e: IfeoEntry|
            if e.debugger is Some {
                seq![e.key@]
            } else {
                seq![]
            },
    )
}

/// The fix's plan on Windows.
pub fn fix_windows(s: &WindowsOverlay) -> (plan: WindowsFixPlan)
    ensures
        plan.clear_appinit == value_set(s.appinit),
        string_views(plan.clear_debuggers@) == debugger_keys(s.ifeo@),
{
    let clear_appinit = is_value_set(&s.appinit);
    let ghost f = |e: IfeoEntry|
        if e.debugger is Some {
            seq![e.key@]
        } else {
            seq![]
        };
    let mut keys: Vec<String> = Vec::new();
    let mut i: usize = 0;
    proof {
        lemma_flat_map_empty(s.ifeo@, f);
    }
    while i < s.ifeo.len()
        invariant
            i <= s.ifeo.len(),
            f == (|e: IfeoEntry|
                if e.debugger is Some {
                    seq![e.key@]
                } else {
                    seq![]
                }),
            string_views(keys@) == flat_map(s.ifeo@.take(i as int), f),
        decreases s.ifeo.len() - i,
    {
        proof {
            lemma_flat_map_step(s.ifeo@, f, i as int);
        }
        let ghost prev = string_views(keys@);
        let e = &s.ifeo[i];
        if e.debugger.is_some() {
            keys.push(e.key.clone());
            assert(string_views(keys@) =~= prev + f(s.ifeo@[i as int]));
        } else {
            assert(string_views(keys@) =~= prev + f(s.ifeo@[i as int]));
        }
        i = i + 1;
    }
    proof {
        lemma_flat_map_all(s.ifeo@, f);
    }
    WindowsFixPlan { clear_appinit, clear_debuggers: keys }
}

/// What the sweep reads, on the platform it runs on.
pub enum OverlaySnapshot {
    Linux(LinuxOverlay),
    Windows(WindowsOverlay),
    Other,
}

/// What the fix does, on the platform it runs on.
pub enum OverlayFix {
    Linux(LinuxFixPlan),
    Windows(WindowsFixPlan),
    /// No fix on this platform; it reports failure.
    Unsupported,
}

pub open spec fn findings(s: OverlaySnapshot) -> Seq<Seq<char>> {
    match s {
        OverlaySnapshot::Linux(l) => linux_findings(l),
        OverlaySnapshot::Windows(w) => windows_findings(w),
        OverlaySnapshot::Other => seq![],
    }
}

/// The findings on the snapshot's platform.
pub fn scan(s: &OverlaySnapshot) -> (r: Vec<String>)
    ensures
        string_views(r@) == findings(*s),
{
    match s {
        OverlaySnapshot::Linux(l) => scan_linux(l),
        OverlaySnapshot::Windows(w) => scan_windows(w),
        OverlaySnapshot::Other => {
            let r: Vec<String> = Vec::new();
            assert(string_views(r@) =~= seq![]);
            r
        },
    }
}

pub open spec fn check_name() -> Seq<char> {
    "Injection & hook sweep"@
}

/// The sweep: pass when nothing was found, otherwise a fixable failure
/// listing every finding.
pub fn run(s: &OverlaySnapshot) -> (r: CheckReport)
    ensures
        r.key@ == "overlay"@,
        r.name@ == check_name(),
        findings(*s).len() == 0 ==> r.status == super::Status::Pass && r.detail@
            == "No injected modules, overlays or loader hijacks."@,
        findings(*s).len() > 0 ==> r.status == (super::Status::Fail { fixable: true })
            && r.detail@ == join(findings(*s), "; "@),
{
    let found = scan(s);
    if found.len() == 0 {
        CheckReport::pass(
            "overlay",
            "Injection & hook sweep",
            "No injected modules, overlays or loader hijacks.".to_owned(),
        )
    } else {
        CheckReport::fail("overlay", "Injection & hook sweep", true, join_strings(&found, "; "))
    }
}

/// The fix's plan on the snapshot's platform.
pub fn fix(s: &OverlaySnapshot) -> (r: OverlayFix)
    ensures
        s matches OverlaySnapshot::Linux(l) ==> r matches OverlayFix::Linux(p) && (
        p.preload_rewrite is Some <==> preload_needs_clearing(l.ld_preload)) && (
        p.preload_rewrite matches Some(w) ==> w@ == preload_rewritten(l.ld_preload->0@))
            && rewrite_views(p.rewrites@) == rc_rewrites(l.rc_files@) && string_views(p.kill@)
            == kill_list(l.procs@),
        s matches OverlaySnapshot::Windows(w) ==> r matches OverlayFix::Windows(p)
            && p.clear_appinit == value_set(w.appinit) && string_views(p.clear_debuggers@)
            == debugger_keys(w.ifeo@),
        s is Other ==> r is Unsupported,
{
    match s {
        OverlaySnapshot::Linux(l) => OverlayFix::Linux(fix_linux(l)),
        OverlaySnapshot::Windows(w) => OverlayFix::Windows(fix_windows(w)),
        OverlaySnapshot::Other => OverlayFix::Unsupported,
    }
}

/// The fix writes `/etc/ld.so.preload` back, without its suspicious
/// entries, exactly when the sweep reports an entry in it.
pub proof fn law_preload_cleared_iff_reported(c: Option<String>)
    ensures
        preload_needs_clearing(c) <==> preload_file_findings(c).len() > 0,
{
    match c {
        Some(s) => {
            let ls = lines(s@);
            let f = |l: Seq<char>| preload_line_findings(l);
            lemma_flat_map_any_len(ls, f);
            assert forall|i: int| 0 <= i < ls.len() implies (preload_line_suspicious(
                #[trigger] ls[i],
            ) <==> f(ls[i]).len() > 0) by {}
        },
        None => {},
    }
}

} // verus!

verus! {

/// A whitelisted overlay is never a suspicious preload entry, whatever else
/// its path says.
pub proof fn law_whitelist_wins(entry: Seq<char>)
    requires
        any_sub(preload_whitelist(), lower(entry)),
    ensures
        !entry_suspicious(entry),
{
}

proof fn lemma_module_line_injected(line: Seq<char>)
    requires
        suspicious_module(map_module(line)),
    ensures
        injected_line(line),
{
    let lo = lower(line);
    let m = map_module(line);
    crate::text::lemma_last_piece_suffix(lo, '/');
    let k = lo.len() - m.len();
    crate::text::lemma_has_suffix_suffix(lo, k, ".so"@);
    let i = choose|i: int|
        0 <= i < suspicious_modules().len() && has_sub(m, #[trigger] suspicious_modules()[i]);
    crate::text::lemma_has_sub_suffix(lo, k, suspicious_modules()[i]);
}

/// The fix kills every process the sweep reports: one with a flagged
/// preload in its environment, or a Java process with an injected region or
/// module in its memory map.
pub proof fn law_reported_processes_are_killed(e: ProcEntry)
    requires
        proc_findings(e).len() > 0,
    ensures
        kill_target(e),
{
    reveal_strlit("java");
    reveal_strlit("javaw");
    assert(lower("java"@) =~= "java"@);
    assert(lower("javaw"@) =~= "javaw"@);
    let env_part = environ_findings(e.pid@, e.environ);
    if env_part.len() > 0 {
        let b = e.environ->0;
        let f = |c: Seq<u8>| env_entry_findings(e.pid@, c);
        lemma_flat_map_any_len(pieces(b@, 0u8), f);
        let i = choose|i: int|
            0 <= i < pieces(b@, 0u8).len() && f(#[trigger] pieces(b@, 0u8)[i]).len() > 0;
        assert(env_entry_flagged(pieces(b@, 0u8)[i]));
    } else {
        let m = e.maps->0;
        let f = |l: Seq<char>| map_line_findings(e.pid@, l);
        assert(is_java(e.comm));
        assert(comm_name(e.comm) == lower(trim(e.comm->0@)));
        lemma_flat_map_any_len(lines(m@), f);
        let i = choose|i: int| 0 <= i < lines(m@).len() && f(#[trigger] lines(m@)[i]).len() > 0;
        let l = lines(m@)[i];
        if !exec_region(l) {
            lemma_module_line_injected(l);
            assert(injected_line(lines(m@)[i]));
        }
    }
}

} // verus!

verus! {

/// The fix strips every start-up line the sweep reports.
pub proof fn law_flagged_rc_lines_are_stripped(line: Seq<char>)
    requires
        rc_line_flagged(line),
    ensures
        !rc_keep(line),
{
}

/// After the fix writes `/etc/ld.so.preload` back, a fresh scan of the new
/// content finds nothing; every entry that was not suspicious stays, in
/// order.
pub proof fn law_preload_rewrite_scan_clean(content: String, rewritten: String)
    requires
        rewritten@ == preload_rewritten(content@),
    ensures
        preload_file_findings(Some(rewritten)).len() == 0,
{
    let k = preload_kept(content@);
    let keep = |l: Seq<char>| !preload_line_suspicious(l);
    let g = |l: Seq<char>|
        if preload_line_suspicious(l) {
            seq![]
        } else {
            seq![l]
        };
    lemma_lines_no_newline(content@);
    lemma_flat_map_filter(lines(content@), g, keep);
    assert forall|i: int| 0 <= i < k.len() implies !(#[trigger] k[i]).contains('\n') by {
        assert(lines(content@).contains(k[i]));
    }
    lemma_lines_join(k);
    let out = lines(rewritten@);
    let f = |l: Seq<char>| preload_line_findings(l);
    assert forall|i: int| 0 <= i < out.len() implies (#[trigger] f(out[i])).len() == 0 by {
        assert(keep(k[i]));
        lemma_trim_strip_cr(k[i]);
    }
    lemma_flat_map_any_len(out, f);
}

/// After the fix rewrites a start-up file, a fresh scan of the new content
/// finds nothing.
pub proof fn law_rc_rewrite_scan_clean(before: RcFile, after: RcFile)
    requires
        before.content is Some,
        after.content matches Some(x) && x@ == rc_rewritten(before.content->0@),
    ensures
        rc_file_findings(after).len() == 0,
{
    let c = before.content->0@;
    let k = flat_map(
        lines(c),
        |l: Seq<char>|
            if rc_keep(l) {
                seq![l]
            } else {
                seq![]
            },
    );
    let keep = |l: Seq<char>| rc_keep(l);
    let g = |l: Seq<char>|
        if rc_keep(l) {
            seq![l]
        } else {
            seq![]
        };
    lemma_lines_no_newline(c);
    lemma_flat_map_filter(lines(c), g, keep);
    assert forall|i: int| 0 <= i < k.len() implies !(#[trigger] k[i]).contains('\n') by {
        assert(lines(c).contains(k[i]));
    }
    lemma_lines_join(k);
    let out = lines(after.content->0@);
    let f = |l: Seq<char>| rc_line_findings(after.name@, l);
    assert forall|i: int| 0 <= i < out.len() implies (#[trigger] f(out[i])).len() == 0 by {
        assert(keep(k[i]));
    }
    lemma_flat_map_any_len(out, f);
}

/// `t` is what the sweep reads on Linux once the plan `fix_linux(s)` has
/// been carried out in full: `/etc/ld.so.preload` written back when it
/// needed clearing, every readable start-up file holding its rewritten
/// content, and only processes of `s` left that the plan does not kill.
pub open spec fn linux_fixed(s: LinuxOverlay, t: LinuxOverlay) -> bool {
    &&& if preload_needs_clearing(s.ld_preload) {
        t.ld_preload matches Some(x) && x@ == preload_rewritten(s.ld_preload->0@)
    } else {
        t.ld_preload == s.ld_preload
    }
    &&& t.rc_files.len() == s.rc_files.len()
    &&& forall|i: int|
        0 <= i < s.rc_files.len() ==> match (#[trigger] s.rc_files[i]).content {
            Some(c) => t.rc_files[i].content matches Some(x) && x@ == rc_rewritten(c@),
            None => t.rc_files[i].content is None,
        }
    &&& forall|k: int|
        0 <= k < t.procs.len() ==> s.procs@.contains(#[trigger] t.procs[k]) && !kill_list(
            s.procs@,
        ).contains(t.procs[k].pid@)
}

/// The Linux fix leaves nothing for the re-check to find: once its plan is
/// carried out, the sweep finds no loader hijack, no start-up file export
/// and no injected process.
pub proof fn law_linux_fix_leaves_nothing(s: LinuxOverlay, t: LinuxOverlay)
    requires
        linux_fixed(s, t),
    ensures
        linux_findings(t).len() == 0,
{
    if preload_needs_clearing(s.ld_preload) {
        law_preload_rewrite_scan_clean(s.ld_preload->0, t.ld_preload->0);
    } else {
        law_preload_cleared_iff_reported(s.ld_preload);
    }
    let frc = |f: RcFile| rc_file_findings(f);
    assert forall|i: int| 0 <= i < t.rc_files.len() implies (#[trigger] frc(t.rc_files[i])).len()
        == 0 by {
        if s.rc_files[i].content is Some {
            law_rc_rewrite_scan_clean(s.rc_files[i], t.rc_files[i]);
        }
    }
    lemma_flat_map_any_len(t.rc_files@, frc);
    let fp = |e: ProcEntry| proc_findings(e);
    let fk = |e: ProcEntry|
        if kill_target(e) {
            seq![e.pid@]
        } else {
            seq![]
        };
    assert forall|k: int| 0 <= k < t.procs.len() implies (#[trigger] fp(t.procs[k])).len()
        == 0 by {
        let e = t.procs[k];
        if proc_findings(e).len() > 0 {
            law_reported_processes_are_killed(e);
            let i = choose|i: int| 0 <= i < s.procs.len() && s.procs@[i] == e;
            lemma_flat_map_contains(s.procs@, fk, i, 0);
            assert(fk(s.procs@[i])[0] == e.pid@);
        }
    }
    lemma_flat_map_any_len(t.procs@, fp);
}

/// `t` is what the sweep reads on Windows once the plan `fix_windows(s)`
/// has been carried out in full: `AppInit_DLLs` deleted when it was set, and
/// the `Debugger` value deleted from every subkey the plan names.
pub open spec fn windows_fixed(s: WindowsOverlay, t: WindowsOverlay) -> bool {
    &&& if value_set(s.appinit) {
        t.appinit is None
    } else {
        t.appinit == s.appinit
    }
    &&& t.ifeo.len() == s.ifeo.len()
    &&& forall|i: int|
        0 <= i < s.ifeo.len() ==> if debugger_keys(s.ifeo@).contains((#[trigger] s.ifeo[i]).key@) {
            t.ifeo[i].debugger is None
        } else {
            t.ifeo[i].debugger == s.ifeo[i].debugger
        }
}

/// The Windows fix leaves nothing for the re-check to find: once its plan is
/// carried out, `AppInit_DLLs` is unset and no IFEO subkey has a
/// `Debugger`.
pub proof fn law_windows_fix_leaves_nothing(s: WindowsOverlay, t: WindowsOverlay)
    requires
        windows_fixed(s, t),
    ensures
        windows_findings(t).len() == 0,
{
    let f = |e: IfeoEntry| ifeo_findings(e);
    let fk = |e: IfeoEntry|
        if e.debugger is Some {
            seq![e.key@]
        } else {
            seq![]
        };
    assert forall|i: int| 0 <= i < t.ifeo.len() implies (#[trigger] f(t.ifeo[i])).len() == 0 by {
        let e = s.ifeo[i];
        if e.debugger is Some {
            lemma_flat_map_contains(s.ifeo@, fk, i, 0);
            assert(fk(s.ifeo@[i])[0] == e.key@);
        }
    }
    lemma_flat_map_any_len(t.ifeo@, f);
}

/// `t` is what the sweep reads once the fix's plan for `s` has been carried
/// out in full, on the same platform.
pub open spec fn fixed(s: OverlaySnapshot, t: OverlaySnapshot) -> bool {
    match (s, t) {
        (OverlaySnapshot::Linux(a), OverlaySnapshot::Linux(b)) => linux_fixed(a, b),
        (OverlaySnapshot::Windows(a), OverlaySnapshot::Windows(b)) => windows_fixed(a, b),
        (OverlaySnapshot::Other, OverlaySnapshot::Other) => true,
        _ => false,
    }
}

/// The fix neutralizes every finding: once its plan is carried out, the
/// sweep finds nothing, so the re-check passes.
pub proof fn law_fix_leaves_nothing(s: OverlaySnapshot, t: OverlaySnapshot)
    requires
        fixed(s, t),
    ensures
        findings(t).len() == 0,
{
    match (s, t) {
        (OverlaySnapshot::Linux(a), OverlaySnapshot::Linux(b)) => law_linux_fix_leaves_nothing(a, b),
        (OverlaySnapshot::Windows(a), OverlaySnapshot::Windows(b)) => law_windows_fix_leaves_nothing(
            a,
            b,
        ),
        _ => {},
    }
}

} // verus!

verus! {

/// A preload entry with a path (a `/`) that names no whitelisted overlay and
/// does not begin with a system library directory (`/usr/local/lib`,
/// `/usr/lib`, `/lib64`, `/lib/`; compared lower-cased) is suspicious, even
/// where such a directory occurs later in it.
pub proof fn law_non_system_path_is_suspicious(entry: Seq<char>)
    requires
        has_sub(lower(entry), "/"@),
        forall|k: int|
            0 <= k < preload_whitelist().len() ==> !has_sub(lower(entry), #[trigger] preload_whitelist()[k]),
        !has_prefix(lower(entry), "/usr/local/lib"@),
        !has_prefix(lower(entry), "/usr/lib"@),
        !has_prefix(lower(entry), "/lib64"@),
        !has_prefix(lower(entry), "/lib/"@),
    ensures
        entry_suspicious(entry),
{
    let e = lower(entry);
    let sys = system_lib_prefixes();
    if any_prefix(sys, e) {
        let i = choose|i: int| 0 <= i < sys.len() && has_prefix(e, #[trigger] sys[i]);
        assert(sys[0] == "/usr/local/lib"@);
        assert(sys[1] == "/usr/lib"@);
        assert(sys[2] == "/lib64"@);
        assert(sys[3] == "/lib/"@);
    }
}

/// Every line of `/etc/ld.so.preload` whose trimmed text is a path entry
/// outside the system library directories, naming no whitelisted overlay,
/// is reported by the sweep.
pub proof fn law_non_system_preload_line_reported(c: String, k: int)
    requires
        0 <= k < lines(c@).len(),
        has_sub(lower(trim(lines(c@)[k])), "/"@),
        forall|w: int|
            0 <= w < preload_whitelist().len() ==> !has_sub(
                lower(trim(lines(c@)[k])),
                #[trigger] preload_whitelist()[w],
            ),
        !has_prefix(lower(trim(lines(c@)[k])), "/usr/local/lib"@),
        !has_prefix(lower(trim(lines(c@)[k])), "/usr/lib"@),
        !has_prefix(lower(trim(lines(c@)[k])), "/lib64"@),
        !has_prefix(lower(trim(lines(c@)[k])), "/lib/"@),
    ensures
        preload_file_findings(Some(c)).contains(
            "unexpected entry in /etc/ld.so.preload: '"@ + trim(lines(c@)[k]) + "'"@,
        ),
{
    let t = trim(lines(c@)[k]);
    law_non_system_path_is_suspicious(t);
    let i = choose|i: int| occurs_at(lower(t), "/"@, i);
    reveal_strlit("/");
    assert(lower(t).len() == t.len());
    assert(t.len() > 0);
    let f = |l: Seq<char>| preload_line_findings(l);
    lemma_flat_map_contains(lines(c@), f, k, 0);
}

/// A preload entry that begins with a system library directory
/// (`/usr/local/lib`, `/usr/lib`, `/lib64`, `/lib/`; compared lower-cased)
/// and whose file name (after the last `/`) carries no injection fragment
/// is legitimate.
pub proof fn law_system_library_entry_is_legitimate(entry: Seq<char>)
    requires
        has_prefix(lower(entry), "/usr/local/lib"@) || has_prefix(lower(entry), "/usr/lib"@)
            || has_prefix(lower(entry), "/lib64"@) || has_prefix(lower(entry), "/lib/"@),
        forall|k: int|
            0 <= k < suspicious_modules().len() ==> !has_sub(
                pieces(lower(entry), '/').last(),
                #[trigger] suspicious_modules()[k],
            ),
    ensures
        !entry_suspicious(entry),
{
    let e = lower(entry);
    let sys = system_lib_prefixes();
    assert(sys[0] == "/usr/local/lib"@);
    assert(sys[1] == "/usr/lib"@);
    assert(sys[2] == "/lib64"@);
    assert(sys[3] == "/lib/"@);
    if has_prefix(e, "/usr/local/lib"@) {
        assert(has_prefix(e, sys[0]));
    } else if has_prefix(e, "/usr/lib"@) {
        assert(has_prefix(e, sys[1]));
    } else if has_prefix(e, "/lib64"@) {
        assert(has_prefix(e, sys[2]));
    } else {
        assert(has_prefix(e, sys[3]));
    }
}

} // verus!

