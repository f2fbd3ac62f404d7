//! Ocean domain access: the hosts file must not block the scanner's
//! domains, and the main domain should resolve. Fixable: blocking hosts
//! lines are removed, then the check runs again.

use vstd::prelude::*;

use super::{CheckReport, Platform};
use crate::signatures::{any_contained, any_sub, ocean_domain_list, ocean_domains};
use crate::text::{
    chars_of, flat_map, has_prefix, join, join_chars, join_strings, lemma_flat_map_all,
    lemma_flat_map_empty, lemma_flat_map_step, lines, lines_of, lower, lower_chars, push_str,
    append_chars, starts_with_chars, string_of, string_views, trim, trim_chars, views,
    lemma_trim_strip_cr, lemma_flat_map_any_len, lemma_flat_map_filter, lemma_lines_join,
    lemma_lines_no_newline, pieces, split_chars, strip_cr, lemma_pieces_append, lemma_pieces_nonempty,
    lemma_pieces_no_sep, has_sub, occurs_at, lemma_flat_map_contains,
};

verus! {

/// The hosts file's path on a platform.
pub open spec fn hosts_path_of(p: Platform) -> Seq<char> {
    match p {
        Platform::Windows => "C:\\Windows\\System32\\drivers\\etc\\hosts"@,
        _ => "/etc/hosts"@,
    }
}

pub fn hosts_path(p: Platform) -> (r: &'static str)
    ensures
        r@ == hosts_path_of(p),
{
    match p {
        Platform::Windows => "C:\\Windows\\System32\\drivers\\etc\\hosts",
        _ => "/etc/hosts",
    }
}

/// A hosts line that is not blank, not a comment, and mentions one of the
/// scanner's domains (compared trimmed and lower-cased).
pub open spec fn blocking_line(line: Seq<char>) -> bool {
    let low = lower(trim(line));
    low.len() > 0 && !has_prefix(low, "#"@) && any_sub(ocean_domains(), low)
}

pub open spec fn line_findings(line: Seq<char>) -> Seq<Seq<char>> {
    if blocking_line(line) {
        seq!["hosts file blocks an Ocean domain: '"@ + line + "'"@]
    } else {
        seq![]
    }
}

/// Findings in the hosts file; an unreadable file has none.
pub open spec fn hosts_findings(content: Option<String>) -> Seq<Seq<char>> {
    match content {
        Some(c) => flat_map(lines(c@), |l: Seq<char>| line_findings(l)),
        None => seq![],
    }
}

/// Whether a hosts line blocks a domain.
pub fn is_blocking_line(line: &Vec<char>) -> (r: bool)
    ensures
        r == blocking_line(line@),
{
    let t = trim_chars(line);
    let low = lower_chars(&t);
    let hash = chars_of("#");
    let domains = ocean_domain_list();
    low.len() > 0 && !starts_with_chars(&low, &hash) && any_contained(&domains, &low)
}

/// Findings in the hosts file.
pub fn scan_hosts(content: &Option<String>) -> (r: Vec<String>)
    ensures
        string_views(r@) == hosts_findings(*content),
{
    let mut r: Vec<String> = Vec::new();
    match content {
        Some(c) => {
            let v = chars_of(c.as_str());
            let ls = lines_of(&v);
            let ghost f = |l: Seq<char>| line_findings(l);
            let mut i: usize = 0;
            proof {
                lemma_flat_map_empty(views(ls@), f);
            }
            while i < ls.len()
                invariant
                    i <= ls.len(),
                    views(ls@) == lines(c@),
                    f == (|l: Seq<char>| line_findings(l)),
                    string_views(r@) == flat_map(views(ls@).take(i as int), f),
                decreases ls.len() - i,
            {
                proof {
                    lemma_flat_map_step(views(ls@), f, i as int);
                }
                let ghost prev = string_views(r@);
                assert(views(ls@)[i as int] == ls@[i as int]@);
                if is_blocking_line(&ls[i]) {
                    let mut m = chars_of("hosts file blocks an Ocean domain: '");
                    append_chars(&mut m, &ls[i]);
                    push_str(&mut m, "'");
                    r.push(string_of(&m));
                    assert(string_views(r@) =~= prev + f(views(ls@)[i as int]));
                } else {
                    assert(string_views(r@) =~= prev + f(views(ls@)[i as int]));
                }
                i = i + 1;
            }
            proof {
                lemma_flat_map_all(views(ls@), f);
            }
        },
        None => {
            assert(string_views(r@) =~= seq![]);
        },
    }
    r
}

pub open spec fn check_name() -> Seq<char> {
    "Ocean domain access"@
}

/// The domain check, from the hosts findings and whether the main domain
/// resolves. Blocking hosts lines are a fixable failure; without them a
/// failed resolution is only a warning, since it may be a network issue.
/// `resolves` matters only when there are no findings.
pub fn run(findings: &Vec<String>, resolves: bool) -> (r: CheckReport)
    ensures
        r.key@ == "ocean"@,
        r.name@ == check_name(),
        findings.len() == 0 && resolves ==> r.status == super::Status::Pass && r.detail@
            == "Ocean's domains are reachable."@,
        findings.len() == 0 && !resolves ==> r.status == super::Status::Warning && r.detail@
            == "anticheat.ac does not resolve - a DNS-level block or network issue may be present."@,
        findings.len() > 0 ==> r.status == (super::Status::Fail { fixable: true }) && r.detail@
            == join(string_views(findings@), "; "@),
{
    if findings.len() == 0 {
        if resolves {
            CheckReport::pass("ocean", "Ocean domain access", "Ocean's domains are reachable.".to_owned())
        } else {
            CheckReport::warning(
                "ocean",
                "Ocean domain access",
                "anticheat.ac does not resolve - a DNS-level block or network issue may be present.".to_owned(),
            )
        }
    } else {
        CheckReport::fail("ocean", "Ocean domain access", true, join_strings(findings, "; "))
    }
}

/// A hosts line the fix drops: any line, comments included, that mentions
/// one of the scanner's domains, in any letter case.
pub open spec fn dropped_line(line: Seq<char>) -> bool {
    any_sub(ocean_domains(), lower(trim(line)))
}

/// The lines the fix keeps, in order.
pub open spec fn kept_lines(content: Seq<char>) -> Seq<Seq<char>> {
    flat_map(
        lines(content),
        |l: Seq<char>|
            if dropped_line(l) {
                seq![]
            } else {
                seq![l]
            },
    )
}

/// The hosts file after the fix on Windows: the kept lines joined with `\n`.
pub open spec fn filtered_hosts(content: Seq<char>) -> Seq<char> {
    join(kept_lines(content), "\n"@)
}

/// Piece `i` of a text split at `\n`, with the `\n` that ended it, if any:
/// a line as a line editor sees it.
pub open spec fn raw_line(ps: Seq<Seq<char>>, i: int) -> Seq<char> {
    if i < ps.len() - 1 {
        ps[i].push('\n')
    } else {
        ps[i]
    }
}

/// The first `n` raw lines of `ps` that are not dropped, concatenated.
pub open spec fn kept_raw(ps: Seq<Seq<char>>, n: int) -> Seq<char>
    decreases n,
{
    if n <= 0 {
        seq![]
    } else {
        kept_raw(ps, n - 1) + if dropped_line(ps[n - 1]) {
            seq![]
        } else {
            raw_line(ps, n - 1)
        }
    }
}

/// The hosts file after the fix on Linux: the file less its dropped lines,
/// every other line kept in order with its own line ending (`sed` deleting
/// the matching lines).
pub open spec fn stripped_hosts(content: Seq<char>) -> Seq<char> {
    kept_raw(pieces(content, '\n'), pieces(content, '\n').len() as int)
}

/// The hosts file content the fix writes back on Linux.
pub fn strip_hosts(content: &str) -> (r: String)
    ensures
        r@ == stripped_hosts(content@),
{
    let v = chars_of(content);
    let ps = split_chars(&v, '\n');
    let domains = ocean_domain_list();
    let mut out: Vec<char> = Vec::new();
    let mut i: usize = 0;
    while i < ps.len()
        invariant
            i <= ps.len(),
            views(ps@) == pieces(content@, '\n'),
            crate::signatures::strs(domains@) == ocean_domains(),
            out@ == kept_raw(views(ps@), i as int),
        decreases ps.len() - i,
    {
        assert(views(ps@)[i as int] == ps@[i as int]@);
        let ghost prev = out@;
        let t = trim_chars(&ps[i]);
        let low = lower_chars(&t);
        if !any_contained(&domains, &low) {
            append_chars(&mut out, &ps[i]);
            if i + 1 < ps.len() {
                out.push('\n');
            }
            assert(out@ =~= prev + raw_line(views(ps@), i as int));
        } else {
            assert(out@ =~= prev + Seq::<char>::empty());
        }
        i = i + 1;
    }
    string_of(&out)
}

/// The hosts fix's new content on a platform: on Linux the file less its
/// blocking lines, each other line byte for byte; on Windows the kept lines
/// joined with `\n`; no fix elsewhere.
pub fn fix(p: Platform, content: &str) -> (r: Option<String>)
    ensures
        p is Linux ==> (r matches Some(x) && x@ == stripped_hosts(content@)),
        p is Windows ==> (r matches Some(x) && x@ == filtered_hosts(content@)),
        p is Other ==> r is None,
{
    match p {
        Platform::Linux => Some(strip_hosts(content)),
        Platform::Windows => Some(filter_hosts(content)),
        Platform::Other => None,
    }
}

/// The hosts file content the fix writes back on Windows.
pub fn filter_hosts(content: &str) -> (r: String)
    ensures
        r@ == filtered_hosts(content@),
{
    let v = chars_of(content);
    let ls = lines_of(&v);
    let domains = ocean_domain_list();
    let ghost f = |l: Seq<char>|
        if dropped_line(l) {
            seq![]
        } else {
            seq![l]
        };
    let mut kept: Vec<Vec<char>> = Vec::new();
    let mut i: usize = 0;
    proof {
        lemma_flat_map_empty(views(ls@), f);
    }
    while i < ls.len()
        invariant
            i <= ls.len(),
            views(ls@) == lines(content@),
            crate::signatures::strs(domains@) == ocean_domains(),
            f == (|l: Seq<char>|
                if dropped_line(l) {
                    seq![]
                } else {
                    seq![l]
                }),
            views(kept@) == flat_map(views(ls@).take(i as int), f),
        decreases ls.len() - i,
    {
        proof {
            lemma_flat_map_step(views(ls@), f, i as int);
        }
        let ghost prev = views(kept@);
        assert(views(ls@)[i as int] == ls@[i as int]@);
        let t = trim_chars(&ls[i]);
        let low = lower_chars(&t);
        if !any_contained(&domains, &low) {
            kept.push(ls[i].clone());
            assert(views(kept@) =~= prev + f(views(ls@)[i as int]));
        } else {
            assert(views(kept@) =~= prev + f(views(ls@)[i as int]));
        }
        i = i + 1;
    }
    proof {
        lemma_flat_map_all(views(ls@), f);
    }
    let nl = chars_of("\n");
    let j = join_chars(&kept, &nl);
    string_of(&j)
}

} // verus!

verus! {

/// After the fix rewrites the hosts file on Windows, a fresh scan of the new
/// content finds no blocking line: every line the fix kept, read back as a line of
/// the new file, blocks nothing.
pub proof fn law_filtered_hosts_scan_clean(content: String, rewritten: String)
    requires
        rewritten@ == filtered_hosts(content@),
    ensures
        hosts_findings(Some(rewritten)).len() == 0,
{
    let k = kept_lines(content@);
    let keep = |l: Seq<char>| !dropped_line(l);
    let g = |l: Seq<char>|
        if dropped_line(l) {
            seq![]
        } else {
            seq![l]
        };
    lemma_lines_no_newline(content@);
    lemma_flat_map_filter(lines(content@), g, keep);
    assert forall|i: int| 0 <= i < k.len() implies !(#[trigger] k[i]).contains('\n') by {
        assert(lines(content@).contains(k[i]));
    }
    lemma_lines_join(k);
    let out = lines(rewritten@);
    assert forall|i: int| 0 <= i < out.len() implies !blocking_line(#[trigger] out[i]) by {
        assert(keep(k[i]));
        lemma_trim_strip_cr(k[i]);
    }
    let f = |l: Seq<char>| line_findings(l);
    lemma_flat_map_any_len(out, f);
}

} // verus!

verus! {

proof fn lemma_empty_not_dropped()
    ensures
        !dropped_line(Seq::<char>::empty()),
{
    let e = Seq::<char>::empty();
    assert(trim(e) =~= e);
    assert(lower(e) =~= e);
    reveal_strlit("anticheat.ac");
    reveal_strlit("api.anticheat.ac");
    if any_sub(ocean_domains(), e) {
        let i = choose|i: int| 0 <= i < ocean_domains().len() && has_sub(e, #[trigger] ocean_domains()[i]);
        assert(ocean_domains()[i].len() > 0);
    }
}

/// The pieces of what the Linux fix keeps: none is dropped, and before the
/// last raw line the output ends with a line ending.
proof fn lemma_kept_raw_pieces(ps: Seq<Seq<char>>, n: int)
    requires
        1 <= ps.len(),
        0 <= n <= ps.len(),
        forall|i: int| 0 <= i < ps.len() ==> !(#[trigger] ps[i]).contains('\n'),
    ensures
        forall|j: int|
            0 <= j < pieces(kept_raw(ps, n), '\n').len() ==> !dropped_line(
                #[trigger] pieces(kept_raw(ps, n), '\n')[j],
            ),
        n < ps.len() ==> pieces(kept_raw(ps, n), '\n').last().len() == 0,
    decreases n,
{
    lemma_empty_not_dropped();
    if n == 0 {
        assert(kept_raw(ps, 0) =~= Seq::<char>::empty());
        assert(pieces(Seq::<char>::empty(), '\n') =~= seq![Seq::<char>::empty()]);
    } else {
        lemma_kept_raw_pieces(ps, n - 1);
        let o = kept_raw(ps, n - 1);
        let x = ps[n - 1];
        lemma_pieces_nonempty(o, '\n');
        if dropped_line(x) {
            assert(kept_raw(ps, n) =~= o);
        } else {
            let po = pieces(o, '\n');
            lemma_pieces_append(o, x, '\n');
            assert(po.last() + x =~= x);
            let a = o + x;
            assert forall|j: int| 0 <= j < pieces(a, '\n').len() implies !dropped_line(
                #[trigger] pieces(a, '\n')[j],
            ) by {
                if j < po.len() - 1 {
                    assert(pieces(a, '\n')[j] == po[j]);
                }
            }
            if n - 1 < ps.len() - 1 {
                let b = a.push('\n');
                assert(kept_raw(ps, n) =~= b);
                assert(b.drop_last() =~= a);
                assert(pieces(b, '\n') == pieces(a, '\n').push(Seq::<char>::empty()));
                assert forall|j: int| 0 <= j < pieces(b, '\n').len() implies !dropped_line(
                    #[trigger] pieces(b, '\n')[j],
                ) by {
                    if j < pieces(a, '\n').len() {
                        assert(pieces(b, '\n')[j] == pieces(a, '\n')[j]);
                    }
                }
            } else {
                assert(kept_raw(ps, n) =~= a);
            }
        }
    }
}

/// After the fix rewrites the hosts file on Linux, a fresh scan of the new
/// content finds no blocking line.
pub proof fn law_stripped_hosts_scan_clean(content: String, rewritten: String)
    requires
        rewritten@ == stripped_hosts(content@),
    ensures
        hosts_findings(Some(rewritten)).len() == 0,
{
    let ps = pieces(content@, '\n');
    lemma_pieces_no_sep(content@, '\n');
    lemma_pieces_nonempty(content@, '\n');
    lemma_kept_raw_pieces(ps, ps.len() as int);
    let q = pieces(rewritten@, '\n');
    lemma_pieces_nonempty(rewritten@, '\n');
    let out = lines(rewritten@);
    assert forall|i: int| 0 <= i < out.len() implies !blocking_line(#[trigger] out[i]) by {
        if i < q.len() - 1 {
            assert(out[i] == strip_cr(q[i]));
            lemma_trim_strip_cr(q[i]);
            assert(!dropped_line(q[i]));
        } else {
            assert(out[i] == q[q.len() - 1]);
            assert(!dropped_line(q[q.len() - 1]));
        }
    }
    let f = |l: Seq<char>| line_findings(l);
    lemma_flat_map_any_len(out, f);
}

} // verus!

verus! {

/// Every hosts line that is neither blank nor a comment and mentions one of
/// the scanner's domains (`anticheat.ac`, `api.anticheat.ac`; trimmed and
/// compared lower-cased) is reported as a block, whatever address it maps
/// the domain to.
pub proof fn law_domain_line_reported(c: String, k: int)
    requires
        0 <= k < lines(c@).len(),
        !has_prefix(lower(trim(lines(c@)[k])), "#"@),
        has_sub(lower(trim(lines(c@)[k])), "anticheat.ac"@) || has_sub(
            lower(trim(lines(c@)[k])),
            "api.anticheat.ac"@,
        ),
    ensures
        hosts_findings(Some(c)).contains(
            "hosts file blocks an Ocean domain: '"@ + lines(c@)[k] + "'"@,
        ),
{
    let l = lines(c@)[k];
    let low = lower(trim(l));
    let d = ocean_domains();
    assert(d[0] == "anticheat.ac"@);
    assert(d[1] == "api.anticheat.ac"@);
    reveal_strlit("anticheat.ac");
    reveal_strlit("api.anticheat.ac");
    if has_sub(low, d[0]) {
        let i = choose|i: int| occurs_at(low, d[0], i);
    } else {
        let i = choose|i: int| occurs_at(low, d[1], i);
    }
    assert(low.len() > 0);
    assert(blocking_line(l));
    let f = |x: Seq<char>| line_findings(x);
    lemma_flat_map_contains(lines(c@), f, k, 0);
}

} // verus!
