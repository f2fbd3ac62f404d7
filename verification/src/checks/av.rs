//! Antivirus mode (Windows): the scanner's guidance is to disable antivirus
//! for an accurate scan. Windows Defender can be paused automatically;
//! third-party products only get a warning.

use vstd::prelude::*;

use super::CheckReport;
use crate::signatures::{is_listed, known_av_process_list, known_av_processes, listed};
use crate::text::{
    append_chars, chars_eq, chars_of, chars_of_all, contains_chars, decimal, decimal_chars, has_sub,
    join, join_chars, lines, lines_of, lower, lower_chars, push_str, string_of, string_views,
    strings_of, trim, trim_chars, views,
};

verus! {

/// What the antivirus detection found.
pub enum AvState {
    /// Only Windows Defender, with its realtime protection on or off.
    Defender { realtime_on: bool },
    /// Third-party products (their names, each once).
    ThirdParty { names: Vec<String> },
    /// No antivirus.
    Absent,
}

/// What the check sees, on the platform it runs on.
pub enum AvCheck {
    Windows(AvState),
    Linux,
    Other,
}

/// The detection's classification before Defender's realtime state is
/// asked for (it is asked only when Defender is the sole product).
pub enum AvClass {
    Defender,
    ThirdParty(Vec<String>),
    Nothing,
}

/// Progress of the detection: whether Defender was seen, and the
/// third-party names collected so far.
pub type Detect = (bool, Seq<Seq<char>>);

/// `name` matches a collected name, ignoring ASCII case.
pub open spec fn already_listed(third: Seq<Seq<char>>, name: Seq<char>) -> bool {
    exists|i: int| 0 <= i < third.len() && lower(#[trigger] third[i]) == lower(name)
}

/// A Security Center product name that denotes Windows Defender.
pub open spec fn is_defender_product(p: Seq<char>) -> bool {
    let l = lower(p);
    has_sub(l, "windows defender"@) || has_sub(l, "microsoft security essentials"@) || has_sub(
        l,
        "security essentials"@,
    )
}

/// One registered product: Defender, or a third-party product not yet seen.
pub open spec fn product_step(d: Detect, p: Seq<char>) -> Detect {
    if is_defender_product(p) {
        (true, d.1)
    } else if !already_listed(d.1, p) {
        (d.0, d.1.push(p))
    } else {
        d
    }
}

/// A process of Windows Defender or Microsoft Security Essentials.
pub open spec fn is_defender_process(n: Seq<char>) -> bool {
    n == "msmpeng.exe"@ || n == "msseces.exe"@
}

/// One running process (its lower-cased name): Defender's own (its engine,
/// or Security Essentials), or another known antivirus process not yet
/// seen.
pub open spec fn process_step(d: Detect, n: Seq<char>) -> Detect {
    if is_defender_process(n) {
        (true, d.1)
    } else if listed(known_av_processes(), n) && !already_listed(d.1, n) {
        (d.0, d.1.push(n))
    } else {
        d
    }
}

pub open spec fn fold_products(d: Detect, ps: Seq<Seq<char>>) -> Detect
    decreases ps.len(),
{
    if ps.len() == 0 {
        d
    } else {
        product_step(fold_products(d, ps.drop_last()), ps.last())
    }
}

pub open spec fn fold_processes(d: Detect, ns: Seq<Seq<char>>) -> Detect
    decreases ns.len(),
{
    if ns.len() == 0 {
        d
    } else {
        process_step(fold_processes(d, ns.drop_last()), lower(ns.last()))
    }
}

/// The detection over the registered products, then the running processes.
pub open spec fn detect(products: Seq<Seq<char>>, processes: Seq<Seq<char>>) -> Detect {
    fold_processes(fold_products((false, seq![]), products), processes)
}

/// The product names in the Security Center listing: its trimmed, non-blank
/// lines.
pub open spec fn product_lines(out: Seq<char>) -> Seq<Seq<char>> {
    crate::text::flat_map(
        lines(out),
        |l: Seq<char>|
            if trim(l).len() > 0 {
                seq![trim(l)]
            } else {
                seq![]
            },
    )
}

/// The product names in the Security Center listing.
pub fn parse_products(out: &str) -> (r: Vec<String>)
    ensures
        string_views(r@) == product_lines(out@),
{
    let v = chars_of(out);
    let ls = lines_of(&v);
    let ghost f = |l: Seq<char>|
        if trim(l).len() > 0 {
            seq![trim(l)]
        } else {
            seq![]
        };
    let mut r: Vec<Vec<char>> = Vec::new();
    let mut i: usize = 0;
    proof {
        crate::text::lemma_flat_map_empty(views(ls@), f);
    }
    while i < ls.len()
        invariant
            i <= ls.len(),
            views(ls@) == lines(out@),
            f == (|l: Seq<char>|
                if trim(l).len() > 0 {
                    seq![trim(l)]
                } else {
                    seq![]
                }),
            views(r@) == crate::text::flat_map(views(ls@).take(i as int), f),
        decreases ls.len() - i,
    {
        proof {
            crate::text::lemma_flat_map_step(views(ls@), f, i as int);
        }
        let ghost prev = views(r@);
        assert(views(ls@)[i as int] == ls@[i as int]@);
        let t = trim_chars(&ls[i]);
        if t.len() > 0 {
            r.push(t);
            assert(views(r@) =~= prev + f(views(ls@)[i as int]));
        } else {
            assert(views(r@) =~= prev + f(views(ls@)[i as int]));
        }
        i = i + 1;
    }
    proof {
        crate::text::lemma_flat_map_all(views(ls@), f);
    }
    strings_of(&r)
}

/// Defender's realtime monitoring state from the output of the preference
/// query: on when the query failed, printed nothing, `False` (any case) or
/// `0`.
pub open spec fn realtime_on(out: Option<String>) -> bool {
    match out {
        Some(o) => {
            let t = trim(o@);
            t.len() == 0 || lower(t) == "false"@ || t == "0"@
        },
        None => true,
    }
}

pub fn parse_realtime(out: &Option<String>) -> (r: bool)
    ensures
        r == realtime_on(*out),
{
    match out {
        Some(o) => {
            let v = chars_of(o.as_str());
            let t = trim_chars(&v);
            let l = lower_chars(&t);
            let f = chars_of("false");
            let z = chars_of("0");
            t.len() == 0 || chars_eq(&l, &f) || chars_eq(&t, &z)
        },
        None => true,
    }
}

fn listed_ignoring_case(third: &Vec<Vec<char>>, name: &Vec<char>) -> (r: bool)
    ensures
        r == already_listed(views(third@), name@),
{
    let ln = lower_chars(name);
    let mut i: usize = 0;
    while i < third.len()
        invariant
            i <= third.len(),
            ln@ == lower(name@),
            forall|k: int| 0 <= k < i ==> lower(#[trigger] views(third@)[k]) != lower(name@),
        decreases third.len() - i,
    {
        assert(views(third@)[i as int] == third@[i as int]@);
        let lt = lower_chars(&third[i]);
        if chars_eq(&lt, &ln) {
            return true;
        }
        i = i + 1;
    }
    false
}

fn is_defender_name(p: &Vec<char>) -> (r: bool)
    ensures
        r == is_defender_product(p@),
{
    let l = lower_chars(p);
    let a = chars_of("windows defender");
    let b = chars_of("microsoft security essentials");
    let c = chars_of("security essentials");
    contains_chars(&l, &a) || contains_chars(&l, &b) || contains_chars(&l, &c)
}

/// The detection: Security Center products first, then known antivirus
/// processes. Any third-party product wins over Defender.
pub fn classify(products: &Vec<String>, processes: &Vec<String>) -> (r: AvClass)
    ensures
        detect(string_views(products@), string_views(processes@)).1.len() > 0 ==> (r matches AvClass::ThirdParty(names)
            && string_views(names@) == detect(string_views(products@), string_views(processes@)).1),
        detect(string_views(products@), string_views(processes@)).1.len() == 0 && detect(
            string_views(products@),
            string_views(processes@),
        ).0 ==> r is Defender,
        detect(string_views(products@), string_views(processes@)).1.len() == 0 && !detect(
            string_views(products@),
            string_views(processes@),
        ).0 ==> r is Nothing,
{
    let ps = chars_of_all(products);
    let ns = chars_of_all(processes);
    let mut defender = false;
    let mut third: Vec<Vec<char>> = Vec::new();
    let mut i: usize = 0;
    assert(views(ps@).take(0) =~= Seq::<Seq<char>>::empty());
    while i < ps.len()
        invariant
            i <= ps.len(),
            views(ps@) == string_views(products@),
            (defender, views(third@)) == fold_products((false, seq![]), views(ps@).take(i as int)),
        decreases ps.len() - i,
    {
        assert(views(ps@).take(i + 1).drop_last() =~= views(ps@).take(i as int));
        assert(views(ps@)[i as int] == ps@[i as int]@);
        if is_defender_name(&ps[i]) {
            defender = true;
        } else if !listed_ignoring_case(&third, &ps[i]) {
            let ghost prev = views(third@);
            third.push(ps[i].clone());
            assert(views(third@) =~= prev.push(ps@[i as int]@));
        }
        i = i + 1;
    }
    assert(views(ps@).take(ps.len() as int) =~= views(ps@));
    let ghost after_products = (defender, views(third@));
    let known = known_av_process_list();
    let mut k: usize = 0;
    assert(views(ns@).take(0) =~= Seq::<Seq<char>>::empty());
    while k < ns.len()
        invariant
            k <= ns.len(),
            views(ns@) == string_views(processes@),
            crate::signatures::strs(known@) == known_av_processes(),
            (defender, views(third@)) == fold_processes(after_products, views(ns@).take(k as int)),
        decreases ns.len() - k,
    {
        assert(views(ns@).take(k + 1).drop_last() =~= views(ns@).take(k as int));
        assert(views(ns@)[k as int] == ns@[k as int]@);
        let n = lower_chars(&ns[k]);
        let engine = chars_of("msmpeng.exe");
        let essentials = chars_of("msseces.exe");
        if chars_eq(&n, &engine) || chars_eq(&n, &essentials) {
            defender = true;
        } else if is_listed(&known, &n) && !listed_ignoring_case(&third, &n) {
            let ghost prev = views(third@);
            third.push(n);
            assert(views(third@) =~= prev.push(lower(ns@[k as int]@)));
        }
        k = k + 1;
    }
    assert(views(ns@).take(ns.len() as int) =~= views(ns@));
    if third.len() > 0 {
        AvClass::ThirdParty(strings_of(&third))
    } else if defender {
        AvClass::Defender
    } else {
        AvClass::Nothing
    }
}

} // verus!

verus! {

/// The names shown in the third-party warning: the first four, joined with
/// `, `, and how many more there are.
pub open spec fn shown_names(names: Seq<Seq<char>>) -> Seq<char> {
    let n = if names.len() > 4 {
        4
    } else {
        names.len() as int
    };
    join(names.take(n), ", "@) + if names.len() > 4 {
        " and "@ + decimal((names.len() - 4) as nat) + " more"@
    } else {
        Seq::<char>::empty()
    }
}

pub open spec fn check_name() -> Seq<char> {
    "Antivirus mode"@
}

pub open spec fn defender_on_text() -> Seq<char> {
    "Windows Defender realtime protection is on. Ocean recommends disabling it for an accurate scan. Byte Check will pause it and re-enable it afterwards."@
}

/// The antivirus check. Defender with realtime protection on is a fixable
/// failure (the fix pauses it); third-party products are a warning naming
/// them; no antivirus, Defender already off, and other platforms pass.
pub fn run(c: &AvCheck) -> (r: CheckReport)
    ensures
        r.key@ == "av"@,
        r.name@ == check_name(),
        *c == AvCheck::Windows(AvState::Defender { realtime_on: true }) ==> r.status == (
        super::Status::Fail { fixable: true }) && r.detail@ == defender_on_text(),
        *c == AvCheck::Windows(AvState::Defender { realtime_on: false }) ==> r.status
            == super::Status::Pass && r.detail@
            == "Windows Defender realtime protection is off (as Ocean recommends)."@,
        *c matches AvCheck::Windows(AvState::ThirdParty { names }) ==> r.status
            == super::Status::Warning && r.detail@ == "Third-party antivirus detected ("@
            + shown_names(string_views(names@))
            + "). Ocean recommends disabling it for an accurate scan - disable it manually and re-enable it afterwards."@,
        *c == AvCheck::Windows(AvState::Absent) ==> r.status == super::Status::Pass && r.detail@
            == "No antivirus interference detected."@,
        *c == AvCheck::Linux ==> r.status == super::Status::Pass && r.detail@
            == "N/A on Linux - antivirus does not interfere."@,
        *c == AvCheck::Other ==> r.status == super::Status::Pass && r.detail@ == "N/A."@,
{
    match c {
        AvCheck::Windows(AvState::Defender { realtime_on }) => {
            if *realtime_on {
                CheckReport::fail(
                    "av",
                    "Antivirus mode",
                    true,
                    "Windows Defender realtime protection is on. Ocean recommends disabling it for an accurate scan. Byte Check will pause it and re-enable it afterwards.".to_owned(),
                )
            } else {
                CheckReport::pass(
                    "av",
                    "Antivirus mode",
                    "Windows Defender realtime protection is off (as Ocean recommends).".to_owned(),
                )
            }
        },
        AvCheck::Windows(AvState::ThirdParty { names }) => {
            let all = chars_of_all(names);
            let n: usize = if all.len() > 4 {
                4
            } else {
                all.len()
            };
            let mut first: Vec<Vec<char>> = Vec::new();
            let mut i: usize = 0;
            while i < n
                invariant
                    i <= n <= all.len(),
                    views(first@) == views(all@).take(i as int),
                decreases n - i,
            {
                let ghost prev = views(first@);
                first.push(all[i].clone());
                assert(views(first@) =~= prev.push(all@[i as int]@));
                assert(views(all@).take(i + 1) =~= views(all@).take(i as int).push(
                    views(all@)[i as int],
                ));
                i = i + 1;
            }
            let sep = chars_of(", ");
            let mut m = chars_of("Third-party antivirus detected (");
            let shown = join_chars(&first, &sep);
            append_chars(&mut m, &shown);
            if all.len() > 4 {
                push_str(&mut m, " and ");
                let d = decimal_chars((all.len() - 4) as u64);
                append_chars(&mut m, &d);
                push_str(&mut m, " more");
            }
            push_str(
                &mut m,
                "). Ocean recommends disabling it for an accurate scan - disable it manually and re-enable it afterwards.",
            );
            CheckReport::warning("av", "Antivirus mode", string_of(&m))
        },
        AvCheck::Windows(AvState::Absent) => {
            CheckReport::pass("av", "Antivirus mode", "No antivirus interference detected.".to_owned())
        },
        AvCheck::Linux => CheckReport::pass(
            "av",
            "Antivirus mode",
            "N/A on Linux - antivirus does not interfere.".to_owned(),
        ),
        AvCheck::Other => CheckReport::pass("av", "Antivirus mode", "N/A.".to_owned()),
    }
}

} // verus!

verus! {

/// A name collected stays collected through one more product.
proof fn lemma_product_step_keeps(d: Detect, p: Seq<char>, x: Seq<char>)
    requires
        already_listed(d.1, x),
    ensures
        already_listed(product_step(d, p).1, x),
{
    let j = choose|j: int| 0 <= j < d.1.len() && lower(#[trigger] d.1[j]) == lower(x);
    assert(product_step(d, p).1[j] == d.1[j]);
}

/// A name collected stays collected through one more process.
proof fn lemma_process_step_keeps(d: Detect, n: Seq<char>, x: Seq<char>)
    requires
        already_listed(d.1, x),
    ensures
        already_listed(process_step(d, n).1, x),
{
    let j = choose|j: int| 0 <= j < d.1.len() && lower(#[trigger] d.1[j]) == lower(x);
    assert(process_step(d, n).1[j] == d.1[j]);
}

proof fn lemma_fold_processes_keeps(d: Detect, ns: Seq<Seq<char>>, x: Seq<char>)
    requires
        already_listed(d.1, x),
    ensures
        already_listed(fold_processes(d, ns).1, x),
    decreases ns.len(),
{
    if ns.len() > 0 {
        lemma_fold_processes_keeps(d, ns.drop_last(), x);
        lemma_process_step_keeps(fold_processes(d, ns.drop_last()), lower(ns.last()), x);
    }
}

/// Every registered product that is not Defender's is collected, ignoring
/// case.
proof fn lemma_fold_products_lists(d: Detect, ps: Seq<Seq<char>>, i: int)
    requires
        0 <= i < ps.len(),
        !is_defender_product(ps[i]),
    ensures
        already_listed(fold_products(d, ps).1, ps[i]),
    decreases ps.len(),
{
    let pre = fold_products(d, ps.drop_last());
    if i == ps.len() - 1 {
        assert(ps.last() == ps[i]);
        if !already_listed(pre.1, ps[i]) {
            let n = pre.1.push(ps[i]);
            assert(fold_products(d, ps).1 == n);
            assert(n[n.len() - 1] == ps[i]);
        }
    } else {
        assert(ps.drop_last()[i] == ps[i]);
        lemma_fold_products_lists(d, ps.drop_last(), i);
        lemma_product_step_keeps(pre, ps.last(), ps[i]);
    }
}

/// A registered product whose name (in any letter case) mentions neither
/// Windows Defender nor Security Essentials is a third-party product: the
/// detection collects it, under a name equal to it ignoring case, so
/// `classify` answers `ThirdParty`, whatever else runs or is registered.
pub proof fn law_other_product_is_third_party(ps: Seq<Seq<char>>, ns: Seq<Seq<char>>, i: int)
    requires
        0 <= i < ps.len(),
        !has_sub(lower(ps[i]), "windows defender"@),
        !has_sub(lower(ps[i]), "microsoft security essentials"@),
        !has_sub(lower(ps[i]), "security essentials"@),
    ensures
        exists|j: int|
            0 <= j < detect(ps, ns).1.len() && lower(#[trigger] detect(ps, ns).1[j]) == lower(ps[i]),
        detect(ps, ns).1.len() > 0,
{
    lemma_fold_products_lists((false, seq![]), ps, i);
    lemma_fold_processes_keeps(fold_products((false, seq![]), ps), ns, ps[i]);
    let d = detect(ps, ns);
    assert(already_listed(d.1, ps[i]));
    let j = choose|j: int| 0 <= j < d.1.len() && lower(#[trigger] d.1[j]) == lower(ps[i]);
    assert(lower(detect(ps, ns).1[j]) == lower(ps[i]));
}

proof fn lemma_defender_products(ps: Seq<Seq<char>>)
    requires
        forall|i: int| 0 <= i < ps.len() ==> has_sub(lower(#[trigger] ps[i]), "windows defender"@),
    ensures
        fold_products((false, seq![]), ps) == (ps.len() > 0, Seq::<Seq<char>>::empty()),
    decreases ps.len(),
{
    if ps.len() > 0 {
        let pre = ps.drop_last();
        assert forall|i: int| 0 <= i < pre.len() implies has_sub(lower(#[trigger] pre[i]), "windows defender"@) by {
            assert(pre[i] == ps[i]);
        }
        lemma_defender_products(pre);
        assert(ps.last() == ps[ps.len() - 1]);
    }
}

/// When every registered product is Windows Defender and no process is
/// looked at, the detection finds Defender and nothing third-party, so
/// `classify` answers `Defender`; with no product at all it finds nothing.
pub proof fn law_defender_alone(ps: Seq<Seq<char>>)
    requires
        forall|i: int| 0 <= i < ps.len() ==> has_sub(lower(#[trigger] ps[i]), "windows defender"@),
    ensures
        detect(ps, seq![]) == (ps.len() > 0, Seq::<Seq<char>>::empty()),
{
    lemma_defender_products(ps);
}

} // verus!

