//! The check reports and the runner: detect, fix what is fixable, re-check,
//! and turn the results into an eligibility outcome.

use vstd::prelude::*;

pub mod av;
pub mod clock;
pub mod ocean;
pub mod overlay;
pub mod process;
pub mod screen;
pub mod trace;

use crate::text::{chars_of, join, join_chars, append_chars, string_of};

verus! {

/// The result of one check.
#[derive(Clone, Copy, Debug, PartialEq, Eq, Structural)]
pub enum Status {
    Pass,
    Fixed,
    Fail { fixable: bool },
    Warning,
}

/// One check's report: which check, how it went, and why.
#[derive(Clone, Debug)]
pub struct CheckReport {
    pub key: &'static str,
    pub name: &'static str,
    pub status: Status,
    pub detail: String,
}

impl CheckReport {
    pub fn pass(key: &'static str, name: &'static str, detail: String) -> (r: CheckReport)
        ensures
            r.key == key,
            r.name == name,
            r.status == Status::Pass,
            r.detail@ == detail@,
    {
        CheckReport { key, name, status: Status::Pass, detail }
    }

    pub fn fail(key: &'static str, name: &'static str, fixable: bool, detail: String) -> (r:
        CheckReport)
        ensures
            r.key == key,
            r.name == name,
            r.status == (Status::Fail { fixable }),
            r.detail@ == detail@,
    {
        CheckReport { key, name, status: Status::Fail { fixable }, detail }
    }

    pub fn warning(key: &'static str, name: &'static str, detail: String) -> (r: CheckReport)
        ensures
            r.key == key,
            r.name == name,
            r.status == Status::Warning,
            r.detail@ == detail@,
    {
        CheckReport { key, name, status: Status::Warning, detail }
    }

    /// The status as the lower-case word shown to the user.
    pub fn status_str(&self) -> (r: &'static str)
        ensures
            r@ == status_word(self.status),
    {
        match self.status {
            Status::Pass => "pass",
            Status::Fixed => "fixed",
            Status::Fail { .. } => "fail",
            Status::Warning => "warning",
        }
    }
}

/// The word for a status.
pub open spec fn status_word(s: Status) -> Seq<char> {
    match s {
        Status::Pass => "pass"@,
        Status::Fixed => "fixed"@,
        Status::Fail { .. } => "fail"@,
        Status::Warning => "warning"@,
    }
}

/// The operating system a check runs on; each check reads and decides
/// differently per platform.
#[derive(Clone, Copy, Debug, PartialEq, Eq, Structural)]
pub enum Platform {
    Linux,
    Windows,
    Other,
}

/// One entry of the Linux process table (`/proc/<pid>`) as read from disk:
/// the entry's name and the files the checks look at, `None` where a file
/// could not be read.
#[derive(Clone, Debug)]
pub struct ProcEntry {
    pub pid: String,
    pub comm: Option<String>,
    pub status: Option<String>,
    pub environ: Option<Vec<u8>>,
    pub maps: Option<String>,
}

/// One running process as the Windows process list reports it.
#[derive(Clone, Debug)]
pub struct NamedProcess {
    pub pid: String,
    pub name: String,
}

/// A progress event shown while the checks run.
pub struct CheckEvent {
    pub key: &'static str,
    pub name: &'static str,
    pub status: &'static str,
    pub detail: String,
}

/// The outcome of a whole scan.
pub struct FinalSummary {
    pub outcome: &'static str,
    pub fixed: Vec<&'static str>,
    pub hard_fails: Vec<&'static str>,
    pub detail: String,
}

/// The seven checks, in the order they run.
#[derive(Clone, Copy, Debug, PartialEq, Eq, Structural)]
pub enum CheckKind {
    Process,
    Overlay,
    Clock,
    Screen,
    Ocean,
    Av,
    Trace,
}

pub open spec fn kind_key(k: CheckKind) -> Seq<char> {
    match k {
        CheckKind::Process => "process"@,
        CheckKind::Overlay => "overlay"@,
        CheckKind::Clock => "clock"@,
        CheckKind::Screen => "screen"@,
        CheckKind::Ocean => "ocean"@,
        CheckKind::Av => "av"@,
        CheckKind::Trace => "trace"@,
    }
}

pub open spec fn kind_name(k: CheckKind) -> Seq<char> {
    match k {
        CheckKind::Process => "Scan interference sweep"@,
        CheckKind::Overlay => "Injection & hook sweep"@,
        CheckKind::Clock => "System clock sync"@,
        CheckKind::Screen => "Screen access permission"@,
        CheckKind::Ocean => "Ocean domain access"@,
        CheckKind::Av => "Antivirus mode"@,
        CheckKind::Trace => "Tamper log trace"@,
    }
}

/// Whether the check has an automatic fix. Process interference and tamper
/// traces never do: killing or erasing them would itself be tampering.
pub open spec fn kind_fixable(k: CheckKind) -> bool {
    !(k is Process || k is Trace)
}

impl CheckKind {
    pub fn key(&self) -> (r: &'static str)
        ensures
            r@ == kind_key(*self),
    {
        match self {
            CheckKind::Process => "process",
            CheckKind::Overlay => "overlay",
            CheckKind::Clock => "clock",
            CheckKind::Screen => "screen",
            CheckKind::Ocean => "ocean",
            CheckKind::Av => "av",
            CheckKind::Trace => "trace",
        }
    }

    pub fn name(&self) -> (r: &'static str)
        ensures
            r@ == kind_name(*self),
    {
        match self {
            CheckKind::Process => "Scan interference sweep",
            CheckKind::Overlay => "Injection & hook sweep",
            CheckKind::Clock => "System clock sync",
            CheckKind::Screen => "Screen access permission",
            CheckKind::Ocean => "Ocean domain access",
            CheckKind::Av => "Antivirus mode",
            CheckKind::Trace => "Tamper log trace",
        }
    }

    /// Whether a fix exists for this check (`apply_fix` does something).
    pub fn has_fix(&self) -> (r: bool)
        ensures
            r == kind_fixable(*self),
    {
        match self {
            CheckKind::Process => false,
            CheckKind::Trace => false,
            _ => true,
        }
    }
}

/// The checks in the order the runner goes through them.
pub open spec fn check_order() -> Seq<CheckKind> {
    seq![
        CheckKind::Process,
        CheckKind::Overlay,
        CheckKind::Clock,
        CheckKind::Screen,
        CheckKind::Ocean,
        CheckKind::Av,
        CheckKind::Trace,
    ]
}

pub fn all_checks() -> (v: Vec<CheckKind>)
    ensures
        v@ == check_order(),
{
    let v = vec![
        CheckKind::Process,
        CheckKind::Overlay,
        CheckKind::Clock,
        CheckKind::Screen,
        CheckKind::Ocean,
        CheckKind::Av,
        CheckKind::Trace,
    ];
    assert(v@ =~= check_order());
    v
}

} // verus!

verus! {

/// A status that lets the scan go on untouched: passed, or only a warning.
pub open spec fn passes(s: Status) -> bool {
    s is Pass || s is Warning
}

/// The abstract progress of a scan: keys fixed so far, keys failed for good.
pub type Progress = (Seq<&'static str>, Seq<&'static str>);

/// Progress after a check's first report, when no fix is attempted.
pub open spec fn after_initial(p: Progress, key: &'static str, s: Status) -> Progress {
    if s == (Status::Fail { fixable: false }) {
        (p.0, p.1.push(key))
    } else {
        p
    }
}

/// Progress after the re-check that follows a fix: the re-check alone
/// decides whether the check counts as fixed.
pub open spec fn after_recheck(p: Progress, key: &'static str, s: Status) -> Progress {
    if passes(s) {
        (p.0.push(key), p.1)
    } else {
        (p.0, p.1.push(key))
    }
}

/// The outcome word for a scan's progress.
pub open spec fn outcome_of(p: Progress) -> Seq<char> {
    if p.1.len() > 0 {
        "ineligible"@
    } else if p.0.len() > 0 {
        "fixable"@
    } else {
        "eligible"@
    }
}

pub open spec fn eligible_text() -> Seq<char> {
    "Every check passed. You can start your scan now - no changes needed."@
}

pub open spec fn fixed_suffix() -> Seq<char> {
    " were corrected automatically, so your scan will still be accurate."@
}

pub open spec fn ineligible_text() -> Seq<char> {
    "A non-correctable issue was found. A scan run now would not be accurate. Contact staff before continuing."@
}

/// The summary sentence for a scan's progress.
pub open spec fn summary_detail(p: Progress) -> Seq<char> {
    if p.1.len() > 0 {
        ineligible_text()
    } else if p.0.len() > 0 {
        join(crate::signatures::strs(p.0), ", "@) + fixed_suffix()
    } else {
        eligible_text()
    }
}

/// What the runner does after a check's first report.
pub enum Initial {
    /// The check failed but can be fixed: apply its fix, then re-check.
    NeedsFix,
    /// The report is final as it stands.
    Settled(CheckReport),
}

/// The runner's state between checks.
pub struct ScanState {
    pub fixed: Vec<&'static str>,
    pub hard_fails: Vec<&'static str>,
}

impl ScanState {
    pub open spec fn view(&self) -> Progress {
        (self.fixed@, self.hard_fails@)
    }

    pub fn new() -> (r: ScanState)
        ensures
            r@ == (Seq::<&'static str>::empty(), Seq::<&'static str>::empty()),
    {
        ScanState { fixed: Vec::new(), hard_fails: Vec::new() }
    }

    /// Takes a check's first report. A fixable failure asks for the fix; a
    /// failure that cannot be fixed counts against the scan at once;
    /// anything else is final as it is.
    pub fn on_initial(&mut self, key: &'static str, report: CheckReport) -> (r: Initial)
        ensures
            final(self)@ == after_initial(old(self)@, key, report.status),
            report.status == (Status::Fail { fixable: true }) ==> r is NeedsFix,
            report.status != (Status::Fail { fixable: true }) ==> r == Initial::Settled(report),
    {
        match report.status {
            Status::Fail { fixable: true } => Initial::NeedsFix,
            Status::Fail { fixable: false } => {
                self.hard_fails.push(key);
                Initial::Settled(report)
            },
            _ => Initial::Settled(report),
        }
    }

    /// Takes the re-check that follows a fix. Only a passing (or warning)
    /// re-check makes the check count as fixed; the fix's own result does
    /// not matter.
    pub fn on_recheck(&mut self, key: &'static str, recheck: CheckReport) -> (r: CheckReport)
        ensures
            final(self)@ == after_recheck(old(self)@, key, recheck.status),
            passes(recheck.status) ==> r.status == Status::Fixed && r.key == recheck.key
                && r.name == recheck.name && r.detail@ == "Auto-fixed: "@ + recheck.detail@,
            !passes(recheck.status) ==> r == recheck,
    {
        match recheck.status {
            Status::Pass | Status::Warning => {
                let mut d: Vec<char> = chars_of("Auto-fixed: ");
                let rest = chars_of(recheck.detail.as_str());
                append_chars(&mut d, &rest);
                self.fixed.push(key);
                CheckReport {
                    key: recheck.key,
                    name: recheck.name,
                    status: Status::Fixed,
                    detail: string_of(&d),
                }
            },
            _ => {
                self.hard_fails.push(key);
                recheck
            },
        }
    }

    /// The scan's outcome: ineligible when anything failed for good,
    /// fixable when something was fixed, eligible otherwise.
    pub fn finish(self) -> (r: FinalSummary)
        ensures
            r.outcome@ == outcome_of(self@),
            r.fixed@ == self.fixed@,
            r.hard_fails@ == self.hard_fails@,
            r.detail@ == summary_detail(self@),
    {
        let detail: String = if self.hard_fails.len() > 0 {
            "A non-correctable issue was found. A scan run now would not be accurate. Contact staff before continuing.".to_owned()
        } else if self.fixed.len() > 0 {
            let keys = key_chars(&self.fixed);
            let sep = chars_of(", ");
            let mut d = join_chars(&keys, &sep);
            let suffix = chars_of(" were corrected automatically, so your scan will still be accurate.");
            append_chars(&mut d, &suffix);
            string_of(&d)
        } else {
            "Every check passed. You can start your scan now - no changes needed.".to_owned()
        };
        let outcome = if self.hard_fails.len() > 0 {
            "ineligible"
        } else if self.fixed.len() > 0 {
            "fixable"
        } else {
            "eligible"
        };
        FinalSummary { outcome, fixed: self.fixed, hard_fails: self.hard_fails, detail }
    }
}

/// The characters of each key.
fn key_chars(v: &Vec<&'static str>) -> (r: Vec<Vec<char>>)
    ensures
        crate::text::views(r@) == crate::signatures::strs(v@),
{
    let mut r: Vec<Vec<char>> = Vec::new();
    let mut i: usize = 0;
    while i < v.len()
        invariant
            i <= v.len(),
            crate::text::views(r@) == crate::signatures::strs(v@).take(i as int),
        decreases v.len() - i,
    {
        let c = chars_of(v[i]);
        let ghost prev = crate::text::views(r@);
        r.push(c);
        assert(crate::text::views(r@) =~= prev.push(c@));
        assert(crate::text::views(r@) =~= crate::signatures::strs(v@).take(i + 1));
        i = i + 1;
    }
    assert(crate::signatures::strs(v@).take(v.len() as int) =~= crate::signatures::strs(v@));
    r
}

/// The event shown when a check starts.
pub fn running_event(kind: CheckKind) -> (e: CheckEvent)
    ensures
        e.key@ == kind_key(kind),
        e.name@ == kind_name(kind),
        e.status@ == "running"@,
        e.detail@ == "Checking"@,
{
    CheckEvent { key: kind.key(), name: kind.name(), status: "running", detail: "Checking".to_owned() }
}

/// The event shown when a fixable failure is about to be fixed.
pub fn fail_event(kind: CheckKind, report: &CheckReport) -> (e: CheckEvent)
    ensures
        e.key@ == kind_key(kind),
        e.name@ == kind_name(kind),
        e.status@ == "fail"@,
        e.detail@ == report.detail@,
{
    CheckEvent { key: kind.key(), name: kind.name(), status: "fail", detail: report.detail.clone() }
}

/// The event shown with a check's final report.
pub fn report_event(kind: CheckKind, report: &CheckReport) -> (e: CheckEvent)
    ensures
        e.key@ == kind_key(kind),
        e.name@ == kind_name(kind),
        e.status@ == status_word(report.status),
        e.detail@ == report.detail@,
{
    CheckEvent {
        key: kind.key(),
        name: kind.name(),
        status: report.status_str(),
        detail: report.detail.clone(),
    }
}

} // verus!

verus! {

/// One check as the runner saw it: its key, its first report's status and,
/// when that was a fixable failure, the status of the re-check after the fix.
pub struct ScanStep {
    pub key: &'static str,
    pub initial: Status,
    pub recheck: Status,
}

/// Progress after one check.
pub open spec fn step(p: Progress, s: ScanStep) -> Progress {
    if s.initial == (Status::Fail { fixable: true }) {
        after_recheck(p, s.key, s.recheck)
    } else {
        after_initial(p, s.key, s.initial)
    }
}

/// Progress after a whole run of checks, from an empty start.
pub open spec fn scan(steps: Seq<ScanStep>) -> Progress
    decreases steps.len(),
{
    if steps.len() == 0 {
        (Seq::empty(), Seq::empty())
    } else {
        step(scan(steps.drop_last()), steps.last())
    }
}

/// A check whose fix was followed by a passing re-check.
pub open spec fn repaired(s: ScanStep) -> bool {
    s.initial == (Status::Fail { fixable: true }) && passes(s.recheck)
}

/// A check that fails for good: a non-fixable failure, or a fixable one
/// whose re-check still did not pass.
pub open spec fn failed_for_good(s: ScanStep) -> bool {
    s.initial == (Status::Fail { fixable: false }) || (s.initial == (Status::Fail {
        fixable: true,
    }) && !passes(s.recheck))
}

/// Some check with key `k` was repaired.
pub open spec fn key_repaired(steps: Seq<ScanStep>, k: &'static str) -> bool {
    exists|i: int| 0 <= i < steps.len() && repaired(#[trigger] steps[i]) && steps[i].key == k
}

/// Some check with key `k` failed for good.
pub open spec fn key_failed(steps: Seq<ScanStep>, k: &'static str) -> bool {
    exists|i: int| 0 <= i < steps.len() && failed_for_good(#[trigger] steps[i]) && steps[i].key == k
}

proof fn lemma_scan_lists(steps: Seq<ScanStep>)
    ensures
        forall|j: int|
            0 <= j < scan(steps).0.len() ==> key_repaired(steps, #[trigger] scan(steps).0[j]),
        forall|i: int|
            0 <= i < steps.len() && repaired(#[trigger] steps[i]) ==> scan(steps).0.contains(
                steps[i].key,
            ),
        forall|j: int|
            0 <= j < scan(steps).1.len() ==> key_failed(steps, #[trigger] scan(steps).1[j]),
        forall|i: int|
            0 <= i < steps.len() && failed_for_good(#[trigger] steps[i]) ==> scan(
                steps,
            ).1.contains(steps[i].key),
    decreases steps.len(),
{
    if steps.len() > 0 {
        let pre = steps.drop_last();
        lemma_scan_lists(pre);
        let p = scan(pre);
        let last = steps.last();
        assert forall|j: int| 0 <= j < scan(steps).0.len() implies key_repaired(
            steps,
            #[trigger] scan(steps).0[j],
        ) by {
            if j < p.0.len() {
                assert(scan(steps).0[j] == p.0[j]);
                assert(key_repaired(pre, p.0[j]));
                let i = choose|i: int|
                    0 <= i < pre.len() && repaired(#[trigger] pre[i]) && pre[i].key == p.0[j];
                assert(steps[i] == pre[i]);
            } else {
                assert(steps[steps.len() - 1] == last);
            }
        }
        assert forall|i: int|
            0 <= i < steps.len() && repaired(#[trigger] steps[i]) implies scan(steps).0.contains(
            steps[i].key,
        ) by {
            if i < pre.len() {
                assert(steps[i] == pre[i]);
                assert(p.0.contains(pre[i].key));
                let k = choose|k: int| 0 <= k < p.0.len() && p.0[k] == pre[i].key;
                assert(scan(steps).0[k] == p.0[k]);
            } else {
                assert(scan(steps).0[scan(steps).0.len() - 1] == last.key);
            }
        }
        assert forall|j: int| 0 <= j < scan(steps).1.len() implies key_failed(
            steps,
            #[trigger] scan(steps).1[j],
        ) by {
            if j < p.1.len() {
                assert(scan(steps).1[j] == p.1[j]);
                assert(key_failed(pre, p.1[j]));
                let i = choose|i: int|
                    0 <= i < pre.len() && failed_for_good(#[trigger] pre[i]) && pre[i].key
                        == p.1[j];
                assert(steps[i] == pre[i]);
            } else {
                assert(steps[steps.len() - 1] == last);
            }
        }
        assert forall|i: int|
            0 <= i < steps.len() && failed_for_good(#[trigger] steps[i]) implies scan(steps).1.contains(
            steps[i].key,
        ) by {
            if i < pre.len() {
                assert(steps[i] == pre[i]);
                assert(p.1.contains(pre[i].key));
                let k = choose|k: int| 0 <= k < p.1.len() && p.1[k] == pre[i].key;
                assert(scan(steps).1[k] == p.1[k]);
            } else {
                assert(scan(steps).1[scan(steps).1.len() - 1] == last.key);
            }
        }
    } else {
        assert(scan(steps).0.len() == 0);
        assert(scan(steps).1.len() == 0);
    }
}

/// No blind fixes: a check counts as fixed exactly when its fix was followed
/// by a passing re-check; the fixed list holds those keys and no others.
pub proof fn law_fixed_only_after_passing_recheck(steps: Seq<ScanStep>)
    ensures
        forall|j: int|
            0 <= j < scan(steps).0.len() ==> key_repaired(steps, #[trigger] scan(steps).0[j]),
        forall|i: int|
            0 <= i < steps.len() && repaired(#[trigger] steps[i]) ==> scan(steps).0.contains(
                steps[i].key,
            ),
{
    lemma_scan_lists(steps);
}

/// A scan is ineligible exactly when some check failed for good: a failure
/// that cannot be fixed, or a fix whose re-check still fails.
pub proof fn law_ineligible_iff_failed_for_good(steps: Seq<ScanStep>)
    ensures
        outcome_of(scan(steps)) == "ineligible"@ <==> exists|i: int|
            0 <= i < steps.len() && failed_for_good(#[trigger] steps[i]),
{
    lemma_scan_lists(steps);
    reveal_strlit("ineligible");
    reveal_strlit("fixable");
    reveal_strlit("eligible");
    if exists|i: int| 0 <= i < steps.len() && failed_for_good(#[trigger] steps[i]) {
        let i = choose|i: int| 0 <= i < steps.len() && failed_for_good(#[trigger] steps[i]);
        assert(scan(steps).1.contains(steps[i].key));
        assert(scan(steps).1.len() > 0);
        assert(outcome_of(scan(steps)) == "ineligible"@);
    }
    if scan(steps).1.len() > 0 {
        assert(key_failed(steps, scan(steps).1[0]));
    } else {
        assert("eligible"@.len() != "ineligible"@.len());
        assert("fixable"@.len() != "ineligible"@.len());
        assert(outcome_of(scan(steps)) != "ineligible"@);
    }
}

/// A scan in which no check failed at first is eligible, with nothing fixed
/// and nothing failed; warnings never block eligibility.
pub proof fn law_clean_scan_is_eligible(steps: Seq<ScanStep>)
    requires
        forall|i: int| 0 <= i < steps.len() ==> !(#[trigger] steps[i].initial is Fail),
    ensures
        scan(steps).0.len() == 0,
        scan(steps).1.len() == 0,
        outcome_of(scan(steps)) == "eligible"@,
        summary_detail(scan(steps)) == eligible_text(),
    decreases steps.len(),
{
    if steps.len() > 0 {
        assert forall|i: int| 0 <= i < steps.drop_last().len() implies !(
        #[trigger] steps.drop_last()[i].initial is Fail) by {
            assert(steps.drop_last()[i] == steps[i]);
        }
        law_clean_scan_is_eligible(steps.drop_last());
        assert(!(steps[steps.len() - 1].initial is Fail));
    }
}

/// A scan in which every failure was fixed and re-checked clean, and at
/// least one check needed a fix, is "fixable" and names the fixed checks.
pub proof fn law_all_repaired_is_fixable(steps: Seq<ScanStep>)
    requires
        forall|i: int| 0 <= i < steps.len() ==> !failed_for_good(#[trigger] steps[i]),
        exists|i: int| 0 <= i < steps.len() && repaired(#[trigger] steps[i]),
    ensures
        outcome_of(scan(steps)) == "fixable"@,
        summary_detail(scan(steps)) == join(crate::signatures::strs(scan(steps).0), ", "@)
            + fixed_suffix(),
{
    lemma_scan_lists(steps);
    let i = choose|i: int| 0 <= i < steps.len() && repaired(#[trigger] steps[i]);
    assert(scan(steps).0.contains(steps[i].key));
    if scan(steps).1.len() > 0 {
        assert(key_failed(steps, scan(steps).1[0]));
    }
}

} // verus!

verus! {

/// When every check has its own key, no check is both fixed and failed for
/// good: a key lands in at most one of the two lists.
pub proof fn law_fixed_and_failed_disjoint(steps: Seq<ScanStep>, k: &'static str)
    requires
        forall|i: int, j: int|
            0 <= i < steps.len() && 0 <= j < steps.len() && i != j ==> #[trigger] steps[i].key
                != #[trigger] steps[j].key,
    ensures
        !(scan(steps).0.contains(k) && scan(steps).1.contains(k)),
{
    lemma_scan_lists(steps);
    if scan(steps).0.contains(k) && scan(steps).1.contains(k) {
        let a = choose|a: int| 0 <= a < scan(steps).0.len() && scan(steps).0[a] == k;
        let b = choose|b: int| 0 <= b < scan(steps).1.len() && scan(steps).1[b] == k;
        assert(key_repaired(steps, scan(steps).0[a]));
        assert(key_failed(steps, scan(steps).1[b]));
        let i = choose|i: int| 0 <= i < steps.len() && repaired(#[trigger] steps[i]) && steps[i].key == k;
        let j = choose|j: int|
            0 <= j < steps.len() && failed_for_good(#[trigger] steps[j]) && steps[j].key == k;
        assert(i == j);
    }
}

} // verus!
