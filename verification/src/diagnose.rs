//! Finding out what keeps a project from SBPF builds, and how to mend it.

use vstd::prelude::*;

use crate::arch::SbpfArch;
use crate::command::{
    argument_text, argument_views, command, command_line, lemma_four, lemma_line, lemma_six, lemma_three,
    lemma_two, outcome_view, push_texts, str_views, text_arguments, text_command, Argument,
    Invocation, InvocationView, Outcome, Program,
};
use crate::flags::TARGET;
use crate::gaps::{
    declares_flag, gap_views, gaps, missing, missing_cargo_config_requirements,
    repaired_configurations_declare_the_build, DiagnoseError, Severity,
};
use crate::number::{decimal, to_decimal};
use crate::repair::{
    ensure_recommended_cargo_config_in_content, repair_fault_view, repair_written, repaired,
    RepairError, RepairFault,
};
use crate::setup::tree_arguments;
use crate::text::{same, views};
use crate::toml::{holds, parsed, Entries};

verus! {

/// The crate whose compiler builtins SBPF programs use.
pub const BUILTINS_CRATE: &'static str = "solana-compiler-builtins";

/// Where `BUILTINS_CRATE` comes from.
pub const BUILTINS_GIT: &'static str = "https://github.com/blueshift-gg/solana-compiler-builtins";

/// What mends an issue. `P` is the type of paths.
#[derive(Debug)]
pub enum Fix<P> {
    InstallNightly,
    InstallSbpfLinker,
    AddCompilerBuiltins,
    /// Complete the Cargo configuration at a path.
    EnsureCargoConfig(P),
}

/// Something that keeps a project from SBPF builds.
#[derive(Debug)]
pub struct Issue {
    pub severity: Severity,
    pub check: &'static str,
    pub reason: String,
    pub fix: Fix<String>,
}

/// An issue by the characters of its texts.
pub ghost struct IssueView {
    pub severity: Severity,
    pub check: Seq<char>,
    pub reason: Seq<char>,
    pub fix: Fix<Seq<char>>,
}

/// What the user asks a diagnosis for.
#[derive(Clone, Copy, Debug)]
pub struct DiagnosisConfig {
    pub arch: SbpfArch,
    pub auto_fix: bool,
    pub skip_builtins_check: bool,
}

/// A fix by the characters of its path.
pub open spec fn fix_view(fix: Fix<String>) -> Fix<Seq<char>> {
    match fix {
        Fix::InstallNightly => Fix::InstallNightly,
        Fix::InstallSbpfLinker => Fix::InstallSbpfLinker,
        Fix::AddCompilerBuiltins => Fix::AddCompilerBuiltins,
        Fix::EnsureCargoConfig(path) => Fix::EnsureCargoConfig(path@),
    }
}

/// Fixes by the characters of their paths.
pub open spec fn fix_views(fixes: Seq<Fix<String>>) -> Seq<Fix<Seq<char>>> {
    fixes.map_values(|fix: Fix<String>| fix_view(fix))
}

impl View for Issue {
    type V = IssueView;

    open spec fn view(&self) -> IssueView {
        IssueView {
            severity: self.severity,
            check: self.check@,
            reason: self.reason@,
            fix: fix_view(self.fix),
        }
    }
}

/// Issues by the characters of their texts.
pub open spec fn issue_views(issues: Seq<Issue>) -> Seq<IssueView> {
    issues.map_values(|issue: Issue| issue@)
}

/// The fixes of issues, each once, in the order in which they first occur.
pub open spec fn unique(issues: Seq<IssueView>) -> Seq<Fix<Seq<char>>>
    decreases issues.len(),
{
    if issues.len() == 0 {
        Seq::empty()
    } else {
        let others = unique(issues.drop_last());
        if others.contains(issues.last().fix) {
            others
        } else {
            others.push(issues.last().fix)
        }
    }
}

/// Of the fixes of issues none is repeated and none is left out.
pub proof fn unique_fixes_cover_issues(issues: Seq<IssueView>)
    ensures
        unique(issues).no_duplicates(),
        forall|i: int| 0 <= i < issues.len() ==> unique(issues).contains((#[trigger] issues[i]).fix),
        forall|k: int|
            0 <= k < unique(issues).len() ==> exists|i: int|
                0 <= i < issues.len() && (#[trigger] issues[i]).fix == #[trigger] unique(issues)[k],
    decreases issues.len(),
{
    if issues.len() > 0 {
        let front = issues.drop_last();
        let others = unique(front);
        unique_fixes_cover_issues(front);
        assert forall|i: int| 0 <= i < issues.len() implies unique(issues).contains(
            (#[trigger] issues[i]).fix,
        ) by {
            if i < front.len() {
                assert(others.contains(front[i].fix));
                let k = choose|k: int| 0 <= k < others.len() && others[k] == front[i].fix;
                assert(unique(issues)[k] == front[i].fix);
            } else if !others.contains(issues.last().fix) {
                assert(unique(issues)[others.len() as int] == issues.last().fix);
            }
        }
        assert forall|k: int| 0 <= k < unique(issues).len() implies exists|i: int|
            0 <= i < issues.len() && (#[trigger] issues[i]).fix == #[trigger] unique(issues)[k] by {
            if k < others.len() {
                let i = choose|i: int| 0 <= i < front.len() && (#[trigger] front[i]).fix == others[k];
                assert(issues[i].fix == unique(issues)[k]);
            } else {
                assert(issues[issues.len() - 1].fix == unique(issues)[k]);
            }
        }
    }
}

/// Further issues leave the fixes of those before them where they are.
pub proof fn unique_fixes_keep_order(issues: Seq<IssueView>, n: int)
    requires
        0 <= n <= issues.len(),
    ensures
        unique(issues.take(n)).is_prefix_of(unique(issues)),
    decreases issues.len(),
{
    if n < issues.len() {
        unique_fixes_keep_order(issues.drop_last(), n);
        assert(issues.drop_last().take(n) =~= issues.take(n));
    } else {
        assert(issues.take(n) =~= issues);
    }
}

impl Fix<String> {
    /// Decides whether two fixes are the same.
    pub fn same_as(&self, other: &Self) -> (r: bool)
        ensures
            r == (fix_view(*self) == fix_view(*other)),
    {
        match (self, other) {
            (Fix::InstallNightly, Fix::InstallNightly) => true,
            (Fix::InstallSbpfLinker, Fix::InstallSbpfLinker) => true,
            (Fix::AddCompilerBuiltins, Fix::AddCompilerBuiltins) => true,
            (Fix::EnsureCargoConfig(a), Fix::EnsureCargoConfig(b)) => same(a.as_str(), b.as_str()),
            _ => false,
        }
    }

    /// Another copy of the fix.
    pub fn duplicate(&self) -> (r: Self)
        ensures
            fix_view(r) == fix_view(*self),
    {
        match self {
            Fix::InstallNightly => Fix::InstallNightly,
            Fix::InstallSbpfLinker => Fix::InstallSbpfLinker,
            Fix::AddCompilerBuiltins => Fix::AddCompilerBuiltins,
            Fix::EnsureCargoConfig(path) => Fix::EnsureCargoConfig(path.clone()),
        }
    }
}

fn has_fix(fixes: &Vec<Fix<String>>, fix: &Fix<String>) -> (r: bool)
    ensures
        r == fix_views(fixes@).contains(fix_view(*fix)),
{
    let mut i: usize = 0;
    while i < fixes.len()
        invariant
            i <= fixes.len(),
            forall|j: int| 0 <= j < i ==> #[trigger] fix_views(fixes@)[j] != fix_view(*fix),
        decreases fixes.len() - i,
    {
        assert(fix_views(fixes@)[i as int] == fix_view(fixes@[i as int]));
        if fixes[i].same_as(fix) {
            return true;
        }
        i = i + 1;
    }
    false
}

/// The fixes of issues, each once, in the order in which they first occur.
pub fn unique_fixes(issues: &[Issue]) -> (r: Vec<Fix<String>>)
    ensures
        fix_views(r@) == unique(issue_views(issues@)),
{
    let mut fixes: Vec<Fix<String>> = Vec::new();
    let ghost all = issue_views(issues@);
    let mut i: usize = 0;
    assert(fix_views(fixes@) =~= unique(all.take(0)));
    while i < issues.len()
        invariant
            i <= issues.len(),
            all == issue_views(issues@),
            fix_views(fixes@) == unique(all.take(i as int)),
        decreases issues.len() - i,
    {
        let ghost sofar = fix_views(fixes@);
        assert(all.take(i + 1).drop_last() =~= all.take(i as int));
        assert(all.take(i + 1).last() == issues@[i as int]@);
        if !has_fix(&fixes, &issues[i].fix) {
            fixes.push(issues[i].fix.duplicate());
            assert(fix_views(fixes@) =~= sofar.push(fix_view(issues@[i as int].fix)));
        }
        i = i + 1;
    }
    assert(all.take(i as int) =~= all);
    fixes
}

/// The command that finds out whether the nightly toolchain runs.
pub fn nightly_command() -> (r: Invocation)
    ensures
        r@ == text_command(Program::Rustup, seq!["run"@, "nightly"@, "rustc"@, "--version"@]),
        command_line(r@, Seq::empty()) == "rustup run nightly rustc --version"@,
{
    proof {
        lemma_line(
            Program::Rustup,
            seq!["run"@, "nightly"@, "rustc"@, "--version"@],
            Seq::empty(),
        );
        lemma_four("run"@, "nightly"@, "rustc"@, "--version"@);
        reveal_strlit("rustup");
        reveal_strlit("run");
        reveal_strlit("nightly");
        reveal_strlit("rustc");
        reveal_strlit("--version");
        reveal_strlit("rustup run nightly rustc --version");
    }
    let texts: Vec<&'static str> = vec!["run", "nightly", "rustc", "--version"];
    assert(str_views(texts@) =~= seq!["run"@, "nightly"@, "rustc"@, "--version"@]);
    command(Program::Rustup, &texts)
}

/// The command that lists the dependency tree of the project.
pub open spec fn dependency_tree() -> InvocationView {
    InvocationView {
        program: Program::Cargo,
        arguments: text_arguments(seq!["tree"@, "--manifest-path"@]) + seq![Argument::Manifest]
            + text_arguments(
            seq!["--target"@, TARGET@, "-e"@, "normal,build"@, "--prefix"@, "none"@],
        ),
    }
}

/// Makes the command that lists the dependency tree of the project.
pub fn dependency_tree_command() -> (r: Invocation)
    ensures
        r@ == dependency_tree(),
{
    let front: Vec<&'static str> = vec!["tree", "--manifest-path"];
    let back: Vec<&'static str> = vec![
        "--target",
        TARGET,
        "-e",
        "normal,build",
        "--prefix",
        "none",
    ];
    assert(str_views(front@) =~= seq!["tree"@, "--manifest-path"@]);
    assert(str_views(back@) =~= seq![
        "--target"@,
        TARGET@,
        "-e"@,
        "normal,build"@,
        "--prefix"@,
        "none"@,
    ]);
    let mut invocation: Invocation = command(Program::Cargo, &front);
    let ghost sofar = argument_views(invocation.arguments@);
    invocation.arguments.push(Argument::Manifest);
    assert(argument_views(invocation.arguments@) =~= sofar + seq![Argument::Manifest]);
    push_texts(&mut invocation.arguments, &back);
    invocation
}

/// A Cargo configuration file.
#[derive(Debug)]
pub struct ConfigFile {
    pub path: String,
    pub text: String,
}

/// What there is to know about a project and the machine.
#[derive(Debug)]
pub struct Findings {
    /// Whether the nightly toolchain runs.
    pub nightly_runs: bool,
    /// Whether `sbpf-linker` is on the search path.
    pub linker_on_path: bool,
    /// Whether the dependency tree holds `BUILTINS_CRATE`. Nothing depends on it where the user
    /// skips the check.
    pub builtins_in_tree: bool,
    /// The Cargo configuration that governs the project.
    pub config: Option<ConfigFile>,
}

/// The issue of a missing nightly toolchain.
pub open spec fn nightly_issue() -> IssueView {
    IssueView {
        severity: Severity::Required,
        check: "nightly toolchain"@,
        reason:
            "rustup cannot run the `nightly` toolchain, but SBPF builds require upstream nightly for `-Z build-std`"@,
        fix: Fix::InstallNightly,
    }
}

/// The issue of a missing linker.
pub open spec fn linker_issue() -> IssueView {
    IssueView {
        severity: Severity::Required,
        check: "sbpf-linker"@,
        reason:
            "`sbpf-linker` was not found on PATH, so the final SBPF artifact cannot be linked"@,
        fix: Fix::InstallSbpfLinker,
    }
}

/// The issue of missing compiler builtins.
pub open spec fn builtins_issue() -> IssueView {
    IssueView {
        severity: Severity::Required,
        check: BUILTINS_CRATE@,
        reason: "`"@ + BUILTINS_CRATE@ + "` is missing from the `"@ + TARGET@
            + "` normal/build dependency tree, so required compiler builtins may be unresolved"@,
        fix: Fix::AddCompilerBuiltins,
    }
}

/// The issue of a gap in the Cargo configuration at `path`.
pub open spec fn gap_issue(path: Seq<char>, gap: (Severity, Seq<char>)) -> IssueView {
    IssueView {
        severity: gap.0,
        check: "Cargo config"@,
        reason: path + " is missing recommended SBPF setting: "@ + gap.1,
        fix: Fix::EnsureCargoConfig(path),
    }
}

/// The issues that go with findings. `file_gaps` are the gaps of the Cargo configuration.
pub open spec fn issues_of(
    findings: Findings,
    config: DiagnosisConfig,
    file_gaps: Seq<(Severity, Seq<char>)>,
) -> Seq<IssueView> {
    (if findings.nightly_runs {
        Seq::empty()
    } else {
        seq![nightly_issue()]
    }) + (if findings.linker_on_path {
        Seq::empty()
    } else {
        seq![linker_issue()]
    }) + (if config.skip_builtins_check || findings.builtins_in_tree {
        Seq::empty()
    } else {
        seq![builtins_issue()]
    }) + match findings.config {
        Some(file) => file_gaps.map_values(
            |gap: (Severity, Seq<char>)| gap_issue(file.path@, gap),
        ),
        None => Seq::empty(),
    }
}

/// The gaps of the Cargo configuration among the findings.
pub open spec fn file_gaps(findings: Findings) -> Seq<(Severity, Seq<char>)> {
    match findings.config {
        Some(file) => gaps(parsed(file.text@)->0),
        None => Seq::empty(),
    }
}

/// Works out the issues that go with findings.
pub fn collect_issues(findings: &Findings, config: &DiagnosisConfig) -> (r: Result<
    Vec<Issue>,
    DiagnoseError,
>)
    ensures
        match r {
            Ok(issues) => (findings.config matches Some(file) ==> parsed(file.text@) is Some)
                && issue_views(issues@) == issues_of(*findings, *config, file_gaps(*findings)),
            Err(DiagnoseError::Unparsable(_)) => findings.config matches Some(file) && parsed(
                file.text@,
            ) is None,
        },
{
    let mut issues: Vec<Issue> = Vec::new();
    if !findings.nightly_runs {
        issues.push(
            Issue {
                severity: Severity::Required,
                check: "nightly toolchain",
                reason:
                    "rustup cannot run the `nightly` toolchain, but SBPF builds require upstream nightly for `-Z build-std`".to_owned(),
                fix: Fix::InstallNightly,
            },
        );
    }
    if !findings.linker_on_path {
        issues.push(
            Issue {
                severity: Severity::Required,
                check: "sbpf-linker",
                reason:
                    "`sbpf-linker` was not found on PATH, so the final SBPF artifact cannot be linked".to_owned(),
                fix: Fix::InstallSbpfLinker,
            },
        );
    }
    if !config.skip_builtins_check && !findings.builtins_in_tree {
        issues.push(
            Issue {
                severity: Severity::Required,
                check: BUILTINS_CRATE,
                reason: "`".to_owned().concat(BUILTINS_CRATE).concat(
                    "` is missing from the `",
                ).concat(TARGET).concat(
                    "` normal/build dependency tree, so required compiler builtins may be unresolved",
                ),
                fix: Fix::AddCompilerBuiltins,
            },
        );
    }
    let ghost before_config = issues_of(
        (Findings { config: None, ..*findings }),
        *config,
        Seq::empty(),
    );
    assert(issue_views(issues@) =~= before_config);
    if let Some(file) = &findings.config {
        let found: Vec<(Severity, String)> = match missing_cargo_config_requirements(
            file.text.as_str(),
        ) {
            Ok(found) => found,
            Err(error) => return Err(error),
        };
        let ghost added = gap_views(found@).map_values(
            |gap: (Severity, Seq<char>)| gap_issue(file.path@, gap),
        );
        let mut i: usize = 0;
        assert(before_config + added.take(0) =~= before_config);
        while i < found.len()
            invariant
                i <= found.len(),
                added == gap_views(found@).map_values(
                    |gap: (Severity, Seq<char>)| gap_issue(file.path@, gap),
                ),
                issue_views(issues@) == before_config + added.take(i as int),
            decreases found.len() - i,
        {
            let ghost sofar = issue_views(issues@);
            issues.push(
                Issue {
                    severity: found[i].0,
                    check: "Cargo config",
                    reason: file.path.clone().concat(
                        " is missing recommended SBPF setting: ",
                    ).concat(found[i].1.as_str()),
                    fix: Fix::EnsureCargoConfig(file.path.clone()),
                },
            );
            assert(added[i as int] == gap_issue(file.path@, gap_views(found@)[i as int]));
            assert(issue_views(issues@) =~= sofar.push(added[i as int]));
            assert(issue_views(issues@) =~= before_config + added.take(i + 1));
            i = i + 1;
        }
        assert(added.take(i as int) =~= added);
    }
    assert(issue_views(issues@) =~= issues_of(*findings, *config, file_gaps(*findings)));
    Ok(issues)
}

/// A line that lists an issue, after `mark`.
pub open spec fn issue_line(mark: Seq<char>, issue: IssueView) -> Seq<char> {
    mark + issue.check + ": "@ + issue.reason
}

/// The line that points out a recommended setting before a build.
pub open spec fn info_line(issue: IssueView) -> Seq<char> {
    issue_line("info: "@, issue)
        + " (recommended; run `cargo build-sbpf --diagnose` to review/apply)"@
}

/// The lines that list issues.
pub open spec fn issue_lines(mark: Seq<char>, issues: Seq<IssueView>) -> Seq<Seq<char>> {
    issues.map_values(|issue: IssueView| issue_line(mark, issue))
}

/// The report on issues.
pub open spec fn issue_report(issues: Seq<IssueView>) -> Seq<Seq<char>> {
    seq!["SBPF diagnosis found "@ + decimal(issues.len()) + " issue(s):"@] + issue_lines(
        "- "@,
        issues,
    )
}

/// The issues of a given severity, in their order.
pub open spec fn of_severity(issues: Seq<IssueView>, severity: Severity) -> Seq<IssueView>
    decreases issues.len(),
{
    if issues.len() == 0 {
        Seq::empty()
    } else {
        let others = of_severity(issues.drop_last(), severity);
        if issues.last().severity == severity {
            others.push(issues.last())
        } else {
            others
        }
    }
}

/// Adds the lines that list issues to a report.
fn list_issues(report: &mut Vec<String>, mark: &str, issues: &[Issue])
    ensures
        views(final(report)@) == views(old(report)@) + issue_lines(mark@, issue_views(issues@)),
{
    let ghost start = views(report@);
    let ghost added = issue_lines(mark@, issue_views(issues@));
    let mut i: usize = 0;
    assert(start + added.take(0) =~= start);
    while i < issues.len()
        invariant
            i <= issues.len(),
            added == issue_lines(mark@, issue_views(issues@)),
            views(report@) == start + added.take(i as int),
        decreases issues.len() - i,
    {
        let ghost sofar = views(report@);
        report.push(
            mark.to_owned().concat(issues[i].check).concat(": ").concat(issues[i].reason.as_str()),
        );
        assert(added[i as int] == issue_line(mark@, issue_views(issues@)[i as int]));
        assert(views(report@) =~= sofar.push(added[i as int]));
        assert(views(report@) =~= start + added.take(i + 1));
        i = i + 1;
    }
    assert(added.take(i as int) =~= added);
}

/// Reports issues, one in each line.
pub fn print_issues(issues: &[Issue]) -> (r: Vec<String>)
    ensures
        views(r@) == issue_report(issue_views(issues@)),
{
    let mut report: Vec<String> = vec![
        "SBPF diagnosis found ".to_owned().concat(to_decimal(issues.len() as u64).as_str()).concat(
            " issue(s):",
        ),
    ];
    let ghost head = views(report@);
    list_issues(&mut report, "- ", issues);
    assert(head =~= seq![
        "SBPF diagnosis found "@ + decimal(issues@.len()) + " issue(s):"@,
    ]);
    report
}

/// What a diagnosis comes to.
#[derive(Debug)]
pub enum Diagnosis {
    /// The program ends with an exit code.
    Exit(u8),
    /// Fixes are to be applied, and the project is to be looked at again.
    Repair(Vec<Fix<String>>),
}

/// Decides what becomes of the issues that a diagnosis found, and reports on them.
pub fn run_diagnose(issues: &[Issue], config: DiagnosisConfig) -> (r: (Vec<String>, Diagnosis))
    ensures
        issues@.len() == 0 ==> views(r.0@) == seq!["SBPF diagnosis passed"@] && r.1
            == Diagnosis::Exit(0),
        issues@.len() > 0 && !config.auto_fix ==> views(r.0@) == issue_report(
            issue_views(issues@),
        ).push("run with --auto-fix to apply available fixes"@) && r.1 == Diagnosis::Exit(1),
        issues@.len() > 0 && config.auto_fix ==> views(r.0@) == issue_report(issue_views(issues@))
            && r.1 is Repair && fix_views(r.1->Repair_0@) == unique(issue_views(issues@))
            && r.1->Repair_0@.len() > 0,
        r.1 == Diagnosis::Exit(0) <==> issues@.len() == 0,
        r.1 is Repair ==> config.auto_fix,
{
    if issues.len() == 0 {
        let report: Vec<String> = vec!["SBPF diagnosis passed".to_owned()];
        assert(views(report@) =~= seq!["SBPF diagnosis passed"@]);
        return (report, Diagnosis::Exit(0));
    }
    let mut report: Vec<String> = print_issues(issues);
    if !config.auto_fix {
        let ghost sofar = views(report@);
        report.push("run with --auto-fix to apply available fixes".to_owned());
        assert(views(report@) =~= sofar.push("run with --auto-fix to apply available fixes"@));
        return (report, Diagnosis::Exit(1));
    }
    let fixes: Vec<Fix<String>> = unique_fixes(issues);
    proof {
        unique_fixes_cover_issues(issue_views(issues@));
        assert(unique(issue_views(issues@)).contains(issue_views(issues@)[0].fix));
        assert(fix_views(fixes@).len() == fixes@.len());
    }
    (report, Diagnosis::Repair(fixes))
}

/// Decides how a diagnosis ends once its fixes have been applied, and reports on what remains.
pub fn finish_diagnose(remaining: &[Issue]) -> (r: (Vec<String>, u8))
    ensures
        remaining@.len() == 0 ==> views(r.0@) == seq![
            "SBPF diagnosis passed after applying fixes"@,
        ] && r.1 == 0,
        remaining@.len() > 0 ==> views(r.0@) == seq![
            "SBPF diagnosis still has issues after applying fixes:"@,
        ] + issue_report(issue_views(remaining@)) && r.1 == 1,
        r.1 == 0 <==> remaining@.len() == 0,
        r.0@.len() == if remaining@.len() == 0 {
            1nat
        } else {
            remaining@.len() + 2
        },
{
    if remaining.len() == 0 {
        let report: Vec<String> = vec!["SBPF diagnosis passed after applying fixes".to_owned()];
        assert(views(report@) =~= seq!["SBPF diagnosis passed after applying fixes"@]);
        (report, 0)
    } else {
        let mut report: Vec<String> = vec![
            "SBPF diagnosis still has issues after applying fixes:".to_owned(),
        ];
        let mut issues: Vec<String> = print_issues(remaining);
        let ghost listed = views(issues@);
        report.append(&mut issues);
        assert(views(report@) =~= seq!["SBPF diagnosis still has issues after applying fixes:"@]
            + listed);
        (report, 1)
    }
}

/// Parts issues into the required and the recommended ones.
fn partition(issues: Vec<Issue>) -> (r: (Vec<Issue>, Vec<Issue>))
    ensures
        issue_views(r.0@) == of_severity(issue_views(issues@), Severity::Required),
        issue_views(r.1@) == of_severity(issue_views(issues@), Severity::Recommended),
{
    let ghost all = issue_views(issues@);
    let mut required: Vec<Issue> = Vec::new();
    let mut recommended: Vec<Issue> = Vec::new();
    let mut i: usize = 0;
    assert(issue_views(required@) =~= of_severity(all.take(0), Severity::Required));
    assert(issue_views(recommended@) =~= of_severity(all.take(0), Severity::Recommended));
    while i < issues.len()
        invariant
            i <= issues.len(),
            all == issue_views(issues@),
            issue_views(required@) == of_severity(all.take(i as int), Severity::Required),
            issue_views(recommended@) == of_severity(all.take(i as int), Severity::Recommended),
        decreases issues.len() - i,
    {
        let ghost first = issue_views(required@);
        let ghost second = issue_views(recommended@);
        let issue: &Issue = &issues[i];
        let copy: Issue = Issue {
            severity: issue.severity,
            check: issue.check,
            reason: issue.reason.clone(),
            fix: issue.fix.duplicate(),
        };
        assert(copy@ == all[i as int]);
        assert(all.take(i + 1).drop_last() =~= all.take(i as int));
        assert(all.take(i + 1).last() == all[i as int]);
        if issue.severity == Severity::Required {
            required.push(copy);
            assert(issue_views(required@) =~= first.push(all[i as int]));
        } else {
            recommended.push(copy);
            assert(issue_views(recommended@) =~= second.push(all[i as int]));
        }
        i = i + 1;
    }
    assert(all.take(i as int) =~= all);
    (required, recommended)
}

/// The report before a build: the recommended settings, and the required ones that are about to
/// be mended.
pub open spec fn readiness_report(issues: Seq<IssueView>) -> Seq<Seq<char>> {
    let required = of_severity(issues, Severity::Required);
    of_severity(issues, Severity::Recommended).map_values(|issue: IssueView| info_line(issue)) + (
    if required.len() == 0 {
        Seq::empty()
    } else {
        seq![
            "==> SBPF build found "@ + decimal(required.len())
                + " required issue(s); auto-fixing:"@,
        ] + issue_lines("  - "@, required)
    })
}

/// Decides which fixes a build needs first, and reports on the issues. Recommended settings are
/// pointed out and left alone.
pub fn ensure_build_ready(issues: Vec<Issue>) -> (r: (Vec<String>, Vec<Fix<String>>))
    ensures
        views(r.0@) == readiness_report(issue_views(issues@)),
        fix_views(r.1@) == unique(of_severity(issue_views(issues@), Severity::Required)),
{
    let ghost all = issue_views(issues@);
    let (required, recommended) = partition(issues);
    let ghost infos = issue_views(recommended@).map_values(|issue: IssueView| info_line(issue));
    let mut report: Vec<String> = Vec::new();
    let mut i: usize = 0;
    assert(views(report@) =~= infos.take(0));
    while i < recommended.len()
        invariant
            i <= recommended.len(),
            infos == issue_views(recommended@).map_values(|issue: IssueView| info_line(issue)),
            views(report@) == infos.take(i as int),
        decreases recommended.len() - i,
    {
        let ghost sofar = views(report@);
        let issue: &Issue = &recommended[i];
        report.push(
            "info: ".to_owned().concat(issue.check).concat(": ").concat(
                issue.reason.as_str(),
            ).concat(" (recommended; run `cargo build-sbpf --diagnose` to review/apply)"),
        );
        assert(infos[i as int] == info_line(issue_views(recommended@)[i as int]));
        assert(views(report@) =~= sofar.push(infos[i as int]));
        assert(views(report@) =~= infos.take(i + 1));
        i = i + 1;
    }
    assert(infos.take(i as int) =~= infos);
    if required.len() > 0 {
        report.push(
            "==> SBPF build found ".to_owned().concat(
                to_decimal(required.len() as u64).as_str(),
            ).concat(" required issue(s); auto-fixing:"),
        );
        assert(views(report@) =~= infos.push(
            "==> SBPF build found "@ + decimal(required@.len())
                + " required issue(s); auto-fixing:"@,
        ));
        list_issues(&mut report, "  - ", required.as_slice());
    }
    assert(issue_views(required@).len() == required@.len());
    assert(views(report@) =~= readiness_report(all));
    let fixes: Vec<Fix<String>> = unique_fixes(required.as_slice());
    (report, fixes)
}

/// Decides whether a build can start once its fixes have been applied: it can where no required
/// issue remains. Otherwise says why not.
pub fn finish_build_ready(remaining: Vec<Issue>) -> (r: Result<(), String>)
    ensures
        match r {
            Ok(_) => of_severity(issue_views(remaining@), Severity::Required).len() == 0,
            Err(message) => of_severity(issue_views(remaining@), Severity::Required).len() > 0
                && message@ == "SBPF build still has required issue(s) after applying fixes"@,
        },
        r is Ok <==> forall|i: int|
            0 <= i < remaining@.len() ==> (#[trigger] remaining@[i]).severity
                == Severity::Recommended,
{
    proof {
        lemma_none_required(issue_views(remaining@));
        assert forall|i: int| 0 <= i < remaining@.len() implies issue_views(remaining@)[i].severity
            == (#[trigger] remaining@[i]).severity by {}
    }
    let (required, _) = partition(remaining);
    assert(issue_views(required@).len() == required@.len());
    if required.len() == 0 {
        Ok(())
    } else {
        Err("SBPF build still has required issue(s) after applying fixes".to_owned())
    }
}

/// A command that mends an issue.
#[derive(Debug)]
pub struct FixCommand {
    /// What to tell the user first.
    pub notice: String,
    pub invocation: Invocation,
    /// What to say where the command does not start.
    pub unstartable: String,
    /// What to say where the command fails, before the status that it fails with.
    pub failed: String,
}

impl FixCommand {
    /// Decides whether the command mended the issue. Otherwise says why not.
    pub fn verdict(&self, outcome: &Outcome<String>) -> (r: Result<(), String>)
        ensures
            match outcome_view(*outcome) {
                Outcome::Succeeded => r is Ok,
                Outcome::Unstartable => r is Err && r->Err_0@ == self.unstartable@,
                Outcome::Failed(status) => r is Err && r->Err_0@ == self.failed@ + status,
            },
            r is Ok <==> *outcome is Succeeded,
    {
        match outcome {
            Outcome::Succeeded => Ok(()),
            Outcome::Unstartable => Err(self.unstartable.clone()),
            Outcome::Failed(status) => Err(self.failed.clone().concat(status.as_str())),
        }
    }
}

/// What applying a fix comes to.
#[derive(Debug)]
pub enum FixStep {
    /// Run a command.
    Run(FixCommand),
    /// Complete the Cargo configuration at a path for an architecture.
    Complete { path: String, arch: SbpfArch },
}

/// A command that mends an issue, by the characters of its texts.
pub ghost struct FixCommandView {
    pub notice: Seq<char>,
    pub invocation: InvocationView,
    pub unstartable: Seq<char>,
    pub failed: Seq<char>,
}

/// What applying a fix comes to, by the characters of its texts.
pub ghost enum FixStepView {
    Run(FixCommandView),
    Complete { path: Seq<char>, arch: SbpfArch },
}

impl View for FixStep {
    type V = FixStepView;

    open spec fn view(&self) -> FixStepView {
        match *self {
            FixStep::Run(command) => FixStepView::Run(
                FixCommandView {
                    notice: command.notice@,
                    invocation: command.invocation@,
                    unstartable: command.unstartable@,
                    failed: command.failed@,
                },
            ),
            FixStep::Complete { path, arch } => FixStepView::Complete { path: path@, arch },
        }
    }
}

/// What applying a fix to the project with a given manifest comes to.
pub open spec fn fix_step(
    manifest: Seq<char>,
    fix: Fix<Seq<char>>,
    arch: SbpfArch,
) -> FixStepView {
    match fix {
        Fix::InstallNightly => FixStepView::Run(
            FixCommandView {
                notice: "installing nightly toolchain"@,
                invocation: text_command(
                    Program::Rustup,
                    seq!["toolchain"@, "install"@, "nightly"@],
                ),
                unstartable: "failed to run rustup toolchain install nightly"@,
                failed: "rustup toolchain install nightly failed with status "@,
            },
        ),
        Fix::InstallSbpfLinker => FixStepView::Run(
            FixCommandView {
                notice: "installing sbpf-linker"@,
                invocation: text_command(Program::Cargo, seq!["install"@, "sbpf-linker"@]),
                unstartable: "failed to run cargo install sbpf-linker"@,
                failed: "cargo install sbpf-linker failed with status "@,
            },
        ),
        Fix::AddCompilerBuiltins => FixStepView::Run(
            FixCommandView {
                notice: "adding "@ + BUILTINS_CRATE@ + " from "@ + BUILTINS_GIT@ + " to "@
                    + manifest,
                invocation: InvocationView {
                    program: Program::Cargo,
                    arguments: text_arguments(
                        seq!["add"@, BUILTINS_CRATE@, "--git"@, BUILTINS_GIT@, "--manifest-path"@],
                    ).push(Argument::Manifest),
                },
                unstartable: "failed to run cargo add"@,
                failed: "cargo add "@ + BUILTINS_CRATE@ + " failed with status "@,
            },
        ),
        Fix::EnsureCargoConfig(path) => FixStepView::Complete { path, arch },
    }
}

/// Works out what applying a fix to the project with a given manifest comes to.
pub fn apply_fix(manifest: &str, fix: &Fix<String>, arch: SbpfArch) -> (r: FixStep)
    ensures
        r@ == fix_step(manifest@, fix_view(*fix), arch),
{
    match fix {
        Fix::InstallNightly => {
            let texts: Vec<&'static str> = vec!["toolchain", "install", "nightly"];
            assert(str_views(texts@) =~= seq!["toolchain"@, "install"@, "nightly"@]);
            FixStep::Run(
                FixCommand {
                    notice: "installing nightly toolchain".to_owned(),
                    invocation: command(Program::Rustup, &texts),
                    unstartable: "failed to run rustup toolchain install nightly".to_owned(),
                    failed: "rustup toolchain install nightly failed with status ".to_owned(),
                },
            )
        },
        Fix::InstallSbpfLinker => {
            let texts: Vec<&'static str> = vec!["install", "sbpf-linker"];
            assert(str_views(texts@) =~= seq!["install"@, "sbpf-linker"@]);
            FixStep::Run(
                FixCommand {
                    notice: "installing sbpf-linker".to_owned(),
                    invocation: command(Program::Cargo, &texts),
                    unstartable: "failed to run cargo install sbpf-linker".to_owned(),
                    failed: "cargo install sbpf-linker failed with status ".to_owned(),
                },
            )
        },
        Fix::AddCompilerBuiltins => {
            let texts: Vec<&'static str> = vec![
                "add",
                BUILTINS_CRATE,
                "--git",
                BUILTINS_GIT,
                "--manifest-path",
            ];
            assert(str_views(texts@) =~= seq![
                "add"@,
                BUILTINS_CRATE@,
                "--git"@,
                BUILTINS_GIT@,
                "--manifest-path"@,
            ]);
            let mut invocation: Invocation = command(Program::Cargo, &texts);
            let ghost sofar = argument_views(invocation.arguments@);
            invocation.arguments.push(Argument::Manifest);
            assert(argument_views(invocation.arguments@) =~= sofar.push(Argument::Manifest));
            FixStep::Run(
                FixCommand {
                    notice: "adding ".to_owned().concat(BUILTINS_CRATE).concat(" from ").concat(
                        BUILTINS_GIT,
                    ).concat(" to ").concat(manifest),
                    invocation,
                    unstartable: "failed to run cargo add".to_owned(),
                    failed: "cargo add ".to_owned().concat(BUILTINS_CRATE).concat(
                        " failed with status ",
                    ),
                },
            )
        },
        Fix::EnsureCargoConfig(path) => FixStep::Complete { path: path.clone(), arch },
    }
}

/// Completes a Cargo configuration for an architecture, before SIMD-0460 is in force. Returns the
/// new text, unless the configuration stays as it is.
pub fn ensure_recommended_cargo_config(config: &str, arch: SbpfArch) -> (r: Result<
    Option<String>,
    RepairError,
>)
    ensures
        match r {
            Ok(updated) => parsed(config@) is Some && repaired(
                parsed(config@)->0,
                arch,
                false,
            ) is Ok && match updated {
                Some(updated) => updated@ != config@ && parsed(updated@) == Some(
                    repaired(parsed(config@)->0, arch, false)->Ok_0,
                ) && repair_written(config@, arch, false, updated@),
                None => parsed(config@) == Some(
                    repaired(parsed(config@)->0, arch, false)->Ok_0,
                ) && repair_written(config@, arch, false, config@),
            } && declares_flag(
                parsed(
                    match updated {
                        Some(updated) => updated@,
                        None => config@,
                    },
                )->0,
                match arch {
                    SbpfArch::V0 => "link-arg=--llvm-args=-bpf-stack-size=8192"@,
                    SbpfArch::V3 => "link-arg=--llvm-args=-bpf-stack-size=4096"@,
                },
            ),
            Err(RepairError::Unparsable(_)) => parsed(config@) is None,
            Err(RepairError::Fault(fault)) => parsed(config@) is Some && repaired(
                parsed(config@)->0,
                arch,
                false,
            ) == Err::<Entries, RepairFault<Seq<char>>>(repair_fault_view(fault)),
        },
{
    proof {
        if let Some(data) = parsed(config@) {
            if repaired(data, arch, false) is Ok {
                repaired_configurations_declare_the_build(data, arch, false);
            }
        }
    }
    match ensure_recommended_cargo_config_in_content(config, arch, false) {
        Ok(updated) => if same(updated.as_str(), config) {
            Ok(None)
        } else {
            Ok(Some(updated))
        },
        Err(error) => Err(error),
    }
}

/// No issue is required exactly where all are recommended.
proof fn lemma_none_required(issues: Seq<IssueView>)
    ensures
        of_severity(issues, Severity::Required).len() == 0 <==> forall|i: int|
            0 <= i < issues.len() ==> (#[trigger] issues[i]).severity == Severity::Recommended,
    decreases issues.len(),
{
    if issues.len() > 0 {
        let front = issues.drop_last();
        lemma_none_required(front);
        assert(issues[issues.len() - 1] == issues.last());
        if of_severity(issues, Severity::Required).len() == 0 {
            assert forall|i: int| 0 <= i < issues.len() implies (#[trigger] issues[i]).severity
                == Severity::Recommended by {
                if i < front.len() {
                    assert(front[i].severity == Severity::Recommended);
                }
            }
        }
        if of_severity(front, Severity::Required).len() > 0 {
            let i = choose|i: int|
                0 <= i < front.len() && (#[trigger] front[i]).severity != Severity::Recommended;
            assert(issues[i].severity != Severity::Recommended);
        }
    }
}

/// The issues of a severity are those that have it, all of them and in their order.
pub proof fn severities_part_issues(issues: Seq<IssueView>, severity: Severity)
    ensures
        of_severity(issues, severity) == issues.filter(
            |issue: IssueView| issue.severity == severity,
        ),
    decreases issues.len(),
{
    reveal(Seq::filter);
    if issues.len() > 0 {
        severities_part_issues(issues.drop_last(), severity);
    }
}

/// Each issue is required or recommended, and counts once.
pub proof fn every_issue_has_a_severity(issues: Seq<IssueView>)
    ensures
        of_severity(issues, Severity::Required).len() + of_severity(
            issues,
            Severity::Recommended,
        ).len() == issues.len(),
    decreases issues.len(),
{
    if issues.len() > 0 {
        every_issue_has_a_severity(issues.drop_last());
    }
}

/// There is a required issue for the nightly toolchain where it does not run, for the linker where
/// it is not on the search path, and for the compiler builtins where they are not in the
/// dependency tree, unless the user skips that check. Behind these there is an issue for each gap
/// of the Cargo configuration, as severe as the gap, which names the file and the gap. There are
/// no others.
pub proof fn issues_come_from_findings(
    findings: Findings,
    config: DiagnosisConfig,
    found: Seq<(Severity, Seq<char>)>,
)
    ensures
        ({
            let issues = issues_of(findings, config, found);
            let nightly = missing(findings.nightly_runs) as int;
            let linker = missing(findings.linker_on_path) as int;
            let builtins = missing(findings.builtins_in_tree || config.skip_builtins_check) as int;
            let n = nightly + linker + builtins;
            &&& issues.len() == n + (if findings.config is Some {
                found.len() as int
            } else {
                0
            })
            &&& !findings.nightly_runs ==> issues[0].fix == Fix::<Seq<char>>::InstallNightly
                && issues[0].severity == Severity::Required && issues[0].check
                == "nightly toolchain"@ && issues[0].reason
                == "rustup cannot run the `nightly` toolchain, but SBPF builds require upstream nightly for `-Z build-std`"@
            &&& !findings.linker_on_path ==> issues[nightly].fix
                == Fix::<Seq<char>>::InstallSbpfLinker && issues[nightly].severity
                == Severity::Required && issues[nightly].check == "sbpf-linker"@
                && issues[nightly].reason
                == "`sbpf-linker` was not found on PATH, so the final SBPF artifact cannot be linked"@
            &&& !findings.builtins_in_tree && !config.skip_builtins_check ==> issues[nightly
                + linker].fix == Fix::<Seq<char>>::AddCompilerBuiltins && issues[nightly
                + linker].severity == Severity::Required && issues[nightly + linker].check
                == "solana-compiler-builtins"@ && issues[nightly + linker].reason
                == "`solana-compiler-builtins` is missing from the `bpfel-unknown-none` normal/build dependency tree, so required compiler builtins may be unresolved"@
            &&& findings.config matches Some(file) ==> forall|k: int|
                0 <= k < found.len() ==> {
                    let issue = issues[n + k];
                    &&& issue.severity == (#[trigger] found[k]).0
                    &&& issue.check == "Cargo config"@
                    &&& issue.fix == Fix::EnsureCargoConfig(file.path@)
                    &&& file.path@.is_prefix_of(issue.reason)
                    &&& (": "@ + found[k].1).is_suffix_of(issue.reason)
                }
        }),
{
    reveal_strlit("`");
    reveal_strlit("solana-compiler-builtins");
    reveal_strlit("` is missing from the `");
    reveal_strlit("bpfel-unknown-none");
    reveal_strlit(
        "` normal/build dependency tree, so required compiler builtins may be unresolved",
    );
    reveal_strlit(
        "`solana-compiler-builtins` is missing from the `bpfel-unknown-none` normal/build dependency tree, so required compiler builtins may be unresolved",
    );
    assert(builtins_issue().reason
        =~= "`solana-compiler-builtins` is missing from the `bpfel-unknown-none` normal/build dependency tree, so required compiler builtins may be unresolved"@);
    let issues = issues_of(findings, config, found);
    let n = missing(findings.nightly_runs) as int + missing(findings.linker_on_path) as int
        + missing(findings.builtins_in_tree || config.skip_builtins_check) as int;
    if let Some(file) = findings.config {
        assert forall|k: int| 0 <= k < found.len() implies {
            let issue = issues[n + k];
            &&& issue.severity == (#[trigger] found[k]).0
            &&& issue.check == "Cargo config"@
            &&& issue.fix == Fix::EnsureCargoConfig(file.path@)
            &&& file.path@.is_prefix_of(issue.reason)
            &&& (": "@ + found[k].1).is_suffix_of(issue.reason)
        } by {
            let issue = issues[n + k];
            assert(issue == gap_issue(file.path@, found[k]));
            let reason = issue.reason;
            let end = ": "@ + found[k].1;
            reveal_strlit(": ");
            reveal_strlit(" is missing recommended SBPF setting: ");
            assert(file.path@ =~= reason.subrange(0, file.path@.len() as int));
            assert(end =~= reason.subrange(reason.len() - end.len(), reason.len() as int));
        }
    }
}

/// A report has a line with the number of issues, and then a line for each of them with its check
/// and its reason, in their order.
pub proof fn reports_list_every_issue(issues: Seq<IssueView>)
    ensures
        issue_report(issues).len() == issues.len() + 1,
        holds(issue_report(issues)[0], " "@ + decimal(issues.len()) + " "@),
        forall|i: int|
            1 <= i <= issues.len() ==> #[trigger] issue_report(issues)[i] == "- "@ + issues[i
                - 1].check + ": "@ + issues[i - 1].reason,
{
    let first = issue_report(issues)[0];
    let part = " "@ + decimal(issues.len()) + " "@;
    reveal_strlit(" ");
    reveal_strlit("SBPF diagnosis found ");
    reveal_strlit(" issue(s):");
    assert(first.subrange(20, 20int + part.len()) =~= part);
}

/// Before a build each recommended issue is pointed out, with a hint at the diagnosis. Where there
/// are required issues, their number and each of them follow.
pub proof fn readiness_reports_list_every_issue(issues: Seq<IssueView>)
    ensures
        ({
            let report = readiness_report(issues);
            let required = of_severity(issues, Severity::Required);
            let recommended = of_severity(issues, Severity::Recommended);
            let n = recommended.len() as int;
            &&& required.len() == 0 ==> report.len() == n
            &&& required.len() > 0 ==> report.len() == n + 1 + required.len() && holds(
                report[n],
                " "@ + decimal(required.len()) + " required "@,
            )
            &&& forall|i: int|
                0 <= i < n ==> #[trigger] report[i] == "info: "@ + recommended[i].check + ": "@
                    + recommended[i].reason
                    + " (recommended; run `cargo build-sbpf --diagnose` to review/apply)"@
            &&& forall|i: int|
                n < i < report.len() ==> #[trigger] report[i] == "  - "@ + required[i - n
                    - 1].check + ": "@ + required[i - n - 1].reason
        }),
{
    let report = readiness_report(issues);
    let required = of_severity(issues, Severity::Required);
    let n = of_severity(issues, Severity::Recommended).len() as int;
    if required.len() > 0 {
        let part = " "@ + decimal(required.len()) + " required "@;
        reveal_strlit(" ");
        reveal_strlit(" required ");
        reveal_strlit("==> SBPF build found ");
        reveal_strlit(" required issue(s); auto-fixing:");
        assert(report[n].subrange(20, 20int + part.len()) =~= part);
    }
}

/// What mends an issue: these commands, and for the Cargo configuration to complete the file that
/// the issue is about, for the architecture of the diagnosis.
pub proof fn fixes_run_these_commands(manifest: Seq<char>, path: Seq<char>, arch: SbpfArch)
    ensures
        ({
            let nightly = fix_step(manifest, Fix::InstallNightly, arch)->Run_0;
            let linker = fix_step(manifest, Fix::InstallSbpfLinker, arch)->Run_0;
            let builtins = fix_step(manifest, Fix::AddCompilerBuiltins, arch)->Run_0;
            let installs_nightly = "rustup toolchain install nightly"@;
            let installs_linker = "cargo install sbpf-linker"@;
            let adds_builtins =
                "cargo add solana-compiler-builtins --git https://github.com/blueshift-gg/solana-compiler-builtins --manifest-path "@
                + manifest;
            &&& fix_step(manifest, Fix::InstallNightly, arch) is Run
            &&& fix_step(manifest, Fix::InstallSbpfLinker, arch) is Run
            &&& fix_step(manifest, Fix::AddCompilerBuiltins, arch) is Run
            &&& command_line(nightly.invocation, manifest) == installs_nightly
            &&& command_line(linker.invocation, manifest) == installs_linker
            &&& command_line(builtins.invocation, manifest) == adds_builtins
            &&& nightly.unstartable == "failed to run "@ + installs_nightly
            &&& linker.unstartable == "failed to run "@ + installs_linker
            &&& nightly.failed == installs_nightly + " failed with status "@
            &&& linker.failed == installs_linker + " failed with status "@
            &&& builtins.unstartable == "failed to run cargo add"@
            &&& builtins.failed == "cargo add solana-compiler-builtins failed with status "@
            &&& nightly.notice == "installing nightly toolchain"@
            &&& linker.notice == "installing sbpf-linker"@
            &&& builtins.notice
                == "adding solana-compiler-builtins from https://github.com/blueshift-gg/solana-compiler-builtins to "@
                + manifest
            &&& fix_step(manifest, Fix::EnsureCargoConfig(path), arch) == (FixStepView::Complete {
                path,
                arch,
            })
        }),
{
    lemma_fix_texts(manifest, arch);
    lemma_builtins_line(manifest, arch);
    let builtins = fix_step(manifest, Fix::AddCompilerBuiltins, arch)->Run_0;
    reveal_strlit("cargo add ");
    reveal_strlit("solana-compiler-builtins");
    reveal_strlit(" failed with status ");
    reveal_strlit("cargo add solana-compiler-builtins failed with status ");
    assert(builtins.failed =~= "cargo add solana-compiler-builtins failed with status "@);
    reveal_strlit("adding ");
    reveal_strlit(" from ");
    reveal_strlit("https://github.com/blueshift-gg/solana-compiler-builtins");
    reveal_strlit(" to ");
    reveal_strlit(
        "adding solana-compiler-builtins from https://github.com/blueshift-gg/solana-compiler-builtins to ",
    );
    assert(builtins.notice
        =~= "adding solana-compiler-builtins from https://github.com/blueshift-gg/solana-compiler-builtins to "@
        + manifest);
}

proof fn lemma_fix_texts(manifest: Seq<char>, arch: SbpfArch)
    ensures
        ({
            let nightly = fix_step(manifest, Fix::InstallNightly, arch)->Run_0;
            let linker = fix_step(manifest, Fix::InstallSbpfLinker, arch)->Run_0;
            let installs_nightly = "rustup toolchain install nightly"@;
            let installs_linker = "cargo install sbpf-linker"@;
            &&& command_line(nightly.invocation, manifest) == installs_nightly
            &&& command_line(linker.invocation, manifest) == installs_linker
            &&& nightly.unstartable == "failed to run "@ + installs_nightly
            &&& linker.unstartable == "failed to run "@ + installs_linker
            &&& nightly.failed == installs_nightly + " failed with status "@
            &&& linker.failed == installs_linker + " failed with status "@
        }),
{
    lemma_line(Program::Rustup, seq!["toolchain"@, "install"@, "nightly"@], manifest);
    lemma_three("toolchain"@, "install"@, "nightly"@);
    lemma_line(Program::Cargo, seq!["install"@, "sbpf-linker"@], manifest);
    lemma_two("install"@, "sbpf-linker"@);
    reveal_strlit("rustup");
    reveal_strlit("cargo");
    reveal_strlit("toolchain");
    reveal_strlit("install");
    reveal_strlit("nightly");
    reveal_strlit("sbpf-linker");
    reveal_strlit("rustup toolchain install nightly");
    reveal_strlit("cargo install sbpf-linker");
    reveal_strlit("failed to run ");
    reveal_strlit(" failed with status ");
    reveal_strlit("failed to run rustup toolchain install nightly");
    reveal_strlit("failed to run cargo install sbpf-linker");
    reveal_strlit("rustup toolchain install nightly failed with status ");
    reveal_strlit("cargo install sbpf-linker failed with status ");
    let nightly = fix_step(manifest, Fix::InstallNightly, arch)->Run_0;
    let linker = fix_step(manifest, Fix::InstallSbpfLinker, arch)->Run_0;
    assert(command_line(nightly.invocation, manifest) =~= "rustup toolchain install nightly"@);
    assert(command_line(linker.invocation, manifest) =~= "cargo install sbpf-linker"@);
    assert(nightly.unstartable =~= "failed to run "@ + "rustup toolchain install nightly"@);
    assert(linker.unstartable =~= "failed to run "@ + "cargo install sbpf-linker"@);
    assert(nightly.failed =~= "rustup toolchain install nightly"@ + " failed with status "@);
    assert(linker.failed =~= "cargo install sbpf-linker"@ + " failed with status "@);
}

proof fn lemma_builtins_line(manifest: Seq<char>, arch: SbpfArch)
    ensures
        command_line(
            fix_step(manifest, Fix::AddCompilerBuiltins, arch)->Run_0.invocation,
            manifest,
        )
            == "cargo add solana-compiler-builtins --git https://github.com/blueshift-gg/solana-compiler-builtins --manifest-path "@
            + manifest,
{
    let words = seq!["add"@, BUILTINS_CRATE@, "--git"@, BUILTINS_GIT@, "--manifest-path"@];
    let invocation = fix_step(manifest, Fix::AddCompilerBuiltins, arch)->Run_0.invocation;
    let texts = words.push(manifest);
    lemma_line(Program::Cargo, texts, manifest);
    assert(invocation.arguments.map_values(
        |argument: Argument<Seq<char>>| argument_text(argument, manifest),
    ) =~= text_arguments(texts).map_values(
        |argument: Argument<Seq<char>>| argument_text(argument, manifest),
    ));
    assert(command_line(invocation, manifest) == command_line(
        text_command(Program::Cargo, texts),
        manifest,
    ));
    assert(texts =~= seq![
        "add"@,
        BUILTINS_CRATE@,
        "--git"@,
        BUILTINS_GIT@,
        "--manifest-path"@,
        manifest,
    ]);
    lemma_six("add"@, BUILTINS_CRATE@, "--git"@, BUILTINS_GIT@, "--manifest-path"@, manifest);
    reveal_strlit("cargo");
    reveal_strlit("add");
    reveal_strlit("solana-compiler-builtins");
    reveal_strlit("--git");
    reveal_strlit("https://github.com/blueshift-gg/solana-compiler-builtins");
    reveal_strlit("--manifest-path");
    reveal_strlit(
        "cargo add solana-compiler-builtins --git https://github.com/blueshift-gg/solana-compiler-builtins --manifest-path ",
    );
    assert(command_line(invocation, manifest)
        =~= "cargo add solana-compiler-builtins --git https://github.com/blueshift-gg/solana-compiler-builtins --manifest-path "@
        + manifest);
}

/// The command that lists the dependency tree of the project is the one that lists it before a
/// build, for the project's manifest.
pub proof fn dependency_tree_is_that_of_the_build()
    ensures
        dependency_tree().program == Program::Cargo,
        ({
            let arguments = text_arguments(tree_arguments());
            dependency_tree().arguments == arguments.take(1) + seq![
                Argument::Text("--manifest-path"@),
                Argument::Manifest,
            ] + arguments.skip(1)
        }),
{
    let arguments = text_arguments(tree_arguments());
    assert(dependency_tree().arguments =~= arguments.take(1) + seq![
        Argument::Text("--manifest-path"@),
        Argument::Manifest,
    ] + arguments.skip(1));
}

/// Issues are known by their severity, and by the characters of their texts and of the path that
/// their fix is about.
pub proof fn issues_are_known(issue: Issue)
    ensures
        issue@.severity == issue.severity,
        issue@.check == issue.check@,
        issue@.reason == issue.reason@,
        issue.fix is InstallNightly <==> issue@.fix is InstallNightly,
        issue.fix is InstallSbpfLinker <==> issue@.fix is InstallSbpfLinker,
        issue.fix is AddCompilerBuiltins <==> issue@.fix is AddCompilerBuiltins,
        issue.fix matches Fix::EnsureCargoConfig(path) ==> issue@.fix == Fix::EnsureCargoConfig(
            path@,
        ),
{
}

/// Lists of issues and of fixes are known by each of them, in their order.
pub proof fn lists_are_known(issues: Seq<Issue>, fixes: Seq<Fix<String>>)
    ensures
        issue_views(issues).len() == issues.len(),
        forall|i: int| 0 <= i < issues.len() ==> #[trigger] issue_views(issues)[i] == issues[i]@,
        fix_views(fixes).len() == fixes.len(),
        forall|i: int|
            0 <= i < fixes.len() ==> (fixes[i] is InstallNightly <==> (#[trigger] fix_views(
                fixes,
            )[i]) is InstallNightly) && (fixes[i] is InstallSbpfLinker <==> fix_views(fixes)[i]
                is InstallSbpfLinker) && (fixes[i] is AddCompilerBuiltins <==> fix_views(fixes)[i]
                is AddCompilerBuiltins) && (fixes[i] is EnsureCargoConfig ==> fix_views(fixes)[i]
                == Fix::EnsureCargoConfig(fixes[i]->EnsureCargoConfig_0@)),
{
}

/// The gaps among the findings are those of the configuration that governs the project.
pub proof fn findings_have_the_gaps_of_their_file(findings: Findings)
    ensures
        findings.config matches Some(file) ==> file_gaps(findings) == gaps(parsed(file.text@)->0),
        findings.config is None ==> file_gaps(findings).len() == 0,
{
}

} // verus!
