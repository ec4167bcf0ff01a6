use cargo_build_sbpf::arch::SbpfArch;
use cargo_build_sbpf::command::{Argument, Invocation, Outcome, Program};
use cargo_build_sbpf::diagnose::{
    apply_fix, collect_issues, dependency_tree_command, ensure_build_ready,
    ensure_recommended_cargo_config, finish_build_ready, finish_diagnose, nightly_command,
    print_issues, run_diagnose, unique_fixes, ConfigFile, Diagnosis, DiagnosisConfig, Findings,
    Fix, FixCommand, FixStep, Issue,
};
use cargo_build_sbpf::gaps::Severity;
use cargo_build_sbpf::output::{
    dependency_tree_contains_builtins, dependency_tree_lists_builtins, located_manifest,
    tree_holds_builtins,
};

fn issue(severity: Severity, reason: &str, fix: Fix<String>) -> Issue {
    Issue { severity, check: "Cargo config", reason: reason.to_string(), fix }
}

fn config_fix() -> Fix<String> {
    Fix::EnsureCargoConfig("/tmp/config.toml".to_string())
}

fn asked(auto_fix: bool) -> DiagnosisConfig {
    DiagnosisConfig { arch: SbpfArch::V3, auto_fix, skip_builtins_check: false }
}

fn words(invocation: &Invocation) -> Vec<String> {
    invocation
        .arguments
        .iter()
        .map(|argument| match argument {
            Argument::Text(text) => text.clone(),
            Argument::Manifest => "<manifest>".to_string(),
            Argument::Forwarded(i) => format!("<{i}>"),
        })
        .collect()
}

fn run(step: FixStep) -> FixCommand {
    match step {
        FixStep::Run(command) => command,
        FixStep::Complete { .. } => panic!("no command"),
    }
}

#[test]
fn dependency_tree_excludes_builtins_for_this_crate() {
    let tree = "cargo-build-sbpf v0.1.0 (/p/cargo-build-sbpf)\nanyhow v1.0.104\nclap v4.6.7\ntoml_edit v0.25.17\n";
    assert!(!dependency_tree_contains_builtins(tree.as_bytes().to_vec()).unwrap());
}

#[test]
fn finds_builtins_in_tree() {
    assert!(tree_holds_builtins("a v1\r\nsolana-compiler-builtins v0.1.0 (https://x)"));
    assert!(!tree_holds_builtins("a v1\nsolana-compiler-builtins-x v0.1.0"));
    assert!(!tree_holds_builtins("a v1\nsolana-compiler-builtins"));
    assert!(!tree_holds_builtins(" solana-compiler-builtins v1"));
    assert!(!tree_holds_builtins(""));
    assert_eq!(dependency_tree_contains_builtins(b"solana-compiler-builtins v1\n".to_vec()), Some(true));
    assert_eq!(dependency_tree_contains_builtins(b"\xff\nsolana-compiler-builtins v1\n".to_vec()), None);
    assert!(dependency_tree_lists_builtins(&b"\xff\nsolana-compiler-builtins v1\n".to_vec()));
    assert!(!dependency_tree_lists_builtins(&b"\xffsolana-compiler-builtins v1\n".to_vec()));
}

#[test]
fn locates_manifest() {
    assert_eq!(located_manifest(b"/p/Cargo.toml\n".to_vec()), Some("/p/Cargo.toml".to_string()));
    assert_eq!(located_manifest(b"/p/\xff\n".to_vec()), None);
}

#[test]
fn unique_fixes_dedupes_repeated_fix() {
    let issues = vec![
        Issue {
            severity: Severity::Required,
            check: "Cargo config",
            reason: "missing A".to_string(),
            fix: Fix::EnsureCargoConfig("/tmp/config.toml".to_string()),
        },
        Issue {
            severity: Severity::Recommended,
            check: "Cargo config",
            reason: "missing B".to_string(),
            fix: Fix::EnsureCargoConfig("/tmp/config.toml".to_string()),
        },
    ];

    assert_eq!(unique_fixes(&issues).len(), 1);
}

#[test]
fn unique_fixes_keep_first_occurrences() {
    let issues = vec![
        issue(Severity::Required, "a", Fix::InstallSbpfLinker),
        issue(Severity::Required, "b", config_fix()),
        issue(Severity::Required, "c", Fix::InstallNightly),
        issue(Severity::Required, "d", Fix::InstallSbpfLinker),
        issue(Severity::Required, "e", Fix::EnsureCargoConfig("/other".to_string())),
        issue(Severity::Required, "f", Fix::AddCompilerBuiltins),
        issue(Severity::Required, "g", config_fix()),
    ];
    let fixes = unique_fixes(&issues);
    assert_eq!(fixes.len(), 5);
    assert!(fixes[0].same_as(&Fix::InstallSbpfLinker));
    assert!(fixes[1].same_as(&config_fix()));
    assert!(fixes[2].same_as(&Fix::InstallNightly));
    assert!(fixes[3].same_as(&Fix::EnsureCargoConfig("/other".to_string())));
    assert!(fixes[4].same_as(&Fix::AddCompilerBuiltins));
    assert!(!fixes[1].same_as(&fixes[3]));
    assert!(!fixes[0].same_as(&fixes[2]));
}

#[test]
fn collects_issues() {
    let findings = Findings {
        nightly_runs: false,
        linker_on_path: false,
        builtins_in_tree: false,
        config: Some(ConfigFile {
            path: "/p/config".to_string(),
            text: "[unstable]\nbuild-std = [\"core\", \"alloc\"]\n\n[target.bpfel-unknown-none]\nrustflags = [\"linker=sbpf-linker\", \"panic=abort\", \"relocation-model=static\", \"link-arg=--llvm-args=--disable-gotox\"]\n".to_string(),
        }),
    };
    let issues = collect_issues(&findings, &asked(false)).unwrap();
    assert_eq!(
        print_issues(&issues),
        vec![
            "SBPF diagnosis found 5 issue(s):",
            "- nightly toolchain: rustup cannot run the `nightly` toolchain, but SBPF builds require upstream nightly for `-Z build-std`",
            "- sbpf-linker: `sbpf-linker` was not found on PATH, so the final SBPF artifact cannot be linked",
            "- solana-compiler-builtins: `solana-compiler-builtins` is missing from the `bpfel-unknown-none` normal/build dependency tree, so required compiler builtins may be unresolved",
            "- Cargo config: /p/config is missing recommended SBPF setting: link-arg=--export=__multi3",
            "- Cargo config: /p/config is missing recommended SBPF setting: link-arg=--llvm-args=--bpf-max-stores-per-memfunc=5",
        ]
    );
    assert_eq!(issues[3].severity, Severity::Required);
    assert_eq!(issues[4].severity, Severity::Recommended);
    assert!(issues[0].fix.same_as(&Fix::InstallNightly));
    assert!(issues[1].fix.same_as(&Fix::InstallSbpfLinker));
    assert!(issues[2].fix.same_as(&Fix::AddCompilerBuiltins));
    assert!(issues[3].fix.same_as(&Fix::EnsureCargoConfig("/p/config".to_string())));
}

#[test]
fn collects_nothing_where_all_is_well() {
    let mut findings = Findings {
        nightly_runs: true,
        linker_on_path: true,
        builtins_in_tree: true,
        config: None,
    };
    assert!(collect_issues(&findings, &asked(false)).unwrap().is_empty());
    findings.builtins_in_tree = false;
    assert_eq!(collect_issues(&findings, &asked(false)).unwrap().len(), 1);
    let skip = DiagnosisConfig { skip_builtins_check: true, ..asked(false) };
    assert!(collect_issues(&findings, &skip).unwrap().is_empty());
    findings.config = Some(ConfigFile { path: "c".to_string(), text: "x = = y".to_string() });
    assert_eq!(
        collect_issues(&findings, &skip).unwrap_err().message(),
        "failed to parse Cargo config TOML"
    );
}

#[test]
fn diagnoses() {
    let (report, outcome) = run_diagnose(&[], asked(true));
    assert_eq!(report, vec!["SBPF diagnosis passed"]);
    assert!(matches!(outcome, Diagnosis::Exit(0)));

    let issues = [
        issue(Severity::Recommended, "A", config_fix()),
        issue(Severity::Required, "B", config_fix()),
    ];
    let (report, outcome) = run_diagnose(&issues, asked(false));
    assert_eq!(
        report,
        vec![
            "SBPF diagnosis found 2 issue(s):",
            "- Cargo config: A",
            "- Cargo config: B",
            "run with --auto-fix to apply available fixes",
        ]
    );
    assert!(matches!(outcome, Diagnosis::Exit(1)));

    let (report, outcome) = run_diagnose(&issues, asked(true));
    assert_eq!(report.len(), 3);
    match outcome {
        Diagnosis::Repair(fixes) => {
            assert_eq!(fixes.len(), 1);
            assert!(fixes[0].same_as(&config_fix()));
        }
        Diagnosis::Exit(_) => panic!("no fixes"),
    }

    let (report, code) = finish_diagnose(&[]);
    assert_eq!(report, vec!["SBPF diagnosis passed after applying fixes"]);
    assert_eq!(code, 0);
    let (report, code) = finish_diagnose(&issues[1..]);
    assert_eq!(
        report,
        vec![
            "SBPF diagnosis still has issues after applying fixes:",
            "SBPF diagnosis found 1 issue(s):",
            "- Cargo config: B",
        ]
    );
    assert_eq!(code, 1);
}

#[test]
fn readies_builds() {
    let (report, fixes) = ensure_build_ready(vec![
        issue(Severity::Required, "A", Fix::InstallNightly),
        issue(Severity::Recommended, "B", config_fix()),
        issue(Severity::Required, "C", Fix::InstallNightly),
    ]);
    assert_eq!(
        report,
        vec![
            "info: Cargo config: B (recommended; run `cargo build-sbpf --diagnose` to review/apply)",
            "==> SBPF build found 2 required issue(s); auto-fixing:",
            "  - Cargo config: A",
            "  - Cargo config: C",
        ]
    );
    assert_eq!(fixes.len(), 1);
    assert!(fixes[0].same_as(&Fix::InstallNightly));

    let (report, fixes) =
        ensure_build_ready(vec![issue(Severity::Recommended, "B", config_fix())]);
    assert_eq!(report.len(), 1);
    assert!(fixes.is_empty());

    assert!(finish_build_ready(vec![issue(Severity::Recommended, "B", config_fix())]).is_ok());
    assert_eq!(
        finish_build_ready(vec![issue(Severity::Required, "A", config_fix())]),
        Err("SBPF build still has required issue(s) after applying fixes".to_string())
    );
}

#[test]
fn applies_fixes() {
    let nightly = run(apply_fix("m", &Fix::InstallNightly, SbpfArch::V3));
    assert_eq!(nightly.notice, "installing nightly toolchain");
    assert_eq!(nightly.invocation.program, Program::Rustup);
    assert_eq!(words(&nightly.invocation), vec!["toolchain", "install", "nightly"]);
    assert_eq!(nightly.verdict(&Outcome::Succeeded), Ok(()));
    assert_eq!(
        nightly.verdict(&Outcome::Unstartable),
        Err("failed to run rustup toolchain install nightly".to_string())
    );
    assert_eq!(
        nightly.verdict(&Outcome::Failed("exit status: 3".to_string())),
        Err("rustup toolchain install nightly failed with status exit status: 3".to_string())
    );

    let linker = run(apply_fix("m", &Fix::InstallSbpfLinker, SbpfArch::V3));
    assert_eq!(linker.notice, "installing sbpf-linker");
    assert_eq!(linker.invocation.program, Program::Cargo);
    assert_eq!(words(&linker.invocation), vec!["install", "sbpf-linker"]);
    assert_eq!(linker.unstartable, "failed to run cargo install sbpf-linker");

    let builtins = run(apply_fix("/p/Cargo.toml", &Fix::AddCompilerBuiltins, SbpfArch::V3));
    assert_eq!(
        builtins.notice,
        "adding solana-compiler-builtins from https://github.com/blueshift-gg/solana-compiler-builtins to /p/Cargo.toml"
    );
    assert_eq!(
        words(&builtins.invocation),
        vec![
            "add",
            "solana-compiler-builtins",
            "--git",
            "https://github.com/blueshift-gg/solana-compiler-builtins",
            "--manifest-path",
            "<manifest>",
        ]
    );
    assert_eq!(
        builtins.verdict(&Outcome::Failed("1".to_string())),
        Err("cargo add solana-compiler-builtins failed with status 1".to_string())
    );

    assert!(matches!(
        apply_fix("m", &config_fix(), SbpfArch::V0),
        FixStep::Complete { path, arch: SbpfArch::V0 } if path == "/tmp/config.toml"
    ));
}

#[test]
fn completes_configs() {
    let updated = ensure_recommended_cargo_config("", SbpfArch::V0).unwrap().unwrap();
    assert!(updated.contains("link-arg=--arch=v0"));
    assert!(updated.contains("-bpf-stack-size=8192"));
    assert!(ensure_recommended_cargo_config(&updated, SbpfArch::V0).unwrap().is_none());
    assert!(ensure_recommended_cargo_config(&updated, SbpfArch::V3).is_err());
}

#[test]
fn names_commands() {
    assert_eq!(nightly_command().program, Program::Rustup);
    assert_eq!(words(&nightly_command()), vec!["run", "nightly", "rustc", "--version"]);
    assert_eq!(dependency_tree_command().program, Program::Cargo);
    assert_eq!(
        words(&dependency_tree_command()),
        vec![
            "tree",
            "--manifest-path",
            "<manifest>",
            "--target",
            "bpfel-unknown-none",
            "-e",
            "normal,build",
            "--prefix",
            "none",
        ]
    );
}
