use cargo_build_sbpf::command::{Argument, Invocation, Outcome, Program};
use cargo_build_sbpf::linker::{
    is_new_enough, linker_is_compatible, report_is_compatible, reported_version, Version,
};
use cargo_build_sbpf::setup::{
    nightly_compiler_command, tree_command, Event, Setup, Toolchain, Tree,
};

fn words(invocation: &Invocation) -> Vec<String> {
    invocation
        .arguments
        .iter()
        .map(|argument| match argument {
            Argument::Text(text) => text.clone(),
            _ => panic!("no text"),
        })
        .collect()
}

fn llvm(llvm_major: Option<u64>) -> Event<String> {
    Event::Nightly(Toolchain::Present { llvm_major })
}

fn yes() -> Event<String> {
    Event::Answer(Some(true))
}

fn no() -> Event<String> {
    Event::Answer(Some(false))
}

fn failed() -> Event<String> {
    Event::Ended(Outcome::Failed("exit status: 7".to_string()))
}

fn succeeded() -> Event<String> {
    Event::Ended(Outcome::Succeeded)
}

fn unstartable() -> Event<String> {
    Event::Ended(Outcome::Unstartable)
}

fn listed(builtins: bool) -> Event<String> {
    Event::Tree(Tree::Listed { builtins })
}

/// Walks through events, and returns where they lead and the warnings on the way.
fn walk(from: Setup<String>, events: Vec<Event<String>>) -> (Setup<String>, Vec<String>) {
    let mut state = from;
    let mut warnings = Vec::new();
    for event in events {
        warnings.extend(state.warnings(&event));
        state = state.next(event);
    }
    (state, warnings)
}

fn reason(from: Setup<String>, event: Event<String>) -> String {
    match walk(from, vec![event]).0 {
        Setup::Failed(reason) => reason,
        state => panic!("{state:?}"),
    }
}

#[test]
fn goes_straight_through_where_all_is_there() {
    let (state, warnings) =
        walk(Setup::start(), vec![llvm(Some(23)), Event::Linker(true), listed(true)]);
    assert!(matches!(state, Setup::Ready));
    assert!(warnings.is_empty());
}

#[test]
fn installs_everything_on_request() {
    let (state, warnings) = walk(
        Setup::start(),
        vec![
            Event::Nightly(Toolchain::Missing),
            yes(),
            succeeded(),
            llvm(Some(22)),
            yes(),
            succeeded(),
            llvm(Some(23)),
            Event::Linker(false),
            Event::Binstall(false),
            yes(),
            succeeded(),
            succeeded(),
            Event::Binstall(true),
            yes(),
            succeeded(),
            Event::Linker(true),
            listed(false),
            yes(),
            succeeded(),
        ],
    );
    assert!(matches!(state, Setup::Ready));
    assert!(warnings.is_empty());
}

#[test]
fn warns_and_goes_on_without_recommended_parts() {
    let (state, warnings) = walk(
        Setup::start(),
        vec![llvm(None), no(), llvm(Some(22)), Event::Linker(true), listed(false), no()],
    );
    assert!(matches!(state, Setup::Ready));
    assert_eq!(
        warnings,
        vec![
            "warning: an older LLVM version may generate less optimal SBPF code",
            "warning: continuing without solana-compiler-builtins, whose compiler builtins are optimized for the SVM",
        ]
    );
}

#[test]
fn warns_about_failed_recommended_commands() {
    let (state, warnings) = walk(
        Setup::start(),
        vec![
            llvm(Some(24)),
            yes(),
            failed(),
            Event::Nightly(Toolchain::Missing),
            Event::Linker(true),
            listed(false),
            yes(),
            failed(),
        ],
    );
    assert!(matches!(state, Setup::Ready));
    assert_eq!(
        warnings,
        vec![
            "warning: rustup update nightly failed with status exit status: 7",
            "warning: an older LLVM version may generate less optimal SBPF code",
            "warning: cargo add solana-compiler-builtins --git https://github.com/blueshift-gg/solana-compiler-builtins failed with status exit status: 7; continuing without it",
            "warning: continuing without solana-compiler-builtins, whose compiler builtins are optimized for the SVM",
        ]
    );
}

#[test]
fn stops_where_required_parts_are_declined() {
    assert_eq!(
        reason(Setup::ConfirmNightly, no()),
        "the nightly toolchain is required for SBPF builds"
    );
    assert_eq!(
        reason(Setup::ConfirmBinstall, no()),
        "sbpf-linker 0.2.1 or newer is required for SBPF builds"
    );
    assert_eq!(
        reason(Setup::ConfirmLinker, no()),
        "sbpf-linker 0.2.1 or newer is required for SBPF builds"
    );
}

#[test]
fn stops_where_nobody_answers() {
    for state in [
        Setup::ConfirmNightly,
        Setup::ConfirmUpdate,
        Setup::ConfirmBinstall,
        Setup::ConfirmLinker,
        Setup::ConfirmBuiltins,
    ] {
        assert!(state.question().is_some());
        assert_eq!(reason(state, Event::Answer(None)), "failed to request permission");
    }
}

#[test]
fn stops_where_required_commands_fail() {
    assert_eq!(
        reason(Setup::InstallNightly, unstartable()),
        "failed to run rustup toolchain install nightly"
    );
    assert_eq!(
        reason(Setup::InstallNightly, failed()),
        "rustup toolchain install nightly failed with status exit status: 7"
    );
    assert_eq!(
        reason(Setup::UpdateNightly, unstartable()),
        "failed to run rustup update nightly"
    );
    assert_eq!(reason(Setup::UpdateStable, unstartable()), "failed to run rustup update stable");
    assert_eq!(
        reason(Setup::UpdateStable, failed()),
        "rustup update stable failed with status exit status: 7"
    );
    assert_eq!(reason(Setup::InstallBinstall, unstartable()), "failed to install cargo-binstall");
    assert_eq!(
        reason(Setup::InstallBinstall, failed()),
        "cargo-binstall installation failed with status exit status: 7"
    );
    assert_eq!(
        reason(Setup::RelocateBinstall, Event::Binstall(false)),
        "cargo-binstall was installed but could not be located"
    );
    assert_eq!(
        reason(Setup::InstallLinker, unstartable()),
        "failed to run cargo binstall sbpf-linker"
    );
    assert_eq!(
        reason(Setup::InstallLinker, failed()),
        "cargo binstall sbpf-linker failed with status exit status: 7"
    );
    assert_eq!(
        reason(Setup::RecheckLinker, Event::Linker(false)),
        "sbpf-linker was installed but version 0.2.1 or newer could not be located"
    );
    assert_eq!(
        reason(Setup::ListTree, Event::Tree(Tree::Unstartable)),
        "failed to check for solana-compiler-builtins"
    );
    assert_eq!(
        reason(Setup::ListTree, Event::Tree(Tree::Failed)),
        "cargo tree failed while checking for solana-compiler-builtins"
    );
    assert_eq!(
        reason(Setup::AddBuiltins, unstartable()),
        "failed to add solana-compiler-builtins"
    );
}

#[test]
fn asks_for_what_it_runs() {
    let asks = |state: Setup<String>| state.question().unwrap();
    assert_eq!(asks(Setup::ConfirmNightly), "Run `rustup toolchain install nightly`?");
    assert_eq!(
        asks(Setup::ConfirmUpdate),
        "Nightly does not use LLVM 23. Run `rustup update nightly`?"
    );
    assert_eq!(asks(Setup::ConfirmBinstall), "Install cargo-binstall with stable Rust?");
    assert_eq!(
        asks(Setup::ConfirmLinker),
        "Run `cargo binstall sbpf-linker --no-confirm --force`?"
    );
    assert_eq!(
        asks(Setup::ConfirmBuiltins),
        "Run `cargo add solana-compiler-builtins --git https://github.com/blueshift-gg/solana-compiler-builtins`?"
    );
    assert!(Setup::<String>::Ready.question().is_none());
}

#[test]
fn names_its_commands() {
    let runs = |state: Setup<String>| {
        let invocation = state.change().unwrap();
        (invocation.program, words(&invocation).join(" "))
    };
    assert_eq!(
        runs(Setup::InstallNightly),
        (Program::Rustup, "toolchain install nightly".to_string())
    );
    assert_eq!(runs(Setup::UpdateNightly), (Program::Rustup, "update nightly".to_string()));
    assert_eq!(runs(Setup::UpdateStable), (Program::Rustup, "update stable".to_string()));
    assert_eq!(
        runs(Setup::InstallBinstall),
        (Program::Rustup, "run stable cargo install cargo-binstall --locked".to_string())
    );
    assert_eq!(
        runs(Setup::InstallLinker),
        (Program::CargoBinstall, "sbpf-linker --no-confirm --force".to_string())
    );
    assert_eq!(
        runs(Setup::AddBuiltins),
        (
            Program::Cargo,
            "add solana-compiler-builtins --git https://github.com/blueshift-gg/solana-compiler-builtins"
                .to_string()
        )
    );
    assert!(Setup::<String>::ConfirmLinker.change().is_none());
    assert_eq!(
        words(&tree_command()).join(" "),
        "tree --target bpfel-unknown-none -e normal,build --prefix none"
    );
    assert_eq!(words(&nightly_compiler_command()).join(" "), "run nightly rustc");
}

#[test]
fn finds_the_version_of_the_linker() {
    assert_eq!(reported_version("sbpf-linker 0.2.1\n"), Some("0.2.1".to_string()));
    assert_eq!(
        reported_version("LLVM\n  sbpf-linker   0.3.0 (abc)\r\nsbpf-linker 0.1.0"),
        Some("0.3.0".to_string())
    );
    assert_eq!(reported_version("sbpf-linker\n"), None);
    assert_eq!(reported_version("sbpf-linker-x 1.0.0"), None);
    assert_eq!(reported_version(""), None);
}

#[test]
fn wants_linker_0_2_1() {
    let version =
        |major, minor, patch, pre: &str| Version { major, minor, patch, pre: pre.to_string() };
    assert!(is_new_enough(&version(0, 2, 1, "")));
    assert!(!is_new_enough(&version(0, 2, 1, "rc.1")));
    assert!(is_new_enough(&version(0, 2, 2, "rc.1")));
    assert!(!is_new_enough(&version(0, 2, 0, "")));
    assert!(!is_new_enough(&version(0, 1, 9, "")));
    assert!(is_new_enough(&version(0, 3, 0, "alpha")));
    assert!(is_new_enough(&version(1, 0, 0, "")));
}

#[test]
fn judges_linker_reports() {
    for (report, compatible) in [
        ("sbpf-linker 0.2.1", true),
        ("sbpf-linker 0.2.1+build.5", true),
        ("sbpf-linker 0.2.1-beta", false),
        ("sbpf-linker 0.2.0", false),
        ("sbpf-linker 0.10.0", true),
        ("sbpf-linker 1.0.0-alpha\n", true),
        ("sbpf-linker 0.2", false),
        ("sbpf-linker v0.2.1", false),
        ("sbpf-linker 00.2.1", false),
        ("ld 2.40", false),
    ] {
        assert_eq!(report_is_compatible(report), compatible, "{report}");
        assert_eq!(linker_is_compatible(&report.as_bytes().to_vec()), compatible, "{report}");
    }
    assert!(linker_is_compatible(&b"\xff\nsbpf-linker 0.2.1\n".to_vec()));
    assert!(!linker_is_compatible(&b"sbpf-linker 0.2.1\xff\n".to_vec()));
}

#[test]
fn judges_versions_as_semver_does() {
    let least = rustc_version::Version::new(0, 2, 1);
    for text in [
        "0.2.1", "0.2.1-0", "0.2.1-a.b", "0.2.1+0", "0.2.1+a", "0.2.1-x+y", "0.2.0", "0.2.2-0",
        "0.1.99", "0.3.0-pre", "1.0.0-pre", "1.0.0", "0.0.0", "18446744073709551615.0.0",
        "18446744073709551616.0.0", "0.2.1-", "0.2.1+", "x",
    ] {
        let expected = match rustc_version::Version::parse(text) {
            Ok(version) => version >= least,
            Err(_) => false,
        };
        assert_eq!(report_is_compatible(&format!("sbpf-linker {text}")), expected, "{text}");
    }
}
