use cargo_build_sbpf::arch::SbpfArch;
use cargo_build_sbpf::flags::{
    recommended_rustflags, required_rustflags, rustflag_key, FlagNamespace, TARGET,
};
use cargo_build_sbpf::gaps::{missing_cargo_config_requirements, Severity};
use cargo_build_sbpf::merge::{has_flag, merge_rustflags, MergeFault};
use cargo_build_sbpf::repair::ensure_recommended_cargo_config_in_content;

fn repair(config: &str, arch: SbpfArch) -> Result<String, String> {
    ensure_recommended_cargo_config_in_content(config, arch, false)
        .map_err(|error| error.message(arch))
}

fn list(flags: &[&str]) -> Vec<String> {
    flags.iter().map(|flag| flag.to_string()).collect()
}

#[test]
fn repairs_incomplete_cargo_config() {
    let config = "\
[unstable]

[target.bpfel-unknown-none]
rustflags = [
\"-C\",
\"linker=sbpf-linker\",
\"-C\",
\"lto=off\",
\"-C\",
\"link-arg=--dump-module=llvm_dump\",
]
";
    let updated =
        ensure_recommended_cargo_config_in_content(config, SbpfArch::V3, false).unwrap();
    assert!(updated.contains("build-std = [\"core\", \"alloc\"]"));
    assert!(updated.contains("rustflags = [\n    \"-C\",\n"));
    for flag in required_rustflags()
        .into_iter()
        .chain(recommended_rustflags())
        .chain(SbpfArch::V3.linker_args(false))
    {
        assert!(updated.contains(&flag), "missing {flag}");
    }

    // existing flags should be preserved
    assert!(updated.contains("\"lto=off\""));
    assert!(updated.contains("\"link-arg=--dump-module=llvm_dump\""));

    assert!(missing_cargo_config_requirements(&updated).unwrap().is_empty());
}

#[test]
fn rejects_conflicting_cargo_config_arch() {
    let config = "\
[unstable]
build-std = [\"core\", \"alloc\"]

[target.bpfel-unknown-none]
rustflags = [
\"-C\",
\"linker=sbpf-linker\",
\"-C\",
\"link-arg=--arch=v3\",
]
";
    let error = repair(config, SbpfArch::V0).unwrap_err();
    assert_eq!(
        error,
        "sBPF architecture conflict: selected v0, but .cargo/config.toml configures v3\nhelp: use --arch v3, or update/remove link-arg=--arch=v3 from [target.bpfel-unknown-none].rustflags"
    );
}

#[test]
fn rejects_conflicting_cargo_config_flags() {
    for (existing, required) in [
        ("linker=custom-linker", "linker=sbpf-linker"),
        ("panic=unwind", "panic=abort"),
        ("relocation-model=pic", "relocation-model=static"),
    ] {
        let config = format!("[target.{TARGET}]\nrustflags = [\"-C\", \"{existing}\"]\n");
        let error = repair(&config, SbpfArch::V3).unwrap_err();
        assert!(error.contains("conflicting rustflag"));
        assert!(error.contains(existing));
        assert!(error.contains(required));
    }
}

#[test]
fn appends_exports_and_preserves_existing_recommended_values() {
    let config = "\
[target.bpfel-unknown-none]
rustflags = [
\"-C\",
\"link-arg=--export=custom_symbol\",
\"-C\",
\"link-arg=--llvm-args=--bpf-max-stores-per-memfunc=10\",
]
";
    let updated =
        ensure_recommended_cargo_config_in_content(config, SbpfArch::V3, false).unwrap();
    // existing export should be preserved
    assert!(updated.contains("link-arg=--export=custom_symbol"));
    assert!(updated.contains("link-arg=--export=__multi3"));
    // existing recommended option should be preserved
    assert!(updated.contains("link-arg=--llvm-args=--bpf-max-stores-per-memfunc=10"));
    assert!(!updated.contains("link-arg=--llvm-args=--bpf-max-stores-per-memfunc=5"));
    // missing recommended option should be added
    assert!(updated.contains("link-arg=--llvm-args=--disable-gotox"));
}

#[test]
fn selects_stack_frame_size_from_arch_and_simd_0460() {
    let v0 = ensure_recommended_cargo_config_in_content("", SbpfArch::V0, false).unwrap();
    let v0_after_simd =
        ensure_recommended_cargo_config_in_content("", SbpfArch::V0, true).unwrap();
    let v3 = ensure_recommended_cargo_config_in_content("", SbpfArch::V3, false).unwrap();

    assert!(v0.contains("link-arg=--llvm-args=-bpf-stack-size=8192"));
    assert!(v0_after_simd.contains("link-arg=--llvm-args=-bpf-stack-size=4096"));
    assert!(v3.contains("link-arg=--llvm-args=-bpf-stack-size=4096"));
}

#[test]
fn lays_a_fresh_config_out() {
    assert_eq!(
        repair("", SbpfArch::V3).unwrap(),
        "\
[unstable]
build-std = [\"core\", \"alloc\"]

[target.bpfel-unknown-none]
rustflags = [
    \"-C\",
    \"linker=sbpf-linker\",
    \"-C\",
    \"panic=abort\",
    \"-C\",
    \"relocation-model=static\",
    \"-C\",
    \"link-arg=--export=__multi3\",
    \"-C\",
    \"link-arg=--arch=v3\",
    \"-C\",
    \"link-arg=--llvm-args=-bpf-stack-size=4096\",
    \"-C\",
    \"link-arg=--llvm-args=--bpf-max-stores-per-memfunc=5\",
    \"-C\",
    \"link-arg=--llvm-args=--disable-gotox\",
]
"
    );
}

#[test]
fn replaces_the_first_other_stack_size() {
    let config = "[target.bpfel-unknown-none]\nrustflags = [\"-C\", \"link-arg=--llvm-args=-bpf-stack-size=1\", \"-C\", \"link-arg=--llvm-args=-bpf-stack-size=2\"]\n";
    let updated = repair(config, SbpfArch::V0).unwrap();
    assert!(updated.contains("-bpf-stack-size=8192"));
    assert!(!updated.contains("-bpf-stack-size=1\""));
    assert!(updated.contains("-bpf-stack-size=2"));
}

#[test]
fn repairs_once() {
    let config = "# mine\n[unstable]\nbuild-std = [\"std\"]\nmtime-on-use = true\n\n[target.bpfel-unknown-none]\nrustflags = [\"-C\", \"lto=off\"]\n";
    let updated = repair(config, SbpfArch::V0).unwrap();
    assert!(updated.starts_with("# mine\n[unstable]\n"));
    assert!(updated.contains("mtime-on-use = true\n"));
    assert_eq!(repair(&updated, SbpfArch::V0).unwrap(), updated);
}

#[test]
fn says_why_a_config_cannot_be_repaired() {
    for (config, message) in [
        ("unstable = \"x", "failed to parse Cargo config TOML"),
        ("unstable = 1\n", "failed to parse Cargo config: `[unstable]` must be a table"),
        ("target = {}\n", "failed to parse Cargo config: `[target]` must be a table"),
        (
            "[target]\nbpfel-unknown-none = []\n",
            "failed to parse Cargo config: `[target.bpfel-unknown-none]` must be a table",
        ),
        (
            "[target.bpfel-unknown-none]\nrustflags = \"-C lto=off\"\n",
            "failed to parse Cargo config: `[target.bpfel-unknown-none].rustflags` must be an array",
        ),
        (
            "[target.bpfel-unknown-none]\nrustflags = [\"-C\", 1]\n",
            "failed to parse Cargo config: `[target.bpfel-unknown-none].rustflags` must contain only strings",
        ),
        (
            "[target.bpfel-unknown-none]\nrustflags = [\"panic=unwind\"]\n",
            "conflicting rustflag: config contains `panic=unwind`, but cargo-build-sbpf requires `panic=abort`",
        ),
        (
            "[target.bpfel-unknown-none]\nrustflags = [\"link-arg=--arch\"]\n",
            "sBPF architecture conflict: selected v3, but .cargo/config.toml configures link-arg=--arch\nhelp: use --arch link-arg=--arch, or update/remove link-arg=--arch from [target.bpfel-unknown-none].rustflags",
        ),
    ] {
        assert_eq!(repair(config, SbpfArch::V3).unwrap_err(), message);
    }
}

#[test]
fn merges_flags() {
    let merged = merge_rustflags(
        &list(&["-C", "link-arg=--llvm-args=-bpf-stack-size=1", "-C", "panic=abort"]),
        SbpfArch::V0,
        false,
    )
    .unwrap();
    assert_eq!(
        merged,
        list(&[
            "-C",
            "link-arg=--llvm-args=-bpf-stack-size=8192",
            "-C",
            "panic=abort",
            "-C",
            "linker=sbpf-linker",
            "-C",
            "relocation-model=static",
            "-C",
            "link-arg=--export=__multi3",
            "-C",
            "link-arg=--arch=v0",
            "-C",
            "link-arg=--llvm-args=--bpf-max-stores-per-memfunc=5",
            "-C",
            "link-arg=--llvm-args=--disable-gotox",
        ])
    );
    assert_eq!(merge_rustflags(&merged, SbpfArch::V0, false).unwrap(), merged);
    assert!(has_flag(&merged, "panic=abort"));
    assert!(!has_flag(&merged, "panic=unwind"));
    assert!(matches!(
        merge_rustflags(&merged, SbpfArch::V3, false),
        Err(MergeFault::ArchConflict { existing }) if existing == "link-arg=--arch=v0"
    ));
}

#[test]
fn keys_flags() {
    assert_eq!(rustflag_key("link-arg=--arch=v3"), (FlagNamespace::Linker, "--arch"));
    assert_eq!(
        rustflag_key("link-arg=--llvm-args=-bpf-stack-size=4096"),
        (FlagNamespace::Llvm, "-bpf-stack-size")
    );
    assert_eq!(rustflag_key("panic=abort=x"), (FlagNamespace::Rustc, "panic"));
    assert_eq!(rustflag_key("-C"), (FlagNamespace::Rustc, "-C"));
}

#[test]
fn classifies_recommended_only_gap() {
    let config = "\
[unstable]
build-std = [\"core\", \"alloc\"]

[target.bpfel-unknown-none]
rustflags = [
\"-C\",
\"linker=sbpf-linker\",
\"-C\",
\"panic=abort\",
\"-C\",
\"relocation-model=static\",
\"-C\",
\"link-arg=--export=__multi3\",
]
";
    let diagnosis = missing_cargo_config_requirements(config).unwrap();
    assert!(!diagnosis.is_empty());
    assert!(diagnosis.iter().all(|(severity, _)| *severity == Severity::Recommended));
}

#[test]
fn classifies_required_gap() {
    let config = "\
[unstable]
build-std = [\"core\", \"alloc\"]

[target.bpfel-unknown-none]
rustflags = [
\"-C\",
\"link-arg=--llvm-args=--bpf-max-stores-per-memfunc=5\",
\"-C\",
\"link-arg=--llvm-args=--disable-gotox\",
]
";
    let diagnosis = missing_cargo_config_requirements(config).unwrap();
    assert!(diagnosis.iter().any(
        |(severity, flag)| *severity == Severity::Required && flag == "linker=sbpf-linker"
    ));
    assert!(diagnosis.iter().all(|(severity, _)| *severity != Severity::Recommended));
}

#[test]
fn lists_every_gap_of_an_empty_config() {
    let found = missing_cargo_config_requirements("").unwrap();
    let gap = |severity, text: &str| (severity, text.to_string());
    assert_eq!(
        found,
        vec![
            gap(Severity::Required, "unstable.build-std = [\"core\", \"alloc\"]"),
            gap(Severity::Required, "target.bpfel-unknown-none table"),
            gap(Severity::Required, "linker=sbpf-linker"),
            gap(Severity::Required, "panic=abort"),
            gap(Severity::Required, "relocation-model=static"),
            gap(Severity::Required, "link-arg=--export=__multi3"),
            gap(Severity::Recommended, "link-arg=--llvm-args=--bpf-max-stores-per-memfunc=5"),
            gap(Severity::Recommended, "link-arg=--llvm-args=--disable-gotox"),
        ]
    );
    let error = missing_cargo_config_requirements("[").unwrap_err();
    assert_eq!(error.message(), "failed to parse Cargo config TOML");
}

#[test]
fn inline_tables_count_for_build_std_only() {
    let config = "unstable = { build-std = [\"alloc\", \"core\"] }\n[target]\nbpfel-unknown-none = { rustflags = [\"panic=abort\"] }\n";
    let found = missing_cargo_config_requirements(config).unwrap();
    assert_eq!(found[0].1, "target.bpfel-unknown-none table");
    assert!(found.iter().any(|(_, flag)| flag == "panic=abort"));
}

#[test]
fn repair_leaves_overridden_recommendation() {
    let config = "[target.bpfel-unknown-none]\nrustflags = [\"-C\", \"link-arg=--llvm-args=--bpf-max-stores-per-memfunc=10\"]\n";
    let updated = repair(config, SbpfArch::V3).unwrap();
    assert_eq!(
        missing_cargo_config_requirements(&updated).unwrap(),
        vec![(
            Severity::Recommended,
            "link-arg=--llvm-args=--bpf-max-stores-per-memfunc=5".to_string()
        )]
    );
}
