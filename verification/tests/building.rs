use cargo_build_sbpf::arch::{BuildConfig, SbpfArch};
use cargo_build_sbpf::cargo_build::{
    build_command, cargo_home, diagnosis_config, exit_code, find_cargo_config, flag_source,
    has_build_std, has_release_or_profile, has_target, locate_project_command, manifest_path_arg,
    subcommand_words, user_build_command, CargoHome, ConfigFiles, ConfigName, FlagSource,
    ManifestPath,
};
use cargo_build_sbpf::command::{Argument, Invocation, Program};
use cargo_build_sbpf::config::read_settings;
use cargo_build_sbpf::flags::{
    build_rustflags, merged_target_rustflags, target_rustflags, TARGET,
};

fn os_args(args: &[&str]) -> Vec<Option<String>> {
    args.iter().map(|arg| Some(arg.to_string())).collect()
}

fn words(invocation: &Invocation) -> Vec<String> {
    invocation
        .arguments
        .iter()
        .map(|argument| match argument {
            Argument::Text(text) => text.clone(),
            Argument::Manifest => "<manifest>".to_string(),
            Argument::Forwarded(i) => format!("<{i}>"),
        })
        .collect()
}

fn manifest(args: &[&str]) -> Option<String> {
    let args = os_args(args);
    manifest_path_arg(&args).map(|path| match path {
        ManifestPath::Argument(i) => args[i].clone().unwrap(),
        ManifestPath::Inline(text) => text,
    })
}

#[test]
fn finds_manifest_path_forms() {
    assert_eq!(
        manifest(&["--manifest-path", "foo/Cargo.toml"]),
        Some("foo/Cargo.toml".to_string())
    );
    assert_eq!(
        manifest(&["--manifest-path=bar/Cargo.toml"]),
        Some("bar/Cargo.toml".to_string())
    );
}

#[test]
fn finds_the_first_manifest_path() {
    assert_eq!(
        manifest(&["-v", "--manifest-path=a", "--manifest-path", "b"]),
        Some("a".to_string())
    );
    assert_eq!(manifest(&["--manifest-path"]), None);
    assert_eq!(manifest(&["--manifest-path="]), Some(String::new()));
    assert_eq!(manifest(&["--manifest-paths", "b"]), None);
    assert!(matches!(
        manifest_path_arg(&vec![None, Some("--manifest-path".to_string()), None]),
        Some(ManifestPath::Argument(2))
    ));
}

#[test]
fn detects_build_std_forms() {
    assert!(has_build_std(&os_args(&["-Z", "build-std=core,alloc"])));
    assert!(has_build_std(&os_args(&["-Zbuild-std=core,alloc"])));
    assert!(!has_build_std(&os_args(&["-Z", "unstable-options"])));
}

#[test]
fn pairs_unstable_options_with_their_values() {
    assert!(!has_build_std(&os_args(&["-Z"])));
    assert!(!has_build_std(&os_args(&["-Z", "-Zbuild-std"])));
    assert!(has_build_std(&os_args(&["-Z", "-Z", "-Zbuild-std"])));
    assert!(has_build_std(&os_args(&["-Z", "a", "-Z", "build-std"])));
    assert!(!has_build_std(&vec![Some("-Z".to_string()), None]));
}

#[test]
fn detects_target_forms() {
    assert!(has_target(&os_args(&["--target", TARGET])));
    assert!(has_target(&os_args(&["--target=bpfel-unknown-none"])));
    assert!(!has_target(&os_args(&["--target-dir", "target"])));
}

#[test]
fn detects_profile_forms() {
    assert!(has_release_or_profile(&os_args(&["-v", "--release"])));
    assert!(has_release_or_profile(&os_args(&["--profile", "dev"])));
    assert!(has_release_or_profile(&os_args(&["--profile=dev"])));
    assert!(!has_release_or_profile(&os_args(&["--profiles"])));
    assert!(!has_release_or_profile(&vec![None]));
    assert!(!has_target(&os_args(&["--target"])));
}

#[test]
fn finds_cargo_config_from_manifest_ancestors() {
    let none = ConfigFiles { config_toml: false, config: false };
    let toml = ConfigFiles { config_toml: true, config: false };
    let legacy = ConfigFiles { config_toml: false, config: true };
    let both = ConfigFiles { config_toml: true, config: true };
    assert_eq!(find_cargo_config(&vec![toml, none, none]), Some((0, ConfigName::ConfigToml)));
    assert_eq!(find_cargo_config(&vec![none, legacy, toml]), Some((1, ConfigName::Config)));
    assert_eq!(find_cargo_config(&vec![none, both]), Some((1, ConfigName::ConfigToml)));
    assert_eq!(find_cargo_config(&vec![none, none]), None);
    assert_eq!(ConfigName::ConfigToml.as_str(), "config.toml");
    assert_eq!(ConfigName::Config.as_str(), "config");
}

#[test]
fn strips_cargo_subcommand_name() {
    let args = os_args(&["build-sbpf", "--features", "debug"]);
    assert_eq!(args[subcommand_words(&args)..], os_args(&["--features", "debug"])[..]);
    assert_eq!(subcommand_words(&os_args(&["--features", "build-sbpf"])), 0);
    assert_eq!(subcommand_words(&Vec::new()), 0);
    assert_eq!(subcommand_words(&vec![None]), 0);
}

#[test]
fn completes_user_builds() {
    assert_eq!(
        words(&user_build_command(&os_args(&["--features", "debug"]))),
        vec![
            "run",
            "nightly",
            "cargo",
            "build",
            "--release",
            "--target",
            "bpfel-unknown-none",
            "-Z",
            "build-std=core,alloc",
            "<0>",
            "<1>",
        ]
    );
    let full = os_args(&["--profile=dev", "--target=x", "-Zbuild-std"]);
    assert_eq!(
        words(&user_build_command(&full)),
        vec!["run", "nightly", "cargo", "build", "<0>", "<1>", "<2>"]
    );
    assert_eq!(user_build_command(&full).program, Program::Rustup);
}

#[test]
fn builds_with_config_or_flags() {
    let config = BuildConfig { arch: SbpfArch::V0, simd_0460: false };
    let plain = [
        "+nightly",
        "build",
        "--release",
        "--target",
        "bpfel-unknown-none",
        "-Z",
        "build-std=core,alloc",
    ];
    let command = build_command(config, false);
    assert_eq!(command.invocation.program, Program::Cargo);
    assert_eq!(words(&command.invocation), plain);
    assert_eq!(command.rustflags, Some(build_rustflags(config)));

    let command = build_command(config, true);
    assert_eq!(words(&command.invocation)[..7], plain);
    assert_eq!(
        words(&command.invocation)[7..],
        ["--config", "target.bpfel-unknown-none.linker=\"sbpf-linker\""]
    );
    assert_eq!(command.rustflags, None);
}

#[test]
fn lists_build_rustflags() {
    assert_eq!(
        build_rustflags(BuildConfig { arch: SbpfArch::V0, simd_0460: false }),
        "-C linker=sbpf-linker -C panic=abort -C relocation-model=static -C link-arg=--export=__multi3 -C link-arg=--arch=v0 -C link-arg=--llvm-args=-bpf-stack-size=8192 -C link-arg=--llvm-args=--bpf-max-stores-per-memfunc=5 -C link-arg=--llvm-args=--disable-gotox -C link-arg=--llvm-args=--disable-ldsx -C link-arg=--llvm-args=--disable-movsx -C target-cpu=v2 -C target-feature=+allows-misaligned-mem-access"
    );
    assert!(build_rustflags(BuildConfig { arch: SbpfArch::V3, simd_0460: false })
        .contains("-C target-cpu=v4"));
    for arch in [SbpfArch::V0, SbpfArch::V3] {
        for simd_0460 in [false, true] {
            let config = BuildConfig { arch, simd_0460 };
            let flags: Vec<String> =
                build_rustflags(config).split(' ').map(|flag| flag.to_string()).collect();
            let found = read_settings(&flags).unwrap();
            assert_eq!(found.arch, Some(arch));
            assert_eq!(found.stack_size, Some(config.stack_size()));
        }
    }
}

#[test]
fn merges_environment_flags() {
    let own = target_rustflags(SbpfArch::V3, false).join(" ");
    assert!(own.starts_with("-C linker=sbpf-linker -C panic=abort "));
    assert!(own.ends_with("-C link-arg=--llvm-args=--disable-gotox"));
    assert_eq!(merged_target_rustflags(SbpfArch::V3, false, None), own);
    assert_eq!(merged_target_rustflags(SbpfArch::V3, false, Some(" \t")), own);
    assert_eq!(
        merged_target_rustflags(SbpfArch::V3, false, Some(" -g ")),
        format!(" -g  {own}")
    );
}

#[test]
fn picks_the_source_of_flags() {
    let pick = |configured, generate| {
        flag_source(configured, generate, SbpfArch::V0, true, Some("-g")).unwrap()
    };
    assert!(matches!(pick(true, true), FlagSource::Existing));
    assert!(matches!(pick(true, false), FlagSource::Existing));
    assert!(matches!(
        pick(false, true),
        FlagSource::Generated(text) if text.contains("-bpf-stack-size=4096") && text.contains("--arch=v0")
    ));
    assert!(matches!(
        pick(false, false),
        FlagSource::Environment(flags) if flags.starts_with("-g -C linker=sbpf-linker")
    ));
}

#[test]
fn passes_exit_codes_on() {
    assert_eq!(exit_code(Some(0)), 0);
    assert_eq!(exit_code(Some(101)), 101);
    assert_eq!(exit_code(Some(255)), 255);
    assert_eq!(exit_code(Some(256)), 1);
    assert_eq!(exit_code(Some(-1)), 1);
    assert_eq!(exit_code(None), 1);
}

#[test]
fn finds_cargo_home() {
    assert_eq!(cargo_home(Some(3), true, true), Some(CargoHome::Variable));
    assert_eq!(cargo_home(Some(0), true, true), Some(CargoHome::UnderHome));
    assert_eq!(cargo_home(None, false, true), Some(CargoHome::UnderUserProfile));
    assert_eq!(cargo_home(None, false, false), None);
}

#[test]
fn configures_diagnoses() {
    let config = diagnosis_config(None, true, false);
    assert_eq!(config.arch, SbpfArch::V3);
    assert!(config.auto_fix);
    assert!(!config.skip_builtins_check);
    assert_eq!(diagnosis_config(Some(SbpfArch::V0), false, true).arch, SbpfArch::V0);
    assert_eq!(
        words(&locate_project_command()),
        vec!["locate-project", "--message-format", "plain"]
    );
}
