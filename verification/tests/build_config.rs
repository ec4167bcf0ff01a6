use cargo_build_sbpf::arch::{BuildConfig, SbpfArch};
use cargo_build_sbpf::config::{
    check_conflict, read_settings, refit_flags, resolve, LoadError, LoadFault, Loaded,
};
use cargo_build_sbpf::repair::ensure_recommended_cargo_config_in_content;

fn list(flags: &[&str]) -> Vec<String> {
    flags.iter().map(|flag| flag.to_string()).collect()
}

fn load(arch: Option<SbpfArch>, simd_0460: bool, text: &str) -> Result<Loaded, LoadError> {
    BuildConfig::load(arch, simd_0460, Some(text))
}

fn load_message(arch: Option<SbpfArch>, text: &str) -> String {
    load(arch, false, text).unwrap_err().message("/p/config.toml")
}

#[test]
fn stack_size_policy() {
    assert_eq!(BuildConfig { arch: SbpfArch::V0, simd_0460: false }.stack_size(), 8192);
    for build in [
        BuildConfig { arch: SbpfArch::V0, simd_0460: true },
        BuildConfig { arch: SbpfArch::V3, simd_0460: false },
        BuildConfig { arch: SbpfArch::V3, simd_0460: true },
    ] {
        assert_eq!(build.stack_size(), 4096);
    }
}

#[test]
fn stack_frame_size_agrees_with_stack_size() {
    for arch in [SbpfArch::V0, SbpfArch::V3] {
        for simd_0460 in [false, true] {
            assert_eq!(
                arch.stack_frame_size(simd_0460) as u64,
                BuildConfig { arch, simd_0460 }.stack_size()
            );
        }
    }
}

#[test]
fn names_architectures() {
    assert_eq!(SbpfArch::V0.as_str(), "v0");
    assert_eq!(SbpfArch::V3.as_str(), "v3");
    for arch in [SbpfArch::V0, SbpfArch::V3] {
        assert_eq!(SbpfArch::from_name(arch.as_str()), Some(arch));
    }
    assert_eq!(SbpfArch::from_name("v2"), None);
    assert_eq!(SbpfArch::from_name("V0"), None);
    assert_eq!(SbpfArch::default(), SbpfArch::V3);
}

#[test]
fn loads_string_rustflags_and_rejects_arch_conflicts() {
    let text = "[target.bpfel-unknown-none]\nrustflags = \"-C link-arg=--arch=v0 -C link-arg=--llvm-args=-bpf-stack-size=8192\"\n";
    let loaded = load(None, false, text);
    let conflict = load(Some(SbpfArch::V3), false, text);
    assert_eq!(loaded.unwrap().build.arch, SbpfArch::V0);
    assert!(conflict.err().unwrap().message("config.toml").contains("architecture conflict"));
}

#[test]
fn builds_without_config() {
    let found = BuildConfig::load(None, true, None).unwrap();
    assert_eq!(found.build, BuildConfig { arch: SbpfArch::V3, simd_0460: true });
    assert!(found.update.is_none());
    let found = BuildConfig::load(Some(SbpfArch::V0), false, None).unwrap();
    assert_eq!(found.build, BuildConfig { arch: SbpfArch::V0, simd_0460: false });
    assert!(found.update.is_none());
}

#[test]
fn takes_arch_from_request_then_config_then_default() {
    let silent = "[target.bpfel-unknown-none]\nrustflags = [\"-C\", \"link-arg=--llvm-args=-bpf-stack-size=4096\"]\n";
    assert_eq!(load(None, false, silent).unwrap().build.arch, SbpfArch::V3);
    assert_eq!(load(Some(SbpfArch::V0), false, silent).unwrap().build.arch, SbpfArch::V0);
    let v0 = "[target.bpfel-unknown-none]\nrustflags = [\"-Clink-arg=--arch=v0\"]\n";
    assert_eq!(load(None, false, v0).unwrap().build.arch, SbpfArch::V0);
    assert_eq!(load(Some(SbpfArch::V0), true, v0).unwrap().build.arch, SbpfArch::V0);
    assert_eq!(
        load_message(Some(SbpfArch::V3), v0),
        "SBPF architecture conflict: --arch v3 was requested, but Cargo config specifies v0"
    );
}

#[test]
fn says_why_a_config_is_refused() {
    assert_eq!(load_message(None, "= 3"), "failed to parse /p/config.toml");
    assert_eq!(
        load_message(None, "[target.bpfel-unknown-none]\nrustflags = 3\n"),
        "invalid Cargo config in /p/config.toml"
    );
    assert_eq!(
        load_message(None, "[target.bpfel-unknown-none]\nrustflags = [\"-C\", 3]\n"),
        "invalid Cargo config in /p/config.toml"
    );
    assert_eq!(
        load_message(None, "[target.bpfel-unknown-none]\nrustflags = [\"link-arg=--arch=v1\"]\n"),
        "unsupported SBPF architecture `v1` in /p/config.toml"
    );
    assert_eq!(
        load_message(
            None,
            "[target.bpfel-unknown-none]\nrustflags = \"-C link-arg=--arch=v0 -C link-arg=--arch=v3\"\n"
        ),
        "Cargo config contains conflicting SBPF architectures"
    );
    assert_eq!(
        load_message(
            None,
            "[target.bpfel-unknown-none]\nrustflags = [\"-C link-arg=--llvm-args=-bpf-stack-size=4k\"]\n"
        ),
        "invalid BPF stack size `4k` in /p/config.toml"
    );
    assert_eq!(
        load_message(
            None,
            "[target.bpfel-unknown-none]\nrustflags = [\"link-arg=--llvm-args=-bpf-stack-size=4096\", \"link-arg=--llvm-args=--bpf-stack-size=8192\"]\n"
        ),
        "Cargo config contains conflicting BPF stack sizes"
    );
}

#[test]
fn reads_settings_of_flags() {
    let found = read_settings(&list(&[
        "-C",
        "link-arg=--arch=v0",
        "-C  link-arg=--llvm-args=--bpf-stack-size=+8192",
        "lto=off",
    ]))
    .unwrap();
    assert_eq!(found.arch, Some(SbpfArch::V0));
    assert_eq!(found.stack_size, Some(8192));
    let found = read_settings(&list(&["-C", "link-args=--arch=v0"])).unwrap();
    assert_eq!(found.arch, None);
    assert_eq!(found.stack_size, None);
    assert!(matches!(
        read_settings(&list(&["link-arg=--llvm-args=-bpf-stack-size=18446744073709551616"])),
        Err(LoadFault::InvalidStackSize(value)) if value == "18446744073709551616"
    ));
}

#[test]
fn asks_before_updating_the_stack_size() {
    let missing = load(None, false, "").unwrap().update.unwrap();
    assert_eq!(
        missing.prompt("/p/config.toml"),
        "Cargo config has no BPF stack size. Update /p/config.toml to use 4096?"
    );
    let text = "[target.bpfel-unknown-none]\nrustflags = [\"link-arg=--arch=v0\", \"link-arg=--llvm-args=-bpf-stack-size=4096\"]\n";
    let update = load(None, false, text).unwrap().update.unwrap();
    assert_eq!(
        update.prompt("c"),
        "Cargo config uses BPF stack size 4096, but this build requires 8192. Update c?"
    );
    assert_eq!(
        update.finish(false).unwrap_err().message("c"),
        "the configured BPF stack size does not match this build"
    );
    assert!(load(None, true, text).unwrap().update.is_none());
}

#[test]
fn updates_fit_the_build() {
    for text in [
        "",
        "[target]\n",
        "[build]\njobs = 2\n\n[target.bpfel-unknown-none]\nlinker = \"x\"\n",
        "[target.bpfel-unknown-none]\nrustflags = []\n",
        "[target.bpfel-unknown-none]\nrustflags = [\"-C\", \"lto=off\"] # kept\n",
        "[target.bpfel-unknown-none]\nrustflags = [\"-Clink-arg=--llvm-args=--bpf-stack-size=1\", \"-C\", \"link-arg=--llvm-args=-bpf-stack-size=1\"]\n",
        "[target.bpfel-unknown-none]\nrustflags = \"\"\n",
        "[target.bpfel-unknown-none]\nrustflags = \"-C  lto=off\"\n",
        "[target.bpfel-unknown-none]\nrustflags = \"-C link-arg=--llvm-args=--bpf-stack-size=8 -Clink-arg=--llvm-args=-bpf-stack-size=8\"\n",
    ] {
        let update = load(Some(SbpfArch::V0), false, text).unwrap().update.unwrap();
        let updated = update.finish(true).unwrap();
        assert!(updated.contains("-bpf-stack-size=8192"), "{updated}");
        assert!(!updated.contains("--bpf-stack-size="), "{updated}");
        let again = load(Some(SbpfArch::V0), false, &updated).unwrap();
        assert_eq!(again.build.arch, SbpfArch::V0);
        assert!(again.update.is_none());
    }
}

#[test]
fn updates_keep_what_they_need_not_change() {
    let text = "# top\n[build]\njobs = 2\n\n[target.bpfel-unknown-none]\nlinker = \"x\" # mine\nrustflags = \"-C  lto=off -Clink-arg=--llvm-args=-bpf-stack-size=1\"\n";
    let updated = load(None, false, text).unwrap().update.unwrap().finish(true).unwrap();
    assert!(updated.contains("# top\n[build]\njobs = 2\n"));
    assert!(updated.contains("linker = \"x\" # mine\n"));
    assert!(updated.contains(
        "rustflags = \"-C lto=off -Clink-arg=--llvm-args=-bpf-stack-size=4096\""
    ));
}

#[test]
fn updates_need_tables() {
    let message = |text: &str| {
        load(None, false, text).unwrap().update.unwrap().finish(true).unwrap_err().message("c")
    };
    assert_eq!(message("target = {}\n"), "Cargo config `target` must be a table");
    assert_eq!(
        message("[target]\nbpfel-unknown-none = { linker = \"x\" }\n"),
        "Cargo config `target.bpfel-unknown-none` must be a table"
    );
}

#[test]
fn fresh_configs_fit_their_build() {
    for arch in [SbpfArch::V0, SbpfArch::V3] {
        for simd_0460 in [false, true] {
            let text = ensure_recommended_cargo_config_in_content("", arch, simd_0460).unwrap();
            let found = load(None, simd_0460, &text).unwrap();
            assert_eq!(found.build, BuildConfig { arch, simd_0460 });
            assert!(found.update.is_none());
        }
    }
}

#[test]
fn resolves_flags() {
    let flags = list(&["-C", "link-arg=--arch=v0"]);
    let v0 = BuildConfig { arch: SbpfArch::V0, simd_0460: false };
    assert_eq!(resolve(&flags, None, false).unwrap(), (v0, None));
    assert_eq!(resolve(&flags, Some(SbpfArch::V0), false).unwrap(), (v0, None));
    assert!(matches!(
        resolve(&flags, Some(SbpfArch::V3), false),
        Err(LoadFault::ArchMismatch { requested: SbpfArch::V3, configured: SbpfArch::V0 })
    ));
}

#[test]
fn refits_flags() {
    assert_eq!(
        refit_flags(&list(&["-C", "lto=off"]), 4096),
        list(&["-C", "lto=off", "-C", "link-arg=--llvm-args=-bpf-stack-size=4096"])
    );
    assert_eq!(
        refit_flags(
            &list(&[
                "-C\tlink-arg=--llvm-args=--bpf-stack-size=x",
                " link-arg=--llvm-args=-bpf-stack-size=",
                "lto=off",
            ]),
            8192
        ),
        list(&[
            "-Clink-arg=--llvm-args=-bpf-stack-size=8192",
            "link-arg=--llvm-args=-bpf-stack-size=8192",
            "lto=off",
        ])
    );
}

#[test]
fn notes_the_first_value() {
    for values in [vec![7_u64], vec![7, 7, 7], vec![7, 8, 7, 9]] {
        let mut configured = None;
        for value in &values {
            let expected = if *value == values[0] { Ok(()) } else { Err((values[0], *value)) };
            assert_eq!(check_conflict(&mut configured, *value), expected);
        }
        assert_eq!(configured, Some(values[0]));
    }
    let mut arch = Some(SbpfArch::V0);
    assert_eq!(check_conflict(&mut arch, SbpfArch::V3), Err((SbpfArch::V0, SbpfArch::V3)));
    assert_eq!(arch, Some(SbpfArch::V0));
}

#[test]
fn loading_settles() {
    for (arch, text) in [
        (None, ""),
        (Some(SbpfArch::V0), "[target.bpfel-unknown-none]\nrustflags = \"-C lto=off\"\n"),
        (None, "[target.bpfel-unknown-none]\nrustflags = [\"link-arg=--arch=v0\"]\n"),
    ] {
        let first = load(arch, false, text).unwrap();
        let updated = first.update.unwrap().finish(true).unwrap();
        for _ in 0..2 {
            let again = load(arch, false, &updated).unwrap();
            assert_eq!(again.build, first.build);
            assert!(again.update.is_none());
        }
    }
}

#[test]
fn updates_lay_out_what_they_put_in() {
    let update = |text: &str| {
        load(None, false, text).unwrap().update.unwrap().finish(true).unwrap()
    };
    assert!(update("").contains(
        "[\"-C\", \"link-arg=--llvm-args=-bpf-stack-size=4096\"]"
    ));
    assert!(update(
        "[target.bpfel-unknown-none]\nrustflags = [\n  '-C', # c\n  \"link-arg=--llvm-args=-bpf-stack-size=1\" ]\n"
    )
    .contains("[\n  '-C', \"link-arg=--llvm-args=-bpf-stack-size=4096\"]"));
    assert!(update(
        "[target.bpfel-unknown-none]\nrustflags = [\n  '-C', # c\n  \"lto=off\", # d\n]\n"
    )
    .contains(
        "[\n  '-C', # c\n  \"lto=off\", \"-C\", \"link-arg=--llvm-args=-bpf-stack-size=4096\", # d\n]"
    ));
    assert!(update("[target.bpfel-unknown-none]\nrustflags = '--cfg a=\"b\"'\n").contains(
        "'--cfg a=\"b\" -C link-arg=--llvm-args=-bpf-stack-size=4096'"
    ));
}
