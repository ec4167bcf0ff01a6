use cargo_build_sbpf::arch::{BuildConfig, SbpfArch};
use cargo_build_sbpf::gaps::missing_cargo_config_requirements;
use cargo_build_sbpf::repair::ensure_recommended_cargo_config_in_content;

const LAYOUTS: [&str; 27] = [
    "",
    "# only a comment",
    "\r\n# windows\r\n[build]\r\njobs = 1\r\n",
    "\u{feff}[build]\njobs = 1",
    "unstable.mtime-on-use = true\n",
    "unstable . mtime-on-use=true # c",
    "target.x86_64-unknown-linux-gnu.linker = \"cc\"\n",
    "target.bpfel-unknown-none.linker = \"cc\"\n[unstable.panic]\nx = 1\n",
    "[target.x86_64-unknown-linux-gnu]\nlinker = \"cc\"\n",
    "[target.\"bpfel-unknown-none\"]\nlinker = 'cc'\n[unstable]\nbuild-std = [ # c\n]\n",
    "[ target . \"bpfel-unknown-none\" ]\n",
    "[target]\nx = { linker = \"cc\" }\n\n[[registry-list]]\na = 1\n[registry-list.b]\nc = 2\n",
    "[b.x]\ny = 1\n[a]\nz = 2\n[b.y]\nw = 3\n",
    "[target.bpfel-unknown-none]\nrustflags = [ # first\n  \"-C\", # second\n  \"lto=off\" # third\n]\n",
    "[target.bpfel-unknown-none]\nrustflags = [ # none\n]\n",
    "[target.bpfel-unknown-none]\nrustflags = [\n  \"-C\", \"lto=off\", # last\n]\n# end",
    "[target.bpfel-unknown-none]\nrustflags = ['-C', \"\"\"lto=off\"\"\"] # kept\n[target.bpfel-unknown-none.x]\nrustc-link-lib = [\"a\"]\n",
    "[unstable.build-std]\nx = 1\n[target.bpfel-unknown-none]\nrustflags = []\n",
    "[b.q]\ny = 1\n[[unstable.x]]\nq = 1\n[b.r]\nk = 2\n",
    "[b.q]\ny = 1\n[unstable.x]\nq = 1\n[b.r]\nk = 2\n",
    "[b.q]\ny = 1\n[target.bpfel-unknown-none.x]\nq = 1\n[b.r]\nk = 2\n",
    "[b.q]\ny = 1\n[[target.bpfel-unknown-none.x]]\nq = 1\n[b.r]\nk = 2\n[target]\n",
    "[target]\nbpfel-unknown-none.linker = \"cc\"\n",
    "[target]\nx.linker = \"cc\"\n",
    "['unstable']\n\"mtime-on-use\" = true\n[b.q]\ny = 1\n",
    "target.bpfel-unknown-none.x.y = 1\n[target.bpfel-unknown-none.z]\nw = 1\n",
    "[env]\nA = { value = \"1\", force = true }\n[alias]\nb = [\"build\"]\n",
];

#[test]
fn repairs_any_layout() {
    for text in LAYOUTS {
        let updated =
            ensure_recommended_cargo_config_in_content(text, SbpfArch::V0, false).unwrap();
        assert!(missing_cargo_config_requirements(&updated).unwrap().is_empty(), "{updated}");
        let again =
            ensure_recommended_cargo_config_in_content(&updated, SbpfArch::V0, false).unwrap();
        assert!(missing_cargo_config_requirements(&again).unwrap().is_empty(), "{again}");
        for kept in ["jobs = 1", "linker", "mtime-on-use", "lto=off", "rustc-link-lib", "y = 1"] {
            assert!(!text.contains(kept) || updated.contains(kept), "{updated}");
        }
    }
}

#[test]
fn updates_any_layout() {
    for text in LAYOUTS {
        let found = BuildConfig::load(Some(SbpfArch::V0), false, Some(text)).unwrap();
        let updated = found.update.unwrap().finish(true).unwrap();
        let again = BuildConfig::load(Some(SbpfArch::V0), false, Some(&updated)).unwrap();
        assert!(again.update.is_none(), "{updated}");
        for kept in ["jobs = 1", "linker", "mtime-on-use", "lto=off", "rustc-link-lib", "y = 1"] {
            assert!(!text.contains(kept) || updated.contains(kept), "{updated}");
        }
    }
}

fn deeply_nested() -> Vec<String> {
    let parts = |n: usize| vec!["a"; n].join(".");
    vec![
        format!("[{}]\n", parts(80)),
        format!("{} = 1\n", parts(80)),
        format!("[{}]\n{} = 1\n", parts(80), parts(80)),
        format!("[[{}]]\n{} = 1\n", parts(80), parts(80)),
        format!("[target]\n{} = 1\n", parts(80)),
        format!("[target.bpfel-unknown-none]\nx.{} = 1\n", parts(79)),
        format!("[target]\nbpfel-unknown-none.x.{} = 1\n", parts(78)),
        format!("target.bpfel-unknown-none.x.{} = 1\n[target.y.{}]\n", parts(77), parts(78)),
        format!("unstable.{} = 1\n[unstable.x.{}]\n{} = 1\n", parts(79), parts(78), parts(80)),
    ]
}

#[test]
fn repairs_deeply_nested_tables() {
    for text in deeply_nested() {
        let updated =
            ensure_recommended_cargo_config_in_content(&text, SbpfArch::V3, false).unwrap();
        assert!(missing_cargo_config_requirements(&updated).unwrap().is_empty(), "{updated}");
        assert_eq!(text.contains("= 1\n"), updated.contains("= 1\n"));
    }
    let long = format!("[{}]\n", vec!["a"; 81].join("."));
    assert!(missing_cargo_config_requirements(&long).is_err());
    assert!(ensure_recommended_cargo_config_in_content(&long, SbpfArch::V3, false).is_err());
}

#[test]
fn updates_deeply_nested_tables() {
    for text in deeply_nested() {
        let Ok(found) = BuildConfig::load(Some(SbpfArch::V0), false, Some(&text)) else {
            assert!(text.contains("target"));
            continue;
        };
        let updated = found.update.unwrap().finish(true).unwrap();
        let again = BuildConfig::load(Some(SbpfArch::V0), false, Some(&updated)).unwrap();
        assert!(again.update.is_none(), "{updated}");
    }
}

#[test]
fn keeps_how_values_are_written() {
    let text = "[build]\njobs = 0x2 # few\n[target.bpfel-unknown-none]\nrustflags = [ # first\n  '-C', # second\n\t\"lto=off\" # third\n]\nlinker = 'cc'\n";
    let found = BuildConfig::load(Some(SbpfArch::V0), false, Some(text)).unwrap();
    let updated = found.update.unwrap().finish(true).unwrap();
    for kept in ["0x2 # few", "[ # first\n  '-C', # second\n\t\"lto=off\"", "# third", "'cc'"] {
        assert!(updated.contains(kept), "{updated}");
    }
    let repaired =
        ensure_recommended_cargo_config_in_content(text, SbpfArch::V0, false).unwrap();
    for kept in ["0x2 # few", "'cc'"] {
        assert!(repaired.contains(kept), "{repaired}");
    }
}
