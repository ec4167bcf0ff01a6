//! The compiler flags of an SBPF build.

use vstd::prelude::*;

use crate::arch::{arch_name, frame_size, BuildConfig, SbpfArch};
use crate::number::{decimal, digit, to_decimal};
use crate::text::{
    before, cut_before, join, joined, prefix_comes_off, strip_prefix, text_ends_at_first_occurrence,
    trim, trimmed, views, without_prefix,
};

verus! {

/// The target triple of SBPF programs.
pub const TARGET: &'static str = "bpfel-unknown-none";

/// Which program reads a flag.
#[derive(Clone, Copy, Debug, PartialEq, Eq, Structural)]
pub enum FlagNamespace {
    Llvm,
    Linker,
    Rustc,
}

/// The flags that an SBPF build cannot do without.
pub open spec fn required_flags() -> Seq<Seq<char>> {
    seq![
        "linker=sbpf-linker"@,
        "panic=abort"@,
        "relocation-model=static"@,
        "link-arg=--export=__multi3"@,
    ]
}

/// The flags that make for better SBPF code.
pub open spec fn recommended_flags() -> Seq<Seq<char>> {
    seq![
        "link-arg=--llvm-args=--bpf-max-stores-per-memfunc=5"@,
        "link-arg=--llvm-args=--disable-gotox"@,
    ]
}

/// The flag that selects an architecture.
pub open spec fn arch_flag(arch: SbpfArch) -> Seq<char> {
    "link-arg=--arch="@ + arch_name(arch)
}

/// The flag that sets the size of the BPF stack.
pub open spec fn stack_flag(size: nat) -> Seq<char> {
    "link-arg=--llvm-args=-bpf-stack-size="@ + decimal(size)
}

/// The flags that a Cargo configuration should declare for a build.
pub open spec fn wanted_flags(arch: SbpfArch, simd_0460: bool) -> Seq<Seq<char>> {
    required_flags() + seq![arch_flag(arch), stack_flag(frame_size(arch, simd_0460))]
        + recommended_flags()
}

/// The name of the processor that LLVM generates code for.
pub open spec fn cpu_name(arch: SbpfArch) -> Seq<char> {
    match arch {
        SbpfArch::V0 => "v2"@,
        SbpfArch::V3 => "v4"@,
    }
}

/// The flags of a build that no Cargo configuration governs.
pub open spec fn build_flags(config: BuildConfig) -> Seq<Seq<char>> {
    wanted_flags(config.arch, config.simd_0460) + seq![
        "link-arg=--llvm-args=--disable-ldsx"@,
        "link-arg=--llvm-args=--disable-movsx"@,
        "target-cpu="@ + cpu_name(config.arch),
        "target-feature=+allows-misaligned-mem-access"@,
    ]
}

/// `flags` as arguments of the compiler, each after a `-C`.
pub open spec fn codegen_args(flags: Seq<Seq<char>>) -> Seq<Seq<char>>
    decreases flags.len(),
{
    if flags.len() == 0 {
        Seq::empty()
    } else {
        codegen_args(flags.drop_last()).push("-C"@).push(flags.last())
    }
}

/// What a flag sets: the program that reads it, and the name of the setting. Flags with one key
/// give values to one setting.
pub open spec fn flag_key(flag: Seq<char>) -> (FlagNamespace, Seq<char>) {
    match without_prefix(flag, "link-arg=--llvm-args="@) {
        Some(rest) => (FlagNamespace::Llvm, before(rest, '=')),
        None => match without_prefix(flag, "link-arg="@) {
            Some(rest) => (FlagNamespace::Linker, before(rest, '=')),
            None => (FlagNamespace::Rustc, before(flag, '=')),
        },
    }
}

/// The key of a flag.
pub fn rustflag_key<'a>(flag: &'a str) -> (r: (FlagNamespace, &'a str))
    ensures
        (r.0, r.1@) == flag_key(flag@),
{
    if let Some(rest) = strip_prefix(flag, "link-arg=--llvm-args=") {
        (FlagNamespace::Llvm, cut_before(rest, '='))
    } else if let Some(rest) = strip_prefix(flag, "link-arg=") {
        (FlagNamespace::Linker, cut_before(rest, '='))
    } else {
        (FlagNamespace::Rustc, cut_before(flag, '='))
    }
}

/// The flags that an SBPF build cannot do without.
pub fn required_rustflags() -> (r: Vec<String>)
    ensures
        views(r@) == required_flags(),
{
    let r: Vec<String> = vec![
        "linker=sbpf-linker".to_owned(),
        "panic=abort".to_owned(),
        "relocation-model=static".to_owned(),
        "link-arg=--export=__multi3".to_owned(),
    ];
    assert(views(r@) =~= required_flags());
    r
}

/// The flags that make for better SBPF code.
pub fn recommended_rustflags() -> (r: Vec<String>)
    ensures
        views(r@) == recommended_flags(),
{
    let r: Vec<String> = vec![
        "link-arg=--llvm-args=--bpf-max-stores-per-memfunc=5".to_owned(),
        "link-arg=--llvm-args=--disable-gotox".to_owned(),
    ];
    assert(views(r@) =~= recommended_flags());
    r
}

/// The flag that sets the size of the BPF stack.
pub fn stack_size_flag(size: u64) -> (r: String)
    ensures
        r@ == stack_flag(size as nat),
{
    "link-arg=--llvm-args=-bpf-stack-size=".to_owned().concat(to_decimal(size).as_str())
}

impl SbpfArch {
    /// The flags that tell the linker about the architecture.
    pub fn linker_args(self, simd_0460: bool) -> (r: [String; 2])
        ensures
            r@[0]@ == arch_flag(self),
            r@[1]@ == stack_flag(frame_size(self, simd_0460)),
    {
        [
            "link-arg=--arch=".to_owned().concat(self.as_str()),
            stack_size_flag(self.stack_frame_size(simd_0460) as u64),
        ]
    }
}

/// The flags that a Cargo configuration should declare for a build.
pub fn wanted_rustflags(arch: SbpfArch, simd_0460: bool) -> (r: Vec<String>)
    ensures
        views(r@) == wanted_flags(arch, simd_0460),
{
    let mut r: Vec<String> = required_rustflags();
    let linker_args: [String; 2] = arch.linker_args(simd_0460);
    r.push(linker_args[0].clone());
    r.push(linker_args[1].clone());
    let mut recommended: Vec<String> = recommended_rustflags();
    r.append(&mut recommended);
    assert(views(r@) =~= wanted_flags(arch, simd_0460));
    r
}

/// Puts a `-C` before each flag.
pub fn codegen_arguments(flags: &Vec<String>) -> (r: Vec<String>)
    ensures
        views(r@) == codegen_args(views(flags@)),
{
    let mut r: Vec<String> = Vec::new();
    let mut i: usize = 0;
    while i < flags.len()
        invariant
            i <= flags.len(),
            views(r@) == codegen_args(views(flags@).take(i as int)),
        decreases flags.len() - i,
    {
        let ghost sofar = views(r@);
        r.push("-C".to_owned());
        r.push(flags[i].clone());
        assert(views(r@) =~= sofar.push("-C"@).push(flags@[i as int]@));
        assert(views(flags@).take(i + 1).drop_last() =~= views(flags@).take(i as int));
        i = i + 1;
    }
    assert(views(flags@).take(i as int) =~= views(flags@));
    r
}

/// The compiler arguments that a Cargo configuration should declare for a build.
pub fn target_rustflags(arch: SbpfArch, simd_0460: bool) -> (r: Vec<String>)
    ensures
        views(r@) == codegen_args(wanted_flags(arch, simd_0460)),
{
    codegen_arguments(&wanted_rustflags(arch, simd_0460))
}

/// The value for the environment variable that hands the flags to Cargo: what the variable
/// holds already, if it holds more than white space, and the flags of the build.
pub fn merged_target_rustflags(arch: SbpfArch, simd_0460: bool, existing: Option<&str>) -> (r:
    String)
    ensures
        r@ == match existing {
            Some(existing) if trimmed(existing@).len() > 0 => existing@ + " "@ + joined(
                codegen_args(wanted_flags(arch, simd_0460)),
                " "@,
            ),
            _ => joined(codegen_args(wanted_flags(arch, simd_0460)), " "@),
        },
        joined(codegen_args(wanted_flags(arch, simd_0460)), " "@).is_suffix_of(r@),
        existing matches Some(text) ==> trimmed(text@).len() > 0 ==> text@.push(' ').is_prefix_of(
            r@,
        ),
{
    proof {
        let line = joined(codegen_args(wanted_flags(arch, simd_0460)), " "@);
        assert(line =~= line.subrange(0, line.len() as int));
        if let Some(text) = existing {
            let all = text@ + " "@ + line;
            reveal_strlit(" ");
            assert(line =~= all.subrange(all.len() - line.len(), all.len() as int));
            assert(text@.push(' ') =~= all.subrange(0, text@.len() + 1int));
        }
    }
    let flags: String = join(&target_rustflags(arch, simd_0460), " ");
    match existing {
        Some(existing) => {
            if trim(existing).is_empty() {
                flags
            } else {
                existing.to_owned().concat(" ").concat(flags.as_str())
            }
        },
        None => flags,
    }
}

/// The flags of a build that no Cargo configuration governs, in one line.
pub fn build_rustflags(config: BuildConfig) -> (r: String)
    ensures
        r@ == joined(codegen_args(build_flags(config)), " "@),
{
    let cpu: &str = match config.arch {
        SbpfArch::V0 => "v2",
        SbpfArch::V3 => "v4",
    };
    let mut flags: Vec<String> = wanted_rustflags(config.arch, config.simd_0460);
    flags.push("link-arg=--llvm-args=--disable-ldsx".to_owned());
    flags.push("link-arg=--llvm-args=--disable-movsx".to_owned());
    flags.push("target-cpu=".to_owned().concat(cpu));
    flags.push("target-feature=+allows-misaligned-mem-access".to_owned());
    assert(views(flags@) =~= build_flags(config));
    join(&codegen_arguments(&flags), " ")
}

/// The decimal texts of the two stack sizes.
proof fn lemma_stack_sizes()
    ensures
        decimal(4096) == "4096"@,
        decimal(8192) == "8192"@,
{
    reveal_strlit("4096");
    reveal_strlit("8192");
    reveal_with_fuel(decimal, 4);
    assert(digit(0) == '0' && digit(1) == '1' && digit(2) == '2' && digit(4) == '4');
    assert(digit(6) == '6' && digit(8) == '8' && digit(9) == '9');
    assert(decimal(4096) =~= "4096"@);
    assert(decimal(8192) =~= "8192"@);
}

/// The flags of the architecture and of the stack size, in full.
pub proof fn lemma_flag_texts(arch: SbpfArch, simd_0460: bool)
    ensures
        arch_flag(SbpfArch::V0) == "link-arg=--arch=v0"@,
        arch_flag(SbpfArch::V3) == "link-arg=--arch=v3"@,
        stack_flag(frame_size(arch, simd_0460)) == if arch == SbpfArch::V0 && !simd_0460 {
            "link-arg=--llvm-args=-bpf-stack-size=8192"@
        } else {
            "link-arg=--llvm-args=-bpf-stack-size=4096"@
        },
{
    lemma_stack_sizes();
    reveal_strlit("4096");
    reveal_strlit("8192");
    reveal_strlit("v0");
    reveal_strlit("v3");
    reveal_strlit("link-arg=--arch=");
    reveal_strlit("link-arg=--arch=v0");
    reveal_strlit("link-arg=--arch=v3");
    reveal_strlit("link-arg=--llvm-args=-bpf-stack-size=");
    reveal_strlit("link-arg=--llvm-args=-bpf-stack-size=4096");
    reveal_strlit("link-arg=--llvm-args=-bpf-stack-size=8192");
    assert(arch_flag(SbpfArch::V0) =~= "link-arg=--arch=v0"@);
    assert(arch_flag(SbpfArch::V3) =~= "link-arg=--arch=v3"@);
    assert(stack_flag(4096) =~= "link-arg=--llvm-args=-bpf-stack-size=4096"@);
    assert(stack_flag(8192) =~= "link-arg=--llvm-args=-bpf-stack-size=8192"@);
}

/// Nine flags go with every build, whatever is built.
pub proof fn every_build_has_fixed_flags(config: BuildConfig)
    ensures
        build_flags(config).contains("linker=sbpf-linker"@),
        build_flags(config).contains("panic=abort"@),
        build_flags(config).contains("relocation-model=static"@),
        build_flags(config).contains("link-arg=--export=__multi3"@),
        build_flags(config).contains("link-arg=--llvm-args=--bpf-max-stores-per-memfunc=5"@),
        build_flags(config).contains("link-arg=--llvm-args=--disable-gotox"@),
        build_flags(config).contains("link-arg=--llvm-args=--disable-ldsx"@),
        build_flags(config).contains("link-arg=--llvm-args=--disable-movsx"@),
        build_flags(config).contains("target-feature=+allows-misaligned-mem-access"@),
{
    let flags = build_flags(config);
    assert(flags[0] == "linker=sbpf-linker"@);
    assert(flags[1] == "panic=abort"@);
    assert(flags[2] == "relocation-model=static"@);
    assert(flags[3] == "link-arg=--export=__multi3"@);
    assert(flags[6] == "link-arg=--llvm-args=--bpf-max-stores-per-memfunc=5"@);
    assert(flags[7] == "link-arg=--llvm-args=--disable-gotox"@);
    assert(flags[8] == "link-arg=--llvm-args=--disable-ldsx"@);
    assert(flags[9] == "link-arg=--llvm-args=--disable-movsx"@);
    assert(flags[11] == "target-feature=+allows-misaligned-mem-access"@);
}

/// Three more flags go with a build, for its architecture, its stack size and the processor that
/// goes with the architecture. There are no others.
pub proof fn every_build_has_flags_of_its_own(config: BuildConfig)
    ensures
        build_flags(config).len() == 9 + 3,
        config.arch == SbpfArch::V0 ==> build_flags(config).contains("link-arg=--arch=v0"@)
            && build_flags(config).contains("target-cpu=v2"@),
        config.arch == SbpfArch::V3 ==> build_flags(config).contains("link-arg=--arch=v3"@)
            && build_flags(config).contains("target-cpu=v4"@),
        build_flags(config).contains(
            if config.arch == SbpfArch::V0 && !config.simd_0460 {
                "link-arg=--llvm-args=-bpf-stack-size=8192"@
            } else {
                "link-arg=--llvm-args=-bpf-stack-size=4096"@
            },
        ),
{
    let flags = build_flags(config);
    lemma_flag_texts(config.arch, config.simd_0460);
    reveal_strlit("v2");
    reveal_strlit("v4");
    reveal_strlit("target-cpu=");
    reveal_strlit("target-cpu=v2");
    reveal_strlit("target-cpu=v4");
    assert(flags[4] == arch_flag(config.arch));
    assert(flags[5] == stack_flag(frame_size(config.arch, config.simd_0460)));
    match config.arch {
        SbpfArch::V0 => {
            assert(flags[10] =~= "target-cpu=v2"@);
        },
        SbpfArch::V3 => {
            assert(flags[10] =~= "target-cpu=v4"@);
        },
    }
}

/// The flags of two builds differ in those of the architecture, the stack size and the processor
/// and in no others, and builds for the same architecture with the same stack size have the same
/// flags.
pub proof fn builds_differ_in_flags_of_their_own(a: BuildConfig, b: BuildConfig)
    ensures
        build_flags(a).len() == build_flags(b).len(),
        forall|i: int|
            0 <= i < build_flags(a).len() && #[trigger] build_flags(a)[i] != build_flags(b)[i] ==> {
                ||| "link-arg=--arch="@.is_prefix_of(build_flags(a)[i])
                ||| "link-arg=--llvm-args=-bpf-stack-size="@.is_prefix_of(build_flags(a)[i])
                ||| "target-cpu="@.is_prefix_of(build_flags(a)[i])
            },
        a.arch == b.arch && (a.simd_0460 == b.simd_0460 || a.arch == SbpfArch::V3) ==> build_flags(
            a,
        ) == build_flags(b),
{
    let flags = build_flags(a);
    let arch = "link-arg=--arch="@;
    let stack = "link-arg=--llvm-args=-bpf-stack-size="@;
    let cpu = "target-cpu="@;
    assert(arch =~= flags[4].subrange(0, arch.len() as int));
    assert(stack =~= flags[5].subrange(0, stack.len() as int));
    assert(cpu =~= flags[10].subrange(0, cpu.len() as int));
    if a.arch == b.arch && (a.simd_0460 == b.simd_0460 || a.arch == SbpfArch::V3) {
        assert(flags =~= build_flags(b));
    }
}

/// The flags that a Cargo configuration should declare are the required ones, those of the
/// architecture and the stack size, and the recommended ones: all flags of the build but the four
/// that come last.
pub proof fn configurations_declare_flags_of_the_build(config: BuildConfig)
    ensures
        ({
            let wanted = wanted_flags(config.arch, config.simd_0460);
            &&& wanted.len() + 4 == build_flags(config).len()
            &&& wanted.is_prefix_of(build_flags(config))
            &&& required_flags() == seq![
                "linker=sbpf-linker"@,
                "panic=abort"@,
                "relocation-model=static"@,
                "link-arg=--export=__multi3"@,
            ]
            &&& recommended_flags() == seq![
                "link-arg=--llvm-args=--bpf-max-stores-per-memfunc=5"@,
                "link-arg=--llvm-args=--disable-gotox"@,
            ]
            &&& required_flags().is_prefix_of(wanted)
            &&& recommended_flags().is_suffix_of(wanted)
            &&& wanted.len() == required_flags().len() + 2 + recommended_flags().len()
        }),
{
    let wanted = wanted_flags(config.arch, config.simd_0460);
    assert(wanted =~= build_flags(config).subrange(0, wanted.len() as int));
    assert(required_flags() =~= wanted.subrange(0, 4));
    assert(recommended_flags() =~= wanted.subrange(6, 8));
}

/// Compiler arguments are flags, in their order, each directly behind a `-C` of its own.
pub proof fn every_flag_follows_an_option(flags: Seq<Seq<char>>)
    ensures
        codegen_args(flags).len() == 2 * flags.len(),
        forall|i: int|
            0 <= i < codegen_args(flags).len() ==> #[trigger] codegen_args(flags)[i] == if i % 2
                == 0 {
                "-C"@
            } else {
                flags[i / 2]
            },
    decreases flags.len(),
{
    if flags.len() > 0 {
        let front = flags.drop_last();
        let args = codegen_args(flags);
        every_flag_follows_an_option(front);
        assert forall|i: int| 0 <= i < args.len() implies #[trigger] args[i] == if i % 2 == 0 {
            "-C"@
        } else {
            flags[i / 2]
        } by {
            if i < codegen_args(front).len() {
                assert(args[i] == codegen_args(front)[i]);
            }
        }
    }
}

/// Flags give a value to one setting exactly where they have one name up to the first equals sign,
/// for the same program. What follows the equals sign is the value.
pub proof fn flags_are_known_by_their_names(name: Seq<char>, value: Seq<char>)
    requires
        !name.contains('='),
    ensures
        flag_key("link-arg=--llvm-args="@ + name) == (FlagNamespace::Llvm, name),
        flag_key("link-arg=--llvm-args="@ + name + seq!['='] + value) == (FlagNamespace::Llvm, name),
        name != "--llvm-args"@ ==> flag_key("link-arg="@ + name + seq!['='] + value) == (
            FlagNamespace::Linker,
            name,
        ),
        flag_key("link-arg="@ + name) == (FlagNamespace::Linker, name),
        name != "link-arg"@ ==> flag_key(name + seq!['='] + value) == (FlagNamespace::Rustc, name),
        flag_key(name) == (FlagNamespace::Rustc, name),
{
    reveal_strlit("link-arg");
    reveal_strlit("--llvm-args");
    reveal_strlit("link-arg=");
    reveal_strlit("link-arg=--llvm-args=");
    let llvm = "link-arg=--llvm-args="@;
    let link = "link-arg="@;
    let setting = name + seq!['='] + value;
    text_ends_at_first_occurrence(name, '=', value);
    assert forall|i: int| 0 <= i < name.len() implies name[i] != '=' by {
        assert(name.contains(name[i]));
    }
    prefix_comes_off(name, llvm);
    prefix_comes_off(setting, llvm);
    assert(llvm + name + seq!['='] + value =~= llvm + setting);
    prefix_comes_off(name, link);
    prefix_comes_off(setting, link);
    assert(link + name + seq!['='] + value =~= link + setting);
    assert(link[8] == '=' && llvm[8] == '=' && llvm[20] == '=');
    // A name of the linker that opens an option for LLVM would be that option.
    if llvm.is_prefix_of(link + name) {
        assert(llvm.subrange(0, 21)[20] == (link + name).subrange(0, 21)[20]);
        assert((link + name)[20] == name[11]);
    }
    if llvm.is_prefix_of(link + setting) {
        let all = link + setting;
        assert forall|i: int| 0 <= i < 21 implies #[trigger] all[i] == llvm[i] by {
            assert(llvm[i] == all.subrange(0, 21)[i]);
        }
        if name.len() > 11 {
            assert(all[20] == name[11]);
        } else if name.len() < 11 {
            assert(all[9int + name.len()] == '=');
            assert(llvm[9int + name.len()] != '=');
        } else {
            assert forall|i: int| 0 <= i < 11 implies name[i] == "--llvm-args"@[i] by {
                assert(all[9 + i] == llvm[9 + i]);
            }
            assert(name =~= "--llvm-args"@);
        }
    }
    if link.is_prefix_of(name) {
        assert(link.subrange(0, 9)[8] == name.subrange(0, 9)[8]);
    }
    if llvm.is_prefix_of(name) {
        assert(llvm.subrange(0, 21)[8] == name.subrange(0, 21)[8]);
    }
    if link.is_prefix_of(setting) || llvm.is_prefix_of(setting) {
        assert forall|i: int| 0 <= i < 9 implies #[trigger] setting[i] == link[i] by {
            if link.is_prefix_of(setting) {
                assert(link[i] == setting.subrange(0, 9)[i]);
            } else {
                assert(llvm[i] == setting.subrange(0, 21)[i]);
                assert(llvm[i] == link[i]);
            }
        }
        if name.len() > 8 {
            assert(setting[8] == name[8]);
        } else if name.len() < 8 {
            assert(setting[name.len() as int] == '=');
            assert(link[name.len() as int] != '=');
        } else {
            assert(name =~= "link-arg"@) by {
                assert forall|i: int| 0 <= i < 8 implies name[i] == "link-arg"@[i] by {
                    assert(setting[i] == link[i]);
                }
            }
        }
    }
}

} // verus!
