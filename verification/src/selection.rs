//! The flags of a build select the build: whoever reads them finds its architecture and its
//! stack size.

use vstd::prelude::*;

use crate::arch::{arch_name, arch_name_reads_back, frame_size, BuildConfig, SbpfArch};
use crate::config::{
    arch_value, bare, declared, fits, lemma_codegen_option, lemma_one_setting, lemma_stack_flag,
    loaded, settings, settings_are_agreed, stack_value, consistent, LoadFault, Settings,
};
use crate::gaps::fresh_config_has_no_gaps;
use crate::flags::{arch_flag, build_flags, codegen_args, stack_flag, wanted_flags, TARGET};
use crate::merge::{merge_brings_in_flags, merge_keeps_flags, merged};
use crate::number::decimal_reads_back;
use crate::repair::{array_flags, repaired, subtable};
use crate::text::{is_word, joined, lemma_solid_word, white_space};
use crate::toml::{joined_words_read_back, rustflags_node, spaced_words, text_list, Entries, Node};

verus! {

/// A flag that differs from the flags for both settings somewhere sets neither.
proof fn lemma_silent(flag: Seq<char>, i: int, j: int, k: int)
    requires
        flag.len() > 0,
        flag[0] != '-',
        !white_space(flag[0]),
        0 <= i < "link-arg=--arch="@.len(),
        i < flag.len() ==> flag[i] != "link-arg=--arch="@[i],
        0 <= j < "link-arg=--llvm-args=-bpf-stack-size="@.len(),
        j < flag.len() ==> flag[j] != "link-arg=--llvm-args=-bpf-stack-size="@[j],
        0 <= k < "link-arg=--llvm-args=--bpf-stack-size="@.len(),
        k < flag.len() ==> flag[k] != "link-arg=--llvm-args=--bpf-stack-size="@[k],
    ensures
        arch_value(flag) is None,
        stack_value(flag) is None,
{
    reveal_strlit("-C");
    assert(!"-C"@.is_prefix_of(flag)) by {
        assert("-C"@[0] == '-');
    }
    assert(bare(flag) == flag);
}

/// What the flag that selects an architecture says.
proof fn lemma_arch_flag(arch: SbpfArch)
    ensures
        arch_value(arch_flag(arch)) == Some(arch_name(arch)),
        stack_value(arch_flag(arch)) is None,
        is_word(arch_flag(arch)),
{
    let flag = arch_flag(arch);
    let prefix = "link-arg=--arch="@;
    reveal_strlit("-C");
    reveal_strlit("v0");
    reveal_strlit("v3");
    reveal_strlit("link-arg=--arch=");
    assert(!"-C"@.is_prefix_of(flag)) by {
        assert("-C"@[0] == '-');
        assert(flag[0] == 'l');
    }
    assert(bare(flag) == flag);
    assert(prefix.is_prefix_of(flag)) by {
        assert(flag.take(prefix.len() as int) =~= prefix);
    }
    assert(flag.skip(prefix.len() as int) =~= arch_name(arch));
    lemma_one_setting(flag);
    lemma_solid_word(flag);
}

/// Of the flags of a build one selects the architecture, one sets the stack size, and the others
/// do neither.
proof fn lemma_build_flags(config: BuildConfig)
    ensures
        build_flags(config).len() == 12,
        build_flags(config)[4] == arch_flag(config.arch),
        build_flags(config)[5] == stack_flag(frame_size(config.arch, config.simd_0460)),
        forall|i: int|
            0 <= i < 12 && i != 4 ==> arch_value(#[trigger] build_flags(config)[i]) is None,
        forall|i: int|
            0 <= i < 12 && i != 5 ==> stack_value(#[trigger] build_flags(config)[i]) is None,
{
    let flags = build_flags(config);
    reveal_strlit("link-arg=--arch=");
    reveal_strlit("link-arg=--llvm-args=-bpf-stack-size=");
    reveal_strlit("link-arg=--llvm-args=--bpf-stack-size=");
    assert(arch_value(flags[0]) is None && stack_value(flags[0]) is None) by {
        reveal_strlit("linker=sbpf-linker");
        lemma_silent(flags[0], 4, 4, 4);
    }
    assert(arch_value(flags[1]) is None && stack_value(flags[1]) is None) by {
        reveal_strlit("panic=abort");
        lemma_silent(flags[1], 0, 0, 0);
    }
    assert(arch_value(flags[2]) is None && stack_value(flags[2]) is None) by {
        reveal_strlit("relocation-model=static");
        lemma_silent(flags[2], 0, 0, 0);
    }
    assert(arch_value(flags[3]) is None && stack_value(flags[3]) is None) by {
        reveal_strlit("link-arg=--export=__multi3");
        lemma_silent(flags[3], 11, 11, 11);
    }
    lemma_arch_flag(config.arch);
    lemma_stack_flag(frame_size(config.arch, config.simd_0460));
    assert(arch_value(flags[6]) is None && stack_value(flags[6]) is None) by {
        reveal_strlit("link-arg=--llvm-args=--bpf-max-stores-per-memfunc=5");
        lemma_silent(flags[6], 11, 22, 27);
    }
    assert(arch_value(flags[7]) is None && stack_value(flags[7]) is None) by {
        reveal_strlit("link-arg=--llvm-args=--disable-gotox");
        lemma_silent(flags[7], 11, 22, 23);
    }
    assert(arch_value(flags[8]) is None && stack_value(flags[8]) is None) by {
        reveal_strlit("link-arg=--llvm-args=--disable-ldsx");
        lemma_silent(flags[8], 11, 22, 23);
    }
    assert(arch_value(flags[9]) is None && stack_value(flags[9]) is None) by {
        reveal_strlit("link-arg=--llvm-args=--disable-movsx");
        lemma_silent(flags[9], 11, 22, 23);
    }
    assert(arch_value(flags[10]) is None && stack_value(flags[10]) is None) by {
        reveal_strlit("target-cpu=");
        assert(flags[10][0] == 't');
        lemma_silent(flags[10], 0, 0, 0);
    }
    assert(arch_value(flags[11]) is None && stack_value(flags[11]) is None) by {
        reveal_strlit("target-feature=+allows-misaligned-mem-access");
        lemma_silent(flags[11], 0, 0, 0);
    }
}

/// Compiler arguments are flags and the `-C`s before them.
proof fn lemma_codegen_args(flags: Seq<Seq<char>>)
    ensures
        forall|i: int|
            0 <= i < codegen_args(flags).len() ==> #[trigger] codegen_args(flags)[i] == "-C"@
                || flags.contains(codegen_args(flags)[i]),
        forall|k: int| 0 <= k < flags.len() ==> codegen_args(flags).contains(#[trigger] flags[k]),
    decreases flags.len(),
{
    if flags.len() > 0 {
        let front = flags.drop_last();
        let args = codegen_args(flags);
        let sofar = codegen_args(front);
        lemma_codegen_args(front);
        assert forall|i: int| 0 <= i < args.len() implies #[trigger] args[i] == "-C"@
            || flags.contains(args[i]) by {
            if i < sofar.len() {
                assert(args[i] == sofar[i]);
                if args[i] != "-C"@ {
                    let k = choose|k: int| 0 <= k < front.len() && front[k] == sofar[i];
                    assert(flags[k] == args[i]);
                }
            } else if i == sofar.len() + 1 {
                assert(flags[flags.len() - 1] == args[i]);
            }
        }
        assert forall|k: int| 0 <= k < flags.len() implies args.contains(#[trigger] flags[k]) by {
            if k < front.len() {
                assert(front[k] == flags[k]);
                let i = choose|i: int| 0 <= i < sofar.len() && sofar[i] == front[k];
                assert(args[i] == flags[k]);
            } else {
                assert(args[sofar.len() + 1int] == flags[k]);
            }
        }
    }
}

/// Flags that hold those of an architecture and a stack size, and others only where they set
/// neither, select that architecture and set that stack size.
proof fn lemma_settings(flags: Seq<Seq<char>>, arch: SbpfArch, size: u64)
    requires
        flags.contains(arch_flag(arch)),
        flags.contains(stack_flag(size as nat)),
        forall|i: int|
            0 <= i < flags.len() ==> #[trigger] flags[i] == arch_flag(arch) || arch_value(
                flags[i],
            ) is None,
        forall|i: int|
            0 <= i < flags.len() ==> #[trigger] flags[i] == stack_flag(size as nat)
                || stack_value(flags[i]) is None,
    ensures
        settings(flags) == Ok::<Settings, LoadFault<Seq<char>>>(
            (Settings { arch: Some(arch), stack_size: Some(size) }),
        ),
{
    lemma_arch_flag(arch);
    lemma_stack_flag(size as nat);
    arch_name_reads_back(arch);
    decimal_reads_back(size);
    settings_are_agreed(flags);
    assert(consistent(flags));
    let i = choose|i: int| 0 <= i < flags.len() && flags[i] == arch_flag(arch);
    let j = choose|j: int| 0 <= j < flags.len() && flags[j] == stack_flag(size as nat);
    assert(arch_value(flags[i]) is Some);
    assert(stack_value(flags[j]) is Some);
}

/// The flags of a build that no configuration governs select its architecture and set its stack
/// size.
pub proof fn build_flags_select_build(config: BuildConfig)
    ensures
        settings(codegen_args(build_flags(config))) == Ok::<Settings, LoadFault<Seq<char>>>(
            (Settings {
                arch: Some(config.arch),
                stack_size: Some(frame_size(config.arch, config.simd_0460) as u64),
            }),
        ),
{
    let flags = build_flags(config);
    let args = codegen_args(flags);
    let size = frame_size(config.arch, config.simd_0460);
    lemma_build_flags(config);
    lemma_codegen_args(flags);
    lemma_codegen_option();
    assert(args.contains(flags[4]));
    assert(args.contains(flags[5]));
    assert forall|i: int| 0 <= i < args.len() implies {
        &&& #[trigger] args[i] == arch_flag(config.arch) || arch_value(args[i]) is None
        &&& args[i] == stack_flag(size) || stack_value(args[i]) is None
    } by {
        if args[i] != "-C"@ {
            let k = choose|k: int| 0 <= k < flags.len() && flags[k] == args[i];
            assert(arch_value(flags[k]) is None || k == 4);
            assert(stack_value(flags[k]) is None || k == 5);
        }
    }
    lemma_settings(args, config.arch, size as u64);
}

/// The flags of a build hold no white space.
proof fn lemma_build_words(config: BuildConfig)
    ensures
        forall|i: int|
            0 <= i < build_flags(config).len() ==> is_word(#[trigger] build_flags(config)[i]),
{
    let flags = build_flags(config);
    assert(is_word(flags[0])) by {
        reveal_strlit("linker=sbpf-linker");
        lemma_solid_word(flags[0]);
    }
    assert(is_word(flags[1])) by {
        reveal_strlit("panic=abort");
        lemma_solid_word(flags[1]);
    }
    assert(is_word(flags[2])) by {
        reveal_strlit("relocation-model=static");
        lemma_solid_word(flags[2]);
    }
    assert(is_word(flags[3])) by {
        reveal_strlit("link-arg=--export=__multi3");
        lemma_solid_word(flags[3]);
    }
    lemma_arch_flag(config.arch);
    lemma_stack_flag(frame_size(config.arch, config.simd_0460));
    assert(is_word(flags[6])) by {
        reveal_strlit("link-arg=--llvm-args=--bpf-max-stores-per-memfunc=5");
        lemma_solid_word(flags[6]);
    }
    assert(is_word(flags[7])) by {
        reveal_strlit("link-arg=--llvm-args=--disable-gotox");
        lemma_solid_word(flags[7]);
    }
    assert(is_word(flags[8])) by {
        reveal_strlit("link-arg=--llvm-args=--disable-ldsx");
        lemma_solid_word(flags[8]);
    }
    assert(is_word(flags[9])) by {
        reveal_strlit("link-arg=--llvm-args=--disable-movsx");
        lemma_solid_word(flags[9]);
    }
    assert(is_word(flags[10])) by {
        reveal_strlit("target-cpu=");
        reveal_strlit("v2");
        reveal_strlit("v4");
        lemma_solid_word(flags[10]);
    }
    assert(is_word(flags[11])) by {
        reveal_strlit("target-feature=+allows-misaligned-mem-access");
        lemma_solid_word(flags[11]);
    }
}

/// The line that hands the flags of a build to Cargo, which splits it at spaces, holds exactly
/// those flags.
pub proof fn build_flags_read_back(config: BuildConfig)
    ensures
        spaced_words(joined(codegen_args(build_flags(config)), " "@)) == codegen_args(
            build_flags(config),
        ),
{
    let flags = build_flags(config);
    let args = codegen_args(flags);
    lemma_build_words(config);
    lemma_codegen_args(flags);
    lemma_codegen_option();
    assert forall|i: int| 0 <= i < args.len() implies is_word(#[trigger] args[i]) by {
        if args[i] != "-C"@ {
            let k = choose|k: int| 0 <= k < flags.len() && flags[k] == args[i];
            assert(is_word(flags[k]));
        }
    }
    joined_words_read_back(args);
}

/// A configuration that is made from nothing fits the build that it is made for: loading it
/// gives that build, with nothing to update.
pub proof fn fresh_config_fits_build(arch: SbpfArch, simd_0460: bool, requested: Option<SbpfArch>)
    requires
        requested is None || requested == Some(arch),
    ensures
        repaired(Entries::empty(), arch, simd_0460) is Ok,
        ({
            let data = repaired(Entries::empty(), arch, simd_0460)->Ok_0;
            let result = loaded(data, requested, simd_0460);
            result is Ok && result->Ok_0.0 == (BuildConfig { arch, simd_0460 }) && fits(
                (BuildConfig { arch, simd_0460 }),
                result->Ok_0.1,
            )
        }),
{
    fresh_config_has_no_gaps(arch, simd_0460);
    let config = BuildConfig { arch, simd_0460 };
    let data = repaired(Entries::empty(), arch, simd_0460)->Ok_0;
    let wanted = wanted_flags(arch, simd_0460);
    let empty = Seq::<Seq<char>>::empty();
    let out = merged(empty, wanted)->Ok_0;
    let size = frame_size(arch, simd_0460);
    assert(subtable(Entries::empty(), "target"@) == Some(Entries::empty()));
    assert(array_flags(None)->Ok_0 =~= empty);
    assert(rustflags_node(data, TARGET@) == Some(text_list(out)));
    assert(text_list(out)->List_0.map_values(|node: Node| node->Text_0) =~= out);
    assert(declared(data) == out);
    merge_keeps_flags(empty, arch, simd_0460);
    merge_brings_in_flags(empty, arch, simd_0460);
    lemma_build_flags(config);
    lemma_codegen_option();
    assert forall|i: int| 0 <= i < out.len() implies {
        &&& #[trigger] out[i] == arch_flag(arch) || arch_value(out[i]) is None
        &&& out[i] == stack_flag(size) || stack_value(out[i]) is None
    } by {
        if out[i] != "-C"@ {
            let k = choose|k: int| 0 <= k < wanted.len() && wanted[k] == out[i];
            assert(build_flags(config)[k] == wanted[k]);
            assert(arch_value(build_flags(config)[k]) is None || k == 4);
            assert(stack_value(build_flags(config)[k]) is None || k == 5);
        }
    }
    lemma_settings(out, arch, size as u64);
}

} // verus!
