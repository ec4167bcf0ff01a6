//! Loading the Cargo configuration that governs a build.
//!
//! The configuration may select an architecture and a stack size through compiler flags. The
//! architecture has to go together with the one that the user asks for, and the stack size has to
//! be the one that the build needs. Where it is not, the configuration can be updated.

use vstd::prelude::*;
use vstd::std_specs::cmp::PartialEqSpec;

use crate::arch::{arch_name, arch_named, frame_size, BuildConfig, SbpfArch};
use crate::flags::{stack_flag, stack_size_flag, TARGET};
use crate::number::{
    decimal, decimal_reads_back, is_digit, lemma_decimal, parse_u64, read_u64, to_decimal,
};
use crate::repair::{rustflags_place, subtable, with_rustflags};
use crate::text::{
    is_word, join, joined, lemma_leading_space, lemma_solid_word, lemma_trimmed_start,
    prefix_comes_off, starts_with, strip_prefix, trim_start, trimmed_start, views, white_space,
    without_prefix,
};
use crate::toml::{
    accepted, array_data, array_item, array_text, array_writing, declared_rustflags,
    default_element, document_data, document_keys, document_writing, empty_writing, entry_or,
    flags_well_typed, grown, holds, item_keys, joined_words_read_back, lemma_rewritten,
    lemma_spaced_words, lemma_under, new_outer_table, new_table, no_keys, only, parse, parsed,
    print, push_text, quote, read_rustflags, readable, root_entry_or, rustflags_node, set_entry,
    set_text, spaced_words, table_keys, table_writing, text_item, text_list, under, value_text,
    without_flags, writing_of, ArrayWriting, Entries, Node, ValueWriting, Writing,
};

verus! {

/// Why the flags of a configuration do not go together with a build. `S` is the type of texts.
#[derive(Debug)]
pub enum LoadFault<S> {
    /// A flag selects an architecture that there is not.
    UnsupportedArch(S),
    /// Two flags select different architectures.
    ConflictingArchs,
    /// A flag sets a stack size that is no number.
    InvalidStackSize(S),
    /// Two flags set different stack sizes.
    ConflictingStackSizes,
    /// The user asks for one architecture, and the configuration selects another.
    ArchMismatch { requested: SbpfArch, configured: SbpfArch },
    /// The stack size is not the one of the build, and may not be updated.
    StackSizeMismatch,
    /// `target` is no table that can be updated.
    TargetNotTable,
    /// The entry of the SBPF target is no table that can be updated.
    TripleNotTable,
    /// The flags of the SBPF target are neither a string nor an array.
    RustflagsNotFlags,
}

/// What the flags of a configuration set.
#[derive(Clone, Copy, Debug, PartialEq, Eq)]
pub struct Settings {
    pub arch: Option<SbpfArch>,
    pub stack_size: Option<u64>,
}

/// A fault by the characters of its texts.
pub open spec fn load_fault_view(fault: LoadFault<String>) -> LoadFault<Seq<char>> {
    match fault {
        LoadFault::UnsupportedArch(value) => LoadFault::UnsupportedArch(value@),
        LoadFault::ConflictingArchs => LoadFault::ConflictingArchs,
        LoadFault::InvalidStackSize(value) => LoadFault::InvalidStackSize(value@),
        LoadFault::ConflictingStackSizes => LoadFault::ConflictingStackSizes,
        LoadFault::ArchMismatch { requested, configured } => LoadFault::ArchMismatch {
            requested,
            configured,
        },
        LoadFault::StackSizeMismatch => LoadFault::StackSizeMismatch,
        LoadFault::TargetNotTable => LoadFault::TargetNotTable,
        LoadFault::TripleNotTable => LoadFault::TripleNotTable,
        LoadFault::RustflagsNotFlags => LoadFault::RustflagsNotFlags,
    }
}

/// A flag without the `-C` that may be written together with it.
pub open spec fn bare(flag: Seq<char>) -> Seq<char> {
    match without_prefix(flag, "-C"@) {
        Some(rest) => trimmed_start(rest),
        None => trimmed_start(flag),
    }
}

/// The text of the architecture that a flag selects.
pub open spec fn arch_value(flag: Seq<char>) -> Option<Seq<char>> {
    without_prefix(bare(flag), "link-arg=--arch="@)
}

/// The text of the stack size that a flag sets. LLVM takes its options with one dash or two.
pub open spec fn stack_value(flag: Seq<char>) -> Option<Seq<char>> {
    match without_prefix(bare(flag), "link-arg=--llvm-args=-bpf-stack-size="@) {
        Some(value) => Some(value),
        None => without_prefix(bare(flag), "link-arg=--llvm-args=--bpf-stack-size="@),
    }
}

/// The settings once a flag has been added to those before it.
pub open spec fn with_setting(sofar: Settings, flag: Seq<char>) -> Result<
    Settings,
    LoadFault<Seq<char>>,
> {
    match (arch_value(flag), stack_value(flag)) {
        (Some(value), _) => match (arch_named(value), sofar.arch) {
            (None, _) => Err(LoadFault::UnsupportedArch(value)),
            (Some(arch), Some(previous)) if previous != arch => Err(LoadFault::ConflictingArchs),
            (Some(arch), _) => Ok(Settings { arch: Some(arch), ..sofar }),
        },
        (None, Some(value)) => match (read_u64(value), sofar.stack_size) {
            (None, _) => Err(LoadFault::InvalidStackSize(value)),
            (Some(size), Some(previous)) if previous != size => Err(
                LoadFault::ConflictingStackSizes,
            ),
            (Some(size), _) => Ok(Settings { stack_size: Some(size), ..sofar }),
        },
        (None, None) => Ok(sofar),
    }
}

/// What flags set together. The first flag that does not go together with those before it rules
/// all of them out.
pub open spec fn settings(flags: Seq<Seq<char>>) -> Result<Settings, LoadFault<Seq<char>>>
    decreases flags.len(),
{
    if flags.len() == 0 {
        Ok(Settings { arch: None, stack_size: None })
    } else {
        match settings(flags.drop_last()) {
            Ok(sofar) => with_setting(sofar, flags.last()),
            Err(fault) => Err(fault),
        }
    }
}

/// Whether flags go together: each architecture that they select and each stack size that they
/// set can be read, and no two differ.
pub open spec fn consistent(flags: Seq<Seq<char>>) -> bool {
    &&& forall|i: int|
        0 <= i < flags.len() && arch_value(#[trigger] flags[i]) is Some ==> arch_named(
            arch_value(flags[i])->0,
        ) is Some
    &&& forall|i: int|
        0 <= i < flags.len() && stack_value(#[trigger] flags[i]) is Some ==> read_u64(
            stack_value(flags[i])->0,
        ) is Some
    &&& forall|i: int, j: int|
        0 <= i < flags.len() && 0 <= j < flags.len() && arch_value(#[trigger] flags[i]) is Some
            && arch_value(#[trigger] flags[j]) is Some ==> arch_named(arch_value(flags[i])->0)
            == arch_named(arch_value(flags[j])->0)
    &&& forall|i: int, j: int|
        0 <= i < flags.len() && 0 <= j < flags.len() && stack_value(#[trigger] flags[i]) is Some
            && stack_value(#[trigger] flags[j]) is Some ==> read_u64(stack_value(flags[i])->0)
            == read_u64(stack_value(flags[j])->0)
}

/// Whether `found` is what the flags select and set: all of them agree on it, and it is nothing
/// where none of them says anything.
pub open spec fn agreed(flags: Seq<Seq<char>>, found: Settings) -> bool {
    &&& forall|i: int|
        0 <= i < flags.len() && arch_value(#[trigger] flags[i]) is Some ==> found.arch is Some
            && arch_named(arch_value(flags[i])->0) == found.arch
    &&& forall|i: int|
        0 <= i < flags.len() && stack_value(#[trigger] flags[i]) is Some ==> found.stack_size is Some
            && read_u64(stack_value(flags[i])->0) == found.stack_size
    &&& found.arch is Some ==> exists|i: int|
        0 <= i < flags.len() && arch_value(#[trigger] flags[i]) is Some
    &&& found.stack_size is Some ==> exists|i: int|
        0 <= i < flags.len() && stack_value(#[trigger] flags[i]) is Some
}

/// Flags set something together exactly where they go together, and then it is what they agree
/// on, in whatever order they stand.
pub proof fn settings_are_agreed(flags: Seq<Seq<char>>)
    ensures
        settings(flags) is Ok <==> consistent(flags),
        settings(flags) matches Ok(found) ==> agreed(flags, found),
    decreases flags.len(),
{
    if flags.len() > 0 {
        let front = flags.drop_last();
        let flag = flags.last();
        settings_are_agreed(front);
        lemma_one_setting(flag);
        assert(forall|i: int|
            #![trigger front[i]]
            #![trigger flags[i]]
            0 <= i < front.len() ==> front[i] == flags[i]);
        assert(flags[flags.len() - 1] == flag);
        if consistent(flags) {
            assert(consistent(front));
        }
        if settings(front) is Ok {
            let sofar = settings(front)->Ok_0;
            if sofar.arch is Some {
                let i = choose|i: int|
                    0 <= i < front.len() && arch_value(#[trigger] front[i]) is Some;
                assert(arch_value(flags[i]) is Some);
            }
            if sofar.stack_size is Some {
                let i = choose|i: int|
                    0 <= i < front.len() && stack_value(#[trigger] front[i]) is Some;
                assert(stack_value(flags[i]) is Some);
            }
        } else {
            assert(!consistent(front));
        }
    }
}

/// No flag both selects an architecture and sets a stack size.
pub proof fn lemma_one_setting(flag: Seq<char>)
    ensures
        arch_value(flag) is None || stack_value(flag) is None,
{
    reveal_strlit("link-arg=--arch=");
    reveal_strlit("link-arg=--llvm-args=-bpf-stack-size=");
    reveal_strlit("link-arg=--llvm-args=--bpf-stack-size=");
    assert("link-arg=--arch="@[11] == 'a');
    assert("link-arg=--llvm-args=-bpf-stack-size="@[11] == 'l');
    assert("link-arg=--llvm-args=--bpf-stack-size="@[11] == 'l');
}

/// A flag without the `-C` that may be written together with it.
fn bare_flag<'a>(flag: &'a str) -> (r: &'a str)
    ensures
        r@ == bare(flag@),
{
    match strip_prefix(flag, "-C") {
        Some(rest) => trim_start(rest),
        None => trim_start(flag),
    }
}

/// The text of the stack size that a flag sets.
fn stack_size_value<'a>(flag: &'a str) -> (r: Option<&'a str>)
    ensures
        match r {
            Some(value) => stack_value(flag@) == Some(value@),
            None => stack_value(flag@) is None,
        },
{
    let bare: &str = bare_flag(flag);
    match strip_prefix(bare, "link-arg=--llvm-args=-bpf-stack-size=") {
        Some(value) => Some(value),
        None => strip_prefix(bare, "link-arg=--llvm-args=--bpf-stack-size="),
    }
}

/// What is noted once a value has been noted after others: the first value stays.
pub open spec fn noted<T>(configured: Option<T>, value: T) -> Option<T> {
    match configured {
        Some(previous) => Some(previous),
        None => Some(value),
    }
}

/// Whether a value can be noted after others: it can unless another value stands there.
pub open spec fn conflict<T>(configured: Option<T>, value: T) -> Result<(), (T, T)> {
    match configured {
        Some(previous) if previous != value => Err((previous, value)),
        _ => Ok(()),
    }
}

/// What is noted once all values have been noted, one after the other.
pub open spec fn noted_all<T>(values: Seq<T>) -> Option<T>
    decreases values.len(),
{
    if values.len() == 0 {
        None
    } else {
        noted(noted_all(values.drop_last()), values.last())
    }
}

/// Of values that are noted one after the other the first stays, and exactly those are in
/// conflict with it that differ from it. So there is no conflict exactly where all are equal.
pub proof fn first_value_stays<T>(values: Seq<T>)
    requires
        values.len() > 0,
    ensures
        noted_all(values) == Some(values[0]),
        forall|i: int|
            0 <= i < values.len() ==> conflict(noted_all(values.take(i)), #[trigger] values[i])
                == if values[i] != values[0] {
                Err::<(), (T, T)>((values[0], values[i]))
            } else {
                Ok(())
            },
        (forall|i: int|
            0 <= i < values.len() ==> conflict(
                noted_all(values.take(i)),
                #[trigger] values[i],
            ) is Ok) <==> (forall|i: int, j: int|
            0 <= i < values.len() && 0 <= j < values.len() ==> #[trigger] values[i]
                == #[trigger] values[j]),
{
    lemma_noted_all(values);
    assert forall|i: int| 0 <= i < values.len() implies conflict(
        noted_all(values.take(i)),
        #[trigger] values[i],
    ) == if values[i] != values[0] {
        Err::<(), (T, T)>((values[0], values[i]))
    } else {
        Ok(())
    } by {
        if i > 0 {
            lemma_noted_all(values.take(i));
        }
    }
    if forall|i: int|
        0 <= i < values.len() ==> conflict(noted_all(values.take(i)), #[trigger] values[i]) is Ok {
        assert forall|i: int, j: int|
            0 <= i < values.len() && 0 <= j < values.len() implies #[trigger] values[i]
            == #[trigger] values[j] by {
            assert(conflict(noted_all(values.take(i)), values[i]) is Ok);
            assert(conflict(noted_all(values.take(j)), values[j]) is Ok);
        }
    }
}

proof fn lemma_noted_all<T>(values: Seq<T>)
    requires
        values.len() > 0,
    ensures
        noted_all(values) == Some(values[0]),
    decreases values.len(),
{
    if values.len() > 1 {
        lemma_noted_all(values.drop_last());
    } else {
        assert(values.drop_last() =~= Seq::empty());
        assert(noted_all(Seq::<T>::empty()) is None);
    }
}

/// Notes a value, unless another one has been noted before. Otherwise returns both.
pub fn check_conflict<T: Copy + Eq>(configured: &mut Option<T>, value: T) -> (r: Result<
    (),
    (T, T),
>)
    requires
        T::obeys_eq_spec(),
        forall|a: T, b: T| #[trigger] a.eq_spec(&b) <==> a == b,
    ensures
        r == conflict(*old(configured), value),
        *final(configured) == noted(*old(configured), value),
{
    match *configured {
        Some(previous) => if previous != value {
            Err((previous, value))
        } else {
            Ok(())
        },
        None => {
            *configured = Some(value);
            Ok(())
        },
    }
}

/// Reads what flags set together.
pub fn read_settings(flags: &Vec<String>) -> (r: Result<Settings, LoadFault<String>>)
    ensures
        match r {
            Ok(found) => settings(views(flags@)) == Ok::<Settings, LoadFault<Seq<char>>>(found),
            Err(fault) => settings(views(flags@)) == Err::<Settings, LoadFault<Seq<char>>>(
                load_fault_view(fault),
            ),
        },
{
    let ghost all = views(flags@);
    let mut arch: Option<SbpfArch> = None;
    let mut stack_size: Option<u64> = None;
    let mut i: usize = 0;
    while i < flags.len()
        invariant
            i <= flags.len(),
            all == views(flags@),
            settings(all.take(i as int)) == Ok::<Settings, LoadFault<Seq<char>>>(
                (Settings { arch, stack_size }),
            ),
        decreases flags.len() - i,
    {
        let flag: &str = flags[i].as_str();
        proof {
            assert(all.take(i + 1).drop_last() =~= all.take(i as int));
            assert(all.take(i + 1).last() == flag@);
            lemma_one_setting(flag@);
            if with_setting((Settings { arch, stack_size }), flag@) is Err {
                lemma_fault_stays(all, i + 1);
            }
        }
        if let Some(value) = strip_prefix(bare_flag(flag), "link-arg=--arch=") {
            let Some(selected) = SbpfArch::from_name(value) else {
                return Err(LoadFault::UnsupportedArch(value.to_owned()));
            };
            if check_conflict(&mut arch, selected).is_err() {
                return Err(LoadFault::ConflictingArchs);
            }
        }
        if let Some(value) = stack_size_value(flag) {
            let Some(size) = parse_u64(value) else {
                return Err(LoadFault::InvalidStackSize(value.to_owned()));
            };
            if check_conflict(&mut stack_size, size).is_err() {
                return Err(LoadFault::ConflictingStackSizes);
            }
        }
        i = i + 1;
    }
    assert(all.take(i as int) =~= all);
    Ok(Settings { arch, stack_size })
}

/// Flags behind others cannot make up for a fault in those.
proof fn lemma_fault_stays(flags: Seq<Seq<char>>, n: int)
    requires
        0 <= n <= flags.len(),
        settings(flags.take(n)) is Err,
    ensures
        settings(flags) == settings(flags.take(n)),
    decreases flags.len(),
{
    if n < flags.len() {
        assert(flags.drop_last().take(n) =~= flags.take(n));
        lemma_fault_stays(flags.drop_last(), n);
    } else {
        assert(flags.take(n) =~= flags);
    }
}

/// The flags that a configuration declares for the SBPF target.
pub open spec fn declared(data: Entries) -> Seq<Seq<char>> {
    match declared_rustflags(data, TARGET@) {
        Some(flags) => flags,
        None => Seq::empty(),
    }
}

/// The architecture to build for: the one that the user asks for, then the one that the
/// configuration selects, then V3. The first two may not differ.
pub open spec fn resolved_arch(requested: Option<SbpfArch>, configured: Option<SbpfArch>) -> Result<
    SbpfArch,
    LoadFault<Seq<char>>,
> {
    match (requested, configured) {
        (Some(requested), Some(configured)) if requested != configured => Err(
            LoadFault::ArchMismatch { requested, configured },
        ),
        (Some(requested), _) => Ok(requested),
        (None, Some(configured)) => Ok(configured),
        (None, None) => Ok(SbpfArch::V3),
    }
}

/// What is built with flags, and the stack size that they set.
pub open spec fn resolved(
    flags: Seq<Seq<char>>,
    requested: Option<SbpfArch>,
    simd_0460: bool,
) -> Result<(BuildConfig, Option<u64>), LoadFault<Seq<char>>> {
    match settings(flags) {
        Err(fault) => Err(fault),
        Ok(found) => match resolved_arch(requested, found.arch) {
            Err(fault) => Err(fault),
            Ok(arch) => Ok((BuildConfig { arch, simd_0460 }, found.stack_size)),
        },
    }
}

/// What is built under a configuration, and the stack size that the configuration sets.
pub open spec fn loaded(data: Entries, requested: Option<SbpfArch>, simd_0460: bool) -> Result<
    (BuildConfig, Option<u64>),
    LoadFault<Seq<char>>,
> {
    resolved(declared(data), requested, simd_0460)
}

/// Whether a stack size is the one that a build needs.
pub open spec fn fits(build: BuildConfig, stack_size: Option<u64>) -> bool {
    stack_size matches Some(size) && size == frame_size(build.arch, build.simd_0460)
}

/// A flag that sets a stack size, with `size` in place of it. A `-C` in front stays.
pub open spec fn refitted(flag: Seq<char>, size: nat) -> Seq<char> {
    if stack_value(flag) is Some {
        if "-C"@.is_prefix_of(flag) {
            "-C"@ + stack_flag(size)
        } else {
            stack_flag(size)
        }
    } else {
        flag
    }
}

/// Whether one of the flags sets a stack size.
pub open spec fn sets_stack(flags: Seq<Seq<char>>) -> bool {
    exists|i: int| 0 <= i < flags.len() && stack_value(#[trigger] flags[i]) is Some
}

/// Flags with `size` as the stack size: wherever they set one, or at the end.
pub open spec fn with_stack_size(flags: Seq<Seq<char>>, size: nat) -> Seq<Seq<char>> {
    if sets_stack(flags) {
        flags.map_values(|flag: Seq<char>| refitted(flag, size))
    } else {
        flags.push("-C"@).push(stack_flag(size))
    }
}

/// The data of a configuration once its stack size has been updated. The flags stay a string
/// where they are one.
pub open spec fn updated(data: Entries, size: nat) -> Result<Entries, LoadFault<Seq<char>>> {
    match subtable(data, "target"@) {
        None => Err(LoadFault::TargetNotTable),
        Some(target) => match subtable(target, TARGET@) {
            None => Err(LoadFault::TripleNotTable),
            Some(triple) => match triple.get("rustflags"@) {
                None => Ok(
                    with_rustflags(
                        data,
                        target,
                        triple,
                        text_list(with_stack_size(Seq::empty(), size)),
                    ),
                ),
                Some(Node::List(nodes)) => Ok(
                    with_rustflags(
                        data,
                        target,
                        triple,
                        text_list(
                            with_stack_size(nodes.map_values(|node: Node| node->Text_0), size),
                        ),
                    ),
                ),
                Some(Node::Text(text)) => Ok(
                    with_rustflags(
                        data,
                        target,
                        triple,
                        Node::Text(joined(with_stack_size(spaced_words(text), size), " "@)),
                    ),
                ),
                Some(_) => Err(LoadFault::RustflagsNotFlags),
            },
        },
    }
}

/// What the flag that sets a stack size says, with a `-C` in front or without.
pub proof fn lemma_stack_flag(size: nat)
    ensures
        stack_value(stack_flag(size)) == Some(decimal(size)),
        stack_value("-C"@ + stack_flag(size)) == Some(decimal(size)),
        arch_value(stack_flag(size)) is None,
        arch_value("-C"@ + stack_flag(size)) is None,
        is_word(stack_flag(size)),
        is_word("-C"@ + stack_flag(size)),
{
    let flag = stack_flag(size);
    let joint = "-C"@ + flag;
    let prefix = "link-arg=--llvm-args=-bpf-stack-size="@;
    reveal_strlit("-C");
    reveal_strlit("link-arg=--llvm-args=-bpf-stack-size=");
    lemma_decimal(size);
    assert(flag[0] == 'l');
    assert(!"-C"@.is_prefix_of(flag)) by {
        assert("-C"@[0] == '-');
    }
    assert(bare(flag) == flag);
    assert(prefix.is_prefix_of(flag)) by {
        assert(flag.take(prefix.len() as int) =~= prefix);
    }
    assert(flag.skip(prefix.len() as int) =~= decimal(size));
    assert(joint.skip(2) =~= flag);
    assert("-C"@.is_prefix_of(joint)) by {
        assert(joint.take(2) =~= "-C"@);
    }
    assert(bare(joint) == flag);
    lemma_one_setting(flag);
    lemma_one_setting(joint);
    assert forall|i: int| 0 <= i < flag.len() implies !white_space(#[trigger] flag[i]) by {
        if i >= prefix.len() {
            assert(flag[i] == decimal(size)[i - prefix.len()]);
            assert(is_digit(decimal(size)[i - prefix.len()]));
        }
    }
    assert forall|i: int| 0 <= i < joint.len() implies !white_space(#[trigger] joint[i]) by {
        if i >= 2 {
            assert(joint[i] == flag[i - 2]);
        }
    }
    lemma_solid_word(flag);
    lemma_solid_word(joint);
}

/// A `-C` that stands by itself sets nothing.
pub proof fn lemma_codegen_option()
    ensures
        arch_value("-C"@) is None,
        stack_value("-C"@) is None,
        is_word("-C"@),
{
    reveal_strlit("-C");
    reveal_strlit("link-arg=--arch=");
    reveal_strlit("link-arg=--llvm-args=-bpf-stack-size=");
    reveal_strlit("link-arg=--llvm-args=--bpf-stack-size=");
    assert("-C"@.skip(2) =~= Seq::<char>::empty());
    assert(bare("-C"@) =~= Seq::<char>::empty());
    lemma_solid_word("-C"@);
}

/// A flag with another stack size sets that one and nothing else.
proof fn lemma_refitted(flag: Seq<char>, size: nat)
    ensures
        arch_value(refitted(flag, size)) == arch_value(flag),
        stack_value(flag) is Some ==> stack_value(refitted(flag, size)) == Some(decimal(size)),
        stack_value(flag) is None ==> refitted(flag, size) == flag,
        is_word(flag) ==> is_word(refitted(flag, size)),
{
    lemma_stack_flag(size);
    lemma_one_setting(flag);
}

/// Flags with another stack size select the same architecture as before, and set that size.
pub proof fn stack_size_is_set(flags: Seq<Seq<char>>, size: u64)
    requires
        settings(flags) is Ok,
    ensures
        settings(with_stack_size(flags, size as nat)) == Ok::<Settings, LoadFault<Seq<char>>>(
            (Settings { arch: settings(flags)->Ok_0.arch, stack_size: Some(size) }),
        ),
{
    let new = with_stack_size(flags, size as nat);
    let found = settings(flags)->Ok_0;
    settings_are_agreed(flags);
    settings_are_agreed(new);
    lemma_stack_flag(size as nat);
    lemma_codegen_option();
    decimal_reads_back(size);
    assert forall|i: int| 0 <= i < new.len() implies {
        &&& arch_value(#[trigger] new[i]) is Some ==> i < flags.len() && arch_value(flags[i])
            == arch_value(new[i])
        &&& stack_value(new[i]) is Some ==> read_u64(stack_value(new[i])->0) == Some(size)
    } by {
        if i < flags.len() {
            lemma_refitted(flags[i], size as nat);
            assert(sets_stack(flags) ==> new[i] == refitted(flags[i], size as nat));
            assert(!sets_stack(flags) ==> stack_value(flags[i]) is None);
        } else {
            assert(new[i] == "-C"@ || new[i] == stack_flag(size as nat));
        }
    }
    assert forall|i: int| 0 <= i < flags.len() && arch_value(#[trigger] flags[i]) is Some implies
        arch_value(new[i]) == arch_value(flags[i]) by {
        lemma_refitted(flags[i], size as nat);
    }
    assert(consistent(new));
    let after = settings(new)->Ok_0;
    assert(after.arch == found.arch) by {
        if found.arch is Some {
            let i = choose|i: int| 0 <= i < flags.len() && arch_value(#[trigger] flags[i]) is Some;
            assert(arch_value(new[i]) is Some);
        } else if after.arch is Some {
            let i = choose|i: int| 0 <= i < new.len() && arch_value(#[trigger] new[i]) is Some;
            assert(arch_value(flags[i]) is Some);
        }
    }
    assert(after.stack_size == Some(size)) by {
        if sets_stack(flags) {
            let i = choose|i: int| 0 <= i < flags.len() && stack_value(#[trigger] flags[i]) is Some;
            lemma_refitted(flags[i], size as nat);
            assert(stack_value(new[i]) is Some);
        } else {
            assert(stack_value(new[flags.len() + 1int]) is Some);
        }
    }
}

/// What an updated configuration declares: the same flags with another stack size.
proof fn lemma_updated_flags(data: Entries, size: nat)
    requires
        flags_well_typed(rustflags_node(data, TARGET@)),
        updated(data, size) is Ok,
    ensures
        declared(updated(data, size)->Ok_0) == with_stack_size(declared(data), size),
        flags_well_typed(rustflags_node(updated(data, size)->Ok_0, TARGET@)),
{
    let target = subtable(data, "target"@)->0;
    let triple = subtable(target, TARGET@)->0;
    let new = updated(data, size)->Ok_0;
    let flags = with_stack_size(declared(data), size);
    assert(rustflags_node(data, TARGET@) == triple.get("rustflags"@));
    match triple.get("rustflags"@) {
        Some(Node::Text(text)) => {
            lemma_spaced_words(text);
            lemma_codegen_option();
            lemma_stack_flag(size);
            assert forall|i: int| 0 <= i < flags.len() implies is_word(#[trigger] flags[i]) by {
                if i < spaced_words(text).len() {
                    assert(is_word(spaced_words(text)[i]));
                    lemma_refitted(spaced_words(text)[i], size);
                }
            }
            joined_words_read_back(flags);
        },
        _ => {
            let nodes = text_list(flags)->List_0;
            assert(rustflags_node(new, TARGET@) == Some(text_list(flags)));
            assert(nodes.map_values(|node: Node| node->Text_0) =~= flags);
        },
    }
}

/// A configuration that has been updated is as valid as before.
pub proof fn update_keeps_validity(data: Entries, size: nat)
    requires
        accepted(data, TARGET@),
        updated(data, size) is Ok,
    ensures
        accepted(updated(data, size)->Ok_0, TARGET@),
{
    let new = updated(data, size)->Ok_0;
    let target = subtable(data, "target"@)->0;
    let triple = subtable(target, TARGET@)->0;
    let new_triple = new["target"@]->Table_0[TARGET@]->Table_0;
    lemma_updated_flags(data, size);
    assert(new_triple.remove("rustflags"@) =~= triple.remove("rustflags"@));
    assert(Entries::empty().remove("rustflags"@) =~= Entries::empty());
    let before = without_flags(data, TARGET@);
    let after = without_flags(new, TARGET@);
    assert(before["target"@]->Table_0 =~= after["target"@]->Table_0);
    assert(before =~= after);
}

/// After an update the configuration fits the build: loading it again gives the same build,
/// with nothing to update.
pub proof fn update_fits_build(data: Entries, requested: Option<SbpfArch>, simd_0460: bool)
    requires
        flags_well_typed(rustflags_node(data, TARGET@)),
        loaded(data, requested, simd_0460) is Ok,
        ({
            let build = loaded(data, requested, simd_0460)->Ok_0.0;
            updated(data, frame_size(build.arch, build.simd_0460)) is Ok
        }),
    ensures
        ({
            let build = loaded(data, requested, simd_0460)->Ok_0.0;
            let size = frame_size(build.arch, build.simd_0460);
            let again = loaded(updated(data, size)->Ok_0, requested, simd_0460);
            again is Ok && again->Ok_0.0 == build && fits(build, again->Ok_0.1)
        }),
{
    let build = loaded(data, requested, simd_0460)->Ok_0.0;
    let size = frame_size(build.arch, build.simd_0460);
    lemma_updated_flags(data, size);
    stack_size_is_set(declared(data), size as u64);
}

/// An update leaves everything but the flags of the SBPF target as it was.
pub proof fn update_keeps_the_rest(data: Entries, size: nat)
    requires
        updated(data, size) is Ok,
    ensures
        ({
            let new = updated(data, size)->Ok_0;
            let target = subtable(data, "target"@)->0;
            let new_target = subtable(new, "target"@)->0;
            &&& new.remove("target"@) == data.remove("target"@)
            &&& new_target.remove(TARGET@) == target.remove(TARGET@)
            &&& subtable(new_target, TARGET@)->0.remove("rustflags"@) == subtable(
                target,
                TARGET@,
            )->0.remove("rustflags"@)
        }),
{
    let new = updated(data, size)->Ok_0;
    let target = subtable(data, "target"@)->0;
    let new_target = subtable(new, "target"@)->0;
    assert(new.remove("target"@) =~= data.remove("target"@));
    assert(new_target.remove(TARGET@) =~= target.remove(TARGET@));
    assert(subtable(new_target, TARGET@)->0.remove("rustflags"@) =~= subtable(
        target,
        TARGET@,
    )->0.remove("rustflags"@));
}

/// The architecture that the user asks for comes first, then the one of the configuration, then
/// V3. A configuration that selects another architecture than the user is refused.
pub proof fn arch_precedence(data: Entries, requested: Option<SbpfArch>, simd_0460: bool)
    requires
        settings(declared(data)) is Ok,
    ensures
        ({
            let configured = settings(declared(data))->Ok_0.arch;
            let result = loaded(data, requested, simd_0460);
            &&& requested is Some && configured is Some && requested != configured <==> result is Err
            &&& result matches Ok((build, _)) ==> {
                &&& requested is Some ==> requested == Some(build.arch)
                &&& requested is None && configured is Some ==> configured == Some(build.arch)
                &&& requested is None && configured is None ==> build.arch == SbpfArch::V3
            }
        }),
{
}

/// Why a configuration was not loaded.
#[derive(Debug)]
pub enum LoadError {
    /// The configuration is no TOML document.
    Unparsable(toml_edit::TomlError),
    /// The configuration is no Cargo configuration.
    Invalid(toml_edit::de::Error),
    /// The configuration does not go together with the build.
    Fault(LoadFault<String>),
}

/// What a fault in the configuration at `path` says to the user.
pub open spec fn load_fault_message(fault: LoadFault<Seq<char>>, path: Seq<char>) -> Seq<char> {
    match fault {
        LoadFault::UnsupportedArch(value) => "unsupported SBPF architecture `"@ + value + "` in "@
            + path,
        LoadFault::ConflictingArchs => "Cargo config contains conflicting SBPF architectures"@,
        LoadFault::InvalidStackSize(value) => "invalid BPF stack size `"@ + value + "` in "@ + path,
        LoadFault::ConflictingStackSizes => "Cargo config contains conflicting BPF stack sizes"@,
        LoadFault::ArchMismatch { requested, configured } =>
            "SBPF architecture conflict: --arch "@ + arch_name(requested)
            + " was requested, but Cargo config specifies "@ + arch_name(configured),
        LoadFault::StackSizeMismatch => "the configured BPF stack size does not match this build"@,
        LoadFault::TargetNotTable => "Cargo config `target` must be a table"@,
        LoadFault::TripleNotTable => "Cargo config `target."@ + TARGET@ + "` must be a table"@,
        LoadFault::RustflagsNotFlags => "Cargo config `target."@ + TARGET@
            + ".rustflags` must be a string or array"@,
    }
}

impl LoadError {
    /// What the error in the configuration at `path` says to the user.
    pub fn message(&self, path: &str) -> (r: String)
        ensures
            r@ == match *self {
                LoadError::Unparsable(_) => "failed to parse "@ + path@,
                LoadError::Invalid(_) => "invalid Cargo config in "@ + path@,
                LoadError::Fault(fault) => load_fault_message(load_fault_view(fault), path@),
            },
            !(*self is Fault) ==> (seq![' '] + path@).is_suffix_of(r@),
    {
        proof {
            reveal_strlit("failed to parse ");
            reveal_strlit("invalid Cargo config in ");
            let end = seq![' '] + path@;
            let unparsable = "failed to parse "@ + path@;
            let invalid = "invalid Cargo config in "@ + path@;
            assert(end =~= unparsable.subrange(
                unparsable.len() - end.len(),
                unparsable.len() as int,
            ));
            assert(end =~= invalid.subrange(invalid.len() - end.len(), invalid.len() as int));
        }
        match self {
            LoadError::Unparsable(_) => "failed to parse ".to_owned().concat(path),
            LoadError::Invalid(_) => "invalid Cargo config in ".to_owned().concat(path),
            LoadError::Fault(fault) => match fault {
                LoadFault::UnsupportedArch(value) =>
                    "unsupported SBPF architecture `".to_owned().concat(value.as_str()).concat(
                        "` in ",
                    ).concat(path),
                LoadFault::ConflictingArchs =>
                    "Cargo config contains conflicting SBPF architectures".to_owned(),
                LoadFault::InvalidStackSize(value) => "invalid BPF stack size `".to_owned().concat(
                    value.as_str(),
                ).concat("` in ").concat(path),
                LoadFault::ConflictingStackSizes =>
                    "Cargo config contains conflicting BPF stack sizes".to_owned(),
                LoadFault::ArchMismatch { requested, configured } =>
                    "SBPF architecture conflict: --arch ".to_owned().concat(
                        requested.as_str(),
                    ).concat(" was requested, but Cargo config specifies ").concat(
                        configured.as_str(),
                    ),
                LoadFault::StackSizeMismatch =>
                    "the configured BPF stack size does not match this build".to_owned(),
                LoadFault::TargetNotTable => "Cargo config `target` must be a table".to_owned(),
                LoadFault::TripleNotTable => "Cargo config `target.".to_owned().concat(
                    TARGET,
                ).concat("` must be a table"),
                LoadFault::RustflagsNotFlags => "Cargo config `target.".to_owned().concat(
                    TARGET,
                ).concat(".rustflags` must be a string or array"),
            },
        }
    }
}

/// A flag that sets a stack size, with `size` in place of it; none where the flag sets none.
fn fixed_stack_flag(flag: &str, size: u64) -> (r: Option<String>)
    ensures
        match r {
            Some(fixed) => stack_value(flag@) is Some && fixed@ == refitted(flag@, size as nat),
            None => stack_value(flag@) is None,
        },
{
    if stack_size_value(flag).is_some() {
        let plain: String = stack_size_flag(size);
        if starts_with(flag, "-C") {
            Some("-C".to_owned().concat(plain.as_str()))
        } else {
            Some(plain)
        }
    } else {
        None
    }
}

/// How an array of flags is written with `size` as the stack size: the flags that are put in are
/// written as `toml_edit` does it by itself, and the others as before.
pub open spec fn refitted_writing(
    writing: ArrayWriting,
    flags: Seq<Seq<char>>,
    size: nat,
) -> ArrayWriting {
    let n = writing.elements.len();
    ArrayWriting {
        elements: if sets_stack(flags) {
            Seq::new(
                n,
                |i: int|
                    if stack_value(flags[i]) is Some {
                        default_element(i, refitted(flags[i], size))
                    } else {
                        writing.elements[i]
                    },
            )
        } else {
            writing.elements.push(default_element(n as int, "-C"@)).push(
                default_element(n + 1int, stack_flag(size)),
            )
        },
        ..writing
    }
}

/// Puts `size` in place of the stack size in an array of flags, or at its end.
fn refit_array(array: &mut toml_edit::Array, size: u64)
    requires
        array_data(*old(array)) is Some,
        forall|i: int|
            0 <= i < array_data(*old(array))->0.len() ==> #[trigger] array_data(
                *old(array),
            )->0[i] is Text,
    ensures
        array_data(*final(array)) is Some,
        Node::List(array_data(*final(array))->0) == text_list(
            with_stack_size(
                array_data(*old(array))->0.map_values(|node: Node| node->Text_0),
                size as nat,
            ),
        ),
        array_writing(*old(array)).elements.len() == array_data(*old(array))->0.len(),
        array_writing(*final(array)) == refitted_writing(
            array_writing(*old(array)),
            array_data(*old(array))->0.map_values(|node: Node| node->Text_0),
            size as nat,
        ),
{
    let ghost nodes = array_data(*array)->0;
    let ghost flags = nodes.map_values(|node: Node| node->Text_0);
    let ghost start = array_writing(*array);
    let len: usize = array.len();
    let mut replaced: bool = false;
    let mut i: usize = 0;
    while i < len
        invariant
            flags == nodes.map_values(|node: Node| node->Text_0),
            len == nodes.len(),
            start.elements.len() == nodes.len(),
            array_writing(*array).trailing == start.trailing,
            array_writing(*array).trailing_comma == start.trailing_comma,
            array_writing(*array).elements.len() == nodes.len(),
            forall|j: int|
                0 <= j < i ==> #[trigger] array_writing(*array).elements[j] == if stack_value(
                    flags[j],
                ) is Some {
                    default_element(j, refitted(flags[j], size as nat))
                } else {
                    start.elements[j]
                },
            forall|j: int|
                i <= j < nodes.len() ==> #[trigger] array_writing(*array).elements[j]
                    == start.elements[j],
            forall|j: int| 0 <= j < nodes.len() ==> #[trigger] nodes[j] is Text,
            array_data(*array) is Some,
            array_data(*array)->0.len() == nodes.len(),
            i <= nodes.len(),
            forall|j: int|
                0 <= j < i ==> #[trigger] array_data(*array)->0[j] == Node::Text(
                    refitted(flags[j], size as nat),
                ),
            forall|j: int|
                i <= j < nodes.len() ==> #[trigger] array_data(*array)->0[j] == nodes[j],
            replaced == exists|j: int| 0 <= j < i && stack_value(#[trigger] flags[j]) is Some,
        decreases nodes.len() - i,
    {
        assert(array_data(*array)->0[i as int] == nodes[i as int]);
        let fixed: Option<String> = match array_text(array, i) {
            Some(flag) => fixed_stack_flag(flag, size),
            None => None,
        };
        assert(flags[i as int] == nodes[i as int]->Text_0);
        if let Some(fixed) = fixed {
            set_text(array, i, fixed.as_str());
            replaced = true;
            assert(stack_value(flags[i as int]) is Some);
        }
        i = i + 1;
    }
    assert(sets_stack(flags) == replaced);
    if !replaced {
        let ghost sofar = array_data(*array)->0;
        let flag: String = stack_size_flag(size);
        push_text(array, "-C");
        push_text(array, flag.as_str());
        assert forall|j: int| 0 <= j < nodes.len() implies #[trigger] sofar[j] == Node::Text(
            flags[j],
        ) by {
            assert(stack_value(flags[j]) is None);
        }
        assert forall|j: int| 0 <= j < nodes.len() implies #[trigger] array_writing(
            *array,
        ).elements[j] == start.elements[j] by {
            assert(stack_value(flags[j]) is None);
        }
    }
    assert(array_data(*array)->0 =~= text_list(with_stack_size(flags, size as nat))->List_0);
    assert(array_writing(*array).elements =~= refitted_writing(
        start,
        flags,
        size as nat,
    ).elements);
}

/// Flags with `size` as the stack size: wherever they set one, or at the end.
pub fn refit_flags(flags: &Vec<String>, size: u64) -> (r: Vec<String>)
    ensures
        views(r@) == with_stack_size(views(flags@), size as nat),
{
    let ghost all = views(flags@);
    let mut fixed_flags: Vec<String> = Vec::new();
    let mut replaced: bool = false;
    let mut i: usize = 0;
    while i < flags.len()
        invariant
            i <= flags.len(),
            all == views(flags@),
            fixed_flags.len() == i,
            forall|j: int|
                0 <= j < i ==> (#[trigger] fixed_flags@[j])@ == refitted(all[j], size as nat),
            replaced == exists|j: int| 0 <= j < i && stack_value(#[trigger] all[j]) is Some,
        decreases flags.len() - i,
    {
        assert(all[i as int] == flags@[i as int]@);
        match fixed_stack_flag(flags[i].as_str(), size) {
            Some(fixed) => {
                fixed_flags.push(fixed);
                replaced = true;
                assert(stack_value(all[i as int]) is Some);
            },
            None => {
                fixed_flags.push(flags[i].clone());
            },
        }
        i = i + 1;
    }
    assert(sets_stack(all) == replaced);
    if !replaced {
        assert forall|j: int| 0 <= j < all.len() implies (#[trigger] fixed_flags@[j])@
            == all[j] by {
            assert(stack_value(all[j]) is None);
        }
        fixed_flags.push("-C".to_owned());
        fixed_flags.push(stack_size_flag(size));
    }
    assert(views(fixed_flags@) =~= with_stack_size(all, size as nat));
    fixed_flags
}

/// How the flags of a configuration are to be written once they set `size` as the stack size: a
/// string in one piece, and an array as it was written, but for what is put in.
pub open spec fn updated_value(data: Entries, writing: Writing, size: nat) -> ValueWriting {
    match (rustflags_node(data, TARGET@), writing[rustflags_place()]) {
        (None, _) => ValueWriting::Array(
            refitted_writing(empty_writing(), Seq::empty(), size),
        ),
        (Some(Node::List(_)), ValueWriting::Array(flags)) => ValueWriting::Array(
            refitted_writing(flags, declared(data), size),
        ),
        _ => ValueWriting::Text(quote(joined(with_stack_size(declared(data), size), " "@))),
    }
}

/// Whether a list of flags in a configuration is known by the way it is written.
pub open spec fn flags_written(data: Entries, writing: Writing) -> bool {
    rustflags_node(data, TARGET@) matches Some(Node::List(flags)) ==> writing.contains_key(
        rustflags_place(),
    ) && writing[rustflags_place()] is Array
        && writing[rustflags_place()]->Array_0.elements.len() == flags.len()
}

/// Whether the text of an updated configuration holds its flags as they are to be written, and
/// every other value as it was.
pub open spec fn update_written(
    data: Entries,
    writing: Writing,
    size: nat,
    text: Seq<char>,
) -> bool {
    &&& flags_written(data, writing)
    &&& holds(text, value_text(updated_value(data, writing, size)))
    &&& forall|path: Seq<Seq<char>>| #[trigger]
        writing.contains_key(path) && !rustflags_place().is_prefix_of(path) ==> holds(
            text,
            value_text(writing[path]),
        )
}

/// An update of the stack size in a configuration, which the user has to permit.
#[derive(Debug)]
pub struct StackUpdate {
    document: toml_edit::DocumentMut,
    rustflags: Vec<String>,
    configured: Option<u64>,
    expected: u64,
}

impl StackUpdate {
    #[verifier::type_invariant]
    spec fn well_formed(self) -> bool {
        &&& document_data(self.document) is Some
        &&& declared(self.data()) == views(self.rustflags@)
        &&& flags_well_typed(rustflags_node(self.data(), TARGET@))
        &&& readable(document_keys(self.document))
    }

    /// The data of the configuration as it is.
    pub closed spec fn data(self) -> Entries {
        document_data(self.document)->0
    }

    /// How the values of the configuration are written.
    pub closed spec fn writing(self) -> Writing {
        document_writing(self.document)
    }

    /// The stack size that the configuration sets.
    pub closed spec fn configured(self) -> Option<u64> {
        self.configured
    }

    /// The stack size that the build needs.
    pub closed spec fn expected(self) -> u64 {
        self.expected
    }

    /// The question to ask the user about the configuration at `path`.
    pub fn prompt(&self, path: &str) -> (r: String)
        ensures
            r@ == match self.configured() {
                None => "Cargo config has no BPF stack size. Update "@ + path@ + " to use "@
                    + decimal(self.expected() as nat) + "?"@,
                Some(configured) => "Cargo config uses BPF stack size "@ + decimal(
                    configured as nat,
                ) + ", but this build requires "@ + decimal(self.expected() as nat) + ". Update "@
                    + path@ + "?"@,
            },
            self.configured() is None ==> (path@ + " to use "@ + decimal(self.expected() as nat)
                + "?"@).is_suffix_of(r@),
            self.configured() is Some ==> (path@ + "?"@).is_suffix_of(r@),
            self.configured() matches Some(configured) ==> ("Cargo config uses BPF stack size "@
                + decimal(configured as nat) + ","@).is_prefix_of(r@) && holds(
                r@,
                "requires "@ + decimal(self.expected() as nat) + "."@,
            ),
    {
        proof {
            let size = decimal(self.expected() as nat);
            let end = path@ + "?"@;
            reveal_strlit(",");
            reveal_strlit(".");
            reveal_strlit("?");
            reveal_strlit("requires ");
            reveal_strlit(". Update ");
            reveal_strlit(" to use ");
            reveal_strlit("Cargo config uses BPF stack size ");
            reveal_strlit(", but this build requires ");
            match self.configured() {
                None => {
                    let front = "Cargo config has no BPF stack size. Update "@;
                    let all = front + path@ + " to use "@ + size + "?"@;
                    let back = path@ + " to use "@ + size + "?"@;
                    assert(back =~= all.subrange(all.len() - back.len(), all.len() as int));
                },
                Some(configured) => {
                    let set = decimal(configured as nat);
                    let all = "Cargo config uses BPF stack size "@ + set
                        + ", but this build requires "@ + size + ". Update "@ + path@ + "?"@;
                    let front = "Cargo config uses BPF stack size "@ + set + ","@;
                    assert(front =~= all.subrange(0, front.len() as int));
                    assert(end =~= all.subrange(all.len() - end.len(), all.len() as int));
                    let part = "requires "@ + size + "."@;
                    let n = front.len() + 16int;
                    assert(all.subrange(n, n + part.len()) =~= part);
                },
            }
        }
        match self.configured {
            None => "Cargo config has no BPF stack size. Update ".to_owned().concat(path).concat(
                " to use ",
            ).concat(to_decimal(self.expected).as_str()).concat("?"),
            Some(configured) => "Cargo config uses BPF stack size ".to_owned().concat(
                to_decimal(configured).as_str(),
            ).concat(", but this build requires ").concat(
                to_decimal(self.expected).as_str(),
            ).concat(". Update ").concat(path).concat("?"),
        }
    }

    /// Makes the update, if the user permits it, and returns the new text of the configuration. The
    /// text holds the updated data, with every other value written as before.
    pub fn finish(self, permitted: bool) -> (r: Result<String, LoadError>)
        ensures
            match r {
                Ok(text) => permitted && match updated(self.data(), self.expected() as nat) {
                    Ok(data) => parsed(text@) == Some(data),
                    Err(_) => false,
                } && update_written(
                    self.data(),
                    self.writing(),
                    self.expected() as nat,
                    text@,
                ),
                Err(LoadError::Fault(fault)) => if permitted {
                    updated(self.data(), self.expected() as nat) == Err::<
                        Entries,
                        LoadFault<Seq<char>>,
                    >(load_fault_view(fault))
                } else {
                    fault == LoadFault::<String>::StackSizeMismatch
                },
                Err(_) => false,
            },
    {
        proof {
            use_type_invariant(&self);
        }
        if !permitted {
            return Err(LoadError::Fault(LoadFault::StackSizeMismatch));
        }
        let ghost data = self.data();
        let ghost writing = self.writing();
        let ghost keys = document_keys(self.document);
        let size: u64 = self.expected;
        let rustflags: Vec<String> = self.rustflags;
        let mut document: toml_edit::DocumentMut = self.document;
        let target = root_entry_or(
            &mut document,
            "target",
            new_outer_table(TARGET, new_table()),
        );
        let Some(target) = target.as_table_mut() else {
            return Err(LoadError::Fault(LoadFault::TargetNotTable));
        };
        let ghost target_writing = table_writing(*target);
        let ghost target_keys = table_keys(*target);
        let triple = entry_or(target, TARGET, new_table());
        let Some(triple) = triple.as_table_mut() else {
            return Err(LoadError::Fault(LoadFault::TripleNotTable));
        };
        let ghost triple_writing = table_writing(*triple);
        let ghost triple_keys = table_keys(*triple);
        let ghost value = updated_value(data, writing, size as nat);
        if triple.get("rustflags").is_none() {
            let mut array: toml_edit::Array = toml_edit::Array::new();
            refit_array(&mut array, size);
            proof {
                assert(Seq::<Node>::empty().map_values(|node: Node| node->Text_0) =~= Seq::empty());
            }
            set_entry(triple, "rustflags", array_item(array));
            assert(grown(no_keys(), no_keys(), 0));
        } else {
            let item = entry_or(triple, "rustflags", array_item(toml_edit::Array::new()));
            let ghost item_before = item_keys(*item);
            if let Some(array) = item.as_array_mut() {
                proof {
                    let place = Seq::<Seq<char>>::empty();
                    lemma_under(triple_writing, "rustflags"@, place);
                    let place = seq!["rustflags"@] + place;
                    lemma_under(target_writing, TARGET@, place);
                    let place = seq![TARGET@] + place;
                    lemma_under(writing, "target"@, place);
                    assert(seq!["target"@] + place =~= rustflags_place());
                }
                refit_array(array, size);
            } else if item.as_str().is_some() {
                let flags: String = join(&refit_flags(&rustflags, size), " ");
                *item = text_item(flags.as_str());
            } else {
                return Err(LoadError::Fault(LoadFault::RustflagsNotFlags));
            }
            assert(grown(item_before, item_keys(*item), 0));
        }
        proof {
            assert(rustflags_node(data, TARGET@) == subtable(
                subtable(data, "target"@)->0,
                TARGET@,
            )->0.get("rustflags"@));
            let place = Seq::<Seq<char>>::empty();
            assert(under(table_writing(*triple), "rustflags"@) == only(value));
            lemma_rewritten(
                triple_writing,
                table_writing(*triple),
                "rustflags"@,
                under(triple_writing, "rustflags"@),
                place,
                value,
            );
            let place = seq!["rustflags"@] + place;
            assert(grown(triple_keys, table_keys(*triple), 1));
            lemma_rewritten(
                target_writing,
                table_writing(*target),
                TARGET@,
                triple_writing,
                place,
                value,
            );
            let place = seq![TARGET@] + place;
            assert(grown(target_keys, table_keys(*target), 2));
            lemma_rewritten(
                writing,
                document_writing(document),
                "target"@,
                target_writing,
                place,
                value,
            );
            assert(seq!["target"@] + place =~= rustflags_place());
            assert(grown(no_keys(), no_keys(), 0));
            if !data.contains_key("target"@) {
                assert(grown(no_keys(), target_keys, 1));
                assert(grown(no_keys(), table_keys(*target), 2));
            }
            assert(grown(keys, document_keys(document), 3));
            let expected = updated(data, size as nat)->Ok_0;
            let outer = expected["target"@]->Table_0;
            assert(document_data(document)->0["target"@]->Table_0 =~= outer);
            assert(document_data(document)->0 =~= expected);
        }
        let text: String = print(&document);
        proof {
            assert(document_writing(document).contains_key(rustflags_place()));
            assert forall|path: Seq<Seq<char>>| #[trigger]
                writing.contains_key(path) && !rustflags_place().is_prefix_of(path) implies holds(
                text@,
                value_text(writing[path]),
            ) by {
                assert(document_writing(document).contains_key(path));
            }
        }
        Ok(text)
    }
}

/// Works out what is built with the flags of a configuration, and the stack size that they set.
pub fn resolve(flags: &Vec<String>, requested: Option<SbpfArch>, simd_0460: bool) -> (r: Result<
    (BuildConfig, Option<u64>),
    LoadFault<String>,
>)
    ensures
        match r {
            Ok(found) => resolved(views(flags@), requested, simd_0460) == Ok::<
                (BuildConfig, Option<u64>),
                LoadFault<Seq<char>>,
            >(found),
            Err(fault) => resolved(views(flags@), requested, simd_0460) == Err::<
                (BuildConfig, Option<u64>),
                LoadFault<Seq<char>>,
            >(load_fault_view(fault)),
        },
{
    let found: Settings = match read_settings(flags) {
        Ok(found) => found,
        Err(fault) => return Err(fault),
    };
    let mut arch: Option<SbpfArch> = requested;
    if let Some(configured) = found.arch {
        if let Err((requested, configured)) = check_conflict(&mut arch, configured) {
            return Err(LoadFault::ArchMismatch { requested, configured });
        }
    }
    let arch: SbpfArch = match arch {
        Some(arch) => arch,
        None => SbpfArch::default(),
    };
    Ok((BuildConfig { arch, simd_0460 }, found.stack_size))
}

/// What loading comes to.
pub ghost enum LoadResult {
    /// This is built.
    Ready(BuildConfig),
    /// This is built once the stack size of the configuration has been updated.
    Update { build: BuildConfig, configured: Option<u64> },
    /// The configuration is no TOML document.
    Unparsable,
    /// The configuration is no Cargo configuration.
    Invalid,
    /// The configuration does not go together with the build.
    Fault(LoadFault<Seq<char>>),
}

/// A configuration by its characters.
pub open spec fn config_view(config: Option<&str>) -> Option<Seq<char>> {
    match config {
        Some(text) => Some(text@),
        None => None,
    }
}

/// What loading comes to under a configuration, where there is one.
pub open spec fn load_result(
    config: Option<Seq<char>>,
    requested: Option<SbpfArch>,
    simd_0460: bool,
) -> LoadResult {
    match config {
        None => LoadResult::Ready(
            BuildConfig {
                arch: match requested {
                    Some(arch) => arch,
                    None => SbpfArch::V3,
                },
                simd_0460,
            },
        ),
        Some(text) => match parsed(text) {
            None => LoadResult::Unparsable,
            Some(data) => if !accepted(data, TARGET@) {
                LoadResult::Invalid
            } else {
                match loaded(data, requested, simd_0460) {
                    Err(fault) => LoadResult::Fault(fault),
                    Ok((build, configured)) => if fits(build, configured) {
                        LoadResult::Ready(build)
                    } else {
                        LoadResult::Update { build, configured }
                    },
                }
            },
        },
    }
}

/// What is built where loading succeeds.
pub open spec fn build_of(result: LoadResult) -> Option<BuildConfig> {
    match result {
        LoadResult::Ready(build) => Some(build),
        LoadResult::Update { build, .. } => Some(build),
        _ => None,
    }
}

/// Whether `left` is the text of a configuration after a build has been loaded under it: `text`
/// itself, or where that has to be updated, a text with the updated data.
pub open spec fn left_behind(
    text: Seq<char>,
    left: Seq<char>,
    requested: Option<SbpfArch>,
    simd_0460: bool,
) -> bool {
    match load_result(Some(text), requested, simd_0460) {
        LoadResult::Ready(_) => left == text,
        LoadResult::Update { build, .. } => updated(
            parsed(text)->0,
            frame_size(build.arch, build.simd_0460),
        ) matches Ok(data) && parsed(left) == Some(data),
        _ => false,
    }
}

/// Loading settles: under the configuration that loading has left behind, loading in the same way
/// gives the same build, with nothing to update.
pub proof fn load_settles(
    text: Seq<char>,
    left: Seq<char>,
    requested: Option<SbpfArch>,
    simd_0460: bool,
)
    requires
        left_behind(text, left, requested, simd_0460),
    ensures
        load_result(Some(left), requested, simd_0460) is Ready,
        build_of(load_result(Some(left), requested, simd_0460)) == build_of(
            load_result(Some(text), requested, simd_0460),
        ),
{
    if let LoadResult::Update { build, .. } = load_result(Some(text), requested, simd_0460) {
        let data = parsed(text)->0;
        update_keeps_validity(data, frame_size(build.arch, build.simd_0460));
        update_fits_build(data, requested, simd_0460);
    }
}

/// A configuration that loading has left behind sets a stack size, and wherever it sets one, it is
/// the one of the build.
pub proof fn stack_size_is_left_behind(
    text: Seq<char>,
    left: Seq<char>,
    requested: Option<SbpfArch>,
    simd_0460: bool,
)
    requires
        left_behind(text, left, requested, simd_0460),
    ensures
        ({
            let build = build_of(load_result(Some(text), requested, simd_0460))->0;
            let flags = declared(parsed(left)->0);
            &&& sets_stack(flags)
            &&& forall|i: int|
                0 <= i < flags.len() && stack_value(#[trigger] flags[i]) is Some ==> (read_u64(
                    stack_value(flags[i])->0,
                ) matches Some(size) && size == frame_size(build.arch, build.simd_0460))
        }),
{
    load_settles(text, left, requested, simd_0460);
    settings_are_agreed(declared(parsed(left)->0));
}

/// What is built, and what has to become of the configuration first.
#[derive(Debug)]
pub struct Loaded {
    pub build: BuildConfig,
    pub update: Option<StackUpdate>,
}

impl BuildConfig {
    /// Loads what is built: for the architecture that the user asks for or the configuration
    /// selects. `config` is the text of the configuration, where there is one.
    pub fn load(requested: Option<SbpfArch>, simd_0460: bool, config: Option<&str>) -> (r: Result<
        Loaded,
        LoadError,
    >)
        ensures
            match r {
                Ok(found) => match found.update {
                    Some(update) => config is Some && load_result(
                        config_view(config),
                        requested,
                        simd_0460,
                    ) == (LoadResult::Update {
                        build: found.build,
                        configured: update.configured(),
                    }) && Some(update.data()) == parsed(config->0@)
                        && update.writing() == writing_of(config->0@) && update.expected()
                        == frame_size(found.build.arch, found.build.simd_0460),
                    None => load_result(config_view(config), requested, simd_0460)
                        == LoadResult::Ready(found.build),
                },
                Err(LoadError::Unparsable(_)) => load_result(
                    config_view(config),
                    requested,
                    simd_0460,
                ) == LoadResult::Unparsable,
                Err(LoadError::Invalid(_)) => load_result(
                    config_view(config),
                    requested,
                    simd_0460,
                ) == LoadResult::Invalid,
                Err(LoadError::Fault(fault)) => load_result(
                    config_view(config),
                    requested,
                    simd_0460,
                ) == LoadResult::Fault(load_fault_view(fault)),
            },
    {
        let Some(text) = config else {
            let arch: SbpfArch = match requested {
                Some(arch) => arch,
                None => SbpfArch::default(),
            };
            return Ok(Loaded { build: BuildConfig { arch, simd_0460 }, update: None });
        };
        let document = match parse(text) {
            Ok(document) => document,
            Err(error) => return Err(LoadError::Unparsable(error)),
        };
        let ghost data = parsed(text@)->0;
        let rustflags: Vec<String> = match read_rustflags(&document, TARGET) {
            Ok(Some(flags)) => flags,
            Ok(None) => Vec::new(),
            Err(error) => return Err(LoadError::Invalid(error)),
        };
        assert(views(rustflags@) =~= declared(data));
        let (build, stack_size) = match resolve(&rustflags, requested, simd_0460) {
            Ok(found) => found,
            Err(fault) => return Err(LoadError::Fault(fault)),
        };
        let expected: u64 = build.stack_size();
        let update: Option<StackUpdate> = match stack_size {
            Some(size) if size == expected => None,
            configured => Some(StackUpdate { document, rustflags, configured, expected }),
        };
        Ok(Loaded { build, update })
    }
}

/// Where no flag sets a stack size, an update keeps the flags in their order and adds exactly two
/// more behind them: a `-C`, and the flag that sets the stack size.
pub proof fn update_adds_option_and_flag(flags: Seq<Seq<char>>, size: nat)
    requires
        forall|i: int| 0 <= i < flags.len() ==> stack_value(#[trigger] flags[i]) is None,
    ensures
        with_stack_size(flags, size) == flags + seq![
            "-C"@,
            "link-arg=--llvm-args=-bpf-stack-size="@ + decimal(size),
        ],
{
    assert(!sets_stack(flags));
    assert(with_stack_size(flags, size) =~= flags + seq![
        "-C"@,
        "link-arg=--llvm-args=-bpf-stack-size="@ + decimal(size),
    ]);
}

/// Where a flag sets a stack size, an update adds and removes none. It gives each such flag the
/// new size, with a `-C` in front where there was one, and leaves the others as they are.
pub proof fn update_replaces_stack_sizes(flags: Seq<Seq<char>>, size: nat, i: int)
    requires
        0 <= i < flags.len(),
        stack_value(flags[i]) is Some,
    ensures
        with_stack_size(flags, size).len() == flags.len(),
        forall|k: int|
            0 <= k < flags.len() ==> #[trigger] with_stack_size(flags, size)[k] == if stack_value(
                flags[k],
            ) is None {
                flags[k]
            } else if "-C"@.is_prefix_of(flags[k]) {
                "-C"@ + ("link-arg=--llvm-args=-bpf-stack-size="@ + decimal(size))
            } else {
                "link-arg=--llvm-args=-bpf-stack-size="@ + decimal(size)
            },
{
    assert(sets_stack(flags));
}

/// An updated configuration declares the flags from before, and those that set a stack size set
/// the new one. Where there were none, a `-C` and such a flag follow behind the others. The flags
/// stay a string where they are one.
pub proof fn updated_configurations_declare_the_flags(data: Entries, size: nat)
    requires
        flags_well_typed(rustflags_node(data, TARGET@)),
        updated(data, size) is Ok,
    ensures
        ({
            let old_flags = declared(data);
            let new_data = updated(data, size)->Ok_0;
            let new_flags = declared(new_data);
            let flag = "link-arg=--llvm-args=-bpf-stack-size="@ + decimal(size);
            &&& rustflags_node(new_data, TARGET@) is Some
            &&& rustflags_node(new_data, TARGET@)->0 is Text <==> (rustflags_node(
                data,
                TARGET@,
            ) matches Some(node) && node is Text)
            &&& rustflags_node(new_data, TARGET@)->0 is Text ==> rustflags_node(
                new_data,
                TARGET@,
            )->0->Text_0 == joined(new_flags, seq![' '])
            &&& (forall|i: int| 0 <= i < old_flags.len() ==> stack_value(#[trigger] old_flags[i])
                is None) ==> new_flags == old_flags + seq!["-C"@, flag]
            &&& (exists|i: int| 0 <= i < old_flags.len() && stack_value(#[trigger] old_flags[i])
                is Some) ==> new_flags.len() == old_flags.len()
            &&& forall|i: int|
                0 <= i < old_flags.len() ==> #[trigger] new_flags[i] == if stack_value(
                    old_flags[i],
                ) is None {
                    old_flags[i]
                } else if "-C"@.is_prefix_of(old_flags[i]) {
                    "-C"@ + flag
                } else {
                    flag
                }
        }),
{
    lemma_updated_flags(data, size);
    reveal_strlit(" ");
    assert(" "@ =~= seq![' ']);
    let target = subtable(data, "target"@)->0;
    let triple = subtable(target, TARGET@)->0;
    assert(rustflags_node(data, TARGET@) == triple.get("rustflags"@));
    let flags = declared(data);
    if exists|i: int| 0 <= i < flags.len() && stack_value(#[trigger] flags[i]) is Some {
        let i = choose|i: int| 0 <= i < flags.len() && stack_value(#[trigger] flags[i]) is Some;
        update_replaces_stack_sizes(flags, size, i);
    } else {
        assert forall|i: int| 0 <= i < flags.len() implies stack_value(
            #[trigger] flags[i],
        ) is None by {}
        update_adds_option_and_flag(flags, size);
    }
}

/// An updated array holds one element for each of its flags. Those whose flags stay are written
/// as they were, and the others as strings behind a space, unless they come first.
pub proof fn updated_arrays_hold_the_flags(
    writing: ArrayWriting,
    flags: Seq<Seq<char>>,
    size: nat,
)
    requires
        writing.elements.len() == flags.len(),
    ensures
        ({
            let new = refitted_writing(writing, flags, size);
            let new_flags = with_stack_size(flags, size);
            &&& new.trailing == writing.trailing
            &&& new.trailing_comma == writing.trailing_comma
            &&& new.elements.len() == new_flags.len()
            &&& forall|i: int|
                0 <= i < new_flags.len() ==> if i < flags.len() && stack_value(flags[i]) is None {
                    #[trigger] new.elements[i] == writing.elements[i]
                } else {
                    &&& new.elements[i].text == quote(new_flags[i])
                    &&& new.elements[i].prefix == if i == 0 {
                        Seq::<char>::empty()
                    } else {
                        seq![' ']
                    }
                    &&& new.elements[i].suffix.len() == 0
                }
        }),
{
    let new = refitted_writing(writing, flags, size);
    let new_flags = with_stack_size(flags, size);
    if sets_stack(flags) {
        assert forall|i: int| 0 <= i < new_flags.len() && stack_value(flags[i]) is Some implies (
        #[trigger] new.elements[i]).text == quote(new_flags[i]) by {
            assert(new_flags[i] == refitted(flags[i], size));
        }
    } else {
        assert forall|i: int| 0 <= i < flags.len() implies stack_value(
            #[trigger] flags[i],
        ) is None by {}
    }
}

/// An update needs tables to put the flags in, and flags that are a string or an array. It is
/// refused exactly where an entry is something else.
pub proof fn updates_need_tables(data: Entries, size: nat)
    ensures
        updated(data, size) == Err::<Entries, LoadFault<Seq<char>>>(LoadFault::TargetNotTable)
            <==> data.contains_key("target"@) && !(data["target"@] is Table),
        updated(data, size) is Err <==> data.contains_key("target"@) && (!(
        data["target"@] is Table) || data["target"@]->Table_0.contains_key(TARGET@) && (!(
        data["target"@]->Table_0[TARGET@] is Table) || {
            let triple = data["target"@]->Table_0[TARGET@]->Table_0;
            triple.contains_key("rustflags"@) && !(triple["rustflags"@] is Text) && !(
            triple["rustflags"@] is List)
        })),
{
}

/// A flag that names an option of LLVM for the stack size sets it, with one dash or two, with a
/// `-C` in front or without, and with white space in front or without.
pub proof fn stack_flags_are_recognised(gap: Seq<char>, value: Seq<char>)
    requires
        forall|i: int| 0 <= i < gap.len() ==> white_space(#[trigger] gap[i]),
    ensures
        stack_value(gap + "link-arg=--llvm-args=-bpf-stack-size="@ + value) == Some(value),
        stack_value(gap + "link-arg=--llvm-args=--bpf-stack-size="@ + value) == Some(value),
        stack_value("-C"@ + gap + "link-arg=--llvm-args=-bpf-stack-size="@ + value) == Some(value),
        stack_value("-C"@ + gap + "link-arg=--llvm-args=--bpf-stack-size="@ + value) == Some(value),
        arch_value(gap + "link-arg=--arch="@ + value) == Some(value),
        arch_value("-C"@ + gap + "link-arg=--arch="@ + value) == Some(value),
{
    reveal_strlit("link-arg=--arch=");
    reveal_strlit("link-arg=--llvm-args=-bpf-stack-size=");
    reveal_strlit("link-arg=--llvm-args=--bpf-stack-size=");
    let one = "link-arg=--llvm-args=-bpf-stack-size="@;
    let two = "link-arg=--llvm-args=--bpf-stack-size="@;
    lemma_bare(gap, one + value);
    lemma_bare(gap, two + value);
    lemma_bare(gap, "link-arg=--arch="@ + value);
    assert(gap + one + value =~= gap + (one + value));
    assert(gap + two + value =~= gap + (two + value));
    assert(gap + "link-arg=--arch="@ + value =~= gap + ("link-arg=--arch="@ + value));
    assert("-C"@ + gap + one + value =~= "-C"@ + gap + (one + value));
    assert("-C"@ + gap + two + value =~= "-C"@ + gap + (two + value));
    assert("-C"@ + gap + "link-arg=--arch="@ + value =~= "-C"@ + gap + ("link-arg=--arch="@
        + value));
    prefix_comes_off(value, one);
    prefix_comes_off(value, two);
    prefix_comes_off(value, "link-arg=--arch="@);
    assert(!one.is_prefix_of(two + value)) by {
        if one.is_prefix_of(two + value) {
            assert(one[22] == (two + value).subrange(0, one.len() as int)[22]);
            assert((two + value)[22] == two[22]);
        }
    }
}

proof fn lemma_bare(gap: Seq<char>, rest: Seq<char>)
    requires
        forall|i: int| 0 <= i < gap.len() ==> white_space(#[trigger] gap[i]),
        rest.len() > 0,
        rest[0] == 'l',
    ensures
        bare(gap + rest) == rest,
        bare("-C"@ + gap + rest) == rest,
{
    reveal_strlit("-C");
    let plain = gap + rest;
    assert(!"-C"@.is_prefix_of(plain)) by {
        if "-C"@.is_prefix_of(plain) {
            assert("-C"@[0] == plain.subrange(0, 2)[0]);
            assert(plain[0] == if gap.len() > 0 {
                gap[0]
            } else {
                rest[0]
            });
        }
    }
    lemma_leading_space(gap, rest);
    assert("-C"@ + gap + rest =~= "-C"@ + plain);
    prefix_comes_off(plain, "-C"@);
}

/// A flag that sets a stack size ends in the option of LLVM with that size, and one that selects
/// an architecture in the option of the linker with it.
pub proof fn other_flags_set_nothing(flag: Seq<char>)
    ensures
        stack_value(flag) matches Some(value) ==> ("link-arg=--llvm-args=-bpf-stack-size="@
            + value).is_suffix_of(flag) || ("link-arg=--llvm-args=--bpf-stack-size="@
            + value).is_suffix_of(flag),
        arch_value(flag) matches Some(value) ==> ("link-arg=--arch="@ + value).is_suffix_of(flag),
        arch_value(flag) is None || stack_value(flag) is None,
{
    lemma_one_setting(flag);
    prefix_comes_off(flag, "-C"@);
    let rest = bare(flag);
    let inner = match without_prefix(flag, "-C"@) {
        Some(rest) => rest,
        None => flag,
    };
    let n = lemma_trimmed_start(inner);
    assert(rest =~= flag.subrange(flag.len() - rest.len(), flag.len() as int));
    prefix_comes_off(rest, "link-arg=--arch="@);
    prefix_comes_off(rest, "link-arg=--llvm-args=-bpf-stack-size="@);
    prefix_comes_off(rest, "link-arg=--llvm-args=--bpf-stack-size="@);
}

/// The settings of flags are those of each of them: every flag that selects an architecture
/// selects the one that is found, every flag that sets a stack size sets the one that is found,
/// and nothing is found where no flag says anything.
pub proof fn settings_come_from_the_flags(flags: Seq<Seq<char>>)
    requires
        settings(flags) is Ok,
    ensures
        forall|i: int|
            0 <= i < flags.len() && arch_value(#[trigger] flags[i]) is Some ==> settings(
                flags,
            )->Ok_0.arch is Some && arch_named(arch_value(flags[i])->0) == settings(
                flags,
            )->Ok_0.arch,
        forall|i: int|
            0 <= i < flags.len() && stack_value(#[trigger] flags[i]) is Some ==> settings(
                flags,
            )->Ok_0.stack_size is Some && read_u64(stack_value(flags[i])->0) == settings(
                flags,
            )->Ok_0.stack_size,
        (forall|i: int| 0 <= i < flags.len() ==> arch_value(#[trigger] flags[i]) is None)
            ==> settings(flags)->Ok_0.arch is None,
        (forall|i: int| 0 <= i < flags.len() ==> stack_value(#[trigger] flags[i]) is None)
            ==> settings(flags)->Ok_0.stack_size is None,
{
    settings_are_agreed(flags);
}

/// A further flag is refused where its value cannot be read or differs from what the flags before
/// it set, and is otherwise noted. Once a flag has been refused, none makes up for it.
pub proof fn refused_flags_are_named(flags: Seq<Seq<char>>, flag: Seq<char>)
    ensures
        settings(flags) is Err ==> settings(flags.push(flag)) == settings(flags),
        settings(flags) matches Ok(found) ==> {
            let result = settings(flags.push(flag));
            &&& arch_value(flag) matches Some(value) ==> match arch_named(value) {
                None => result == Err::<Settings, LoadFault<Seq<char>>>(
                    LoadFault::UnsupportedArch(value),
                ),
                Some(arch) => if found.arch is Some && found.arch != Some(arch) {
                    result == Err::<Settings, LoadFault<Seq<char>>>(LoadFault::ConflictingArchs)
                } else {
                    result is Ok && result->Ok_0.arch == Some(arch) && result->Ok_0.stack_size
                        == found.stack_size
                },
            }
            &&& stack_value(flag) matches Some(value) ==> match read_u64(value) {
                None => result == Err::<Settings, LoadFault<Seq<char>>>(
                    LoadFault::InvalidStackSize(value),
                ),
                Some(size) => if found.stack_size is Some && found.stack_size != Some(size) {
                    result == Err::<Settings, LoadFault<Seq<char>>>(
                        LoadFault::ConflictingStackSizes,
                    )
                } else {
                    result is Ok && result->Ok_0.stack_size == Some(size) && result->Ok_0.arch
                        == found.arch
                },
            }
            &&& arch_value(flag) is None && stack_value(flag) is None ==> result == settings(flags)
        },
{
    assert(flags.push(flag).drop_last() =~= flags);
    lemma_one_setting(flag);
}

/// Without a configuration loading succeeds with nothing to update: what is built is for the
/// architecture that the user asks for, or for V3 where the user asks for none.
pub proof fn loading_needs_no_configuration(requested: Option<SbpfArch>, simd_0460: bool)
    ensures
        load_result(None, requested, simd_0460) is Ready,
        ({
            let build = load_result(None, requested, simd_0460)->Ready_0;
            &&& build.simd_0460 == simd_0460
            &&& requested is Some ==> Some(build.arch) == requested
            &&& requested is None ==> build.arch == SbpfArch::V3
        }),
{
}

/// Loading under a configuration fails on a text that is no Cargo configuration. Otherwise what is
/// built is for the architecture that the user asks for and that every flag selects which selects
/// one, and for V3 where there is none. There is nothing to update exactly where the flags set
/// the stack size of the build.
pub proof fn loading_follows_the_configuration(
    text: Seq<char>,
    requested: Option<SbpfArch>,
    simd_0460: bool,
)
    ensures
        ({
            let result = load_result(Some(text), requested, simd_0460);
            let flags = declared(parsed(text)->0);
            &&& result is Unparsable <==> parsed(text) is None
            &&& result is Invalid <==> parsed(text) is Some && !accepted(parsed(text)->0, TARGET@)
            &&& build_of(result) matches Some(build) ==> {
                &&& build.simd_0460 == simd_0460
                &&& requested is Some ==> requested == Some(build.arch)
                &&& forall|i: int|
                    0 <= i < flags.len() && arch_value(#[trigger] flags[i]) is Some ==> arch_named(
                        arch_value(flags[i])->0,
                    ) == Some(build.arch)
                &&& requested is None && (forall|i: int|
                    0 <= i < flags.len() ==> arch_value(#[trigger] flags[i]) is None) ==> build.arch
                    == SbpfArch::V3
                &&& result is Ready <==> sets_stack(flags) && forall|i: int|
                    0 <= i < flags.len() && stack_value(#[trigger] flags[i]) is Some ==> read_u64(
                        stack_value(flags[i])->0,
                    ) == Some(frame_size(build.arch, simd_0460) as u64)
            }
            &&& result matches LoadResult::Update { configured, .. } ==> (configured is Some
                <==> sets_stack(flags)) && forall|i: int|
                0 <= i < flags.len() && stack_value(#[trigger] flags[i]) is Some ==> read_u64(
                    stack_value(flags[i])->0,
                ) == configured
            &&& result matches LoadResult::Fault(fault) ==> settings(flags) == Err::<
                Settings,
                LoadFault<Seq<char>>,
            >(fault) || (fault matches LoadFault::ArchMismatch { requested: asked, configured }
                && requested == Some(asked) && asked != configured && exists|i: int|
                0 <= i < flags.len() && (#[trigger] arch_value(flags[i])) is Some && arch_named(
                    arch_value(flags[i])->0,
                ) == Some(configured))
        }),
{
    let result = load_result(Some(text), requested, simd_0460);
    let flags = declared(parsed(text)->0);
    settings_are_agreed(flags);
    if let Ok(found) = settings(flags) {
        if found.arch is Some {
            let i = choose|i: int| 0 <= i < flags.len() && arch_value(#[trigger] flags[i]) is Some;
            assert(arch_named(arch_value(flags[i])->0) == found.arch);
        }
        if found.stack_size is Some {
            let i = choose|i: int| 0 <= i < flags.len() && stack_value(#[trigger] flags[i]) is Some;
            assert(read_u64(stack_value(flags[i])->0) == found.stack_size);
            assert(sets_stack(flags));
        }
        if sets_stack(flags) {
            let i = choose|i: int| 0 <= i < flags.len() && stack_value(#[trigger] flags[i]) is Some;
            assert(found.stack_size is Some);
        }
    }
}

/// A message about a value names the value and the file that it stands in, and a message about two
/// architectures names both.
pub proof fn load_messages_name_values(value: Seq<char>, path: Seq<char>, arch: SbpfArch)
    ensures
        ({
            let unsupported = load_fault_message(LoadFault::UnsupportedArch(value), path);
            let invalid = load_fault_message(LoadFault::InvalidStackSize(value), path);
            let end = "`"@ + value + "` in "@ + path;
            &&& end.is_suffix_of(unsupported)
            &&& "unsupported SBPF architecture "@.is_prefix_of(unsupported)
            &&& end.is_suffix_of(invalid)
            &&& "invalid BPF stack size "@.is_prefix_of(invalid)
        }),
        forall|other: SbpfArch|
            ({
                let mismatch = #[trigger] load_fault_message(
                    LoadFault::ArchMismatch { requested: arch, configured: other },
                    path,
                );
                &&& ("SBPF architecture conflict: --arch "@ + arch_name(arch)).is_prefix_of(
                    mismatch,
                )
                &&& (" Cargo config specifies "@ + arch_name(other)).is_suffix_of(mismatch)
            }),
{
    reveal_strlit("`");
    reveal_strlit("` in ");
    reveal_strlit("unsupported SBPF architecture ");
    reveal_strlit("unsupported SBPF architecture `");
    reveal_strlit("invalid BPF stack size ");
    reveal_strlit("invalid BPF stack size `");
    reveal_strlit("SBPF architecture conflict: --arch ");
    reveal_strlit(" was requested, but Cargo config specifies ");
    reveal_strlit(" Cargo config specifies ");
    let unsupported = load_fault_message(LoadFault::UnsupportedArch(value), path);
    let invalid = load_fault_message(LoadFault::InvalidStackSize(value), path);
    let end = "`"@ + value + "` in "@ + path;
    assert(end =~= unsupported.subrange(unsupported.len() - end.len(), unsupported.len() as int));
    assert("unsupported SBPF architecture "@ =~= unsupported.subrange(0, 30));
    assert(end =~= invalid.subrange(invalid.len() - end.len(), invalid.len() as int));
    assert("invalid BPF stack size "@ =~= invalid.subrange(0, 23));
    assert forall|other: SbpfArch|
        ({
            let mismatch = #[trigger] load_fault_message(
                LoadFault::ArchMismatch { requested: arch, configured: other },
                path,
            );
            &&& ("SBPF architecture conflict: --arch "@ + arch_name(arch)).is_prefix_of(mismatch)
            &&& (" Cargo config specifies "@ + arch_name(other)).is_suffix_of(mismatch)
        }) by {
        let mismatch = load_fault_message(
            LoadFault::ArchMismatch { requested: arch, configured: other },
            path,
        );
        let front = "SBPF architecture conflict: --arch "@ + arch_name(arch);
        let back = " Cargo config specifies "@ + arch_name(other);
        assert(front =~= mismatch.subrange(0, front.len() as int));
        assert(back =~= mismatch.subrange(mismatch.len() - back.len(), mismatch.len() as int));
    }
}

/// A message about what a configuration is to hold says where, and wherever the configuration
/// stands; messages about contradictions say what there are two of.
pub proof fn load_messages_say_what_is_wrong(path: Seq<char>)
    ensures
        load_fault_message(LoadFault::ConflictingArchs, path)
            == "Cargo config contains conflicting SBPF architectures"@,
        load_fault_message(LoadFault::ConflictingStackSizes, path)
            == "Cargo config contains conflicting BPF stack sizes"@,
        load_fault_message(LoadFault::StackSizeMismatch, path)
            == "the configured BPF stack size does not match this build"@,
        load_fault_message(LoadFault::TargetNotTable, path)
            == "Cargo config `target` must be a table"@,
        load_fault_message(LoadFault::TripleNotTable, path)
            == "Cargo config `target.bpfel-unknown-none` must be a table"@,
        load_fault_message(LoadFault::RustflagsNotFlags, path)
            == "Cargo config `target.bpfel-unknown-none.rustflags` must be a string or array"@,
{
    reveal_strlit("bpfel-unknown-none");
    reveal_strlit("Cargo config `target.");
    reveal_strlit("` must be a table");
    reveal_strlit(".rustflags` must be a string or array");
    reveal_strlit("Cargo config `target.bpfel-unknown-none` must be a table");
    reveal_strlit(
        "Cargo config `target.bpfel-unknown-none.rustflags` must be a string or array",
    );
    assert(load_fault_message(LoadFault::TripleNotTable, path)
        =~= "Cargo config `target.bpfel-unknown-none` must be a table"@);
    assert(load_fault_message(LoadFault::RustflagsNotFlags, path)
        =~= "Cargo config `target.bpfel-unknown-none.rustflags` must be a string or array"@);
}

/// Faults are known by what they are, and by the characters of their texts.
pub proof fn load_faults_are_known(fault: LoadFault<String>)
    ensures
        fault is ConflictingArchs <==> load_fault_view(fault) is ConflictingArchs,
        fault is ConflictingStackSizes <==> load_fault_view(fault) is ConflictingStackSizes,
        fault is StackSizeMismatch <==> load_fault_view(fault) is StackSizeMismatch,
        fault is TargetNotTable <==> load_fault_view(fault) is TargetNotTable,
        fault is TripleNotTable <==> load_fault_view(fault) is TripleNotTable,
        fault is RustflagsNotFlags <==> load_fault_view(fault) is RustflagsNotFlags,
        fault matches LoadFault::UnsupportedArch(value) ==> load_fault_view(fault)
            == LoadFault::UnsupportedArch(value@),
        fault matches LoadFault::InvalidStackSize(value) ==> load_fault_view(fault)
            == LoadFault::InvalidStackSize(value@),
        fault matches LoadFault::ArchMismatch { requested, configured } ==> load_fault_view(fault)
            == (LoadFault::<Seq<char>>::ArchMismatch { requested, configured }),
{
}

/// A configuration that is there is known by its characters.
pub proof fn configurations_are_known(config: Option<&str>)
    ensures
        config_view(config) is Some <==> config is Some,
        config matches Some(text) ==> config_view(config) == Some(text@),
{
}

} // verus!
