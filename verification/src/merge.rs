//! Bringing the flags of an SBPF build into the flags that a Cargo configuration declares.

use vstd::prelude::*;

use crate::arch::{arch_name, frame_size, SbpfArch};
use crate::flags::{
    arch_flag, flag_key, flags_are_known_by_their_names, recommended_flags, required_flags,
    rustflag_key, stack_flag, wanted_flags, wanted_rustflags, FlagNamespace,
};
use crate::text::{
    before, lemma_before, prefix_comes_off, same, text_goes_on_at_first_occurrence, views,
    without_prefix,
};

verus! {

/// How a flag of the build goes together with flags that give its setting another value.
#[derive(Clone, Copy, Debug, PartialEq, Eq, Structural)]
pub enum FlagPolicy {
    /// The first flag for the setting has to be the one of the build.
    Agree,
    /// No flag may give the setting another value.
    Fixed,
    /// The first flag that gives the setting another value is replaced.
    Replace,
    /// The flag of the build is added beside the others.
    Append,
    /// A flag that gives the setting another value stays in place of the one of the build.
    Keep,
}

/// Why the flags of a build do not go into a configuration.
#[derive(Debug)]
pub enum MergeFault<S> {
    /// The configuration selects another architecture, by the flag `existing`.
    ArchConflict { existing: S },
    /// The configuration holds `conflicting`, which rules out `required`.
    FlagConflict { conflicting: S, required: S },
}

/// A fault by the characters of the flags that it names.
pub open spec fn fault_view(fault: MergeFault<String>) -> MergeFault<Seq<char>> {
    match fault {
        MergeFault::ArchConflict { existing } => MergeFault::ArchConflict { existing: existing@ },
        MergeFault::FlagConflict { conflicting, required } => MergeFault::FlagConflict {
            conflicting: conflicting@,
            required: required@,
        },
    }
}

/// The policy for the setting with a given key.
pub open spec fn policy(key: (FlagNamespace, Seq<char>)) -> FlagPolicy {
    if key == (FlagNamespace::Linker, "--arch"@) {
        FlagPolicy::Agree
    } else if key == (FlagNamespace::Rustc, "linker"@) || key == (FlagNamespace::Rustc, "panic"@)
        || key == (FlagNamespace::Rustc, "relocation-model"@) {
        FlagPolicy::Fixed
    } else if key == (FlagNamespace::Llvm, "-bpf-stack-size"@) {
        FlagPolicy::Replace
    } else if key == (FlagNamespace::Linker, "--export"@) {
        FlagPolicy::Append
    } else {
        FlagPolicy::Keep
    }
}

/// Whether `flag` gives the setting of `required` another value.
pub open spec fn conflicts(flag: Seq<char>, required: Seq<char>) -> bool {
    flag_key(flag) == flag_key(required) && flag != required
}

/// The first place in `flags`, from `start` on, of a flag with a given key.
pub open spec fn keyed_from(
    flags: Seq<Seq<char>>,
    key: (FlagNamespace, Seq<char>),
    start: int,
) -> Option<int>
    decreases flags.len() - start,
{
    if start < 0 || start >= flags.len() {
        None
    } else if flag_key(flags[start]) == key {
        Some(start)
    } else {
        keyed_from(flags, key, start + 1)
    }
}

/// The first place in `flags`, from `start` on, of a flag that conflicts with `required`.
pub open spec fn conflict_from(flags: Seq<Seq<char>>, required: Seq<char>, start: int) -> Option<
    int,
>
    decreases flags.len() - start,
{
    if start < 0 || start >= flags.len() {
        None
    } else if conflicts(flags[start], required) {
        Some(start)
    } else {
        conflict_from(flags, required, start + 1)
    }
}

/// `flags` with `required` among them: added at the end, after a `-C`, where it is missing.
pub open spec fn with_flag(flags: Seq<Seq<char>>, required: Seq<char>) -> Seq<Seq<char>> {
    if flags.contains(required) {
        flags
    } else {
        flags.push("-C"@).push(required)
    }
}

/// `flags` after one flag of the build has been brought in.
pub open spec fn merged_one(flags: Seq<Seq<char>>, required: Seq<char>) -> Result<
    Seq<Seq<char>>,
    MergeFault<Seq<char>>,
> {
    let conflict = conflict_from(flags, required, 0);
    match policy(flag_key(required)) {
        FlagPolicy::Agree => match keyed_from(flags, flag_key(required), 0) {
            Some(i) => if flags[i] == required {
                Ok(flags)
            } else {
                Err(MergeFault::ArchConflict { existing: flags[i] })
            },
            None => Ok(with_flag(flags, required)),
        },
        FlagPolicy::Fixed => match conflict {
            Some(i) => Err(MergeFault::FlagConflict { conflicting: flags[i], required }),
            None => Ok(with_flag(flags, required)),
        },
        FlagPolicy::Replace => match conflict {
            Some(i) => Ok(flags.update(i, required)),
            None => Ok(with_flag(flags, required)),
        },
        FlagPolicy::Append => Ok(with_flag(flags, required)),
        FlagPolicy::Keep => match conflict {
            Some(_) => Ok(flags),
            None => Ok(with_flag(flags, required)),
        },
    }
}

/// `flags` after the flags of a build have been brought in, one after the other.
pub open spec fn merged(flags: Seq<Seq<char>>, wanted: Seq<Seq<char>>) -> Result<
    Seq<Seq<char>>,
    MergeFault<Seq<char>>,
>
    decreases wanted.len(),
{
    if wanted.len() == 0 {
        Ok(flags)
    } else {
        match merged(flags, wanted.drop_last()) {
            Ok(sofar) => merged_one(sofar, wanted.last()),
            Err(fault) => Err(fault),
        }
    }
}

/// `keyed_from` finds the first flag with the key.
proof fn lemma_keyed_from(
    flags: Seq<Seq<char>>,
    key: (FlagNamespace, Seq<char>),
    start: int,
    place: Option<int>,
)
    requires
        0 <= start <= flags.len(),
        match place {
            Some(i) => start <= i < flags.len() && flag_key(flags[i]) == key && (forall|j: int|
                start <= j < i ==> flag_key(#[trigger] flags[j]) != key),
            None => forall|j: int|
                start <= j < flags.len() ==> flag_key(#[trigger] flags[j]) != key,
        },
    ensures
        keyed_from(flags, key, start) == place,
    decreases flags.len() - start,
{
    if start < flags.len() && flag_key(flags[start]) != key {
        lemma_keyed_from(flags, key, start + 1, place);
    }
}

/// What `keyed_from` finds is the first flag with the key.
proof fn lemma_keyed_found(
    flags: Seq<Seq<char>>,
    key: (FlagNamespace, Seq<char>),
    start: int,
)
    requires
        0 <= start <= flags.len(),
    ensures
        match keyed_from(flags, key, start) {
            Some(i) => start <= i < flags.len() && flag_key(flags[i]) == key && (forall|j: int|
                start <= j < i ==> flag_key(#[trigger] flags[j]) != key),
            None => forall|j: int|
                start <= j < flags.len() ==> flag_key(#[trigger] flags[j]) != key,
        },
    decreases flags.len() - start,
{
    if start < flags.len() && flag_key(flags[start]) != key {
        lemma_keyed_found(flags, key, start + 1);
    }
}

/// `conflict_from` finds the first conflicting flag.
proof fn lemma_conflict_from(
    flags: Seq<Seq<char>>,
    required: Seq<char>,
    start: int,
    place: Option<int>,
)
    requires
        0 <= start <= flags.len(),
        match place {
            Some(i) => start <= i < flags.len() && conflicts(flags[i], required) && (forall|j: int|
                start <= j < i ==> !conflicts(#[trigger] flags[j], required)),
            None => forall|j: int|
                start <= j < flags.len() ==> !conflicts(#[trigger] flags[j], required),
        },
    ensures
        conflict_from(flags, required, start) == place,
    decreases flags.len() - start,
{
    if start < flags.len() && !conflicts(flags[start], required) {
        lemma_conflict_from(flags, required, start + 1, place);
    }
}

/// What `conflict_from` finds is the first conflicting flag.
proof fn lemma_conflict_found(flags: Seq<Seq<char>>, required: Seq<char>, start: int)
    requires
        0 <= start <= flags.len(),
    ensures
        match conflict_from(flags, required, start) {
            Some(i) => start <= i < flags.len() && conflicts(flags[i], required) && (forall|j: int|
                start <= j < i ==> !conflicts(#[trigger] flags[j], required)),
            None => forall|j: int|
                start <= j < flags.len() ==> !conflicts(#[trigger] flags[j], required),
        },
    decreases flags.len() - start,
{
    if start < flags.len() && !conflicts(flags[start], required) {
        lemma_conflict_found(flags, required, start + 1);
    }
}

fn same_key(a: (FlagNamespace, &str), b: (FlagNamespace, &str)) -> (r: bool)
    ensures
        r == ((a.0, a.1@) == (b.0, b.1@)),
{
    a.0 == b.0 && same(a.1, b.1)
}

/// The policy for the setting with a given key.
pub fn flag_policy(key: (FlagNamespace, &str)) -> (r: FlagPolicy)
    ensures
        r == policy((key.0, key.1@)),
{
    if same_key(key, (FlagNamespace::Linker, "--arch")) {
        FlagPolicy::Agree
    } else if same_key(key, (FlagNamespace::Rustc, "linker")) || same_key(
        key,
        (FlagNamespace::Rustc, "panic"),
    ) || same_key(key, (FlagNamespace::Rustc, "relocation-model")) {
        FlagPolicy::Fixed
    } else if same_key(key, (FlagNamespace::Llvm, "-bpf-stack-size")) {
        FlagPolicy::Replace
    } else if same_key(key, (FlagNamespace::Linker, "--export")) {
        FlagPolicy::Append
    } else {
        FlagPolicy::Keep
    }
}

/// The first place of a flag with the key of `required`.
fn position_of_key(flags: &Vec<String>, required: &str) -> (r: Option<usize>)
    ensures
        match r {
            Some(i) => i < flags.len() && keyed_from(views(flags@), flag_key(required@), 0) == Some(
                i as int,
            ),
            None => keyed_from(views(flags@), flag_key(required@), 0) is None,
        },
{
    let key: (FlagNamespace, &str) = rustflag_key(required);
    let mut i: usize = 0;
    while i < flags.len()
        invariant
            i <= flags.len(),
            (key.0, key.1@) == flag_key(required@),
            forall|j: int|
                0 <= j < i ==> flag_key(#[trigger] views(flags@)[j]) != flag_key(required@),
        decreases flags.len() - i,
    {
        assert(views(flags@)[i as int] == flags@[i as int]@);
        if same_key(rustflag_key(flags[i].as_str()), key) {
            proof {
                lemma_keyed_from(views(flags@), flag_key(required@), 0, Some(i as int));
            }
            return Some(i);
        }
        i = i + 1;
    }
    proof {
        lemma_keyed_from(views(flags@), flag_key(required@), 0, None);
    }
    None
}

/// The first place of a flag that conflicts with `required`.
fn position_of_conflict(flags: &Vec<String>, required: &str) -> (r: Option<usize>)
    ensures
        match r {
            Some(i) => i < flags.len() && conflict_from(views(flags@), required@, 0) == Some(
                i as int,
            ),
            None => conflict_from(views(flags@), required@, 0) is None,
        },
{
    let key: (FlagNamespace, &str) = rustflag_key(required);
    let mut i: usize = 0;
    while i < flags.len()
        invariant
            i <= flags.len(),
            (key.0, key.1@) == flag_key(required@),
            forall|j: int| 0 <= j < i ==> !conflicts(#[trigger] views(flags@)[j], required@),
        decreases flags.len() - i,
    {
        assert(views(flags@)[i as int] == flags@[i as int]@);
        if same_key(rustflag_key(flags[i].as_str()), key) && !same(flags[i].as_str(), required) {
            proof {
                lemma_conflict_from(views(flags@), required@, 0, Some(i as int));
            }
            return Some(i);
        }
        i = i + 1;
    }
    proof {
        lemma_conflict_from(views(flags@), required@, 0, None);
    }
    None
}

/// Whether `wanted` is among `flags`.
pub fn has_flag(flags: &Vec<String>, wanted: &str) -> (r: bool)
    ensures
        r == views(flags@).contains(wanted@),
{
    let mut i: usize = 0;
    while i < flags.len()
        invariant
            i <= flags.len(),
            forall|j: int| 0 <= j < i ==> #[trigger] views(flags@)[j] != wanted@,
        decreases flags.len() - i,
    {
        assert(views(flags@)[i as int] == flags@[i as int]@);
        if same(flags[i].as_str(), wanted) {
            assert(views(flags@)[i as int] == wanted@);
            return true;
        }
        i = i + 1;
    }
    assert(views(flags@).len() == flags@.len());
    false
}

/// Brings one flag of the build into `flags`.
fn merge_one(flags: &mut Vec<String>, required: &String) -> (r: Result<(), MergeFault<String>>)
    ensures
        match r {
            Ok(_) => merged_one(views(old(flags)@), required@) == Ok::<
                Seq<Seq<char>>,
                MergeFault<Seq<char>>,
            >(views(final(flags)@)),
            Err(fault) => merged_one(views(old(flags)@), required@) == Err::<
                Seq<Seq<char>>,
                MergeFault<Seq<char>>,
            >(fault_view(fault)),
        },
{
    let ghost before = views(flags@);
    match flag_policy(rustflag_key(required.as_str())) {
        FlagPolicy::Agree => {
            if let Some(i) = position_of_key(flags, required.as_str()) {
                assert(before[i as int] == flags@[i as int]@);
                if !same(flags[i].as_str(), required.as_str()) {
                    return Err(MergeFault::ArchConflict { existing: flags[i].clone() });
                }
                return Ok(());
            }
        },
        FlagPolicy::Fixed => {
            if let Some(i) = position_of_conflict(flags, required.as_str()) {
                assert(before[i as int] == flags@[i as int]@);
                return Err(
                    MergeFault::FlagConflict {
                        conflicting: flags[i].clone(),
                        required: required.clone(),
                    },
                );
            }
        },
        FlagPolicy::Replace => {
            if let Some(i) = position_of_conflict(flags, required.as_str()) {
                flags.set(i, required.clone());
                assert(views(flags@) =~= before.update(i as int, required@));
                return Ok(());
            }
        },
        FlagPolicy::Append => {},
        FlagPolicy::Keep => {
            if position_of_conflict(flags, required.as_str()).is_some() {
                return Ok(());
            }
        },
    }
    if !has_flag(flags, required.as_str()) {
        flags.push("-C".to_owned());
        flags.push(required.clone());
        assert(views(flags@) =~= before.push("-C"@).push(required@));
    }
    Ok(())
}

/// Brings the flags of a build into the flags that a configuration declares.
pub fn merge_rustflags(existing: &Vec<String>, arch: SbpfArch, simd_0460: bool) -> (r: Result<
    Vec<String>,
    MergeFault<String>,
>)
    ensures
        match r {
            Ok(flags) => merged(views(existing@), wanted_flags(arch, simd_0460)) == Ok::<
                Seq<Seq<char>>,
                MergeFault<Seq<char>>,
            >(views(flags@)),
            Err(fault) => merged(views(existing@), wanted_flags(arch, simd_0460)) == Err::<
                Seq<Seq<char>>,
                MergeFault<Seq<char>>,
            >(fault_view(fault)),
        },
{
    let wanted: Vec<String> = wanted_rustflags(arch, simd_0460);
    let mut flags: Vec<String> = existing.clone();
    assert(views(flags@) =~= views(existing@));
    let mut i: usize = 0;
    while i < wanted.len()
        invariant
            i <= wanted.len(),
            views(wanted@) == wanted_flags(arch, simd_0460),
            merged(views(existing@), views(wanted@).take(i as int)) == Ok::<
                Seq<Seq<char>>,
                MergeFault<Seq<char>>,
            >(views(flags@)),
        decreases wanted.len() - i,
    {
        assert(views(wanted@).take(i + 1).drop_last() =~= views(wanted@).take(i as int));
        assert(views(wanted@).take(i + 1).last() == wanted@[i as int]@);
        let step = merge_one(&mut flags, &wanted[i]);
        if let Err(fault) = step {
            proof {
                lemma_fault_stays(views(existing@), views(wanted@), i + 1);
            }
            return Err(fault);
        }
        i = i + 1;
    }
    assert(views(wanted@).take(i as int) =~= views(wanted@));
    Ok(flags)
}

/// A fault in a front part of the flags of a build is the fault of all of them.
proof fn lemma_fault_stays(flags: Seq<Seq<char>>, wanted: Seq<Seq<char>>, n: int)
    requires
        0 <= n <= wanted.len(),
        merged(flags, wanted.take(n)) is Err,
    ensures
        merged(flags, wanted) == merged(flags, wanted.take(n)),
    decreases wanted.len(),
{
    if n < wanted.len() {
        assert(wanted.drop_last().take(n) =~= wanted.take(n));
        lemma_fault_stays(flags, wanted.drop_last(), n);
    } else {
        assert(wanted.take(n) =~= wanted);
    }
}

/// A flag that starts like a flag for LLVM has the key that its rest names.
proof fn lemma_llvm_key(flag: Seq<char>, rest: Seq<char>)
    requires
        flag == "link-arg=--llvm-args="@ + rest,
    ensures
        flag_key(flag) == (FlagNamespace::Llvm, before(rest, '=')),
{
    assert("link-arg=--llvm-args="@.is_prefix_of(flag));
    assert(flag.skip("link-arg=--llvm-args="@.len() as int) =~= rest);
}

/// A flag that starts like a flag for the linker, and not like one for LLVM, has the key that
/// its rest names.
proof fn lemma_linker_key(flag: Seq<char>, rest: Seq<char>)
    requires
        flag == "link-arg="@ + rest,
        rest.len() > 2,
        rest[2] != 'l',
    ensures
        flag_key(flag) == (FlagNamespace::Linker, before(rest, '=')),
{
    reveal_strlit("link-arg=");
    reveal_strlit("link-arg=--llvm-args=");
    assert("link-arg=--llvm-args="@[11] == 'l');
    assert(flag[11] == rest[2]);
    assert(!"link-arg=--llvm-args="@.is_prefix_of(flag));
    assert("link-arg="@.is_prefix_of(flag));
    assert(flag.skip("link-arg="@.len() as int) =~= rest);
}

/// A flag that does not start with `link-arg=` is one for the compiler.
proof fn lemma_rustc_key(flag: Seq<char>, n: int)
    requires
        0 <= n < "link-arg="@.len(),
        n >= flag.len() || flag[n] != "link-arg="@[n],
    ensures
        flag_key(flag) == (FlagNamespace::Rustc, before(flag, '=')),
{
    reveal_strlit("link-arg=");
    reveal_strlit("link-arg=--llvm-args=");
    assert(!"link-arg="@.is_prefix_of(flag));
    assert("link-arg=--llvm-args="@.take(9) =~= "link-arg="@);
    assert("link-arg=--llvm-args="@[n] == "link-arg="@[n]);
    assert(!"link-arg=--llvm-args="@.is_prefix_of(flag));
}

/// The keys of the flags of a build.
pub open spec fn wanted_keys() -> Seq<(FlagNamespace, Seq<char>)> {
    seq![
        (FlagNamespace::Rustc, "linker"@),
        (FlagNamespace::Rustc, "panic"@),
        (FlagNamespace::Rustc, "relocation-model"@),
        (FlagNamespace::Linker, "--export"@),
        (FlagNamespace::Linker, "--arch"@),
        (FlagNamespace::Llvm, "-bpf-stack-size"@),
        (FlagNamespace::Llvm, "--bpf-max-stores-per-memfunc"@),
        (FlagNamespace::Llvm, "--disable-gotox"@),
    ]
}

/// The flags of a build give values to eight different settings.
proof fn lemma_wanted_keys(arch: SbpfArch, simd_0460: bool)
    ensures
        wanted_flags(arch, simd_0460).len() == 8,
        forall|i: int|
            0 <= i < 8 ==> flag_key(#[trigger] wanted_flags(arch, simd_0460)[i]) == wanted_keys()[i],
        forall|i: int, j: int|
            0 <= i < 8 && 0 <= j < 8 && i != j ==> #[trigger] wanted_keys()[i]
                != #[trigger] wanted_keys()[j],
        forall|i: int| 0 <= i < 8 ==> #[trigger] wanted_keys()[i] != flag_key("-C"@),
{
    let wanted = wanted_flags(arch, simd_0460);
    reveal_strlit("linker");
    reveal_strlit("panic");
    reveal_strlit("relocation-model");
    reveal_strlit("--export");
    reveal_strlit("--arch");
    reveal_strlit("-bpf-stack-size");
    reveal_strlit("--bpf-max-stores-per-memfunc");
    reveal_strlit("--disable-gotox");
    reveal_strlit("link-arg=");
    reveal_strlit("link-arg=--llvm-args=");
    assert(flag_key(wanted[0]) == wanted_keys()[0]) by {
        reveal_strlit("linker=sbpf-linker");
        lemma_rustc_key(wanted[0], 4);
        lemma_before(wanted[0], '=', 6);
        assert(wanted[0].take(6) =~= "linker"@);
    }
    assert(flag_key(wanted[1]) == wanted_keys()[1]) by {
        reveal_strlit("panic=abort");
        lemma_rustc_key(wanted[1], 0);
        lemma_before(wanted[1], '=', 5);
        assert(wanted[1].take(5) =~= "panic"@);
    }
    assert(flag_key(wanted[2]) == wanted_keys()[2]) by {
        reveal_strlit("relocation-model=static");
        lemma_rustc_key(wanted[2], 0);
        lemma_before(wanted[2], '=', 16);
        assert(wanted[2].take(16) =~= "relocation-model"@);
    }
    assert(flag_key(wanted[3]) == wanted_keys()[3]) by {
        reveal_strlit("link-arg=--export=__multi3");
        let rest = wanted[3].skip(9);
        assert(wanted[3] =~= "link-arg="@ + rest);
        lemma_linker_key(wanted[3], rest);
        lemma_before(rest, '=', 8);
        assert(rest.take(8) =~= "--export"@);
    }
    assert(flag_key(wanted[4]) == wanted_keys()[4]) by {
        reveal_strlit("link-arg=--arch=");
        let rest = wanted[4].skip(9);
        assert(wanted[4] == "link-arg=--arch="@ + arch_name(arch));
        assert(wanted[4] =~= "link-arg="@ + rest);
        lemma_linker_key(wanted[4], rest);
        lemma_before(rest, '=', 6);
        assert(rest.take(6) =~= "--arch"@);
    }
    assert(flag_key(wanted[5]) == wanted_keys()[5]) by {
        lemma_stack_flag_key(frame_size(arch, simd_0460));
    }
    assert(flag_key(wanted[6]) == wanted_keys()[6]) by {
        reveal_strlit("link-arg=--llvm-args=--bpf-max-stores-per-memfunc=5");
        let rest = wanted[6].skip(21);
        assert(wanted[6] =~= "link-arg=--llvm-args="@ + rest);
        lemma_llvm_key(wanted[6], rest);
        lemma_before(rest, '=', 28);
        assert(rest.take(28) =~= "--bpf-max-stores-per-memfunc"@);
    }
    assert(flag_key(wanted[7]) == wanted_keys()[7]) by {
        reveal_strlit("link-arg=--llvm-args=--disable-gotox");
        let rest = wanted[7].skip(21);
        assert(wanted[7] =~= "link-arg=--llvm-args="@ + rest);
        lemma_llvm_key(wanted[7], rest);
        lemma_before(rest, '=', 15);
        assert(rest.take(15) =~= "--disable-gotox"@);
    }
    assert(flag_key("-C"@) == (FlagNamespace::Rustc, "-C"@)) by {
        reveal_strlit("-C");
        lemma_rustc_key("-C"@, 0);
        lemma_before("-C"@, '=', 2);
        assert("-C"@.take(2) =~= "-C"@);
    }
    assert("linker"@.len() == 6 && "panic"@.len() == 5 && "relocation-model"@.len() == 16);
    assert("--export"@.len() == 8 && "--arch"@.len() == 6 && "-bpf-stack-size"@.len() == 15);
    assert("--bpf-max-stores-per-memfunc"@.len() == 28);
    assert("--disable-gotox"@.len() == 15 && "--disable-gotox"@[1] != "-bpf-stack-size"@[1]);
    assert("-C"@.len() == 2) by {
        reveal_strlit("-C");
    }
}

/// A flag that sets the size of the BPF stack has the key of that setting.
proof fn lemma_stack_flag_key(size: nat)
    ensures
        flag_key(stack_flag(size)) == (FlagNamespace::Llvm, "-bpf-stack-size"@),
{
    reveal_strlit("link-arg=--llvm-args=");
    reveal_strlit("-bpf-stack-size");
    reveal_strlit("link-arg=--llvm-args=-bpf-stack-size=");
    let flag = stack_flag(size);
    let rest = flag.skip(21);
    assert(flag =~= "link-arg=--llvm-args="@ + rest);
    lemma_llvm_key(flag, rest);
    lemma_before(rest, '=', 15);
    assert(rest.take(15) =~= "-bpf-stack-size"@);
}

/// Whether two flags of `flags` at different places conflict with `required`.
pub open spec fn conflicts_twice(flags: Seq<Seq<char>>, required: Seq<char>) -> bool {
    exists|i: int, j: int|
        0 <= i < j < flags.len() && conflicts(#[trigger] flags[i], required) && conflicts(
            #[trigger] flags[j],
            required,
        )
}

/// Whether `flags` hold `required`, or another value for its setting that may stay instead.
pub open spec fn present(flags: Seq<Seq<char>>, required: Seq<char>) -> bool {
    flags.contains(required) || (policy(flag_key(required)) == FlagPolicy::Keep && exists|i: int|
        0 <= i < flags.len() && conflicts(#[trigger] flags[i], required))
}

/// Whether bringing `required` into `flags` changes nothing.
spec fn settled(flags: Seq<Seq<char>>, required: Seq<char>) -> bool {
    merged_one(flags, required) == Ok::<Seq<Seq<char>>, MergeFault<Seq<char>>>(flags)
}

/// What one flag of the build can change.
proof fn lemma_one_step(flags: Seq<Seq<char>>, required: Seq<char>)
    requires
        merged_one(flags, required) is Ok,
    ensures
        ({
            let out = merged_one(flags, required)->Ok_0;
            &&& out.len() >= flags.len()
            &&& forall|i: int|
                0 <= i < flags.len() ==> #[trigger] out[i] == flags[i] || (policy(
                    flag_key(required),
                ) == FlagPolicy::Replace && conflicts(flags[i], required) && out[i] == required)
            &&& forall|i: int|
                flags.len() <= i < out.len() ==> #[trigger] out[i] == "-C"@ || out[i] == required
            &&& present(out, required)
        }),
{
    lemma_conflict_found(flags, required, 0);
    lemma_keyed_found(flags, flag_key(required), 0);
    let out = merged_one(flags, required)->Ok_0;
    if out == flags.push("-C"@).push(required) {
        assert(out[out.len() - 1] == required);
    }
    match conflict_from(flags, required, 0) {
        Some(i) => {
            assert(conflicts(flags[i], required));
            if out == flags.update(i, required) {
                assert(out[i] == required);
            }
        },
        None => {},
    }
    match keyed_from(flags, flag_key(required), 0) {
        Some(i) => {
            assert(flags.contains(flags[i]));
        },
        None => {},
    }
}

/// After a step the flag is settled, unless one more conflicting flag awaits its replacement.
proof fn lemma_step_settles(flags: Seq<Seq<char>>, required: Seq<char>)
    requires
        merged_one(flags, required) is Ok,
        flag_key("-C"@) != flag_key(required),
        policy(flag_key(required)) == FlagPolicy::Replace ==> !conflicts_twice(flags, required),
    ensures
        settled(merged_one(flags, required)->Ok_0, required),
{
    let key = flag_key(required);
    let out = merged_one(flags, required)->Ok_0;
    lemma_one_step(flags, required);
    lemma_conflict_found(flags, required, 0);
    lemma_keyed_found(flags, key, 0);
    lemma_conflict_found(out, required, 0);
    lemma_keyed_found(out, key, 0);
    match policy(key) {
        FlagPolicy::Agree => {
            if keyed_from(flags, key, 0) is None {
                if flags.contains(required) {
                    let i = choose|i: int| 0 <= i < flags.len() && flags[i] == required;
                    assert(flag_key(flags[i]) == key);
                }
                assert(out[out.len() - 1] == required);
                lemma_keyed_from(out, key, 0, Some(out.len() - 1));
            }
        },
        FlagPolicy::Replace => {
            match conflict_from(flags, required, 0) {
                Some(i) => {
                    assert forall|j: int| 0 <= j < out.len() implies !conflicts(
                        #[trigger] out[j],
                        required,
                    ) by {
                        if j != i {
                            assert(out[j] == flags[j]);
                            if conflicts(flags[j], required) {
                                assert(conflicts_twice(flags, required));
                            }
                        }
                    }
                    lemma_conflict_from(out, required, 0, None);
                },
                None => {
                    lemma_conflict_from(out, required, 0, None);
                },
            }
        },
        FlagPolicy::Fixed => {
            lemma_conflict_from(out, required, 0, None);
        },
        FlagPolicy::Append => {},
        FlagPolicy::Keep => {
            if conflict_from(flags, required, 0) is None {
                lemma_conflict_from(out, required, 0, None);
            }
        },
    }
}

/// A step for one setting leaves another setting settled.
proof fn lemma_stays_settled(flags: Seq<Seq<char>>, other: Seq<char>, required: Seq<char>)
    requires
        merged_one(flags, other) is Ok,
        flag_key(other) != flag_key(required),
        flag_key("-C"@) != flag_key(required),
    ensures
        settled(flags, required) && present(flags, required) ==> settled(
            merged_one(flags, other)->Ok_0,
            required,
        ),
        present(flags, required) ==> present(merged_one(flags, other)->Ok_0, required),
{
    let key = flag_key(required);
    let out = merged_one(flags, other)->Ok_0;
    lemma_one_step(flags, other);
    lemma_conflict_found(flags, required, 0);
    lemma_keyed_found(flags, key, 0);
    assert forall|i: int| 0 <= i < flags.len() implies flag_key(#[trigger] out[i]) == flag_key(
        flags[i],
    ) && (flag_key(out[i]) == key ==> out[i] == flags[i]) by {}
    assert forall|i: int| flags.len() <= i < out.len() implies flag_key(#[trigger] out[i])
        != key by {}
    if flags.contains(required) {
        let i = choose|i: int| 0 <= i < flags.len() && flags[i] == required;
        assert(out[i] == required);
    }
    if exists|i: int| 0 <= i < flags.len() && conflicts(#[trigger] flags[i], required) {
        let i = choose|i: int| 0 <= i < flags.len() && conflicts(#[trigger] flags[i], required);
        assert(conflicts(out[i], required));
    }
    match keyed_from(flags, key, 0) {
        Some(i) => {
            assert(out[i] == flags[i]);
            lemma_keyed_from(out, key, 0, Some(i));
        },
        None => {
            lemma_keyed_from(out, key, 0, None);
        },
    }
    match conflict_from(flags, required, 0) {
        Some(i) => {
            assert(out[i] == flags[i]);
            lemma_conflict_from(out, required, 0, Some(i));
        },
        None => {
            lemma_conflict_from(out, required, 0, None);
        },
    }
    if settled(flags, required) && present(flags, required) {
        if policy(key) == FlagPolicy::Replace && conflict_from(flags, required, 0) is Some {
            let i = conflict_from(flags, required, 0)->0;
            assert(flags.update(i, required)[i] == required);
        }
    }
}

/// The state of the flags once the first `n` flags of a build have been brought in.
proof fn lemma_merge(flags: Seq<Seq<char>>, arch: SbpfArch, simd_0460: bool, n: int)
    requires
        0 <= n <= 8,
        merged(flags, wanted_flags(arch, simd_0460).take(n)) is Ok,
    ensures
        ({
            let wanted = wanted_flags(arch, simd_0460);
            let out = merged(flags, wanted.take(n))->Ok_0;
            &&& out.len() >= flags.len()
            &&& forall|i: int|
                0 <= i < flags.len() ==> #[trigger] out[i] == flags[i] || (n > 5 && conflicts(
                    flags[i],
                    wanted[5],
                ) && out[i] == wanted[5])
            &&& forall|i: int|
                flags.len() <= i < out.len() ==> #[trigger] out[i] == "-C"@ || exists|k: int|
                    0 <= k < n && out[i] == #[trigger] wanted[k]
            &&& forall|k: int| 0 <= k < n ==> present(out, #[trigger] wanted[k])
            &&& !conflicts_twice(flags, wanted[5]) ==> forall|k: int|
                0 <= k < n ==> settled(out, #[trigger] wanted[k])
        }),
    decreases n,
{
    let wanted = wanted_flags(arch, simd_0460);
    lemma_wanted_keys(arch, simd_0460);
    if n > 0 {
        let required = wanted[n - 1];
        assert(wanted.take(n).drop_last() =~= wanted.take(n - 1));
        assert(wanted.take(n).last() == required);
        lemma_merge(flags, arch, simd_0460, n - 1);
        let before = merged(flags, wanted.take(n - 1))->Ok_0;
        let out = merged(flags, wanted.take(n))->Ok_0;
        assert(merged_one(before, required) == Ok::<Seq<Seq<char>>, MergeFault<Seq<char>>>(out));
        lemma_one_step(before, required);
        assert(policy(flag_key(required)) == FlagPolicy::Replace <==> n == 6) by {
            assert(wanted_keys()[n - 1] == flag_key(required));
            assert(wanted_keys()[5] == (FlagNamespace::Llvm, "-bpf-stack-size"@));
            assert(wanted_keys()[4] == (FlagNamespace::Linker, "--arch"@));
            assert(wanted_keys()[0] == (FlagNamespace::Rustc, "linker"@));
        }
        assert forall|i: int| 0 <= i < flags.len() implies #[trigger] out[i] == flags[i] || (n > 5
            && conflicts(flags[i], wanted[5]) && out[i] == wanted[5]) by {
            assert(before[i] == flags[i] || (n > 6 && conflicts(flags[i], wanted[5]) && before[i]
                == wanted[5]));
        }
        assert forall|i: int| flags.len() <= i < out.len() implies #[trigger] out[i] == "-C"@
            || exists|k: int| 0 <= k < n && out[i] == #[trigger] wanted[k] by {
            if i < before.len() {
                assert(before[i] == "-C"@ || exists|k: int|
                    0 <= k < n - 1 && before[i] == #[trigger] wanted[k]);
                if out[i] != before[i] {
                    assert(out[i] == wanted[n - 1]);
                }
            } else {
                assert(out[i] == "-C"@ || out[i] == wanted[n - 1]);
            }
        }
        assert forall|k: int| 0 <= k < n implies present(out, #[trigger] wanted[k]) by {
            if k < n - 1 {
                assert(wanted_keys()[k] != wanted_keys()[n - 1]);
                lemma_stays_settled(before, required, wanted[k]);
            }
        }
        if !conflicts_twice(flags, wanted[5]) {
            assert forall|k: int| 0 <= k < n implies settled(out, #[trigger] wanted[k]) by {
                assert(wanted_keys()[k] != flag_key("-C"@));
                if k < n - 1 {
                    assert(wanted_keys()[k] != wanted_keys()[n - 1]);
                    lemma_stays_settled(before, required, wanted[k]);
                } else {
                    if n == 6 && conflicts_twice(before, required) {
                        let (i, j) = choose|i: int, j: int|
                            0 <= i < j < before.len() && conflicts(#[trigger] before[i], required)
                                && conflicts(#[trigger] before[j], required);
                        assert forall|m: int| flags.len() <= m < before.len() implies !conflicts(
                            #[trigger] before[m],
                            required,
                        ) by {
                            if before[m] != "-C"@ {
                                let q = choose|q: int| 0 <= q < 5 && before[m] == #[trigger] wanted[q];
                                assert(wanted_keys()[q] != wanted_keys()[5]);
                            }
                        }
                        assert(before[i] == flags[i] && before[j] == flags[j]);
                        assert(conflicts_twice(flags, wanted[5]));
                    }
                    lemma_step_settles(before, required);
                }
            }
        }
    }
}

/// Merging keeps every flag of the configuration in its place, but for a stack size that the
/// build rules out, and what it adds at the end is a `-C` or a flag of the build.
pub proof fn merge_keeps_flags(flags: Seq<Seq<char>>, arch: SbpfArch, simd_0460: bool)
    requires
        merged(flags, wanted_flags(arch, simd_0460)) is Ok,
    ensures
        ({
            let out = merged(flags, wanted_flags(arch, simd_0460))->Ok_0;
            let stack = stack_flag(frame_size(arch, simd_0460));
            &&& out.len() >= flags.len()
            &&& forall|i: int|
                0 <= i < flags.len() ==> #[trigger] out[i] == flags[i] || (conflicts(
                    flags[i],
                    stack,
                ) && out[i] == stack)
            &&& forall|i: int|
                flags.len() <= i < out.len() ==> #[trigger] out[i] == "-C"@ || wanted_flags(
                    arch,
                    simd_0460,
                ).contains(out[i])
        }),
{
    let wanted = wanted_flags(arch, simd_0460);
    assert(wanted.take(8) =~= wanted);
    lemma_merge(flags, arch, simd_0460, 8);
}

/// After merging, the configuration declares every required flag, the architecture and the stack
/// size of the build, and each recommended flag or another value for its setting.
pub proof fn merge_brings_in_flags(flags: Seq<Seq<char>>, arch: SbpfArch, simd_0460: bool)
    requires
        merged(flags, wanted_flags(arch, simd_0460)) is Ok,
    ensures
        ({
            let out = merged(flags, wanted_flags(arch, simd_0460))->Ok_0;
            &&& forall|k: int|
                0 <= k < required_flags().len() ==> out.contains(#[trigger] required_flags()[k])
            &&& out.contains(arch_flag(arch))
            &&& out.contains(stack_flag(frame_size(arch, simd_0460)))
            &&& forall|k: int|
                0 <= k < recommended_flags().len() ==> out.contains(
                    #[trigger] recommended_flags()[k],
                ) || exists|i: int|
                    0 <= i < flags.len() && conflicts(#[trigger] flags[i], recommended_flags()[k])
        }),
{
    let wanted = wanted_flags(arch, simd_0460);
    let out = merged(flags, wanted)->Ok_0;
    assert(wanted.take(8) =~= wanted);
    lemma_merge(flags, arch, simd_0460, 8);
    lemma_wanted_keys(arch, simd_0460);
    assert forall|k: int| 0 <= k < 6 implies out.contains(#[trigger] wanted[k]) by {
        assert(present(out, wanted[k]));
        assert(flag_key(wanted[k]) == wanted_keys()[k]);
    }
    assert forall|k: int| 0 <= k < 4 implies out.contains(#[trigger] required_flags()[k]) by {
        assert(wanted[k] == required_flags()[k]);
    }
    assert(wanted[4] == arch_flag(arch));
    assert(wanted[5] == stack_flag(frame_size(arch, simd_0460)));
    assert forall|k: int| 0 <= k < 2 implies out.contains(#[trigger] recommended_flags()[k])
        || exists|i: int|
        0 <= i < flags.len() && conflicts(#[trigger] flags[i], recommended_flags()[k]) by {
        let r = recommended_flags()[k];
        assert(wanted[k + 6] == r);
        assert(present(out, wanted[k + 6]));
        assert(flag_key(r) == wanted_keys()[k + 6]);
        if !out.contains(r) {
            let i = choose|i: int| 0 <= i < out.len() && conflicts(#[trigger] out[i], r);
            if i >= flags.len() {
                if out[i] != "-C"@ {
                    let q = choose|q: int| 0 <= q < 8 && out[i] == #[trigger] wanted[q];
                    assert(flag_key(wanted[q]) == wanted_keys()[q]);
                }
                assert(false);
            }
            if out[i] != flags[i] {
                assert(flag_key(out[i]) == wanted_keys()[5]);
                assert(wanted_keys()[5] != wanted_keys()[k + 6]);
            }
            assert(conflicts(flags[i], r));
        }
    }
}

/// Merging a second time changes nothing more, where no two flags of the configuration set stack
/// sizes that the build rules out: one merge replaces only the first of them.
pub proof fn merge_is_idempotent(flags: Seq<Seq<char>>, arch: SbpfArch, simd_0460: bool)
    requires
        merged(flags, wanted_flags(arch, simd_0460)) is Ok,
        !conflicts_twice(flags, stack_flag(frame_size(arch, simd_0460))),
    ensures
        merged(
            merged(flags, wanted_flags(arch, simd_0460))->Ok_0,
            wanted_flags(arch, simd_0460),
        ) == merged(flags, wanted_flags(arch, simd_0460)),
{
    let wanted = wanted_flags(arch, simd_0460);
    let out = merged(flags, wanted)->Ok_0;
    assert(wanted.take(8) =~= wanted);
    assert(wanted[5] == stack_flag(frame_size(arch, simd_0460)));
    lemma_merge(flags, arch, simd_0460, 8);
    lemma_all_settled(out, wanted);
}

/// Whether `flags` rule the build out: they give a fixed setting another value, or the first of
/// them that selects an architecture selects another one.
pub open spec fn ruled_out(flags: Seq<Seq<char>>, arch: SbpfArch) -> bool {
    let first = keyed_from(flags, (FlagNamespace::Linker, "--arch"@), 0);
    ||| exists|k: int, i: int|
        0 <= k < 3 && 0 <= i < flags.len() && conflicts(
            #[trigger] flags[i],
            #[trigger] required_flags()[k],
        )
    ||| first is Some && flags[first->0] != arch_flag(arch)
}

/// Merging fails on exactly the flags that rule the build out.
pub proof fn merge_fails_where_ruled_out(flags: Seq<Seq<char>>, arch: SbpfArch, simd_0460: bool)
    ensures
        merged(flags, wanted_flags(arch, simd_0460)) is Err <==> ruled_out(flags, arch),
{
    let wanted = wanted_flags(arch, simd_0460);
    assert(wanted.take(8) =~= wanted);
    lemma_wanted_keys(arch, simd_0460);
    lemma_merge_fails(flags, arch, simd_0460, 8);
}

/// Up to which flag of the build merging succeeds.
proof fn lemma_merge_fails(flags: Seq<Seq<char>>, arch: SbpfArch, simd_0460: bool, n: int)
    requires
        0 <= n <= 8,
    ensures
        !ruled_out(flags, arch) ==> merged(flags, wanted_flags(arch, simd_0460).take(n)) is Ok,
        n == 8 && ruled_out(flags, arch) ==> merged(
            flags,
            wanted_flags(arch, simd_0460).take(n),
        ) is Err,
        forall|k: int, i: int|
            0 <= k < 3 && k < n && 0 <= i < flags.len() && conflicts(
                #[trigger] flags[i],
                #[trigger] required_flags()[k],
            ) ==> merged(flags, wanted_flags(arch, simd_0460).take(n)) is Err,
        ({
            let first = keyed_from(flags, (FlagNamespace::Linker, "--arch"@), 0);
            n > 4 && first is Some && flags[first->0] != arch_flag(arch) ==> merged(
                flags,
                wanted_flags(arch, simd_0460).take(n),
            ) is Err
        }),
    decreases n,
{
    let wanted = wanted_flags(arch, simd_0460);
    let arch_key = (FlagNamespace::Linker, "--arch"@);
    lemma_wanted_keys(arch, simd_0460);
    if n > 0 {
        let required = wanted[n - 1];
        assert(wanted.take(n).drop_last() =~= wanted.take(n - 1));
        assert(wanted.take(n).last() == required);
        assert(flag_key(required) == wanted_keys()[n - 1]);
        lemma_merge_fails(flags, arch, simd_0460, n - 1);
        if merged(flags, wanted.take(n - 1)) is Ok {
            lemma_merge(flags, arch, simd_0460, n - 1);
            let before = merged(flags, wanted.take(n - 1))->Ok_0;
            assert forall|i: int| flags.len() <= i < before.len() implies flag_key(
                #[trigger] before[i],
            ) != flag_key(required) by {
                if before[i] != "-C"@ {
                    let q = choose|q: int| 0 <= q < n - 1 && before[i] == #[trigger] wanted[q];
                    assert(flag_key(wanted[q]) == wanted_keys()[q]);
                    assert(wanted_keys()[q] != wanted_keys()[n - 1]);
                }
            }
            lemma_conflict_found(before, required, 0);
            if n <= 3 {
                assert(required == required_flags()[n - 1]);
                match conflict_from(before, required, 0) {
                    Some(i) => {
                        assert(before[i] == flags[i]);
                        assert(conflicts(flags[i], required_flags()[n - 1]));
                        assert(ruled_out(flags, arch));
                    },
                    None => {
                        assert forall|i: int| 0 <= i < flags.len() implies !conflicts(
                            #[trigger] flags[i],
                            required,
                        ) by {
                            assert(before[i] == flags[i]);
                        }
                    },
                }
            }
            if n == 5 {
                lemma_keyed_found(flags, arch_key, 0);
                match keyed_from(flags, arch_key, 0) {
                    Some(i) => {
                        assert(before[i] == flags[i]);
                        assert forall|j: int| 0 <= j < i implies flag_key(#[trigger] before[j])
                            != arch_key by {
                            assert(before[j] == flags[j]);
                        }
                        lemma_keyed_from(before, arch_key, 0, Some(i));
                    },
                    None => {
                        assert forall|j: int| 0 <= j < before.len() implies flag_key(
                            #[trigger] before[j],
                        ) != arch_key by {
                            if j < flags.len() {
                                assert(before[j] == flags[j]);
                            }
                        }
                        lemma_keyed_from(before, arch_key, 0, None);
                    },
                }
            }
            assert(policy(flag_key(required)) == FlagPolicy::Fixed <==> n <= 3) by {
                assert(wanted_keys()[0] == (FlagNamespace::Rustc, "linker"@));
                assert(wanted_keys()[1] == (FlagNamespace::Rustc, "panic"@));
                assert(wanted_keys()[2] == (FlagNamespace::Rustc, "relocation-model"@));
                assert(wanted_keys()[4] == arch_key);
            }
            assert(policy(flag_key(required)) == FlagPolicy::Agree <==> n == 5) by {
                assert(wanted_keys()[4] == arch_key);
            }
        }
    }
}

proof fn lemma_all_settled(flags: Seq<Seq<char>>, wanted: Seq<Seq<char>>)
    requires
        forall|k: int| 0 <= k < wanted.len() ==> settled(flags, #[trigger] wanted[k]),
    ensures
        merged(flags, wanted) == Ok::<Seq<Seq<char>>, MergeFault<Seq<char>>>(flags),
    decreases wanted.len(),
{
    if wanted.len() > 0 {
        assert forall|k: int| 0 <= k < wanted.len() - 1 implies settled(
            flags,
            #[trigger] wanted.drop_last()[k],
        ) by {
            assert(settled(flags, wanted[k]));
        }
        lemma_all_settled(flags, wanted.drop_last());
        assert(settled(flags, wanted[wanted.len() - 1]));
    }
}

/// Which flags of a build have been added once the first `n` of them have been brought in, and what
/// became of the flags of the configuration.
proof fn lemma_added(flags: Seq<Seq<char>>, arch: SbpfArch, simd_0460: bool, n: int) -> (added: Seq<
    int,
>)
    requires
        0 <= n <= 8,
        merged(flags, wanted_flags(arch, simd_0460).take(n)) is Ok,
    ensures
        ({
            let wanted = wanted_flags(arch, simd_0460);
            let out = merged(flags, wanted.take(n))->Ok_0;
            let first = conflict_from(flags, wanted[5], 0);
            &&& out.len() == flags.len() + 2 * added.len()
            &&& forall|k: int|
                0 <= k < added.len() ==> 0 <= #[trigger] added[k] < n && !flags.contains(
                    wanted[added[k]],
                )
            &&& forall|j: int, k: int|
                0 <= j < k < added.len() ==> #[trigger] added[j] < #[trigger] added[k]
            &&& forall|i: int|
                flags.len() <= i < out.len() ==> #[trigger] out[i] == if (i - flags.len()) % 2
                    == 0 {
                    "-C"@
                } else {
                    wanted[added[(i - flags.len()) / 2]]
                }
            &&& forall|i: int|
                0 <= i < flags.len() ==> #[trigger] out[i] == if n > 5 && first == Some(i) {
                    wanted[5]
                } else {
                    flags[i]
                }
            &&& first is Some ==> !added.contains(5)
        }),
    decreases n,
{
    let wanted = wanted_flags(arch, simd_0460);
    lemma_wanted_keys(arch, simd_0460);
    if n == 0 {
        assert(wanted.take(0).len() == 0);
        Seq::empty()
    } else {
        let required = wanted[n - 1];
        let key = flag_key(required);
        assert(wanted.take(n).drop_last() =~= wanted.take(n - 1));
        assert(wanted.take(n).last() == required);
        let sofar = lemma_added(flags, arch, simd_0460, n - 1);
        let before = merged(flags, wanted.take(n - 1))->Ok_0;
        let out = merged(flags, wanted.take(n))->Ok_0;
        let first = conflict_from(flags, wanted[5], 0);
        assert(merged_one(before, required) == Ok::<Seq<Seq<char>>, MergeFault<Seq<char>>>(out));
        assert(key == wanted_keys()[n - 1]);
        assert forall|i: int| flags.len() <= i < before.len() implies flag_key(
            #[trigger] before[i],
        ) != key by {
            if (i - flags.len()) % 2 != 0 {
                let k = (i - flags.len()) / 2;
                assert(0 <= sofar[k] < n - 1);
                assert(flag_key(wanted[sofar[k]]) == wanted_keys()[sofar[k]]);
                assert(wanted_keys()[sofar[k]] != wanted_keys()[n - 1]);
            }
        }
        assert(policy(key) == FlagPolicy::Replace <==> n == 6) by {
            assert(wanted_keys()[5] == (FlagNamespace::Llvm, "-bpf-stack-size"@));
            assert(wanted_keys()[4] == (FlagNamespace::Linker, "--arch"@));
            assert(wanted_keys()[0] == (FlagNamespace::Rustc, "linker"@));
        }
        lemma_conflict_found(flags, wanted[5], 0);
        if n == 6 {
            assert forall|i: int| 0 <= i < flags.len() implies #[trigger] before[i] == flags[i] by {}
            match first {
                Some(p) => {
                    assert forall|j: int| 0 <= j < p implies !conflicts(
                        #[trigger] before[j],
                        required,
                    ) by {
                        assert(before[j] == flags[j]);
                    }
                    assert(before[p] == flags[p]);
                    lemma_conflict_from(before, required, 0, Some(p));
                },
                None => {
                    assert forall|j: int| 0 <= j < before.len() implies !conflicts(
                        #[trigger] before[j],
                        required,
                    ) by {
                        if j < flags.len() {
                            assert(before[j] == flags[j]);
                        }
                    }
                    lemma_conflict_from(before, required, 0, None);
                },
            }
        }
        if out == before {
            if n == 6 {
                if let Some(p) = first {
                    assert(out == before.update(p, required));
                    assert(before.update(p, required)[p] == required);
                    assert(flags[p] != required);
                }
            }
            sofar
        } else if n == 6 && first is Some {
            let p = first->0;
            assert(out == before.update(p, required));
            assert(!sofar.contains(5)) by {
                if sofar.contains(5) {
                    let k = choose|k: int| 0 <= k < sofar.len() && sofar[k] == 5;
                    assert(sofar[k] < n - 1);
                }
            }
            sofar
        } else {
            assert(out == before.push("-C"@).push(required));
            assert(!before.contains(required));
            assert(!flags.contains(required)) by {
                if flags.contains(required) {
                    let i = choose|i: int| 0 <= i < flags.len() && flags[i] == required;
                    if before[i] != flags[i] {
                        assert(conflicts(flags[i], wanted[5]));
                        assert(wanted_keys()[5] == flag_key(wanted[5]));
                        assert(wanted_keys()[5] != wanted_keys()[n - 1]);
                    }
                    assert(before[i] == required);
                }
            }
            let added = sofar.push(n - 1);
            assert forall|i: int| flags.len() <= i < out.len() implies #[trigger] out[i] == if (i
                - flags.len()) % 2 == 0 {
                "-C"@
            } else {
                wanted[added[(i - flags.len()) / 2]]
            } by {
                if i < before.len() {
                    assert(out[i] == before[i]);
                    if (i - flags.len()) % 2 != 0 {
                        assert(added[(i - flags.len()) / 2] == sofar[(i - flags.len()) / 2]);
                    }
                }
            }
            assert forall|i: int| 0 <= i < flags.len() implies #[trigger] out[i] == if n > 5
                && first == Some(i) {
                wanted[5]
            } else {
                flags[i]
            } by {
                assert(out[i] == before[i]);
            }
            assert(first is Some ==> !added.contains(5)) by {
                if first is Some && added.contains(5) {
                    let k = choose|k: int| 0 <= k < added.len() && added[k] == 5;
                    if k < sofar.len() {
                        assert(sofar.contains(sofar[k]));
                    } else {
                        assert(n == 6);
                    }
                }
            }
            added
        }
    }
}

/// What merging adds stands behind the flags of the configuration: flags of the build that these
/// lack, in the order of the build, each directly behind a `-C` of its own. `added` says which.
pub proof fn merge_adds_options_and_flags(
    flags: Seq<Seq<char>>,
    arch: SbpfArch,
    simd_0460: bool,
) -> (added: Seq<int>)
    requires
        merged(flags, wanted_flags(arch, simd_0460)) is Ok,
    ensures
        ({
            let wanted = wanted_flags(arch, simd_0460);
            let out = merged(flags, wanted)->Ok_0;
            &&& out.len() == flags.len() + 2 * added.len()
            &&& forall|k: int|
                0 <= k < added.len() ==> 0 <= #[trigger] added[k] < wanted.len()
                    && !flags.contains(wanted[added[k]])
            &&& forall|j: int, k: int|
                0 <= j < k < added.len() ==> #[trigger] added[j] < #[trigger] added[k]
            &&& forall|i: int|
                flags.len() <= i < out.len() ==> #[trigger] out[i] == if (i - flags.len()) % 2
                    == 0 {
                    "-C"@
                } else {
                    wanted[added[(i - flags.len()) / 2]]
                }
        }),
{
    let wanted = wanted_flags(arch, simd_0460);
    lemma_wanted_keys(arch, simd_0460);
    assert(wanted.take(8) =~= wanted);
    lemma_added(flags, arch, simd_0460, 8)
}

/// Whether a flag gives a value to a setting of a program. `opening` is what stands before the
/// value, without the equals sign.
pub open spec fn gives_value(flag: Seq<char>, opening: Seq<char>) -> bool {
    flag == opening || (opening + seq!['=']).is_prefix_of(flag)
}

/// Merging replaces the first flag that sets another stack size than the build, and no other flag.
/// It then adds no flag for the stack size.
pub proof fn merge_replaces_first_stack_size(
    flags: Seq<Seq<char>>,
    arch: SbpfArch,
    simd_0460: bool,
    first: int,
)
    requires
        merged(flags, wanted_flags(arch, simd_0460)) is Ok,
        0 <= first <= flags.len(),
        forall|i: int|
            0 <= i < first ==> !gives_value(
                #[trigger] flags[i],
                "link-arg=--llvm-args=-bpf-stack-size"@,
            ) || flags[i] == stack_flag(frame_size(arch, simd_0460)),
        first < flags.len() ==> gives_value(
            flags[first],
            "link-arg=--llvm-args=-bpf-stack-size"@,
        ) && flags[first] != stack_flag(frame_size(arch, simd_0460)),
    ensures
        ({
            let out = merged(flags, wanted_flags(arch, simd_0460))->Ok_0;
            let stack = stack_flag(frame_size(arch, simd_0460));
            &&& out.len() >= flags.len()
            &&& forall|i: int|
                0 <= i < flags.len() ==> #[trigger] out[i] == if i == first {
                    stack
                } else {
                    flags[i]
                }
            &&& first < flags.len() ==> forall|i: int|
                flags.len() <= i < out.len() ==> #[trigger] out[i] != stack
        }),
{
    let wanted = wanted_flags(arch, simd_0460);
    let stack = stack_flag(frame_size(arch, simd_0460));
    lemma_wanted_keys(arch, simd_0460);
    assert(wanted.take(8) =~= wanted);
    assert(wanted[5] == stack);
    assert(flag_key(wanted[5]) == wanted_keys()[5]);
    let added = lemma_added(flags, arch, simd_0460, 8);
    assert forall|i: int| 0 <= i < flags.len() implies (conflicts(#[trigger] flags[i], stack)
        <==> gives_value(flags[i], "link-arg=--llvm-args=-bpf-stack-size"@) && flags[i]
        != stack) by {
        lemma_llvm_setting(flags[i]);
    }
    if first < flags.len() {
        lemma_conflict_from(flags, stack, 0, Some(first));
        let out = merged(flags, wanted)->Ok_0;
        assert forall|i: int| flags.len() <= i < out.len() implies #[trigger] out[i] != stack by {
            if (i - flags.len()) % 2 == 0 {
                assert(wanted_keys()[5] != flag_key("-C"@));
            } else {
                let k = (i - flags.len()) / 2;
                assert(added.contains(added[k]));
                assert(wanted_keys()[added[k]] != wanted_keys()[5]);
                assert(flag_key(wanted[added[k]]) == wanted_keys()[added[k]]);
            }
        }
    } else {
        lemma_conflict_from(flags, stack, 0, None);
    }
}

proof fn lemma_llvm_setting(flag: Seq<char>)
    ensures
        flag_key(flag) == (FlagNamespace::Llvm, "-bpf-stack-size"@) <==> gives_value(
            flag,
            "link-arg=--llvm-args=-bpf-stack-size"@,
        ),
{
    reveal_strlit("-bpf-stack-size");
    reveal_strlit("link-arg=--llvm-args=");
    reveal_strlit("link-arg=--llvm-args=-bpf-stack-size");
    let name = "-bpf-stack-size"@;
    let opening = "link-arg=--llvm-args=-bpf-stack-size"@;
    let front = "link-arg=--llvm-args="@;
    assert(opening =~= front + name);
    assert(!name.contains('='));
    prefix_comes_off(flag, front);
    if flag == opening {
        flags_are_known_by_their_names(name, Seq::empty());
    } else if (opening + seq!['=']).is_prefix_of(flag) {
        let value = flag.skip(opening.len() + 1int);
        assert(flag =~= front + name + seq!['='] + value) by {
            assert(flag.subrange(0, opening.len() + 1int) =~= opening + seq!['=']);
            assert(flag =~= flag.subrange(0, opening.len() + 1int) + value);
        }
        flags_are_known_by_their_names(name, value);
    }
    if flag_key(flag) == (FlagNamespace::Llvm, name) {
        let rest = without_prefix(flag, front)->0;
        text_goes_on_at_first_occurrence(rest, '=');
        if rest != name {
            assert(opening + seq!['='] =~= flag.subrange(0, opening.len() + 1int)) by {
                assert(name + seq!['='] =~= rest.subrange(0, name.len() + 1int));
                assert(flag =~= front + rest);
                assert(flag.subrange(0, opening.len() + 1int) =~= front + rest.subrange(
                    0,
                    name.len() + 1int,
                ));
            }
        }
    }
}

proof fn lemma_rustc_setting(flag: Seq<char>, name: Seq<char>)
    requires
        !name.contains('='),
        name != "link-arg"@,
    ensures
        flag_key(flag) == (FlagNamespace::Rustc, name) <==> gives_value(flag, name),
{
    if flag == name {
        flags_are_known_by_their_names(name, Seq::empty());
    } else if (name + seq!['=']).is_prefix_of(flag) {
        let value = flag.skip(name.len() + 1int);
        assert(flag =~= name + seq!['='] + value) by {
            assert(flag.subrange(0, name.len() + 1int) =~= name + seq!['=']);
            assert(flag =~= flag.subrange(0, name.len() + 1int) + value);
        }
        flags_are_known_by_their_names(name, value);
    }
    text_goes_on_at_first_occurrence(flag, '=');
}

proof fn lemma_arch_setting(flag: Seq<char>)
    ensures
        flag_key(flag) == (FlagNamespace::Linker, "--arch"@) <==> gives_value(
            flag,
            "link-arg=--arch"@,
        ),
{
    reveal_strlit("--arch");
    reveal_strlit("--llvm-args");
    reveal_strlit("link-arg=");
    reveal_strlit("link-arg=--arch");
    let name = "--arch"@;
    let opening = "link-arg=--arch"@;
    let front = "link-arg="@;
    assert(opening =~= front + name);
    assert(!name.contains('='));
    assert(name.len() != "--llvm-args"@.len());
    prefix_comes_off(flag, front);
    if flag == opening {
        flags_are_known_by_their_names(name, Seq::empty());
    } else if (opening + seq!['=']).is_prefix_of(flag) {
        let value = flag.skip(opening.len() + 1int);
        assert(flag =~= front + name + seq!['='] + value) by {
            assert(flag.subrange(0, opening.len() + 1int) =~= opening + seq!['=']);
            assert(flag =~= flag.subrange(0, opening.len() + 1int) + value);
        }
        flags_are_known_by_their_names(name, value);
    }
    if flag_key(flag) == (FlagNamespace::Linker, name) {
        let rest = without_prefix(flag, front)->0;
        text_goes_on_at_first_occurrence(rest, '=');
        if rest != name {
            assert(opening + seq!['='] =~= flag.subrange(0, opening.len() + 1int)) by {
                assert(name + seq!['='] =~= rest.subrange(0, name.len() + 1int));
                assert(flag =~= front + rest);
                assert(flag.subrange(0, opening.len() + 1int) =~= front + rest.subrange(
                    0,
                    name.len() + 1int,
                ));
            }
        }
    }
}

/// Whether a flag names another linker, another way to panic or another relocation model than an
/// SBPF build.
pub open spec fn sets_otherwise(flag: Seq<char>) -> bool {
    ||| gives_value(flag, "linker"@) && flag != "linker=sbpf-linker"@
    ||| gives_value(flag, "panic"@) && flag != "panic=abort"@
    ||| gives_value(flag, "relocation-model"@) && flag != "relocation-model=static"@
}

/// Merging is refused exactly where a flag names another linker, another way to panic or another
/// relocation model, or where the first flag that selects an architecture selects another one.
pub proof fn merge_refuses_other_settings(flags: Seq<Seq<char>>, arch: SbpfArch, simd_0460: bool)
    ensures
        merged(flags, wanted_flags(arch, simd_0460)) is Err <==> (exists|i: int|
            0 <= i < flags.len() && sets_otherwise(#[trigger] flags[i])) || (exists|p: int|
            0 <= p < flags.len() && gives_value(#[trigger] flags[p], "link-arg=--arch"@)
                && flags[p] != "link-arg=--arch="@ + arch_name(arch) && forall|i: int|
                0 <= i < p ==> !gives_value(#[trigger] flags[i], "link-arg=--arch"@)),
{
    let wanted = wanted_flags(arch, simd_0460);
    let key = (FlagNamespace::Linker, "--arch"@);
    merge_fails_where_ruled_out(flags, arch, simd_0460);
    lemma_wanted_keys(arch, simd_0460);
    assert(forall|k: int| 0 <= k < 4 ==> wanted[k] == #[trigger] required_flags()[k]);
    assert(flag_key(wanted[0]) == wanted_keys()[0]);
    assert(flag_key(wanted[1]) == wanted_keys()[1]);
    assert(flag_key(wanted[2]) == wanted_keys()[2]);
    assert(required_flags()[0] == "linker=sbpf-linker"@);
    assert(required_flags()[1] == "panic=abort"@);
    assert(required_flags()[2] == "relocation-model=static"@);
    reveal_strlit("link-arg");
    reveal_strlit("linker");
    reveal_strlit("panic");
    reveal_strlit("relocation-model");
    assert("linker"@.len() == 6 && "panic"@.len() == 5 && "relocation-model"@.len() == 16);
    assert forall|i: int| 0 <= i < flags.len() implies {
        &&& conflicts(#[trigger] flags[i], required_flags()[0]) <==> gives_value(
            flags[i],
            "linker"@,
        ) && flags[i] != "linker=sbpf-linker"@
        &&& conflicts(flags[i], required_flags()[1]) <==> gives_value(flags[i], "panic"@)
            && flags[i] != "panic=abort"@
        &&& conflicts(flags[i], required_flags()[2]) <==> gives_value(
            flags[i],
            "relocation-model"@,
        ) && flags[i] != "relocation-model=static"@
        &&& flag_key(flags[i]) == key <==> gives_value(flags[i], "link-arg=--arch"@)
    } by {
        lemma_rustc_setting(flags[i], "linker"@);
        lemma_rustc_setting(flags[i], "panic"@);
        lemma_rustc_setting(flags[i], "relocation-model"@);
        lemma_arch_setting(flags[i]);
    }
    lemma_keyed_found(flags, key, 0);
    if exists|i: int| 0 <= i < flags.len() && sets_otherwise(#[trigger] flags[i]) {
        let i = choose|i: int| 0 <= i < flags.len() && sets_otherwise(#[trigger] flags[i]);
        assert(conflicts(flags[i], required_flags()[0]) || conflicts(flags[i], required_flags()[1])
            || conflicts(flags[i], required_flags()[2]));
        assert(ruled_out(flags, arch));
    }
    if exists|k: int, i: int|
        0 <= k < 3 && 0 <= i < flags.len() && conflicts(
            #[trigger] flags[i],
            #[trigger] required_flags()[k],
        ) {
        let (k, i) = choose|k: int, i: int|
            0 <= k < 3 && 0 <= i < flags.len() && conflicts(
                #[trigger] flags[i],
                #[trigger] required_flags()[k],
            );
        assert(sets_otherwise(flags[i]));
    }
    if exists|p: int|
        0 <= p < flags.len() && gives_value(#[trigger] flags[p], "link-arg=--arch"@) && flags[p]
            != "link-arg=--arch="@ + arch_name(arch) && forall|i: int|
            0 <= i < p ==> !gives_value(#[trigger] flags[i], "link-arg=--arch"@) {
        let p = choose|p: int|
            0 <= p < flags.len() && gives_value(#[trigger] flags[p], "link-arg=--arch"@) && flags[p]
                != "link-arg=--arch="@ + arch_name(arch) && forall|i: int|
                0 <= i < p ==> !gives_value(#[trigger] flags[i], "link-arg=--arch"@);
        lemma_keyed_from(flags, key, 0, Some(p));
        assert(ruled_out(flags, arch));
    }
    match keyed_from(flags, key, 0) {
        Some(p) => {
            assert(gives_value(flags[p], "link-arg=--arch"@));
        },
        None => {},
    }
}

/// A refusal names a flag of the configuration, and the flag of the build that it rules out. Where
/// it is about the architecture, it names the first flag that selects one.
pub proof fn refusals_name_flags(flags: Seq<Seq<char>>, arch: SbpfArch, simd_0460: bool)
    ensures
        match merged(flags, wanted_flags(arch, simd_0460)) {
            Ok(_) => true,
            Err(MergeFault::FlagConflict { conflicting, required }) => flags.contains(conflicting)
                && conflicting != required && (required == "linker=sbpf-linker"@ && gives_value(
                conflicting,
                "linker"@,
            ) || required == "panic=abort"@ && gives_value(conflicting, "panic"@) || required
                == "relocation-model=static"@ && gives_value(conflicting, "relocation-model"@)),
            Err(MergeFault::ArchConflict { existing }) => existing != "link-arg=--arch="@
                + arch_name(arch) && exists|p: int|
                0 <= p < flags.len() && #[trigger] flags[p] == existing && gives_value(
                    existing,
                    "link-arg=--arch"@,
                ) && forall|i: int|
                    0 <= i < p ==> !gives_value(#[trigger] flags[i], "link-arg=--arch"@),
        },
{
    assert(wanted_flags(arch, simd_0460).take(8) =~= wanted_flags(arch, simd_0460)) by {
        lemma_wanted_keys(arch, simd_0460);
    }
    lemma_refusals(flags, arch, simd_0460, 8);
}

proof fn lemma_refusals(flags: Seq<Seq<char>>, arch: SbpfArch, simd_0460: bool, n: int)
    requires
        0 <= n <= 8,
    ensures
        match merged(flags, wanted_flags(arch, simd_0460).take(n)) {
            Ok(_) => true,
            Err(MergeFault::FlagConflict { conflicting, required }) => flags.contains(conflicting)
                && conflicting != required && (required == "linker=sbpf-linker"@ && gives_value(
                conflicting,
                "linker"@,
            ) || required == "panic=abort"@ && gives_value(conflicting, "panic"@) || required
                == "relocation-model=static"@ && gives_value(conflicting, "relocation-model"@)),
            Err(MergeFault::ArchConflict { existing }) => existing != "link-arg=--arch="@
                + arch_name(arch) && exists|p: int|
                0 <= p < flags.len() && #[trigger] flags[p] == existing && gives_value(
                    existing,
                    "link-arg=--arch"@,
                ) && forall|i: int|
                    0 <= i < p ==> !gives_value(#[trigger] flags[i], "link-arg=--arch"@),
        },
    decreases n,
{
    let wanted = wanted_flags(arch, simd_0460);
    lemma_wanted_keys(arch, simd_0460);
    if n > 0 {
        let required = wanted[n - 1];
        assert(wanted.take(n).drop_last() =~= wanted.take(n - 1));
        assert(wanted.take(n).last() == required);
        lemma_refusals(flags, arch, simd_0460, n - 1);
        if merged(flags, wanted.take(n - 1)) is Ok && merged(flags, wanted.take(n)) is Err {
            let added = lemma_added(flags, arch, simd_0460, n - 1);
            let before = merged(flags, wanted.take(n - 1))->Ok_0;
            assert(flag_key(required) == wanted_keys()[n - 1]);
            assert forall|i: int| flags.len() <= i < before.len() implies flag_key(
                #[trigger] before[i],
            ) != flag_key(required) by {
                if (i - flags.len()) % 2 != 0 {
                    let k = (i - flags.len()) / 2;
                    assert(0 <= added[k] < n - 1);
                    assert(flag_key(wanted[added[k]]) == wanted_keys()[added[k]]);
                    assert(wanted_keys()[added[k]] != wanted_keys()[n - 1]);
                }
            }
            lemma_conflict_found(before, required, 0);
            lemma_keyed_found(before, flag_key(required), 0);
            reveal_strlit("link-arg");
            reveal_strlit("linker");
            reveal_strlit("panic");
            reveal_strlit("relocation-model");
            assert(wanted_keys()[0] == (FlagNamespace::Rustc, "linker"@));
            assert(wanted_keys()[1] == (FlagNamespace::Rustc, "panic"@));
            assert(wanted_keys()[2] == (FlagNamespace::Rustc, "relocation-model"@));
            assert(wanted_keys()[4] == (FlagNamespace::Linker, "--arch"@));
            assert(n <= 3 || n == 5) by {
                assert(policy(wanted_keys()[n - 1]) == FlagPolicy::Fixed || policy(
                    wanted_keys()[n - 1],
                ) == FlagPolicy::Agree);
            }
            if n <= 3 {
                let i = conflict_from(before, required, 0)->0;
                assert(before[i] == flags[i]);
                assert(flags.contains(flags[i]));
                assert("linker"@.len() == 6 && "panic"@.len() == 5);
                assert("relocation-model"@.len() == 16 && "link-arg"@.len() == 8);
                lemma_rustc_setting(flags[i], wanted_keys()[n - 1].1);
                assert(wanted[0] == "linker=sbpf-linker"@);
                assert(wanted[1] == "panic=abort"@);
                assert(wanted[2] == "relocation-model=static"@);
            } else {
                let p = keyed_from(before, flag_key(required), 0)->0;
                assert(before[p] == flags[p]);
                lemma_arch_setting(flags[p]);
                assert forall|i: int| 0 <= i < p implies !gives_value(
                    #[trigger] flags[i],
                    "link-arg=--arch"@,
                ) by {
                    assert(before[i] == flags[i]);
                    lemma_arch_setting(flags[i]);
                }
            }
        }
    }
}

/// A flag of the configuration that gives a recommended setting another value stays, and the
/// recommended one is not added beside it.
pub proof fn recommendations_give_way(
    flags: Seq<Seq<char>>,
    arch: SbpfArch,
    simd_0460: bool,
    i: int,
)
    requires
        merged(flags, wanted_flags(arch, simd_0460)) is Ok,
        0 <= i < flags.len(),
    ensures
        ({
            let out = merged(flags, wanted_flags(arch, simd_0460))->Ok_0;
            let stores = "link-arg=--llvm-args=--bpf-max-stores-per-memfunc=5"@;
            let gotox = "link-arg=--llvm-args=--disable-gotox"@;
            &&& gives_value(flags[i], "link-arg=--llvm-args=--bpf-max-stores-per-memfunc"@)
                && flags[i] != stores ==> forall|k: int|
                flags.len() <= k < out.len() ==> #[trigger] out[k] != stores
            &&& gives_value(flags[i], "link-arg=--llvm-args=--disable-gotox"@) && flags[i] != gotox
                ==> forall|k: int| flags.len() <= k < out.len() ==> #[trigger] out[k] != gotox
        }),
{
    let wanted = wanted_flags(arch, simd_0460);
    lemma_wanted_keys(arch, simd_0460);
    assert(wanted.take(8) =~= wanted);
    let added = lemma_added(flags, arch, simd_0460, 8);
    reveal_strlit("link-arg=--llvm-args=");
    reveal_strlit("--bpf-max-stores-per-memfunc");
    reveal_strlit("--disable-gotox");
    reveal_strlit("link-arg=--llvm-args=--bpf-max-stores-per-memfunc");
    reveal_strlit("link-arg=--llvm-args=--disable-gotox");
    lemma_llvm_value(flags[i], "--bpf-max-stores-per-memfunc"@);
    lemma_llvm_value(flags[i], "--disable-gotox"@);
    assert("link-arg=--llvm-args=--bpf-max-stores-per-memfunc"@ =~= "link-arg=--llvm-args="@
        + "--bpf-max-stores-per-memfunc"@);
    assert("link-arg=--llvm-args=--disable-gotox"@ =~= "link-arg=--llvm-args="@
        + "--disable-gotox"@);
    assert(wanted[6] == "link-arg=--llvm-args=--bpf-max-stores-per-memfunc=5"@);
    assert(wanted[7] == "link-arg=--llvm-args=--disable-gotox"@);
    if conflicts(flags[i], wanted[6]) {
        lemma_not_added(flags, arch, simd_0460, i, 6);
    }
    if conflicts(flags[i], wanted[7]) {
        lemma_not_added(flags, arch, simd_0460, i, 7);
    }
    assert(flag_key(wanted[6]) == wanted_keys()[6]);
    assert(flag_key(wanted[7]) == wanted_keys()[7]);
}

proof fn lemma_llvm_value(flag: Seq<char>, name: Seq<char>)
    requires
        !name.contains('='),
    ensures
        gives_value(flag, "link-arg=--llvm-args="@ + name) ==> flag_key(flag) == (
            FlagNamespace::Llvm,
            name,
        ),
{
    let front = "link-arg=--llvm-args="@;
    let opening = front + name;
    if flag == opening {
        flags_are_known_by_their_names(name, Seq::empty());
    } else if (opening + seq!['=']).is_prefix_of(flag) {
        let value = flag.skip(opening.len() + 1int);
        assert(flag =~= front + name + seq!['='] + value) by {
            assert(flag.subrange(0, opening.len() + 1int) =~= opening + seq!['=']);
            assert(flag =~= flag.subrange(0, opening.len() + 1int) + value);
        }
        flags_are_known_by_their_names(name, value);
    }
}

/// A recommended flag that conflicts with one of the configuration is not added.
proof fn lemma_not_added(
    flags: Seq<Seq<char>>,
    arch: SbpfArch,
    simd_0460: bool,
    i: int,
    q: int,
)
    requires
        merged(flags, wanted_flags(arch, simd_0460)) is Ok,
        0 <= i < flags.len(),
        q == 6 || q == 7,
        conflicts(flags[i], wanted_flags(arch, simd_0460)[q]),
    ensures
        forall|k: int|
            flags.len() <= k < merged(flags, wanted_flags(arch, simd_0460))->Ok_0.len()
                ==> #[trigger] merged(flags, wanted_flags(arch, simd_0460))->Ok_0[k]
                != wanted_flags(arch, simd_0460)[q],
{
    let wanted = wanted_flags(arch, simd_0460);
    let out = merged(flags, wanted)->Ok_0;
    lemma_wanted_keys(arch, simd_0460);
    assert(wanted.take(8) =~= wanted);
    if merged(flags, wanted.take(q)) is Err {
        lemma_fault_stays(flags, wanted, q);
    }
    if merged(flags, wanted.take(q + 1)) is Err {
        lemma_fault_stays(flags, wanted, q + 1);
    }
    let before = merged(flags, wanted.take(q))->Ok_0;
    let after = merged(flags, wanted.take(q + 1))->Ok_0;
    assert(wanted.take(q + 1).drop_last() =~= wanted.take(q));
    assert(wanted.take(q + 1).last() == wanted[q]);
    assert(flag_key(wanted[q]) == wanted_keys()[q]);
    assert(flag_key(wanted[5]) == wanted_keys()[5]);
    assert(wanted_keys()[5] != wanted_keys()[q]);
    let first = lemma_added(flags, arch, simd_0460, q);
    lemma_conflict_found(flags, wanted[5], 0);
    assert(before[i] == flags[i]);
    lemma_conflict_found(before, wanted[q], 0);
    assert(policy(wanted_keys()[q]) == FlagPolicy::Keep) by {
        assert(wanted_keys()[0] == (FlagNamespace::Rustc, "linker"@));
        assert(wanted_keys()[1] == (FlagNamespace::Rustc, "panic"@));
        assert(wanted_keys()[2] == (FlagNamespace::Rustc, "relocation-model"@));
        assert(wanted_keys()[3] == (FlagNamespace::Linker, "--export"@));
        assert(wanted_keys()[4] == (FlagNamespace::Linker, "--arch"@));
        assert(wanted_keys()[0] != wanted_keys()[q]);
        assert(wanted_keys()[1] != wanted_keys()[q]);
        assert(wanted_keys()[2] != wanted_keys()[q]);
        assert(wanted_keys()[3] != wanted_keys()[q]);
        assert(wanted_keys()[4] != wanted_keys()[q]);
    }
    assert(after == before);
    assert forall|k: int| flags.len() <= k < before.len() implies #[trigger] before[k]
        != wanted[q] by {
        if (k - flags.len()) % 2 == 0 {
            assert(wanted_keys()[q] != flag_key("-C"@));
        } else {
            let m = (k - flags.len()) / 2;
            assert(0 <= first[m] < q);
            assert(flag_key(wanted[first[m]]) == wanted_keys()[first[m]]);
            assert(wanted_keys()[first[m]] != wanted_keys()[q]);
        }
    }
    if q == 6 {
        assert(wanted.take(8).drop_last() =~= wanted.take(7));
        assert(wanted.take(8).last() == wanted[7]);
        lemma_one_step(after, wanted[7]);
        assert(policy(wanted_keys()[7]) != FlagPolicy::Replace) by {
            assert(wanted_keys()[5] != wanted_keys()[7]);
            assert(wanted_keys()[5] == (FlagNamespace::Llvm, "-bpf-stack-size"@));
        }
        assert(flag_key(wanted[7]) == wanted_keys()[7]);
        assert(wanted_keys()[7] != wanted_keys()[6]);
        assert forall|k: int| flags.len() <= k < out.len() implies #[trigger] out[k]
            != wanted[q] by {
            if k < after.len() {
                assert(out[k] == after[k]);
            } else {
                assert(wanted_keys()[6] != flag_key("-C"@));
            }
        }
    }
}

} // verus!
