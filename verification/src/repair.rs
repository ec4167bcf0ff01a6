//! Completing a Cargo configuration for SBPF builds.

use vstd::prelude::*;

use crate::arch::{arch_name, frame_size, SbpfArch};
use crate::flags::{stack_flag, wanted_flags, TARGET};
use crate::merge::{
    conflicts_twice, fault_view, merge_is_idempotent, merge_rustflags, merged, MergeFault,
};
use crate::text::{prefix_comes_off, strip_prefix, views, without_prefix};
use crate::toml::{
    array_data, array_item, array_text, array_writing, blank, default_element, document_data,
    document_keys, document_writing, entry_or, grown, holds, item_data, item_keys, item_writing,
    lemma_rewritten, new_outer_table, new_table, no_keys, only, parse, parsed, print, push_text,
    push_text_after, quote, readable, root_entry_or, set_entry, set_trailing, table_keys,
    table_writing, text_list, under, unescaped, value_text, writing_of, written, written_elements,
    ArrayWriting, ElementWriting, Entries, Node, ValueWriting, Writing,
};

verus! {

/// What in a configuration stands in the way of completing it.
#[derive(Debug)]
pub enum RepairFault<S> {
    /// `unstable` is there and no table.
    UnstableNotTable,
    /// `target` is there and no table.
    TargetNotTable,
    /// The entry of the SBPF target is there and no table.
    TripleNotTable,
    /// The flags of the SBPF target are no array.
    RustflagsNotArray,
    /// One of the flags of the SBPF target is no string.
    RustflagsNotText,
    /// The flags of the SBPF target do not go together with the build.
    Merge(MergeFault<S>),
}

/// Why a configuration was not completed.
#[derive(Debug)]
pub enum RepairError {
    /// The configuration is no TOML document.
    Unparsable(toml_edit::TomlError),
    /// The configuration is a TOML document of the wrong shape.
    Fault(RepairFault<String>),
}

/// A fault by the characters of the flags that it names.
pub open spec fn repair_fault_view(fault: RepairFault<String>) -> RepairFault<Seq<char>> {
    match fault {
        RepairFault::UnstableNotTable => RepairFault::UnstableNotTable,
        RepairFault::TargetNotTable => RepairFault::TargetNotTable,
        RepairFault::TripleNotTable => RepairFault::TripleNotTable,
        RepairFault::RustflagsNotArray => RepairFault::RustflagsNotArray,
        RepairFault::RustflagsNotText => RepairFault::RustflagsNotText,
        RepairFault::Merge(fault) => RepairFault::Merge(fault_view(fault)),
    }
}

/// The table under `key`: an empty one where there is no entry, none where the entry is no table.
pub open spec fn subtable(data: Entries, key: Seq<char>) -> Option<Entries> {
    match data.get(key) {
        Some(Node::Table(entries)) => Some(entries),
        Some(_) => None,
        None => Some(Entries::empty()),
    }
}

/// The flags that an entry declares as an array of strings.
pub open spec fn array_flags(entry: Option<Node>) -> Result<
    Seq<Seq<char>>,
    RepairFault<Seq<char>>,
> {
    match entry {
        Some(Node::List(nodes)) => if forall|i: int|
            0 <= i < nodes.len() ==> #[trigger] nodes[i] is Text {
            Ok(nodes.map_values(|node: Node| node->Text_0))
        } else {
            Err(RepairFault::RustflagsNotText)
        },
        Some(_) => Err(RepairFault::RustflagsNotArray),
        None => Ok(Seq::empty()),
    }
}

/// The parts of the standard library that an SBPF build compiles itself.
pub open spec fn build_std_parts() -> Seq<Seq<char>> {
    seq!["core"@, "alloc"@]
}

/// The data of a configuration with the unstable settings of an SBPF build.
pub open spec fn with_build_std(data: Entries, unstable: Entries) -> Entries {
    data.insert(
        "unstable"@,
        Node::Table(unstable.insert("build-std"@, text_list(build_std_parts()))),
    )
}

/// The data of a configuration with `node` as the flags of the SBPF target.
pub open spec fn with_rustflags(data: Entries, target: Entries, triple: Entries, node: Node) -> Entries {
    data.insert(
        "target"@,
        Node::Table(target.insert(TARGET@, Node::Table(triple.insert("rustflags"@, node)))),
    )
}

/// The data of a configuration once it has been completed for a build.
pub open spec fn repaired(data: Entries, arch: SbpfArch, simd_0460: bool) -> Result<
    Entries,
    RepairFault<Seq<char>>,
> {
    match (subtable(data, "unstable"@), subtable(data, "target"@)) {
        (None, _) => Err(RepairFault::UnstableNotTable),
        (Some(_), None) => Err(RepairFault::TargetNotTable),
        (Some(unstable), Some(target)) => match subtable(target, TARGET@) {
            None => Err(RepairFault::TripleNotTable),
            Some(triple) => match array_flags(triple.get("rustflags"@)) {
                Err(fault) => Err(fault),
                Ok(flags) => match merged(flags, wanted_flags(arch, simd_0460)) {
                    Err(fault) => Err(RepairFault::Merge(fault)),
                    Ok(flags) => Ok(
                        with_rustflags(
                            with_build_std(data, unstable),
                            target,
                            triple,
                            text_list(flags),
                        ),
                    ),
                },
            },
        },
    }
}

/// The flags that a configuration of the right shape declares for the SBPF target.
pub open spec fn configured_flags(data: Entries) -> Seq<Seq<char>> {
    let triple = subtable(subtable(data, "target"@)->0, TARGET@)->0;
    array_flags(triple.get("rustflags"@))->Ok_0
}

/// The flags of the SBPF target once a configuration has been completed for a build.
pub open spec fn repaired_flags(data: Entries, arch: SbpfArch, simd_0460: bool) -> Seq<Seq<char>> {
    merged(configured_flags(data), wanted_flags(arch, simd_0460))->Ok_0
}

/// Completing a configuration leaves everything but the unstable setting and the flags of the
/// SBPF target as it was.
pub proof fn repair_keeps_the_rest(data: Entries, arch: SbpfArch, simd_0460: bool)
    requires
        repaired(data, arch, simd_0460) is Ok,
    ensures
        ({
            let new = repaired(data, arch, simd_0460)->Ok_0;
            let target = subtable(data, "target"@)->0;
            let new_target = subtable(new, "target"@)->0;
            &&& new.remove("unstable"@).remove("target"@) == data.remove("unstable"@).remove(
                "target"@,
            )
            &&& subtable(new, "unstable"@)->0.remove("build-std"@) == subtable(
                data,
                "unstable"@,
            )->0.remove("build-std"@)
            &&& new_target.remove(TARGET@) == target.remove(TARGET@)
            &&& subtable(new_target, TARGET@)->0.remove("rustflags"@) == subtable(
                target,
                TARGET@,
            )->0.remove("rustflags"@)
        }),
{
    lemma_sections_differ();
    let new = repaired(data, arch, simd_0460)->Ok_0;
    let target = subtable(data, "target"@)->0;
    let new_target = subtable(new, "target"@)->0;
    assert(new.remove("unstable"@).remove("target"@) =~= data.remove("unstable"@).remove(
        "target"@,
    ));
    assert(subtable(new, "unstable"@)->0.remove("build-std"@) =~= subtable(
        data,
        "unstable"@,
    )->0.remove("build-std"@));
    assert(new_target.remove(TARGET@) =~= target.remove(TARGET@));
    assert(subtable(new_target, TARGET@)->0.remove("rustflags"@) =~= subtable(
        target,
        TARGET@,
    )->0.remove("rustflags"@));
}

/// Completing a configuration once is enough, unless two of its flags set a stack size other
/// than the one of the build.
pub proof fn repair_is_idempotent(data: Entries, arch: SbpfArch, simd_0460: bool)
    requires
        repaired(data, arch, simd_0460) is Ok,
        !conflicts_twice(configured_flags(data), stack_flag(frame_size(arch, simd_0460))),
    ensures
        repaired(repaired(data, arch, simd_0460)->Ok_0, arch, simd_0460) == repaired(
            data,
            arch,
            simd_0460,
        ),
{
    lemma_sections_differ();
    let new = repaired(data, arch, simd_0460)->Ok_0;
    let unstable = subtable(data, "unstable"@)->0;
    let target = subtable(data, "target"@)->0;
    let triple = subtable(target, TARGET@)->0;
    let flags = merged(configured_flags(data), wanted_flags(arch, simd_0460))->Ok_0;
    let new_unstable = subtable(new, "unstable"@)->0;
    let new_target = subtable(new, "target"@)->0;
    let new_triple = subtable(new_target, TARGET@)->0;
    assert(text_list(flags)->List_0.map_values(|node: Node| node->Text_0) =~= flags);
    merge_is_idempotent(configured_flags(data), arch, simd_0460);
    let again = repaired(new, arch, simd_0460)->Ok_0;
    assert(new_unstable.insert("build-std"@, text_list(build_std_parts())) =~= new_unstable);
    assert(new_triple.insert("rustflags"@, text_list(flags)) =~= new_triple);
    assert(new_target.insert(TARGET@, Node::Table(new_triple)) =~= new_target);
    assert(again =~= new);
}

/// How the array with the parts of the standard library is written.
pub open spec fn build_std_writing() -> ArrayWriting {
    ArrayWriting {
        elements: seq![default_element(0, "core"@), default_element(1, "alloc"@)],
        trailing: Seq::empty(),
        trailing_comma: false,
    }
}

/// The array with the parts of the standard library stands in one line.
pub proof fn lemma_build_std_text()
    ensures
        written(build_std_writing()) == "[\"core\", \"alloc\"]"@,
{
    let writing = build_std_writing();
    reveal_strlit(",");
    reveal_strlit("[");
    reveal_strlit("]");
    reveal_strlit("\"");
    reveal_strlit("core");
    reveal_strlit("alloc");
    reveal_strlit("[\"core\", \"alloc\"]");
    assert(unescaped("core"@));
    assert(unescaped("alloc"@));
    reveal_with_fuel(written_elements, 3);
    assert(writing.elements.drop_last() =~= seq![default_element(0, "core"@)]);
    assert(writing.elements.drop_last().drop_last() =~= Seq::empty());
    assert(written(writing) =~= "[\"core\", \"alloc\"]"@);
}

/// Where a configuration says which parts of the standard library are compiled.
pub open spec fn build_std_place() -> Seq<Seq<char>> {
    seq!["unstable"@, "build-std"@]
}

/// Where a configuration has the flags of the SBPF target.
pub open spec fn rustflags_place() -> Seq<Seq<char>> {
    seq!["target"@, TARGET@, "rustflags"@]
}

/// Whether `after` is `before` with the parts of the standard library in one line and `flags` one
/// per line. What was elsewhere is written as before.
pub open spec fn repair_rewrites(before: Writing, after: Writing, flags: Seq<Seq<char>>) -> bool {
    &&& after.contains_key(build_std_place())
    &&& after[build_std_place()] == ValueWriting::Array(build_std_writing())
    &&& after.contains_key(rustflags_place())
    &&& after[rustflags_place()] == ValueWriting::Array(lined(flags))
    &&& forall|path: Seq<Seq<char>>| #[trigger]
        before.contains_key(path) && !build_std_place().is_prefix_of(path)
            && !rustflags_place().is_prefix_of(path) ==> after.contains_key(path) && after[path]
            == before[path]
}

/// Whether a text holds each value of a configuration as it is written there, but for the parts of
/// the standard library and the flags of the SBPF target.
pub open spec fn shows_the_rest(text: Seq<char>, writing: Writing) -> bool {
    forall|path: Seq<Seq<char>>| #[trigger]
        writing.contains_key(path) && !build_std_place().is_prefix_of(path)
            && !rustflags_place().is_prefix_of(path) ==> holds(text, value_text(writing[path]))
}

/// Whether the text of a completed configuration holds what has been put in as it is to be
/// written, and every other value as it was.
pub open spec fn repair_written(
    config: Seq<char>,
    arch: SbpfArch,
    simd_0460: bool,
    text: Seq<char>,
) -> bool {
    &&& holds(text, "[\"core\", \"alloc\"]"@)
    &&& holds(text, written(lined(repaired_flags(parsed(config)->0, arch, simd_0460))))
    &&& shows_the_rest(text, writing_of(config))
}

proof fn lemma_sections_differ()
    ensures
        "unstable"@ != "target"@,
{
    reveal_strlit("unstable");
    reveal_strlit("target");
    assert("unstable"@.len() != "target"@.len());
}

/// The architecture that a flag selects, by the text of its value.
pub open spec fn selected_arch(flag: Seq<char>) -> Seq<char> {
    match without_prefix(flag, "link-arg=--arch="@) {
        Some(value) => value,
        None => flag,
    }
}

/// What a fault says to the user who asked for `arch`.
pub open spec fn fault_message(fault: RepairFault<Seq<char>>, arch: SbpfArch) -> Seq<char> {
    match fault {
        RepairFault::UnstableNotTable =>
            "failed to parse Cargo config: `[unstable]` must be a table"@,
        RepairFault::TargetNotTable => "failed to parse Cargo config: `[target]` must be a table"@,
        RepairFault::TripleNotTable => "failed to parse Cargo config: `[target."@ + TARGET@
            + "]` must be a table"@,
        RepairFault::RustflagsNotArray => "failed to parse Cargo config: `[target."@ + TARGET@
            + "].rustflags` must be an array"@,
        RepairFault::RustflagsNotText => "failed to parse Cargo config: `[target."@ + TARGET@
            + "].rustflags` must contain only strings"@,
        RepairFault::Merge(MergeFault::ArchConflict { existing }) =>
            "sBPF architecture conflict: selected "@ + arch_name(arch)
            + ", but .cargo/config.toml configures "@ + selected_arch(existing)
            + "\nhelp: use --arch "@ + selected_arch(existing) + ", or update/remove "@ + existing
            + " from [target."@ + TARGET@ + "].rustflags"@,
        RepairFault::Merge(MergeFault::FlagConflict { conflicting, required }) =>
            "conflicting rustflag: config contains `"@ + conflicting
            + "`, but cargo-build-sbpf requires `"@ + required + "`"@,
    }
}

impl RepairError {
    /// What the error says to the user who asked for `arch`.
    pub fn message(&self, arch: SbpfArch) -> (r: String)
        ensures
            r@ == match *self {
                RepairError::Unparsable(_) => "failed to parse Cargo config TOML"@,
                RepairError::Fault(fault) => fault_message(repair_fault_view(fault), arch),
            },
    {
        match self {
            RepairError::Unparsable(_) => "failed to parse Cargo config TOML".to_owned(),
            RepairError::Fault(fault) => match fault {
                RepairFault::UnstableNotTable =>
                    "failed to parse Cargo config: `[unstable]` must be a table".to_owned(),
                RepairFault::TargetNotTable =>
                    "failed to parse Cargo config: `[target]` must be a table".to_owned(),
                RepairFault::TripleNotTable => "failed to parse Cargo config: `[target.".to_owned()
                    .concat(TARGET).concat("]` must be a table"),
                RepairFault::RustflagsNotArray =>
                    "failed to parse Cargo config: `[target.".to_owned().concat(TARGET).concat(
                        "].rustflags` must be an array",
                    ),
                RepairFault::RustflagsNotText =>
                    "failed to parse Cargo config: `[target.".to_owned().concat(TARGET).concat(
                        "].rustflags` must contain only strings",
                    ),
                RepairFault::Merge(MergeFault::ArchConflict { existing }) => {
                    let selected: &str = match strip_prefix(existing.as_str(), "link-arg=--arch=") {
                        Some(value) => value,
                        None => existing.as_str(),
                    };
                    "sBPF architecture conflict: selected ".to_owned().concat(arch.as_str()).concat(
                        ", but .cargo/config.toml configures ",
                    ).concat(selected).concat("\nhelp: use --arch ").concat(selected).concat(
                        ", or update/remove ",
                    ).concat(existing.as_str()).concat(" from [target.").concat(TARGET).concat(
                        "].rustflags",
                    )
                },
                RepairFault::Merge(MergeFault::FlagConflict { conflicting, required }) =>
                    "conflicting rustflag: config contains `".to_owned().concat(
                        conflicting.as_str(),
                    ).concat("`, but cargo-build-sbpf requires `").concat(required.as_str()).concat(
                        "`",
                    ),
            },
        }
    }
}

/// Reads the strings of an array.
fn array_strings(array: &toml_edit::Array) -> (r: Result<Vec<String>, RepairFault<String>>)
    requires
        array_data(*array) is Some,
    ensures
        match r {
            Ok(flags) => array_flags(Some(Node::List(array_data(*array)->0))) == Ok::<
                Seq<Seq<char>>,
                RepairFault<Seq<char>>,
            >(views(flags@)),
            Err(fault) => array_flags(Some(Node::List(array_data(*array)->0))) == Err::<
                Seq<Seq<char>>,
                RepairFault<Seq<char>>,
            >(repair_fault_view(fault)),
        },
{
    let ghost nodes = array_data(*array)->0;
    let mut flags: Vec<String> = Vec::new();
    let mut i: usize = 0;
    while i < array.len()
        invariant
            array_data(*array) == Some(nodes),
            i <= nodes.len(),
            flags.len() == i,
            forall|j: int| 0 <= j < i ==> #[trigger] nodes[j] == Node::Text(flags@[j]@),
        decreases nodes.len() - i,
    {
        match array_text(array, i) {
            Some(flag) => {
                flags.push(flag.to_owned());
            },
            None => {
                assert(!(nodes[i as int] is Text));
                return Err(RepairFault::RustflagsNotText);
            },
        }
        i = i + 1;
    }
    assert(views(flags@) =~= nodes.map_values(|node: Node| node->Text_0));
    Ok(flags)
}

/// How an array with one string per line is written.
pub open spec fn lined(texts: Seq<Seq<char>>) -> ArrayWriting {
    ArrayWriting {
        elements: texts.map_values(
            |text: Seq<char>|
                ElementWriting { prefix: "\n    "@, text: quote(text), suffix: Seq::empty() },
        ),
        trailing: "\n"@,
        trailing_comma: true,
    }
}

/// Makes an array with one string per line.
fn lined_array(flags: &Vec<String>) -> (r: toml_edit::Array)
    ensures
        array_data(r) is Some,
        Node::List(array_data(r)->0) == text_list(views(flags@)),
        array_writing(r) == lined(views(flags@)),
{
    proof {
        reveal_strlit("\n    ");
        reveal_strlit("\n");
        assert(blank("\n    "@));
        assert(blank("\n"@));
    }
    let mut array: toml_edit::Array = toml_edit::Array::new();
    let mut i: usize = 0;
    while i < flags.len()
        invariant
            i <= flags.len(),
            blank("\n    "@),
            array_data(array) is Some,
            array_data(array)->0 == views(flags@).take(i as int).map_values(
                |text: Seq<char>| Node::Text(text),
            ),
            array_writing(array).elements == lined(views(flags@).take(i as int)).elements,
        decreases flags.len() - i,
    {
        let ghost sofar = array_writing(array).elements;
        push_text_after(&mut array, "\n    ", flags[i].as_str());
        assert(array_writing(array).elements =~= sofar.push(
            ElementWriting {
                prefix: "\n    "@,
                text: quote(flags@[i as int]@),
                suffix: Seq::empty(),
            },
        ));
        assert(array_writing(array).elements =~= lined(views(flags@).take(i + 1)).elements);
        assert(array_data(array)->0 =~= views(flags@).take(i + 1).map_values(
            |text: Seq<char>| Node::Text(text),
        ));
        i = i + 1;
    }
    set_trailing(&mut array, "\n");
    array.set_trailing_comma(true);
    assert(views(flags@).take(i as int) =~= views(flags@));
    array
}

/// The flags of a build brought into the flags that a configuration declares, as the entry
/// that declares them.
fn rustflags_config_array(
    existing: Option<&toml_edit::Array>,
    arch: SbpfArch,
    simd_0460: bool,
) -> (r: Result<toml_edit::Item, RepairFault<String>>)
    requires
        existing matches Some(array) ==> array_data(*array) is Some,
    ensures
        ({
            let entry = match existing {
                Some(array) => Some(Node::List(array_data(*array)->0)),
                None => None,
            };
            match (array_flags(entry), r) {
                (Ok(flags), Ok(item)) => merged(flags, wanted_flags(arch, simd_0460)) is Ok
                    && item_data(item) == Some(
                    text_list(merged(flags, wanted_flags(arch, simd_0460))->Ok_0),
                ) && item_writing(item) == only(
                    ValueWriting::Array(
                        lined(merged(flags, wanted_flags(arch, simd_0460))->Ok_0),
                    ),
                ) && item_keys(item) == no_keys(),
                (Ok(flags), Err(fault)) => merged(flags, wanted_flags(arch, simd_0460)) is Err
                    && repair_fault_view(fault) == RepairFault::Merge(
                    merged(flags, wanted_flags(arch, simd_0460))->Err_0,
                ),
                (Err(expected), Err(fault)) => repair_fault_view(fault) == expected,
                (Err(_), Ok(_)) => false,
            }
        }),
{
    let flags: Vec<String> = match existing {
        Some(array) => match array_strings(array) {
            Ok(flags) => flags,
            Err(fault) => return Err(fault),
        },
        None => Vec::new(),
    };
    assert(existing is None ==> views(flags@) =~= Seq::empty());
    match merge_rustflags(&flags, arch, simd_0460) {
        Ok(flags) => Ok(array_item(lined_array(&flags))),
        Err(fault) => Err(RepairFault::Merge(fault)),
    }
}

/// Completes a document for a build, with the flags of the SBPF target one per line. Where it
/// cannot be completed, parts of it may have been.
pub fn repair_document(
    document: &mut toml_edit::DocumentMut,
    arch: SbpfArch,
    simd_0460: bool,
) -> (r: Result<(), RepairFault<String>>)
    requires
        document_data(*old(document)) is Some,
    ensures
        match r {
            Ok(_) => repaired(document_data(*old(document))->0, arch, simd_0460) is Ok
                && document_data(*final(document)) == Some(
                repaired(document_data(*old(document))->0, arch, simd_0460)->Ok_0,
            ) && repair_rewrites(
                document_writing(*old(document)),
                document_writing(*final(document)),
                repaired_flags(document_data(*old(document))->0, arch, simd_0460),
            ) && (readable(document_keys(*old(document))) ==> readable(
                document_keys(*final(document)),
            )),
            Err(fault) => repaired(document_data(*old(document))->0, arch, simd_0460) == Err::<
                Entries,
                RepairFault<Seq<char>>,
            >(repair_fault_view(fault)),
        },
{
    let ghost data = document_data(*document)->0;
    let ghost writing = document_writing(*document);
    let ghost keys = document_keys(*document);
    let mut build_std: toml_edit::Array = toml_edit::Array::new();
    push_text(&mut build_std, "core");
    push_text(&mut build_std, "alloc");
    assert(array_data(build_std)->0 =~= build_std_parts().map_values(
        |text: Seq<char>| Node::Text(text),
    ));
    assert(array_writing(build_std).elements =~= build_std_writing().elements);
    proof {
        lemma_sections_differ();
    }

    let unstable = root_entry_or(document, "unstable", new_table());
    let Some(unstable) = unstable.as_table_mut() else {
        return Err(RepairFault::UnstableNotTable);
    };
    let ghost unstable_writing = table_writing(*unstable);
    let ghost unstable_keys = table_keys(*unstable);
    set_entry(unstable, "build-std", array_item(build_std));
    proof {
        let value = ValueWriting::Array(build_std_writing());
        let place = Seq::<Seq<char>>::empty();
        lemma_rewritten(
            unstable_writing,
            table_writing(*unstable),
            "build-std"@,
            under(unstable_writing, "build-std"@),
            place,
            value,
        );
        let place = seq!["build-std"@] + place;
        assert(grown(no_keys(), no_keys(), 0));
        assert(grown(unstable_keys, table_keys(*unstable), 1));
        lemma_rewritten(
            writing,
            document_writing(*document),
            "unstable"@,
            unstable_writing,
            place,
            value,
        );
        assert(seq!["unstable"@] + place =~= build_std_place());
        assert(grown(keys, document_keys(*document), 2));
    }

    let ghost between = document_writing(*document);
    let ghost between_keys = document_keys(*document);
    let target = root_entry_or(document, "target", new_outer_table(TARGET, new_table()));
    let Some(target) = target.as_table_mut() else {
        return Err(RepairFault::TargetNotTable);
    };
    let ghost target_writing = table_writing(*target);
    let ghost target_keys = table_keys(*target);
    let triple = entry_or(target, TARGET, new_table());
    let Some(triple) = triple.as_table_mut() else {
        return Err(RepairFault::TripleNotTable);
    };
    let ghost triple_writing = table_writing(*triple);
    let ghost triple_keys = table_keys(*triple);
    let existing: Option<&toml_edit::Array> = match triple.get("rustflags") {
        Some(item) => match item.as_array() {
            Some(array) => Some(array),
            None => return Err(RepairFault::RustflagsNotArray),
        },
        None => None,
    };
    let rustflags: toml_edit::Item = match rustflags_config_array(existing, arch, simd_0460) {
        Ok(item) => item,
        Err(fault) => return Err(fault),
    };
    set_entry(triple, "rustflags", rustflags);
    proof {
        let value = ValueWriting::Array(lined(repaired_flags(data, arch, simd_0460)));
        let place = Seq::<Seq<char>>::empty();
        lemma_rewritten(
            triple_writing,
            table_writing(*triple),
            "rustflags"@,
            under(triple_writing, "rustflags"@),
            place,
            value,
        );
        let place = seq!["rustflags"@] + place;
        assert(grown(triple_keys, table_keys(*triple), 1));
        lemma_rewritten(
            target_writing,
            table_writing(*target),
            TARGET@,
            triple_writing,
            place,
            value,
        );
        let place = seq![TARGET@] + place;
        assert(grown(target_keys, table_keys(*target), 2));
        lemma_rewritten(
            between,
            document_writing(*document),
            "target"@,
            target_writing,
            place,
            value,
        );
        assert(seq!["target"@] + place =~= rustflags_place());
        assert(build_std_place()[0] != rustflags_place()[0]);
        assert(grown(no_keys(), no_keys(), 0));
        if !data.contains_key("target"@) {
            assert(grown(no_keys(), target_keys, 1));
            assert(grown(no_keys(), table_keys(*target), 2));
        }
        assert(grown(between_keys, document_keys(*document), 3));
        let expected = repaired(data, arch, simd_0460)->Ok_0;
        let outer = expected["target"@]->Table_0;
        assert(document_data(*document)->0["target"@]->Table_0 =~= outer);
        assert(document_data(*document)->0 =~= expected);
    }
    Ok(())
}

/// Completes a configuration for a build: the parts of the standard library to compile, and the
/// compiler flags, one per line. The text that comes out holds the completed data, with every other
/// value written as before. The empty text is a configuration without entries.
pub fn ensure_recommended_cargo_config_in_content(
    config: &str,
    arch: SbpfArch,
    simd_0460: bool,
) -> (r: Result<String, RepairError>)
    ensures
        match r {
            Ok(updated) => parsed(config@) is Some && match repaired(
                parsed(config@)->0,
                arch,
                simd_0460,
            ) {
                Ok(data) => parsed(updated@) == Some(data),
                Err(_) => false,
            } && repair_written(config@, arch, simd_0460, updated@),
            Err(RepairError::Unparsable(_)) => parsed(config@) is None,
            Err(RepairError::Fault(fault)) => parsed(config@) is Some && repaired(
                parsed(config@)->0,
                arch,
                simd_0460,
            ) == Err::<Entries, RepairFault<Seq<char>>>(repair_fault_view(fault)),
        },
        config@.len() == 0 ==> parsed(config@) == Some(Entries::empty()),
{
    let mut document = match parse(config) {
        Ok(document) => document,
        Err(error) => return Err(RepairError::Unparsable(error)),
    };
    match repair_document(&mut document, arch, simd_0460) {
        Ok(_) => {
            let updated: String = print(&document);
            proof {
                lemma_build_std_text();
                let writing = document_writing(document);
                assert(writing.contains_key(build_std_place()));
                assert(writing.contains_key(rustflags_place()));
                assert forall|path: Seq<Seq<char>>| #[trigger]
                    writing_of(config@).contains_key(path) && !build_std_place().is_prefix_of(path)
                        && !rustflags_place().is_prefix_of(path) implies holds(
                    updated@,
                    value_text(writing_of(config@)[path]),
                ) by {
                    assert(writing.contains_key(path));
                }
            }
            Ok(updated)
        },
        Err(fault) => Err(RepairError::Fault(fault)),
    }
}

/// A completed configuration compiles `core` and `alloc`, and declares the flags of the SBPF target
/// as an array of strings.
pub proof fn repaired_configurations_have_settings(data: Entries, arch: SbpfArch, simd_0460: bool)
    requires
        repaired(data, arch, simd_0460) is Ok,
    ensures
        ({
            let new = repaired(data, arch, simd_0460)->Ok_0;
            let triple = new["target"@]->Table_0["bpfel-unknown-none"@]->Table_0;
            &&& new["unstable"@] is Table
            &&& new["unstable"@]->Table_0["build-std"@] == Node::List(
                seq![Node::Text("core"@), Node::Text("alloc"@)],
            )
            &&& new["target"@] is Table
            &&& new["target"@]->Table_0["bpfel-unknown-none"@] is Table
            &&& triple["rustflags"@] is List
            &&& forall|i: int|
                0 <= i < triple["rustflags"@]->List_0.len() ==> #[trigger] triple[
                    "rustflags"@
                ]->List_0[i] is Text
            &&& merged(configured_flags(data), wanted_flags(arch, simd_0460)) is Ok
            &&& triple["rustflags"@]->List_0.map_values(|node: Node| node->Text_0) == merged(
                configured_flags(data),
                wanted_flags(arch, simd_0460),
            )->Ok_0
        }),
{
    lemma_sections_differ();
    let new = repaired(data, arch, simd_0460)->Ok_0;
    let out = merged(configured_flags(data), wanted_flags(arch, simd_0460))->Ok_0;
    let triple = new["target"@]->Table_0[TARGET@]->Table_0;
    assert(text_list(build_std_parts())->List_0 =~= seq![Node::Text("core"@), Node::Text("alloc"@)]);
    assert(triple["rustflags"@] == text_list(out));
    assert(text_list(out)->List_0.map_values(|node: Node| node->Text_0) =~= out);
}

/// The flags that a configuration declares are the strings of the array of the SBPF target, and
/// none where there is no array.
pub proof fn configured_flags_are_strings(data: Entries)
    ensures
        data.contains_key("target"@) && data["target"@] is Table
            && data["target"@]->Table_0.contains_key("bpfel-unknown-none"@)
            && data["target"@]->Table_0["bpfel-unknown-none"@] is Table ==> {
            let triple = data["target"@]->Table_0["bpfel-unknown-none"@]->Table_0;
            &&& !triple.contains_key("rustflags"@) ==> configured_flags(data).len() == 0
            &&& triple.contains_key("rustflags"@) && triple["rustflags"@] is List && (forall|i: int|
                0 <= i < triple["rustflags"@]->List_0.len() ==> #[trigger] triple[
                    "rustflags"@
                ]->List_0[i] is Text) ==> triple["rustflags"@] == Node::List(
                configured_flags(data).map_values(|text: Seq<char>| Node::Text(text)),
            )
        },
        !data.contains_key("target"@) ==> configured_flags(data).len() == 0,
{
    if data.contains_key("target"@) && data["target"@] is Table
        && data["target"@]->Table_0.contains_key(TARGET@) && data["target"@]->Table_0[TARGET@]
        is Table {
        let triple = data["target"@]->Table_0[TARGET@]->Table_0;
        if triple.contains_key("rustflags"@) && triple["rustflags"@] is List && (forall|i: int|
            0 <= i < triple["rustflags"@]->List_0.len() ==> #[trigger] triple[
                "rustflags"@
            ]->List_0[i] is Text) {
            let nodes = triple["rustflags"@]->List_0;
            assert(configured_flags(data).map_values(|text: Seq<char>| Node::Text(text)) =~= nodes)
                by {
                assert forall|i: int| 0 <= i < nodes.len() implies #[trigger] nodes[i]
                    == Node::Text(configured_flags(data)[i]) by {
                    assert(triple["rustflags"@]->List_0[i] is Text);
                }
            }
        }
    }
}

/// Completing a configuration needs tables to put the settings in, an array for the flags, and
/// strings in it. It is refused exactly where an entry is something else, or where the flags do
/// not go together with the build.
pub proof fn repairs_need_tables(data: Entries, arch: SbpfArch, simd_0460: bool)
    ensures
        ({
            let result = repaired(data, arch, simd_0460);
            let unstable_fits = data.contains_key("unstable"@) ==> data["unstable"@] is Table;
            let target_fits = data.contains_key("target"@) ==> data["target"@] is Table;
            let has_triple = data.contains_key("target"@) && data["target"@] is Table
                && data["target"@]->Table_0.contains_key("bpfel-unknown-none"@);
            let entry = data["target"@]->Table_0["bpfel-unknown-none"@];
            let has_flags = has_triple && entry is Table && entry->Table_0.contains_key(
                "rustflags"@,
            );
            let flags = entry->Table_0["rustflags"@];
            let all_text = flags is List && forall|i: int|
                0 <= i < flags->List_0.len() ==> #[trigger] flags->List_0[i] is Text;
            &&& result == Err::<Entries, RepairFault<Seq<char>>>(RepairFault::UnstableNotTable)
                <==> !unstable_fits
            &&& result == Err::<Entries, RepairFault<Seq<char>>>(RepairFault::TargetNotTable)
                <==> unstable_fits && !target_fits
            &&& result == Err::<Entries, RepairFault<Seq<char>>>(RepairFault::TripleNotTable)
                <==> unstable_fits && has_triple && !(entry is Table)
            &&& result == Err::<Entries, RepairFault<Seq<char>>>(RepairFault::RustflagsNotArray)
                <==> unstable_fits && has_flags && !(flags is List)
            &&& result == Err::<Entries, RepairFault<Seq<char>>>(RepairFault::RustflagsNotText)
                <==> unstable_fits && has_flags && flags is List && !all_text
            &&& unstable_fits && target_fits && (has_triple ==> entry is Table) && (has_flags
                ==> all_text) ==> match merged(
                configured_flags(data),
                wanted_flags(arch, simd_0460),
            ) {
                Ok(_) => result is Ok,
                Err(fault) => result == Err::<Entries, RepairFault<Seq<char>>>(
                    RepairFault::Merge(fault),
                ),
            }
        }),
{
}

/// An array with one string per line opens with a bracket, has a line for each string with a comma
/// behind it, and closes with a bracket in a line of its own.
pub proof fn lines_of_an_array(texts: Seq<Seq<char>>, text: Seq<char>)
    ensures
        written(lined(Seq::empty())) == "[\n]"@,
        ({
            let front = written(lined(texts));
            written(lined(texts.push(text))) == front.take(front.len() - 2) + "\n    "@ + quote(text)
                + ",\n]"@
        }),
        written(lined(texts)).len() >= 2,
{
    reveal_strlit("[");
    reveal_strlit("]");
    reveal_strlit(",");
    reveal_strlit("\n");
    reveal_strlit("\n    ");
    reveal_strlit("[\n]");
    reveal_strlit(",\n]");
    assert(lined(Seq::empty()).elements =~= Seq::empty());
    assert(written(lined(Seq::empty())) =~= "[\n]"@);
    let all = lined(texts.push(text));
    let front = lined(texts);
    let element = ElementWriting { prefix: "\n    "@, text: quote(text), suffix: Seq::empty() };
    assert(all.elements =~= front.elements.push(element));
    assert(all.elements.drop_last() =~= front.elements);
    if texts.len() == 0 {
        assert(front.elements =~= Seq::empty());
    }
    assert(written(all) =~= written(front).take(written(front).len() - 2) + "\n    "@ + quote(text)
        + ",\n]"@);
}

/// What a message says of an architecture is the text of its value.
pub proof fn selected_architectures_are_named(value: Seq<char>)
    ensures
        selected_arch("link-arg=--arch="@ + value) == value,
{
    prefix_comes_off(value, "link-arg=--arch="@);
}

/// Faults are known by what they are, and by the characters of the flags that they name.
pub proof fn repair_faults_are_known(fault: RepairFault<String>)
    ensures
        fault is UnstableNotTable <==> repair_fault_view(fault) is UnstableNotTable,
        fault is TargetNotTable <==> repair_fault_view(fault) is TargetNotTable,
        fault is TripleNotTable <==> repair_fault_view(fault) is TripleNotTable,
        fault is RustflagsNotArray <==> repair_fault_view(fault) is RustflagsNotArray,
        fault is RustflagsNotText <==> repair_fault_view(fault) is RustflagsNotText,
        fault matches RepairFault::Merge(MergeFault::ArchConflict { existing })
            ==> repair_fault_view(fault) == RepairFault::Merge(
            (MergeFault::ArchConflict { existing: existing@ }),
        ),
        fault matches RepairFault::Merge(MergeFault::FlagConflict { conflicting, required })
            ==> repair_fault_view(fault) == RepairFault::Merge(
            (MergeFault::FlagConflict { conflicting: conflicting@, required: required@ }),
        ),
{
}

/// A message about the flags of a configuration names the flag that does not go together with the
/// build, and what the build asks for instead. A message about what a configuration is to hold says
/// where.
pub proof fn repair_messages_name_flags(existing: Seq<char>, required: Seq<char>, arch: SbpfArch)
    ensures
        ({
            let conflict = fault_message(
                RepairFault::Merge((MergeFault::ArchConflict { existing })),
                arch,
            );
            let flag = fault_message(
                RepairFault::Merge((MergeFault::FlagConflict { conflicting: existing, required })),
                arch,
            );
            &&& ("sBPF architecture conflict: selected "@ + arch_name(arch)
                + ", but .cargo/config.toml configures "@ + selected_arch(existing)).is_prefix_of(
                conflict,
            )
            &&& holds(conflict, "help: use --arch "@ + selected_arch(existing) + ","@)
            &&& ("remove "@ + existing + " from [target.bpfel-unknown-none].rustflags"@).is_suffix_of(
                conflict,
            )
            &&& ("conflicting rustflag: config contains `"@ + existing + "`"@).is_prefix_of(flag)
            &&& ("cargo-build-sbpf requires `"@ + required + "`"@).is_suffix_of(flag)
        }),
        fault_message(RepairFault::UnstableNotTable, arch)
            == "failed to parse Cargo config: `[unstable]` must be a table"@,
        fault_message(RepairFault::TargetNotTable, arch)
            == "failed to parse Cargo config: `[target]` must be a table"@,
        fault_message(RepairFault::TripleNotTable, arch)
            == "failed to parse Cargo config: `[target.bpfel-unknown-none]` must be a table"@,
        fault_message(RepairFault::RustflagsNotArray, arch)
            == "failed to parse Cargo config: `[target.bpfel-unknown-none].rustflags` must be an array"@,
        fault_message(RepairFault::RustflagsNotText, arch)
            == "failed to parse Cargo config: `[target.bpfel-unknown-none].rustflags` must contain only strings"@,
{
    lemma_conflict_message(existing, arch);
    reveal_strlit("`");
    reveal_strlit("conflicting rustflag: config contains `");
    reveal_strlit("`, but cargo-build-sbpf requires `");
    reveal_strlit("cargo-build-sbpf requires `");
    let flag = fault_message(
        RepairFault::Merge((MergeFault::FlagConflict { conflicting: existing, required })),
        arch,
    );
    let front = "conflicting rustflag: config contains `"@ + existing + "`"@;
    let back = "cargo-build-sbpf requires `"@ + required + "`"@;
    assert(front =~= flag.subrange(0, front.len() as int));
    assert(back =~= flag.subrange(flag.len() - back.len(), flag.len() as int));
    reveal_strlit("failed to parse Cargo config: `[target.");
    reveal_strlit("bpfel-unknown-none");
    reveal_strlit("]` must be a table");
    reveal_strlit("].rustflags` must be an array");
    reveal_strlit("].rustflags` must contain only strings");
    reveal_strlit("failed to parse Cargo config: `[target.bpfel-unknown-none]` must be a table");
    reveal_strlit(
        "failed to parse Cargo config: `[target.bpfel-unknown-none].rustflags` must be an array",
    );
    reveal_strlit(
        "failed to parse Cargo config: `[target.bpfel-unknown-none].rustflags` must contain only strings",
    );
    assert(fault_message(RepairFault::TripleNotTable, arch)
        =~= "failed to parse Cargo config: `[target.bpfel-unknown-none]` must be a table"@);
    assert(fault_message(RepairFault::RustflagsNotArray, arch)
        =~= "failed to parse Cargo config: `[target.bpfel-unknown-none].rustflags` must be an array"@);
    assert(fault_message(RepairFault::RustflagsNotText, arch)
        =~= "failed to parse Cargo config: `[target.bpfel-unknown-none].rustflags` must contain only strings"@);
}

proof fn lemma_conflict_message(existing: Seq<char>, arch: SbpfArch)
    ensures
        ({
            let conflict = fault_message(
                RepairFault::Merge((MergeFault::ArchConflict { existing })),
                arch,
            );
            &&& ("sBPF architecture conflict: selected "@ + arch_name(arch)
                + ", but .cargo/config.toml configures "@ + selected_arch(existing)).is_prefix_of(
                conflict,
            )
            &&& holds(conflict, "help: use --arch "@ + selected_arch(existing) + ","@)
            &&& ("remove "@ + existing + " from [target.bpfel-unknown-none].rustflags"@).is_suffix_of(
                conflict,
            )
        }),
{
    let conflict = fault_message(RepairFault::Merge((MergeFault::ArchConflict { existing })), arch);
    let front = "sBPF architecture conflict: selected "@ + arch_name(arch)
        + ", but .cargo/config.toml configures "@ + selected_arch(existing);
    let hint = "help: use --arch "@ + selected_arch(existing) + ","@;
    let back = "remove "@ + existing + " from [target.bpfel-unknown-none].rustflags"@;
    reveal_strlit(",");
    reveal_strlit("help: use --arch ");
    reveal_strlit("\nhelp: use --arch ");
    reveal_strlit(", or update/remove ");
    reveal_strlit("remove ");
    reveal_strlit(" from [target.");
    reveal_strlit("bpfel-unknown-none");
    reveal_strlit("].rustflags");
    reveal_strlit(" from [target.bpfel-unknown-none].rustflags");
    assert(front =~= conflict.subrange(0, front.len() as int));
    let n = front.len() + 1int;
    assert(conflict.subrange(n, n + hint.len()) =~= hint);
    assert(back =~= conflict.subrange(conflict.len() - back.len(), conflict.len() as int));
}

} // verus!
