//! What a Cargo configuration lacks for SBPF builds.

use vstd::prelude::*;

use crate::arch::SbpfArch;
use crate::flags::{
    lemma_flag_texts, recommended_flags, recommended_rustflags, required_flags, required_rustflags, wanted_flags,
    TARGET,
};
use crate::merge::{
    conflicts, merge_brings_in_flags, merge_fails_where_ruled_out, merged, ruled_out,
};
use crate::repair::{build_std_parts, configured_flags, repaired, subtable};
use crate::text::{same, views};
use crate::toml::{
    array_data, array_text, document_data, item_member, member, parse, parsed, table_data,
    text_list, Entries, Node,
};

verus! {

/// How much an issue matters.
#[derive(Clone, Copy, Debug, PartialEq, Eq, Structural)]
pub enum Severity {
    Required,
    Recommended,
}

/// Why a diagnosis could not be made.
#[derive(Debug)]
pub enum DiagnoseError {
    /// The Cargo configuration is no TOML document.
    Unparsable(toml_edit::TomlError),
}

impl DiagnoseError {
    /// What the error says to the user.
    pub fn message(&self) -> (r: String)
        ensures
            r@ == "failed to parse Cargo config TOML"@,
    {
        "failed to parse Cargo config TOML".to_owned()
    }
}

/// Whether the configuration compiles the parts of the standard library that SBPF programs need.
pub open spec fn has_build_std(data: Entries) -> bool {
    match member(data.get("unstable"@), "build-std"@) {
        Some(Node::List(nodes)) => nodes.contains(Node::Text("core"@)) && nodes.contains(
            Node::Text("alloc"@),
        ),
        _ => false,
    }
}

/// The table of the SBPF target.
pub open spec fn triple_table(data: Entries) -> Option<Entries> {
    match member(data.get("target"@), TARGET@) {
        Some(Node::Table(entries)) => Some(entries),
        _ => None,
    }
}

/// Whether the configuration declares `flag` for the SBPF target, in an array.
pub open spec fn declares_flag(data: Entries, flag: Seq<char>) -> bool {
    match triple_table(data) {
        Some(entries) => match entries.get("rustflags"@) {
            Some(Node::List(nodes)) => nodes.contains(Node::Text(flag)),
            _ => false,
        },
        None => false,
    }
}

/// Those of `flags` that the configuration does not declare.
pub open spec fn undeclared(
    data: Entries,
    flags: Seq<Seq<char>>,
    severity: Severity,
) -> Seq<(Severity, Seq<char>)>
    decreases flags.len(),
{
    if flags.len() == 0 {
        Seq::empty()
    } else {
        let others = undeclared(data, flags.drop_last(), severity);
        if declares_flag(data, flags.last()) {
            others
        } else {
            others.push((severity, flags.last()))
        }
    }
}

/// What a configuration lacks for SBPF builds.
pub open spec fn gaps(data: Entries) -> Seq<(Severity, Seq<char>)> {
    (if has_build_std(data) {
        Seq::empty()
    } else {
        seq![(Severity::Required, "unstable.build-std = [\"core\", \"alloc\"]"@)]
    }) + (if triple_table(data) is Some {
        Seq::empty()
    } else {
        seq![(Severity::Required, "target."@ + TARGET@ + " table"@)]
    }) + undeclared(data, required_flags(), Severity::Required) + undeclared(
        data,
        recommended_flags(),
        Severity::Recommended,
    )
}

/// Gaps by the characters of their texts.
pub open spec fn gap_views(gaps: Seq<(Severity, String)>) -> Seq<(Severity, Seq<char>)> {
    gaps.map_values(|gap: (Severity, String)| (gap.0, gap.1@))
}

/// Whether a flag of the configuration gives the setting of `flag` another value.
pub open spec fn overridden(data: Entries, flag: Seq<char>) -> bool {
    exists|i: int|
        0 <= i < configured_flags(data).len() && conflicts(
            #[trigger] configured_flags(data)[i],
            flag,
        )
}

proof fn lemma_undeclared(data: Entries, flags: Seq<Seq<char>>, severity: Severity)
    ensures
        forall|i: int|
            0 <= i < undeclared(data, flags, severity).len() ==> {
                let gap = #[trigger] undeclared(data, flags, severity)[i];
                gap.0 == severity && flags.contains(gap.1) && !declares_flag(data, gap.1)
            },
    decreases flags.len(),
{
    if flags.len() > 0 {
        let others = undeclared(data, flags.drop_last(), severity);
        lemma_undeclared(data, flags.drop_last(), severity);
        assert forall|i: int| 0 <= i < undeclared(data, flags, severity).len() implies {
            let gap = #[trigger] undeclared(data, flags, severity)[i];
            gap.0 == severity && flags.contains(gap.1) && !declares_flag(data, gap.1)
        } by {
            if i < others.len() {
                let gap = others[i];
                assert(flags.drop_last().contains(gap.1));
                let k = choose|k: int|
                    0 <= k < flags.drop_last().len() && flags.drop_last()[k] == gap.1;
                assert(flags[k] == gap.1);
            } else {
                assert(flags[flags.len() - 1] == flags.last());
            }
        }
    }
}

/// Completing a configuration leaves only recommended settings out, and of those only the ones
/// to which the configuration gave another value before.
pub proof fn repair_leaves_overridden_recommendations(
    data: Entries,
    arch: SbpfArch,
    simd_0460: bool,
)
    requires
        repaired(data, arch, simd_0460) is Ok,
    ensures
        forall|i: int|
            0 <= i < gaps(repaired(data, arch, simd_0460)->Ok_0).len() ==> {
                let gap = #[trigger] gaps(repaired(data, arch, simd_0460)->Ok_0)[i];
                gap.0 == Severity::Recommended && recommended_flags().contains(gap.1)
                    && overridden(data, gap.1)
            },
{
    reveal_strlit("unstable");
    reveal_strlit("target");
    assert("unstable"@.len() != "target"@.len());
    let out = repaired(data, arch, simd_0460)->Ok_0;
    let flags = configured_flags(data);
    let all = merged(flags, wanted_flags(arch, simd_0460))->Ok_0;
    assert(out["unstable"@] is Table);
    assert(out["target"@] is Table);
    let parts = text_list(build_std_parts())->List_0;
    assert(parts[0] == Node::Text("core"@));
    assert(parts[1] == Node::Text("alloc"@));
    assert(has_build_std(out));
    assert(triple_table(out) is Some);
    assert forall|flag: Seq<char>| all.contains(flag) implies declares_flag(out, flag) by {
        let i = choose|i: int| 0 <= i < all.len() && all[i] == flag;
        assert(text_list(all)->List_0[i] == Node::Text(flag));
    }
    merge_brings_in_flags(flags, arch, simd_0460);
    lemma_undeclared(out, required_flags(), Severity::Required);
    lemma_undeclared(out, recommended_flags(), Severity::Recommended);
    let required = undeclared(out, required_flags(), Severity::Required);
    let recommended = undeclared(out, recommended_flags(), Severity::Recommended);
    if required.len() > 0 {
        let flag = required[0].1;
        let k = choose|k: int| 0 <= k < required_flags().len() && required_flags()[k] == flag;
        assert(all.contains(required_flags()[k]));
    }
    assert(gaps(out) =~= recommended);
    assert forall|i: int| 0 <= i < recommended.len() implies overridden(
        data,
        (#[trigger] recommended[i]).1,
    ) by {
        let flag = recommended[i].1;
        let k = choose|k: int| 0 <= k < recommended_flags().len() && recommended_flags()[k] == flag;
        assert(!all.contains(recommended_flags()[k]));
    }
}

/// Completing a configuration leaves nothing to be desired, unless it gives a recommended setting
/// another value.
pub proof fn repair_fills_gaps(data: Entries, arch: SbpfArch, simd_0460: bool)
    requires
        repaired(data, arch, simd_0460) is Ok,
        forall|k: int|
            0 <= k < recommended_flags().len() ==> !overridden(
                data,
                #[trigger] recommended_flags()[k],
            ),
    ensures
        gaps(repaired(data, arch, simd_0460)->Ok_0) == Seq::<(Severity, Seq<char>)>::empty(),
{
    repair_leaves_overridden_recommendations(data, arch, simd_0460);
    let found = gaps(repaired(data, arch, simd_0460)->Ok_0);
    if found.len() > 0 {
        let gap = found[0];
        let k = choose|k: int|
            0 <= k < recommended_flags().len() && recommended_flags()[k] == gap.1;
        assert(!overridden(data, recommended_flags()[k]));
    }
    assert(found =~= Seq::empty());
}

/// A configuration that is made from nothing leaves nothing to be desired.
pub proof fn fresh_config_has_no_gaps(arch: SbpfArch, simd_0460: bool)
    ensures
        repaired(Entries::empty(), arch, simd_0460) is Ok,
        gaps(repaired(Entries::empty(), arch, simd_0460)->Ok_0) == Seq::<
            (Severity, Seq<char>),
        >::empty(),
{
    let flags = Seq::<Seq<char>>::empty();
    merge_fails_where_ruled_out(flags, arch, simd_0460);
    assert(!ruled_out(flags, arch));
    assert(subtable(Entries::empty(), "target"@) == Some(Entries::empty()));
    assert(configured_flags(Entries::empty()) =~= flags);
    repair_fills_gaps(Entries::empty(), arch, simd_0460);
}

/// Every flag that is not declared is among the gaps.
proof fn lemma_undeclared_all(data: Entries, flags: Seq<Seq<char>>, severity: Severity)
    ensures
        forall|k: int|
            0 <= k < flags.len() && !declares_flag(data, #[trigger] flags[k]) ==> undeclared(
                data,
                flags,
                severity,
            ).contains((severity, flags[k])),
    decreases flags.len(),
{
    if flags.len() > 0 {
        let front = flags.drop_last();
        let others = undeclared(data, front, severity);
        let all = undeclared(data, flags, severity);
        lemma_undeclared_all(data, front, severity);
        assert forall|k: int| 0 <= k < flags.len() && !declares_flag(data, #[trigger] flags[k])
            implies all.contains((severity, flags[k])) by {
            if k < front.len() {
                assert(front[k] == flags[k]);
                let i = choose|i: int| 0 <= i < others.len() && others[i] == (severity, front[k]);
                assert(all[i] == (severity, flags[k]));
            } else {
                assert(all[others.len() as int] == (severity, flags[k]));
            }
        }
    }
}

/// The strings and other values in the array that declares the flags of the SBPF target.
pub open spec fn flag_nodes(data: Entries) -> Seq<Node> {
    match member(data.get("target"@), "bpfel-unknown-none"@) {
        Some(Node::Table(entries)) => match entries.get("rustflags"@) {
            Some(Node::List(nodes)) => nodes,
            _ => Seq::empty(),
        },
        _ => Seq::empty(),
    }
}

/// One for something that is missing, and nothing for something that is there.
pub open spec fn missing(there: bool) -> nat {
    if there {
        0
    } else {
        1
    }
}

/// A configuration lacks a flag exactly where the array of the SBPF target does not hold it. Four
/// flags are required, and two are recommended.
pub proof fn flags_are_missed_where_absent(data: Entries)
    ensures
        ({
            let found = gaps(data);
            let nodes = flag_nodes(data);
            &&& found.contains((Severity::Required, "linker=sbpf-linker"@)) <==> !nodes.contains(
                Node::Text("linker=sbpf-linker"@),
            )
            &&& found.contains((Severity::Required, "panic=abort"@)) <==> !nodes.contains(
                Node::Text("panic=abort"@),
            )
            &&& found.contains((Severity::Required, "relocation-model=static"@))
                <==> !nodes.contains(Node::Text("relocation-model=static"@))
            &&& found.contains((Severity::Required, "link-arg=--export=__multi3"@))
                <==> !nodes.contains(Node::Text("link-arg=--export=__multi3"@))
            &&& found.contains(
                (
                    Severity::Recommended,
                    "link-arg=--llvm-args=--bpf-max-stores-per-memfunc=5"@,
                ),
            ) <==> !nodes.contains(
                Node::Text("link-arg=--llvm-args=--bpf-max-stores-per-memfunc=5"@),
            )
            &&& found.contains((Severity::Recommended, "link-arg=--llvm-args=--disable-gotox"@))
                <==> !nodes.contains(Node::Text("link-arg=--llvm-args=--disable-gotox"@))
        }),
{
    lemma_gap_parts(data);
    lemma_gap_texts();
    let required = undeclared(data, required_flags(), Severity::Required);
    let recommended = undeclared(data, recommended_flags(), Severity::Recommended);
    lemma_undeclared(data, required_flags(), Severity::Required);
    lemma_undeclared(data, recommended_flags(), Severity::Recommended);
    lemma_undeclared_all(data, required_flags(), Severity::Required);
    lemma_undeclared_all(data, recommended_flags(), Severity::Recommended);
    assert(required_flags()[0] == "linker=sbpf-linker"@);
    assert(required_flags()[1] == "panic=abort"@);
    assert(required_flags()[2] == "relocation-model=static"@);
    assert(required_flags()[3] == "link-arg=--export=__multi3"@);
    assert(recommended_flags()[0] == "link-arg=--llvm-args=--bpf-max-stores-per-memfunc=5"@);
    assert(recommended_flags()[1] == "link-arg=--llvm-args=--disable-gotox"@);
    assert(forall|flag: Seq<char>| #[trigger]
        declares_flag(data, flag) <==> flag_nodes(data).contains(Node::Text(flag)));
}

/// A configuration lacks the parts of the standard library exactly where `build-std` is no array
/// that holds both of them, and the table of the SBPF target exactly where there is no table with
/// a header. There are no gaps but these and flags.
pub proof fn settings_are_missed_where_absent(data: Entries)
    ensures
        ({
            let found = gaps(data);
            let build_std = member(data.get("unstable"@), "build-std"@);
            let triple = member(data.get("target"@), "bpfel-unknown-none"@);
            let nodes = flag_nodes(data);
            let has_parts = build_std matches Some(Node::List(parts)) && parts.contains(
                Node::Text("core"@),
            ) && parts.contains(Node::Text("alloc"@));
            let has_table = triple matches Some(Node::Table(_));
            &&& found.contains((Severity::Required, "unstable.build-std = [\"core\", \"alloc\"]"@))
                <==> !has_parts
            &&& found.contains((Severity::Required, "target.bpfel-unknown-none table"@))
                <==> !has_table
            &&& found.len() == missing(has_parts) + missing(has_table) + missing(
                nodes.contains(Node::Text("linker=sbpf-linker"@)),
            ) + missing(nodes.contains(Node::Text("panic=abort"@))) + missing(
                nodes.contains(Node::Text("relocation-model=static"@)),
            ) + missing(nodes.contains(Node::Text("link-arg=--export=__multi3"@))) + missing(
                nodes.contains(
                    Node::Text("link-arg=--llvm-args=--bpf-max-stores-per-memfunc=5"@),
                ),
            ) + missing(nodes.contains(Node::Text("link-arg=--llvm-args=--disable-gotox"@)))
        }),
{
    lemma_gap_parts(data);
    lemma_gap_texts();
    lemma_undeclared(data, required_flags(), Severity::Required);
    lemma_undeclared(data, recommended_flags(), Severity::Recommended);
    assert(forall|flag: Seq<char>| #[trigger]
        declares_flag(data, flag) <==> flag_nodes(data).contains(Node::Text(flag)));
    lemma_undeclared_len(data, required_flags(), Severity::Required);
    lemma_undeclared_len(data, recommended_flags(), Severity::Recommended);
    reveal_with_fuel(absent, 5);
    let r = required_flags();
    assert(r.drop_last() =~= seq![r[0], r[1], r[2]]);
    assert(r.drop_last().drop_last() =~= seq![r[0], r[1]]);
    assert(r.drop_last().drop_last().drop_last() =~= seq![r[0]]);
    assert(r.drop_last().drop_last().drop_last().drop_last() =~= Seq::empty());
    let o = recommended_flags();
    assert(o.drop_last() =~= seq![o[0]]);
    assert(o.drop_last().drop_last() =~= Seq::empty());
}

/// How many of `flags` a configuration does not declare.
pub open spec fn absent(data: Entries, flags: Seq<Seq<char>>) -> nat
    decreases flags.len(),
{
    if flags.len() == 0 {
        0
    } else {
        absent(data, flags.drop_last()) + missing(declares_flag(data, flags.last()))
    }
}

proof fn lemma_undeclared_len(data: Entries, flags: Seq<Seq<char>>, severity: Severity)
    ensures
        undeclared(data, flags, severity).len() == absent(data, flags),
    decreases flags.len(),
{
    if flags.len() > 0 {
        lemma_undeclared_len(data, flags.drop_last(), severity);
    }
}

/// The parts that gaps are made from.
proof fn lemma_gap_parts(data: Entries)
    ensures
        ({
            let parts = (Severity::Required, "unstable.build-std = [\"core\", \"alloc\"]"@);
            let table = (Severity::Required, "target."@ + TARGET@ + " table"@);
            let required = undeclared(data, required_flags(), Severity::Required);
            let recommended = undeclared(data, recommended_flags(), Severity::Recommended);
            &&& forall|gap: (Severity, Seq<char>)| #[trigger]
                gaps(data).contains(gap) <==> (gap == parts && !has_build_std(data) || gap == table
                    && triple_table(data) is None || required.contains(gap)
                    || recommended.contains(gap))
            &&& gaps(data).len() == missing(has_build_std(data)) + missing(
                triple_table(data) is Some,
            ) + required.len() + recommended.len()
        }),
{
    let parts = (Severity::Required, "unstable.build-std = [\"core\", \"alloc\"]"@);
    let table = (Severity::Required, "target."@ + TARGET@ + " table"@);
    let required = undeclared(data, required_flags(), Severity::Required);
    let recommended = undeclared(data, recommended_flags(), Severity::Recommended);
    let first = if has_build_std(data) {
        Seq::<(Severity, Seq<char>)>::empty()
    } else {
        seq![parts]
    };
    let second = if triple_table(data) is Some {
        Seq::<(Severity, Seq<char>)>::empty()
    } else {
        seq![table]
    };
    let all = gaps(data);
    assert(all == first + second + required + recommended);
    assert forall|gap: (Severity, Seq<char>)| #[trigger] all.contains(gap) <==> (gap == parts
        && !has_build_std(data) || gap == table && triple_table(data) is None || required.contains(
        gap,
    ) || recommended.contains(gap)) by {
        let a = first.len();
        let b = second.len();
        let c = required.len();
        if all.contains(gap) {
            let i = choose|i: int| 0 <= i < all.len() && all[i] == gap;
            if i < a {
            } else if i < a + b {
                assert(second[i - a] == gap);
            } else if i < a + b + c {
                assert(required[i - a - b] == gap);
            } else {
                assert(recommended[i - a - b - c] == gap);
            }
        }
        if gap == parts && !has_build_std(data) {
            assert(all[0] == gap);
        }
        if gap == table && triple_table(data) is None {
            assert(all[a as int] == gap);
        }
        if required.contains(gap) {
            let i = choose|i: int| 0 <= i < c && required[i] == gap;
            assert(all[a + b + i] == gap);
        }
        if recommended.contains(gap) {
            let i = choose|i: int| 0 <= i < recommended.len() && recommended[i] == gap;
            assert(all[a + b + c + i] == gap);
        }
    }
}

/// The texts of gaps are not those of flags.
proof fn lemma_gap_texts()
    ensures
        "target."@ + TARGET@ + " table"@ == "target.bpfel-unknown-none table"@,
        "unstable.build-std = [\"core\", \"alloc\"]"@ != "target.bpfel-unknown-none table"@,
        forall|k: int|
            0 <= k < required_flags().len() ==> #[trigger] required_flags()[k]
                != "unstable.build-std = [\"core\", \"alloc\"]"@ && required_flags()[k]
                != "target.bpfel-unknown-none table"@,
        forall|k: int|
            0 <= k < recommended_flags().len() ==> #[trigger] recommended_flags()[k]
                != "unstable.build-std = [\"core\", \"alloc\"]"@ && recommended_flags()[k]
                != "target.bpfel-unknown-none table"@,
{
    reveal_strlit("target.");
    reveal_strlit("bpfel-unknown-none");
    reveal_strlit(" table");
    reveal_strlit("target.bpfel-unknown-none table");
    reveal_strlit("unstable.build-std = [\"core\", \"alloc\"]");
    reveal_strlit("linker=sbpf-linker");
    reveal_strlit("panic=abort");
    reveal_strlit("relocation-model=static");
    reveal_strlit("link-arg=--export=__multi3");
    reveal_strlit("link-arg=--llvm-args=--bpf-max-stores-per-memfunc=5");
    reveal_strlit("link-arg=--llvm-args=--disable-gotox");
    assert("target."@ + TARGET@ + " table"@ =~= "target.bpfel-unknown-none table"@);
    assert("unstable.build-std = [\"core\", \"alloc\"]"@[0] == 'u');
    assert("target.bpfel-unknown-none table"@[0] == 't');
    assert("linker=sbpf-linker"@[0] == 'l');
    assert("panic=abort"@[0] == 'p');
    assert("relocation-model=static"@[0] == 'r');
    assert("link-arg=--export=__multi3"@[0] == 'l');
    assert("link-arg=--llvm-args=--bpf-max-stores-per-memfunc=5"@[0] == 'l');
    assert("link-arg=--llvm-args=--disable-gotox"@[0] == 'l');
}

/// Whether an array holds a string.
fn array_has(array: &toml_edit::Array, wanted: &str) -> (r: bool)
    requires
        array_data(*array) is Some,
    ensures
        r == array_data(*array)->0.contains(Node::Text(wanted@)),
{
    let ghost nodes = array_data(*array)->0;
    let mut i: usize = 0;
    while i < array.len()
        invariant
            array_data(*array) == Some(nodes),
            i <= nodes.len(),
            forall|j: int| 0 <= j < i ==> #[trigger] nodes[j] != Node::Text(wanted@),
        decreases nodes.len() - i,
    {
        if let Some(text) = array_text(array, i) {
            if same(text, wanted) {
                assert(nodes[i as int] == Node::Text(wanted@));
                return true;
            }
        }
        i = i + 1;
    }
    false
}

fn config_has_build_std(document: &toml_edit::DocumentMut) -> (r: bool)
    requires
        document_data(*document) is Some,
    ensures
        r == has_build_std(document_data(*document)->0),
{
    match document.as_table().get("unstable") {
        Some(unstable) => match item_member(unstable, "build-std") {
            Some(build_std) => match build_std.as_array() {
                Some(build_std) => array_has(build_std, "core") && array_has(build_std, "alloc"),
                None => false,
            },
            None => false,
        },
        None => false,
    }
}

fn target_config_table(document: &toml_edit::DocumentMut) -> (r: Option<&toml_edit::Table>)
    requires
        document_data(*document) is Some,
    ensures
        match r {
            Some(table) => table_data(*table) is Some && triple_table(document_data(*document)->0)
                == table_data(*table),
            None => triple_table(document_data(*document)->0) is None,
        },
{
    match document.as_table().get("target") {
        Some(target) => match item_member(target, TARGET) {
            Some(triple) => triple.as_table(),
            None => None,
        },
        None => None,
    }
}

fn config_rustflags_contain(document: &toml_edit::DocumentMut, required: &str) -> (r: bool)
    requires
        document_data(*document) is Some,
    ensures
        r == declares_flag(document_data(*document)->0, required@),
{
    match target_config_table(document) {
        Some(table) => match table.get("rustflags") {
            Some(rustflags) => match rustflags.as_array() {
                Some(rustflags) => array_has(rustflags, required),
                None => false,
            },
            None => false,
        },
        None => false,
    }
}

/// Adds those of `flags` that a configuration does not declare to a list of gaps.
fn add_undeclared(
    document: &toml_edit::DocumentMut,
    flags: Vec<String>,
    severity: Severity,
    found: &mut Vec<(Severity, String)>,
)
    requires
        document_data(*document) is Some,
    ensures
        gap_views(final(found)@) == gap_views(old(found)@) + undeclared(
            document_data(*document)->0,
            views(flags@),
            severity,
        ),
{
    let ghost data = document_data(*document)->0;
    let ghost start = gap_views(found@);
    let mut i: usize = 0;
    assert(start + undeclared(data, views(flags@).take(0), severity) =~= start);
    while i < flags.len()
        invariant
            document_data(*document) == Some(data),
            i <= flags.len(),
            gap_views(found@) == start + undeclared(data, views(flags@).take(i as int), severity),
        decreases flags.len() - i,
    {
        let ghost sofar = gap_views(found@);
        assert(views(flags@).take(i + 1).drop_last() =~= views(flags@).take(i as int));
        assert(views(flags@).take(i + 1).last() == flags@[i as int]@);
        if !config_rustflags_contain(document, flags[i].as_str()) {
            found.push((severity, flags[i].clone()));
            assert(gap_views(found@) =~= sofar.push((severity, flags@[i as int]@)));
        }
        assert(gap_views(found@) =~= start + undeclared(
            data,
            views(flags@).take(i + 1),
            severity,
        ));
        i = i + 1;
    }
    assert(views(flags@).take(i as int) =~= views(flags@));
}

/// Finds out what a document lacks for SBPF builds.
pub fn missing_document_requirements(document: &toml_edit::DocumentMut) -> (r: Vec<
    (Severity, String),
>)
    requires
        document_data(*document) is Some,
    ensures
        gap_views(r@) == gaps(document_data(*document)->0),
{
    let ghost data = document_data(*document)->0;
    let mut found: Vec<(Severity, String)> = Vec::new();
    if !config_has_build_std(document) {
        found.push((Severity::Required, "unstable.build-std = [\"core\", \"alloc\"]".to_owned()));
    }
    if target_config_table(document).is_none() {
        found.push((Severity::Required, "target.".to_owned().concat(TARGET).concat(" table")));
    }
    assert(gap_views(found@) =~= (if has_build_std(data) {
        Seq::<(Severity, Seq<char>)>::empty()
    } else {
        seq![(Severity::Required, "unstable.build-std = [\"core\", \"alloc\"]"@)]
    }) + (if triple_table(data) is Some {
        Seq::<(Severity, Seq<char>)>::empty()
    } else {
        seq![(Severity::Required, "target."@ + TARGET@ + " table"@)]
    }));
    add_undeclared(document, required_rustflags(), Severity::Required, &mut found);
    add_undeclared(document, recommended_rustflags(), Severity::Recommended, &mut found);
    found
}

/// Finds out what a configuration lacks for SBPF builds.
pub fn missing_cargo_config_requirements(config: &str) -> (r: Result<
    Vec<(Severity, String)>,
    DiagnoseError,
>)
    ensures
        match r {
            Ok(found) => parsed(config@) is Some && gap_views(found@) == gaps(parsed(config@)->0),
            Err(DiagnoseError::Unparsable(_)) => parsed(config@) is None,
        },
{
    match parse(config) {
        Ok(document) => Ok(missing_document_requirements(&document)),
        Err(error) => Err(DiagnoseError::Unparsable(error)),
    }
}

/// Gaps are known by their severity and by the characters of their texts, in their order.
pub proof fn gaps_are_known(found: Seq<(Severity, String)>)
    ensures
        gap_views(found).len() == found.len(),
        forall|i: int|
            0 <= i < found.len() ==> (#[trigger] gap_views(found)[i]).0 == found[i].0
                && gap_views(found)[i].1 == found[i].1@,
{
}

/// Flags that are not declared are listed in the order of `flags`.
proof fn lemma_undeclared_place(
    data: Entries,
    flags: Seq<Seq<char>>,
    severity: Severity,
    k: int,
)
    requires
        0 <= k < flags.len(),
        !declares_flag(data, flags[k]),
    ensures
        absent(data, flags.take(k)) < undeclared(data, flags, severity).len(),
        undeclared(data, flags, severity)[absent(data, flags.take(k)) as int] == (
            severity,
            flags[k],
        ),
    decreases flags.len(),
{
    let front = flags.drop_last();
    lemma_undeclared_len(data, front, severity);
    if k < front.len() {
        lemma_undeclared_place(data, front, severity, k);
        assert(front.take(k) =~= flags.take(k));
    } else {
        assert(flags.take(k) =~= front);
    }
}

/// Gaps are listed in this order: the parts of the standard library, the table of the SBPF target,
/// the required flags and the recommended flags, each in their own order.
pub proof fn gaps_stand_in_order(data: Entries, k: int)
    ensures
        ({
            let found = gaps(data);
            let parts = missing(has_build_std(data)) as int;
            let n = parts + missing(triple_table(data) is Some);
            let m = n + absent(data, required_flags());
            &&& !has_build_std(data) ==> found[0]
                == (Severity::Required, "unstable.build-std = [\"core\", \"alloc\"]"@)
            &&& triple_table(data) is None ==> found[parts]
                == (Severity::Required, "target.bpfel-unknown-none table"@)
            &&& 0 <= k < required_flags().len() && !declares_flag(data, required_flags()[k])
                ==> found[n + absent(data, required_flags().take(k))] == (
                Severity::Required,
                required_flags()[k],
            )
            &&& 0 <= k < recommended_flags().len() && !declares_flag(data, recommended_flags()[k])
                ==> found[m + absent(data, recommended_flags().take(k))] == (
                Severity::Recommended,
                recommended_flags()[k],
            )
        }),
{
    lemma_gap_texts();
    lemma_undeclared_len(data, required_flags(), Severity::Required);
    lemma_undeclared_len(data, recommended_flags(), Severity::Recommended);
    if 0 <= k < required_flags().len() && !declares_flag(data, required_flags()[k]) {
        lemma_undeclared_place(data, required_flags(), Severity::Required, k);
    }
    if 0 <= k < recommended_flags().len() && !declares_flag(data, recommended_flags()[k]) {
        lemma_undeclared_place(data, recommended_flags(), Severity::Recommended, k);
    }
}

/// A completed configuration declares the flags of its build: the required ones, and those of its
/// architecture and its stack size.
pub proof fn repaired_configurations_declare_the_build(
    data: Entries,
    arch: SbpfArch,
    simd_0460: bool,
)
    requires
        repaired(data, arch, simd_0460) is Ok,
    ensures
        ({
            let new = repaired(data, arch, simd_0460)->Ok_0;
            &&& declares_flag(new, "linker=sbpf-linker"@)
            &&& declares_flag(new, "panic=abort"@)
            &&& declares_flag(new, "relocation-model=static"@)
            &&& declares_flag(new, "link-arg=--export=__multi3"@)
            &&& arch == SbpfArch::V0 ==> declares_flag(new, "link-arg=--arch=v0"@)
            &&& arch == SbpfArch::V3 ==> declares_flag(new, "link-arg=--arch=v3"@)
            &&& declares_flag(
                new,
                if arch == SbpfArch::V0 && !simd_0460 {
                    "link-arg=--llvm-args=-bpf-stack-size=8192"@
                } else {
                    "link-arg=--llvm-args=-bpf-stack-size=4096"@
                },
            )
        }),
{
    reveal_strlit("unstable");
    reveal_strlit("target");
    assert("unstable"@.len() != "target"@.len());
    let new = repaired(data, arch, simd_0460)->Ok_0;
    let flags = configured_flags(data);
    let all = merged(flags, wanted_flags(arch, simd_0460))->Ok_0;
    assert(new["target"@] is Table);
    assert forall|flag: Seq<char>| all.contains(flag) implies declares_flag(new, flag) by {
        let i = choose|i: int| 0 <= i < all.len() && all[i] == flag;
        assert(text_list(all)->List_0[i] == Node::Text(flag));
    }
    merge_brings_in_flags(flags, arch, simd_0460);
    lemma_flag_texts(arch, simd_0460);
    assert(all.contains(required_flags()[0]));
    assert(all.contains(required_flags()[1]));
    assert(all.contains(required_flags()[2]));
    assert(all.contains(required_flags()[3]));
}

} // verus!
