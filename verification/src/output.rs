//! Reading what commands print.

use vstd::prelude::*;
use vstd::utf8::{decode_utf8, valid_utf8};

use crate::diagnose::BUILTINS_CRATE;
use crate::text::{
    before, lemma_before, lines, lines_add_up, lines_stand_in_the_text, split_lines, starts_with,
    strip_prefix, trim, trimmed, without_prefix,
};

verus! {

/// The text that bytes stand for, with a replacement character for each fault in their encoding.
pub uninterp spec fn lossily_decoded(bytes: Seq<u8>) -> Seq<char>;

/// Calls `String::from_utf8`: the text that the bytes encode, where they are valid UTF-8.
#[verifier::external_body]
fn text_from_utf8(bytes: Vec<u8>) -> (r: Option<String>)
    ensures
        match r {
            Some(text) => valid_utf8(bytes@) && text@ == decode_utf8(bytes@),
            None => !valid_utf8(bytes@),
        },
{
    String::from_utf8(bytes).ok()
}

/// Calls `String::from_utf8_lossy`, whose result depends on the bytes alone. Of valid UTF-8 it
/// is the text that the bytes encode. How many replacement characters stand for invalid bytes
/// is not stated.
#[verifier::external_body]
pub(crate) fn text_from_utf8_lossy(bytes: &Vec<u8>) -> (r: String)
    ensures
        r@ == lossily_decoded(bytes@),
        valid_utf8(bytes@) ==> r@ == decode_utf8(bytes@),
{
    String::from_utf8_lossy(bytes).into_owned()
}

/// Whether a line of a dependency tree names `BUILTINS_CRATE`: the name and a space stand at
/// its front.
pub open spec fn names_builtins(line: Seq<char>) -> bool {
    match without_prefix(line, BUILTINS_CRATE@) {
        Some(rest) => " "@.is_prefix_of(rest),
        None => false,
    }
}

/// Whether a dependency tree, which has a package in each line, holds `BUILTINS_CRATE`.
pub open spec fn holds_builtins(tree: Seq<char>) -> bool {
    exists|i: int| 0 <= i < lines(tree).len() && names_builtins(#[trigger] lines(tree)[i])
}

/// Decides whether a dependency tree holds `BUILTINS_CRATE`.
pub fn tree_holds_builtins(tree: &str) -> (r: bool)
    ensures
        r == holds_builtins(tree@),
{
    let found: Vec<&str> = split_lines(tree);
    let mut i: usize = 0;
    while i < found.len()
        invariant
            i <= found.len(),
            found@.map_values(|line: &str| line@) == lines(tree@),
            forall|j: int| 0 <= j < i ==> !names_builtins(#[trigger] lines(tree@)[j]),
        decreases found.len() - i,
    {
        assert(lines(tree@)[i as int] == found@[i as int]@);
        if let Some(rest) = strip_prefix(found[i], BUILTINS_CRATE) {
            if starts_with(rest, " ") {
                return true;
            }
        }
        i = i + 1;
    }
    assert(found@.map_values(|line: &str| line@).len() == found@.len());
    false
}

/// Decides whether a dependency tree in UTF-8 holds `BUILTINS_CRATE`.
pub fn dependency_tree_contains_builtins(stdout: Vec<u8>) -> (r: Option<bool>)
    ensures
        r == if valid_utf8(stdout@) {
            Some(holds_builtins(decode_utf8(stdout@)))
        } else {
            None
        },
        r is Some <==> valid_utf8(stdout@),
{
    match text_from_utf8(stdout) {
        Some(tree) => Some(tree_holds_builtins(tree.as_str())),
        None => None,
    }
}

/// Decides whether a dependency tree holds `BUILTINS_CRATE`, whatever its encoding.
pub fn dependency_tree_lists_builtins(stdout: &Vec<u8>) -> (r: bool)
    ensures
        r == holds_builtins(lossily_decoded(stdout@)),
        valid_utf8(stdout@) ==> r == holds_builtins(decode_utf8(stdout@)),
{
    tree_holds_builtins(text_from_utf8_lossy(stdout).as_str())
}

/// The path that `cargo locate-project` prints, without the white space around it.
pub fn located_manifest(stdout: Vec<u8>) -> (r: Option<String>)
    ensures
        match r {
            Some(path) => valid_utf8(stdout@) && path@ == trimmed(decode_utf8(stdout@)),
            None => !valid_utf8(stdout@),
        },
{
    match text_from_utf8(stdout) {
        Some(path) => Some(trim(path.as_str()).to_owned()),
        None => None,
    }
}

/// A dependency tree holds the compiler builtins where a line opens with their name and a space,
/// whatever stands before that line and behind.
pub proof fn line_with_builtins_is_found(front: Seq<char>, rest: Seq<char>)
    requires
        front.len() == 0 || front.last() == '\n',
    ensures
        holds_builtins(front + "solana-compiler-builtins "@ + rest),
{
    reveal_strlit("solana-compiler-builtins");
    reveal_strlit("solana-compiler-builtins ");
    reveal_strlit(" ");
    let name = "solana-compiler-builtins "@;
    let tail = name + rest;
    let head = before(tail, '\n');
    assert(front + name + rest =~= front + tail);
    lines_add_up(front, tail);
    let line = lines(tail)[0];
    if rest.contains('\n') {
        let n = rest.index_of_first('\n')->0;
        rest.index_of_first_ensures('\n');
        assert forall|i: int| 0 <= i < name.len() + n implies tail[i] != '\n' by {
            if i >= name.len() {
                assert(tail[i] == rest[i - name.len()]);
            }
        }
        lemma_before(tail, '\n', name.len() + n);
    } else {
        assert forall|i: int| 0 <= i < tail.len() implies tail[i] != '\n' by {
            if i >= name.len() {
                assert(rest.contains(rest[i - name.len()]));
                assert(tail[i] == rest[i - name.len()]);
            }
        }
        lemma_before(tail, '\n', tail.len() as int);
    }
    assert(line.len() >= name.len());
    assert forall|i: int| 0 <= i < name.len() implies #[trigger] line[i] == name[i] by {
        assert(line[i] == tail[i]);
    }
    assert(BUILTINS_CRATE@ =~= line.subrange(0, BUILTINS_CRATE@.len() as int));
    let behind = line.skip(BUILTINS_CRATE@.len() as int);
    assert(" "@ =~= behind.subrange(0, 1));
    assert(names_builtins(line));
    assert(lines(front + tail)[lines(front).len() as int] == line);
}

/// A dependency tree holds the compiler builtins only where a line opens with their name and a
/// space.
pub proof fn builtins_are_found_in_a_line(tree: Seq<char>)
    ensures
        holds_builtins(tree) <==> exists|front: Seq<char>, rest: Seq<char>|
            (front.len() == 0 || front.last() == '\n') && tree == #[trigger] (front
                + "solana-compiler-builtins "@ + rest),
{
    reveal_strlit("solana-compiler-builtins");
    reveal_strlit("solana-compiler-builtins ");
    reveal_strlit(" ");
    let name = "solana-compiler-builtins "@;
    if holds_builtins(tree) {
        let i = choose|i: int|
            0 <= i < lines(tree).len() && names_builtins(#[trigger] lines(tree)[i]);
        let line = lines(tree)[i];
        let front = lines_stand_in_the_text(tree, i);
        let rest = tree.skip((front + name).len() as int);
        let behind = line.skip(BUILTINS_CRATE@.len() as int);
        assert(behind[0] == ' ') by {
            assert(" "@[0] == behind.subrange(0, 1)[0]);
        }
        assert(line.len() >= name.len());
        assert forall|k: int| 0 <= k < name.len() implies #[trigger] name[k] == line[k] by {
            if k < BUILTINS_CRATE@.len() {
                assert(line.subrange(0, BUILTINS_CRATE@.len() as int)[k] == line[k]);
            } else {
                assert(behind[0] == line[k]);
            }
        }
        assert forall|k: int| 0 <= k < (front + line).len() implies #[trigger] tree[k] == (front
            + line)[k] by {
            assert(tree.subrange(0, (front + line).len() as int)[k] == tree[k]);
        }
        assert(tree =~= front + name + rest);
    }
    if exists|front: Seq<char>, rest: Seq<char>|
        (front.len() == 0 || front.last() == '\n') && tree == #[trigger] (front
            + "solana-compiler-builtins "@ + rest) {
        let (front, rest) = choose|front: Seq<char>, rest: Seq<char>|
            (front.len() == 0 || front.last() == '\n') && tree == #[trigger] (front
                + "solana-compiler-builtins "@ + rest);
        line_with_builtins_is_found(front, rest);
    }
}

/// A dependency tree that is made of two, the first of whole lines, holds the compiler builtins
/// exactly where one of the two holds them.
pub proof fn builtins_are_found_in_any_part(front: Seq<char>, back: Seq<char>)
    requires
        front.len() == 0 || front.last() == '\n',
    ensures
        holds_builtins(front + back) <==> holds_builtins(front) || holds_builtins(back),
{
    lines_add_up(front, back);
    let all = lines(front + back);
    let n = lines(front).len();
    if holds_builtins(front + back) {
        let i = choose|i: int| 0 <= i < all.len() && names_builtins(#[trigger] all[i]);
        if i < n {
            assert(names_builtins(lines(front)[i]));
        } else {
            assert(names_builtins(lines(back)[i - n]));
        }
    }
    if holds_builtins(front) {
        let i = choose|i: int|
            0 <= i < lines(front).len() && names_builtins(#[trigger] lines(front)[i]);
        assert(names_builtins(all[i]));
    }
    if holds_builtins(back) {
        let i = choose|i: int|
            0 <= i < lines(back).len() && names_builtins(#[trigger] lines(back)[i]);
        assert(names_builtins(all[n + i]));
    }
}

} // verus!
