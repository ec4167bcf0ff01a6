//! Which versions of `sbpf-linker` a build can use.

use vstd::prelude::*;
use vstd::utf8::{decode_utf8, valid_utf8};

use crate::output::{lossily_decoded, text_from_utf8_lossy};
use crate::text::{
    first_word, first_word_stands_between_white_space, lemma_leading_space, lemma_trimmed_end, lines,
    prefix_comes_off, split_first_word, split_lines, strip_prefix, trim, trimmed, white_space,
    without_prefix,
};

verus! {

/// A semantic version, without its build metadata. `S` is the type of texts.
#[derive(Debug)]
pub struct Version<S> {
    pub major: u64,
    pub minor: u64,
    pub patch: u64,
    /// What sets the version apart from the release that it precedes; empty for a release.
    pub pre: S,
}

/// A version by the characters of its texts.
pub open spec fn version_view(version: Version<String>) -> Version<Seq<char>> {
    Version {
        major: version.major,
        minor: version.minor,
        patch: version.patch,
        pre: version.pre@,
    }
}

/// The semantic version that a text writes; none where it writes none.
pub uninterp spec fn parsed_version(text: Seq<char>) -> Option<Version<Seq<char>>>;

/// Calls `rustc_version::Version::parse`, whose result depends on the text alone, and moves the
/// parts of the version over, but for its build metadata.
#[verifier::external_body]
fn parse_version(text: &str) -> (r: Option<Version<String>>)
    ensures
        match r {
            Some(version) => parsed_version(text@) == Some(version_view(version)),
            None => parsed_version(text@) is None,
        },
{
    let version = rustc_version::Version::parse(text).ok()?;
    let pre = version.pre.as_str().to_owned();
    let rustc_version::Version { major, minor, patch, .. } = version;
    Some(Version { major, minor, patch, pre })
}

/// Whether a version is 0.2.1 or newer. What comes before a release is older than it.
pub open spec fn new_enough(version: Version<Seq<char>>) -> bool {
    ||| version.major > 0
    ||| version.minor > 2
    ||| version.minor == 2 && version.patch > 1
    ||| version.minor == 2 && version.patch == 1 && version.pre.len() == 0
}

/// The version in what the linker reports about itself, from line `start` on: the first word
/// after its name, in the first line that the name and a space open.
pub open spec fn version_from(report: Seq<Seq<char>>, start: int) -> Option<Seq<char>>
    decreases report.len() - start,
{
    if start < 0 || start >= report.len() {
        None
    } else {
        match without_prefix(trimmed(report[start]), "sbpf-linker "@) {
            Some(rest) => first_word(rest),
            None => version_from(report, start + 1),
        }
    }
}

/// Whether the linker that reports `report` is new enough.
pub open spec fn compatible(report: Seq<char>) -> bool {
    match version_from(lines(report), 0) {
        Some(text) => match parsed_version(text) {
            Some(version) => new_enough(version),
            None => false,
        },
        None => false,
    }
}

/// Decides whether a version is 0.2.1 or newer.
pub fn is_new_enough(version: &Version<String>) -> (r: bool)
    ensures
        r == new_enough(version_view(*version)),
{
    version.major > 0 || version.minor > 2 || (version.minor == 2 && (version.patch > 1 || (
    version.patch == 1 && version.pre.as_str().is_empty())))
}

/// Finds the version in what the linker reports about itself.
pub fn reported_version(report: &str) -> (r: Option<String>)
    ensures
        match r {
            Some(version) => version_from(lines(report@), 0) == Some(version@),
            None => version_from(lines(report@), 0) is None,
        },
{
    let found: Vec<&str> = split_lines(report);
    let mut i: usize = 0;
    assert(found@.map_values(|line: &str| line@).len() == found@.len());
    while i < found.len()
        invariant
            i <= found.len(),
            found@.map_values(|line: &str| line@) == lines(report@),
            found@.len() == lines(report@).len(),
            version_from(lines(report@), i as int) == version_from(lines(report@), 0),
        decreases found.len() - i,
    {
        assert(lines(report@)[i as int] == found@[i as int]@);
        if let Some(rest) = strip_prefix(trim(found[i]), "sbpf-linker ") {
            return match split_first_word(rest) {
                Some(version) => Some(version.to_owned()),
                None => None,
            };
        }
        i = i + 1;
    }
    None
}

/// Decides whether the linker with a given report is new enough.
pub fn report_is_compatible(report: &str) -> (r: bool)
    ensures
        r == compatible(report@),
{
    match reported_version(report) {
        Some(text) => match parse_version(text.as_str()) {
            Some(version) => is_new_enough(&version),
            None => false,
        },
        None => false,
    }
}

/// Decides whether the linker that prints `stdout` about itself is new enough.
pub fn linker_is_compatible(stdout: &Vec<u8>) -> (r: bool)
    ensures
        r == compatible(lossily_decoded(stdout@)),
        valid_utf8(stdout@) ==> r == compatible(decode_utf8(stdout@)),
{
    report_is_compatible(text_from_utf8_lossy(stdout).as_str())
}

/// Versions before 0.2.1 are too old, and so is what comes before the release of 0.2.1. All others
/// are new enough.
pub proof fn versions_before_0_2_1_are_too_old(version: Version<Seq<char>>)
    ensures
        !new_enough(version) <==> version.major == 0 && (version.minor < 2 || version.minor == 2 && (
        version.patch == 0 || version.patch == 1 && version.pre.len() > 0)),
{
}

/// A newer version is new enough where an older one is.
pub proof fn newer_versions_stay_new_enough(older: Version<Seq<char>>, newer: Version<Seq<char>>)
    requires
        new_enough(older),
        newer.major > older.major || newer.major == older.major && (newer.minor > older.minor
            || newer.minor == older.minor && (newer.patch > older.patch || newer.patch
            == older.patch && (newer.pre.len() == 0 || newer.pre == older.pre))),
    ensures
        new_enough(newer),
{
}

proof fn lemma_version_behind(report: Seq<Seq<char>>, start: int, n: int)
    requires
        0 <= start <= n <= report.len(),
        forall|i: int|
            start <= i < n ==> !"sbpf-linker "@.is_prefix_of(trimmed(#[trigger] report[i])),
    ensures
        version_from(report, start) == version_from(report, n),
    decreases n - start,
{
    if start < n {
        assert(!"sbpf-linker "@.is_prefix_of(trimmed(report[start])));
        lemma_version_behind(report, start + 1, n);
    }
}

/// The version is the first word behind the name of the linker, in the first line that the name
/// and a space open. White space around the line and around the word does not matter, and other
/// lines do not either.
pub proof fn version_stands_behind_the_name(
    front: Seq<Seq<char>>,
    pad: Seq<char>,
    gap: Seq<char>,
    word: Seq<char>,
    rest: Seq<char>,
    back: Seq<Seq<char>>,
)
    requires
        forall|i: int|
            0 <= i < front.len() ==> !"sbpf-linker "@.is_prefix_of(trimmed(#[trigger] front[i])),
        forall|i: int| 0 <= i < pad.len() ==> white_space(#[trigger] pad[i]),
        forall|i: int| 0 <= i < gap.len() ==> white_space(#[trigger] gap[i]),
        word.len() > 0,
        forall|i: int| 0 <= i < word.len() ==> !white_space(#[trigger] word[i]),
        rest.len() > 0 ==> white_space(rest[0]),
    ensures
        version_from(front, 0) is None,
        version_from(
            front + seq![pad + "sbpf-linker "@ + gap + word + rest] + back,
            0,
        ) == Some(word),
{
    reveal_strlit("sbpf-linker ");
    let name = "sbpf-linker "@;
    let line = pad + name + gap + word + rest;
    let all = front + seq![line] + back;
    lemma_version_behind(front, 0, front.len() as int);
    assert forall|i: int| 0 <= i < front.len() implies !name.is_prefix_of(
        trimmed(#[trigger] all[i]),
    ) by {
        assert(all[i] == front[i]);
    }
    lemma_version_behind(all, 0, front.len() as int);
    assert(all[front.len() as int] == line);
    let text = name + gap + word + rest;
    assert(line =~= pad + text);
    assert(text[0] == 's');
    lemma_leading_space(pad, text);
    let n = lemma_trimmed_end(text);
    let m = (name + gap + word).len() as int;
    assert(text[m - 1] == word[word.len() - 1]);
    assert(n >= m);
    let tail = rest.take(n - m);
    assert(text.take(n) =~= name + (gap + word + tail));
    prefix_comes_off(gap + word + tail, name);
    first_word_stands_between_white_space(gap, word, tail);
}

/// The linker is recent enough exactly where it reports a version from 0.2.1 on.
pub proof fn reported_version_decides(report: Seq<char>)
    ensures
        compatible(report) <==> {
            &&& version_from(lines(report), 0) is Some
            &&& parsed_version(version_from(lines(report), 0)->0) matches Some(version) && (
            version.major > 0 || version.minor > 2 || version.minor == 2 && (version.patch > 1
                || version.patch == 1 && version.pre.len() == 0))
        },
{
}

/// Versions are known by their numbers, and by the characters of what sets them apart.
pub proof fn versions_are_known(version: Version<String>)
    ensures
        version_view(version).major == version.major,
        version_view(version).minor == version.minor,
        version_view(version).patch == version.patch,
        version_view(version).pre == version.pre@,
{
}

} // verus!
