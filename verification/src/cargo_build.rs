//! The commands that build a program, and what they are made from.
//!
//! An argument of the user is known here by its text, where it has one: the operating system
//! also hands over arguments that are no Unicode text.

use vstd::prelude::*;

use crate::arch::{BuildConfig, SbpfArch};
use crate::command::{
    argument_views, command, command_line, lemma_line, lemma_seven, lemma_three, str_views, text_arguments,
    text_command, Argument, Invocation, InvocationView, Program,
};
use crate::diagnose::DiagnosisConfig;
use crate::flags::{
    build_flags, build_rustflags, codegen_args, merged_target_rustflags, wanted_flags, TARGET,
};
use crate::gaps::fresh_config_has_no_gaps;
use crate::repair::{
    ensure_recommended_cargo_config_in_content, lined, repaired, repaired_flags, RepairError,
};
use crate::selection::build_flags_read_back;
use crate::text::{
    joined, prefix_comes_off, same, starts_with, strip_prefix, trimmed, without_prefix,
};
use crate::toml::{holds, parsed, spaced_words, written, Entries};

verus! {

/// The parts of the standard library to compile, as an unstable option of Cargo.
pub const BUILD_STD: &'static str = "build-std=core,alloc";

/// The setting of Cargo that names the linker.
pub const LINKER_SETTING: &'static str = "target.bpfel-unknown-none.linker=\"sbpf-linker\"";

/// The arguments of the user, each by its characters where it has a text.
pub open spec fn given_views(args: Seq<Option<String>>) -> Seq<Option<Seq<char>>> {
    args.map_values(
        |arg: Option<String>|
            match arg {
                Some(text) => Some(text@),
                None => None,
            },
    )
}

/// Whether an argument starts with `prefix`.
pub open spec fn opens_with(arg: Option<Seq<char>>, prefix: Seq<char>) -> bool {
    arg matches Some(text) && prefix.is_prefix_of(text)
}

fn is_text(arg: &Option<String>, text: &str) -> (r: bool)
    ensures
        r == (arg matches Some(given) && given@ == text@),
{
    match arg {
        Some(given) => same(given.as_str(), text),
        None => false,
    }
}

fn opens(arg: &Option<String>, prefix: &str) -> (r: bool)
    ensures
        r == (arg matches Some(given) && prefix@.is_prefix_of(given@)),
{
    match arg {
        Some(given) => starts_with(given.as_str(), prefix),
        None => false,
    }
}

/// Where the path of the manifest stands. `S` is the type of texts.
#[derive(Debug)]
pub enum ManifestPath<S> {
    /// It is one of the arguments.
    Argument(usize),
    /// It is part of an argument.
    Inline(S),
}

/// A place by its characters.
pub open spec fn manifest_view(path: ManifestPath<String>) -> ManifestPath<Seq<char>> {
    match path {
        ManifestPath::Argument(i) => ManifestPath::Argument(i),
        ManifestPath::Inline(text) => ManifestPath::Inline(text@),
    }
}

/// The path of the manifest that arguments give, from `start` on: behind the first
/// `--manifest-path`, or together with it.
pub open spec fn manifest_from(args: Seq<Option<Seq<char>>>, start: int) -> Option<
    ManifestPath<Seq<char>>,
>
    decreases args.len() - start,
{
    if start < 0 || start >= args.len() {
        None
    } else if args[start] == Some("--manifest-path"@) {
        if start + 1 < args.len() {
            Some(ManifestPath::Argument((start + 1) as usize))
        } else {
            None
        }
    } else if opens_with(args[start], "--manifest-path="@) {
        Some(ManifestPath::Inline(without_prefix(args[start]->0, "--manifest-path="@)->0))
    } else {
        manifest_from(args, start + 1)
    }
}

/// Finds the path of the manifest among arguments.
pub fn manifest_path_arg(args: &Vec<Option<String>>) -> (r: Option<ManifestPath<String>>)
    ensures
        match r {
            Some(path) => manifest_from(given_views(args@), 0) == Some(manifest_view(path)),
            None => manifest_from(given_views(args@), 0) is None,
        },
{
    let ghost given = given_views(args@);
    let mut i: usize = 0;
    while i < args.len()
        invariant
            i <= args.len(),
            given == given_views(args@),
            manifest_from(given, i as int) == manifest_from(given, 0),
        decreases args.len() - i,
    {
        if is_text(&args[i], "--manifest-path") {
            return if i + 1 < args.len() {
                Some(ManifestPath::Argument(i + 1))
            } else {
                None
            };
        }
        if let Some(arg) = &args[i] {
            if let Some(path) = strip_prefix(arg.as_str(), "--manifest-path=") {
                return Some(ManifestPath::Inline(path.to_owned()));
            }
        }
        i = i + 1;
    }
    None
}

/// The command that finds the manifest where the arguments do not give it.
pub fn locate_project_command() -> (r: Invocation)
    ensures
        r@ == text_command(
            Program::Cargo,
            seq!["locate-project"@, "--message-format"@, "plain"@],
        ),
        command_line(r@, Seq::empty()) == "cargo locate-project --message-format plain"@,
{
    proof {
        lemma_line(
            Program::Cargo,
            seq!["locate-project"@, "--message-format"@, "plain"@],
            Seq::empty(),
        );
        lemma_three("locate-project"@, "--message-format"@, "plain"@);
        reveal_strlit("cargo");
        reveal_strlit("locate-project");
        reveal_strlit("--message-format");
        reveal_strlit("plain");
        reveal_strlit("cargo locate-project --message-format plain");
    }
    let texts: Vec<&'static str> = vec!["locate-project", "--message-format", "plain"];
    assert(str_views(texts@) =~= seq!["locate-project"@, "--message-format"@, "plain"@]);
    command(Program::Cargo, &texts)
}

/// Whether arguments choose a profile.
pub open spec fn chooses_profile(args: Seq<Option<Seq<char>>>) -> bool {
    exists|i: int|
        0 <= i < args.len() && (#[trigger] args[i] == Some("--release"@) || args[i] == Some(
            "--profile"@,
        ) || opens_with(args[i], "--profile="@))
}

/// Whether arguments choose a target, from `start` on. A `--target` that stands last chooses none.
pub open spec fn chooses_target(args: Seq<Option<Seq<char>>>, start: int) -> bool
    decreases args.len() - start,
{
    if start < 0 || start >= args.len() {
        false
    } else if args[start] == Some("--target"@) {
        start + 1 < args.len()
    } else {
        opens_with(args[start], "--target="@) || chooses_target(args, start + 1)
    }
}

/// Whether arguments choose what to compile of the standard library, from `start` on. A `-Z` goes
/// together with the argument behind it.
pub open spec fn chooses_build_std(args: Seq<Option<Seq<char>>>, start: int) -> bool
    decreases args.len() - start,
{
    if start < 0 || start >= args.len() {
        false
    } else if args[start] == Some("-Z"@) {
        start + 1 < args.len() && (opens_with(args[start + 1], "build-std"@) || chooses_build_std(
            args,
            start + 2,
        ))
    } else {
        opens_with(args[start], "-Zbuild-std"@) || chooses_build_std(args, start + 1)
    }
}

/// Decides whether arguments choose a profile.
pub fn has_release_or_profile(args: &Vec<Option<String>>) -> (r: bool)
    ensures
        r == chooses_profile(given_views(args@)),
{
    let ghost given = given_views(args@);
    let mut i: usize = 0;
    while i < args.len()
        invariant
            i <= args.len(),
            given == given_views(args@),
            forall|j: int|
                0 <= j < i ==> !(#[trigger] given[j] == Some("--release"@) || given[j] == Some(
                    "--profile"@,
                ) || opens_with(given[j], "--profile="@)),
        decreases args.len() - i,
    {
        assert(given.len() == args.len());
        assert(given[i as int] == match args@[i as int] {
            Some(text) => Some(text@),
            None => None,
        });
        if is_text(&args[i], "--release") || is_text(&args[i], "--profile") || opens(
            &args[i],
            "--profile=",
        ) {
            return true;
        }
        i = i + 1;
    }
    false
}

/// Decides whether arguments choose a target.
pub fn has_target(args: &Vec<Option<String>>) -> (r: bool)
    ensures
        r == chooses_target(given_views(args@), 0),
{
    let ghost given = given_views(args@);
    let mut i: usize = 0;
    while i < args.len()
        invariant
            i <= args.len(),
            given == given_views(args@),
            chooses_target(given, i as int) == chooses_target(given, 0),
        decreases args.len() - i,
    {
        if is_text(&args[i], "--target") {
            return i + 1 < args.len();
        }
        if opens(&args[i], "--target=") {
            return true;
        }
        i = i + 1;
    }
    false
}

/// Decides whether arguments choose what to compile of the standard library.
pub fn has_build_std(args: &Vec<Option<String>>) -> (r: bool)
    ensures
        r == chooses_build_std(given_views(args@), 0),
{
    let ghost given = given_views(args@);
    let mut i: usize = 0;
    while i < args.len()
        invariant
            i <= args.len(),
            given == given_views(args@),
            chooses_build_std(given, i as int) == chooses_build_std(given, 0),
        decreases args.len() - i,
    {
        if is_text(&args[i], "-Z") {
            if args.len() - i < 2 {
                return false;
            }
            if opens(&args[i + 1], "build-std") {
                return true;
            }
            i = i + 2;
        } else {
            if opens(&args[i], "-Zbuild-std") {
                return true;
            }
            i = i + 1;
        }
    }
    false
}

/// What a build adds to the arguments of the user where they leave it open.
pub open spec fn default_arguments(args: Seq<Option<Seq<char>>>) -> Seq<Seq<char>> {
    (if chooses_profile(args) {
        Seq::empty()
    } else {
        seq!["--release"@]
    }) + (if chooses_target(args, 0) {
        Seq::empty()
    } else {
        seq!["--target"@, TARGET@]
    }) + (if chooses_build_std(args, 0) {
        Seq::empty()
    } else {
        seq!["-Z"@, BUILD_STD@]
    })
}

/// The first `n` arguments of the user.
pub open spec fn forwarded(n: nat) -> Seq<Argument<Seq<char>>> {
    Seq::new(n, |i: int| Argument::Forwarded(i as usize))
}

/// The command that builds with the arguments of the user.
pub open spec fn user_build(args: Seq<Option<Seq<char>>>) -> InvocationView {
    InvocationView {
        program: Program::Rustup,
        arguments: text_arguments(
            seq!["run"@, "nightly"@, "cargo"@, "build"@] + default_arguments(args),
        ) + forwarded(args.len()),
    }
}

/// Makes the command that builds with the arguments of the user. All of them are forwarded, in
/// their order, behind what they leave open.
pub fn user_build_command(args: &Vec<Option<String>>) -> (r: Invocation)
    ensures
        r@ == user_build(given_views(args@)),
{
    let ghost given = given_views(args@);
    let mut texts: Vec<&'static str> = vec!["run", "nightly", "cargo", "build"];
    if !has_release_or_profile(args) {
        texts.push("--release");
    }
    if !has_target(args) {
        texts.push("--target");
        texts.push(TARGET);
    }
    if !has_build_std(args) {
        texts.push("-Z");
        texts.push(BUILD_STD);
    }
    let ghost own = seq!["run"@, "nightly"@, "cargo"@, "build"@] + default_arguments(given);
    assert(str_views(texts@) =~= own);
    let mut invocation: Invocation = command(Program::Rustup, &texts);
    let ghost start = text_arguments(own);
    let mut i: usize = 0;
    assert(argument_views(invocation.arguments@) =~= start + forwarded(0));
    while i < args.len()
        invariant
            i <= args.len(),
            invocation.program == Program::Rustup,
            argument_views(invocation.arguments@) == start + forwarded(i as nat),
        decreases args.len() - i,
    {
        let ghost sofar = argument_views(invocation.arguments@);
        invocation.arguments.push(Argument::Forwarded(i));
        assert(argument_views(invocation.arguments@) =~= sofar.push(Argument::Forwarded(i)));
        assert(argument_views(invocation.arguments@) =~= start + forwarded((i + 1) as nat));
        i = i + 1;
    }
    invocation
}

/// An argument of a command with the arguments of the user filled in.
pub open spec fn filled_in(
    argument: Argument<Seq<char>>,
    args: Seq<Option<Seq<char>>>,
) -> Option<Seq<char>> {
    match argument {
        Argument::Text(text) => Some(text),
        Argument::Manifest => None,
        Argument::Forwarded(i) => args[i as int],
    }
}

/// What Cargo gets to see of the command that builds with the arguments of the user: all of it
/// behind the words that start Cargo.
pub open spec fn cargo_arguments(args: Seq<Option<Seq<char>>>) -> Seq<Option<Seq<char>>> {
    user_build(args).arguments.skip(4).map_values(
        |argument: Argument<Seq<char>>| filled_in(argument, args),
    )
}

proof fn lemma_target_behind(front: Seq<Option<Seq<char>>>, args: Seq<Option<Seq<char>>>, i: int)
    requires
        0 <= i <= front.len(),
        forall|k: int|
            i <= k < front.len() ==> #[trigger] front[k] != Some("--target"@) && !opens_with(
                front[k],
                "--target="@,
            ),
    ensures
        chooses_target(front + args, i) == chooses_target(args, 0),
    decreases front.len() - i,
{
    if i < front.len() {
        assert((front + args)[i] == front[i]);
        lemma_target_behind(front, args, i + 1);
    } else {
        lemma_target_shift(front, args, 0);
    }
}

proof fn lemma_target_shift(front: Seq<Option<Seq<char>>>, args: Seq<Option<Seq<char>>>, i: int)
    requires
        0 <= i <= args.len(),
    ensures
        chooses_target(front + args, front.len() + i) == chooses_target(args, i),
    decreases args.len() - i,
{
    if i < args.len() {
        assert((front + args)[front.len() + i] == args[i]);
        lemma_target_shift(front, args, i + 1);
    }
}

proof fn lemma_build_std_behind(front: Seq<Option<Seq<char>>>, args: Seq<Option<Seq<char>>>, i: int)
    requires
        0 <= i <= front.len(),
        forall|k: int|
            i <= k < front.len() ==> #[trigger] front[k] != Some("-Z"@) && !opens_with(
                front[k],
                "-Zbuild-std"@,
            ),
    ensures
        chooses_build_std(front + args, i) == chooses_build_std(args, 0),
    decreases front.len() - i,
{
    if i < front.len() {
        assert((front + args)[i] == front[i]);
        lemma_build_std_behind(front, args, i + 1);
    } else {
        lemma_build_std_shift(front, args, 0);
    }
}

proof fn lemma_build_std_shift(front: Seq<Option<Seq<char>>>, args: Seq<Option<Seq<char>>>, i: int)
    requires
        0 <= i <= args.len(),
    ensures
        chooses_build_std(front + args, front.len() + i) == chooses_build_std(args, i),
    decreases args.len() - i,
{
    if i < args.len() {
        assert((front + args)[front.len() + i] == args[i]);
        lemma_build_std_shift(front, args, i + 1);
        if i + 1 < args.len() {
            assert((front + args)[front.len() + i + 1] == args[i + 1]);
            lemma_build_std_shift(front, args, i + 2);
        }
    }
}

/// What the words that a build adds are not.
proof fn lemma_default_words()
    ensures
        "--release"@ != "--target"@,
        !"--target="@.is_prefix_of("--release"@),
        "--release"@ != "-Z"@,
        !"-Zbuild-std"@.is_prefix_of("--release"@),
        "--target"@ != "-Z"@,
        !"-Zbuild-std"@.is_prefix_of("--target"@),
        TARGET@ != "--target"@,
        TARGET@ != "-Z"@,
        !"-Zbuild-std"@.is_prefix_of(TARGET@),
        "-Z"@ != "--target"@,
        !"--target="@.is_prefix_of("-Z"@),
        BUILD_STD@ != "--target"@,
        !"--target="@.is_prefix_of(BUILD_STD@),
        "build-std"@.is_prefix_of(BUILD_STD@),
{
    reveal_strlit("--release");
    reveal_strlit("--target");
    reveal_strlit("--target=");
    reveal_strlit("-Z");
    reveal_strlit("-Zbuild-std");
    reveal_strlit("build-std");
    reveal_strlit("bpfel-unknown-none");
    reveal_strlit("build-std=core,alloc");
    assert("--release"@[2] == 'r');
    assert("--target"@[2] == 't');
    assert("--target="@[2] == 't');
    assert("-Zbuild-std"@[1] == 'Z');
    assert("-Z"@.len() == 2);
    assert("--release"@.len() == 9);
    assert("--target"@.len() == 8);
    assert(TARGET@[0] == 'b');
    assert(BUILD_STD@[0] == 'b');
    assert(BUILD_STD@.take(9) =~= "build-std"@);
}

/// Every build chooses a profile, a target and what to compile of the standard library, whether
/// the user did or not, and ends in the arguments of the user.
pub proof fn builds_leave_nothing_open(args: Seq<Option<Seq<char>>>)
    requires
        args.len() <= usize::MAX,
    ensures
        chooses_profile(cargo_arguments(args)),
        chooses_target(cargo_arguments(args), 0),
        chooses_build_std(cargo_arguments(args), 0),
        cargo_arguments(args).skip(default_arguments(args).len() as int) == args,
{
    let defaults = default_arguments(args);
    let front = defaults.map_values(|text: Seq<char>| Some(text));
    let all = cargo_arguments(args);
    assert(all =~= front + args) by {
        let whole = user_build(args).arguments;
        assert forall|i: int| 0 <= i < all.len() implies #[trigger] all[i] == (front + args)[i] by {
            assert(all[i] == filled_in(whole[i + 4], args));
            if i >= front.len() {
                assert(whole[i + 4] == forwarded(args.len())[i - front.len()]);
            }
        }
    }
    assert(all.skip(defaults.len() as int) =~= args);
    lemma_default_words();
    assert(chooses_profile(all)) by {
        if chooses_profile(args) {
            let i = choose|i: int|
                0 <= i < args.len() && (#[trigger] args[i] == Some("--release"@) || args[i] == Some(
                    "--profile"@,
                ) || opens_with(args[i], "--profile="@));
            assert(all[front.len() + i] == args[i]);
        } else {
            assert(all[0] == Some("--release"@));
        }
    }
    let n: int = if chooses_profile(args) {
        0
    } else {
        1
    };
    let m: int = if chooses_target(args, 0) {
        n
    } else {
        n + 2
    };
    assert(chooses_target(all, 0)) by {
        if chooses_target(args, 0) {
            assert forall|k: int| 0 <= k < front.len() implies #[trigger] front[k] != Some(
                "--target"@,
            ) && !opens_with(front[k], "--target="@) by {
                assert(defaults[k] == "--release"@ || defaults[k] == "-Z"@ || defaults[k]
                    == BUILD_STD@);
            }
            lemma_target_behind(front, args, 0);
        } else {
            assert(all[n] == Some("--target"@));
            assert(chooses_target(all, n));
            assert(n == 1 ==> all[0] == Some("--release"@));
        }
    }
    assert(chooses_build_std(all, 0)) by {
        if chooses_build_std(args, 0) {
            assert forall|k: int| 0 <= k < front.len() implies #[trigger] front[k] != Some("-Z"@)
                && !opens_with(front[k], "-Zbuild-std"@) by {
                assert(defaults[k] == "--release"@ || defaults[k] == "--target"@ || defaults[k]
                    == TARGET@);
            }
            lemma_build_std_behind(front, args, 0);
        } else {
            assert(all[m] == Some("-Z"@));
            assert(all[m + 1] == Some(BUILD_STD@));
            assert(chooses_build_std(all, m));
            assert(n == 1 ==> all[0] == Some("--release"@));
            assert(m == n + 2 ==> all[n] == Some("--target"@) && all[n + 1] == Some(TARGET@));
            assert(m == n + 2 ==> chooses_build_std(all, n + 1));
            assert(chooses_build_std(all, n));
        }
    }
}

/// The arguments of the user choose a profile exactly where one of them is `--release`, or is or
/// opens with `--profile`.
pub proof fn profiles_are_chosen_by_options(args: Seq<Option<Seq<char>>>)
    ensures
        chooses_profile(args) <==> exists|i: int|
            0 <= i < args.len() && (#[trigger] args[i]) is Some && (args[i]->0 == "--release"@
                || args[i]->0 == "--profile"@ || "--profile="@.is_prefix_of(args[i]->0)),
{
    if chooses_profile(args) {
        let i = choose|i: int|
            0 <= i < args.len() && (#[trigger] args[i] == Some("--release"@) || args[i] == Some(
                "--profile"@,
            ) || opens_with(args[i], "--profile="@));
        assert(args[i] is Some);
    }
}

proof fn lemma_target_choice(args: Seq<Option<Seq<char>>>, start: int)
    requires
        0 <= start <= args.len(),
    ensures
        chooses_target(args, start) <==> exists|i: int|
            start <= i < args.len() && (#[trigger] args[i]) is Some && (args[i]->0 == "--target"@
                && i + 1 < args.len() || "--target="@.is_prefix_of(args[i]->0)),
    decreases args.len() - start,
{
    if start < args.len() {
        lemma_target_choice(args, start + 1);
        if chooses_target(args, start) {
            if args[start] == Some("--target"@) || opens_with(args[start], "--target="@) {
                assert(args[start] is Some);
            } else {
                let i = choose|i: int|
                    start + 1 <= i < args.len() && (#[trigger] args[i]) is Some && (args[i]->0
                        == "--target"@ && i + 1 < args.len() || "--target="@.is_prefix_of(
                        args[i]->0,
                    ));
                assert(args[i] is Some);
            }
        }
        if exists|i: int|
            start <= i < args.len() && (#[trigger] args[i]) is Some && (args[i]->0 == "--target"@
                && i + 1 < args.len() || "--target="@.is_prefix_of(args[i]->0)) {
            let i = choose|i: int|
                start <= i < args.len() && (#[trigger] args[i]) is Some && (args[i]->0
                    == "--target"@ && i + 1 < args.len() || "--target="@.is_prefix_of(args[i]->0));
            if i > start {
                assert(args[i] is Some);
                assert(chooses_target(args, start + 1));
                assert(chooses_target(args, start));
            } else if !"--target="@.is_prefix_of(args[i]->0) {
                assert(args[start] == Some("--target"@));
            } else {
                reveal_strlit("--target");
                reveal_strlit("--target=");
                assert("--target="@.len() > "--target"@.len());
                assert(args[start]->0 != "--target"@);
                assert(opens_with(args[start], "--target="@));
            }
        }
    }
}

/// The arguments of the user choose a target exactly where one of them is `--target` with another
/// behind it, or opens with `--target=`.
pub proof fn targets_are_chosen_by_options(args: Seq<Option<Seq<char>>>)
    ensures
        chooses_target(args, 0) <==> exists|i: int|
            0 <= i < args.len() && (#[trigger] args[i]) is Some && (args[i]->0 == "--target"@ && i
                + 1 < args.len() || "--target="@.is_prefix_of(args[i]->0)),
{
    lemma_target_choice(args, 0);
}

/// The arguments of the user choose what to compile of the standard library with a `-Z` and an
/// argument behind it that opens with `build-std`, or with one argument that joins the two. An
/// argument behind a `-Z` goes together with it and says nothing by itself.
pub proof fn build_std_is_chosen_by_options(
    arg: Option<Seq<char>>,
    rest: Seq<Option<Seq<char>>>,
)
    ensures
        !chooses_build_std(Seq::empty(), 0),
        !chooses_build_std(seq![Some("-Z"@)], 0),
        chooses_build_std(seq![Some("-Z"@), arg] + rest, 0) <==> (arg is Some
            && "build-std"@.is_prefix_of(arg->0)) || chooses_build_std(rest, 0),
        arg != Some("-Z"@) ==> (chooses_build_std(seq![arg] + rest, 0) <==> (arg is Some
            && "-Zbuild-std"@.is_prefix_of(arg->0)) || chooses_build_std(rest, 0)),
{
    let two = seq![Some("-Z"@), arg];
    lemma_build_std_shift(two, rest, 0);
    assert((two + rest)[0] == Some("-Z"@));
    assert((two + rest)[1] == arg);
    lemma_build_std_shift(seq![arg], rest, 0);
    assert((seq![arg] + rest)[0] == arg);
}

/// What the user leaves open is filled in: a release build for the SBPF target, with the parts of
/// the standard library that such programs need.
pub proof fn defaults_fill_in_what_is_open(args: Seq<Option<Seq<char>>>)
    ensures
        default_arguments(args) == (if chooses_profile(args) {
            Seq::<Seq<char>>::empty()
        } else {
            seq!["--release"@]
        }) + (if chooses_target(args, 0) {
            Seq::<Seq<char>>::empty()
        } else {
            seq!["--target"@, "bpfel-unknown-none"@]
        }) + (if chooses_build_std(args, 0) {
            Seq::<Seq<char>>::empty()
        } else {
            seq!["-Z"@, "build-std=core,alloc"@]
        }),
        default_arguments(args).len() == 0 <==> chooses_profile(args) && chooses_target(args, 0)
            && chooses_build_std(args, 0),
{
}

/// The command that builds with the arguments of the user starts Cargo on the nightly toolchain,
/// fills in what is open, and forwards every argument of the user, in their order.
pub proof fn builds_forward_all_arguments(args: Seq<Option<Seq<char>>>)
    requires
        args.len() <= usize::MAX,
    ensures
        ({
            let build = user_build(args);
            let n = 4 + default_arguments(args).len();
            &&& build.program == Program::Rustup
            &&& build.arguments.len() == n + args.len()
            &&& build.arguments[0] == Argument::Text("run"@)
            &&& build.arguments[1] == Argument::Text("nightly"@)
            &&& build.arguments[2] == Argument::Text("cargo"@)
            &&& build.arguments[3] == Argument::Text("build"@)
            &&& forall|i: int|
                4 <= i < n ==> #[trigger] build.arguments[i] == Argument::Text(
                    default_arguments(args)[i - 4],
                )
            &&& forall|i: int|
                n <= i < build.arguments.len() ==> #[trigger] build.arguments[i]
                    == Argument::<Seq<char>>::Forwarded((i - n) as usize)
        }),
{
}

proof fn lemma_manifest_behind(args: Seq<Option<Seq<char>>>, start: int, n: int)
    requires
        0 <= start <= n <= args.len(),
        forall|i: int|
            start <= i < n ==> #[trigger] args[i] != Some("--manifest-path"@) && !opens_with(
                args[i],
                "--manifest-path="@,
            ),
    ensures
        manifest_from(args, start) == manifest_from(args, n),
    decreases n - start,
{
    if start < n {
        assert(args[start] != Some("--manifest-path"@));
        lemma_manifest_behind(args, start + 1, n);
    }
}

/// The path of the manifest stands behind the first `--manifest-path`, or behind its equals sign,
/// whatever other arguments there are. Without that option there is none.
pub proof fn manifest_stands_behind_its_option(
    front: Seq<Option<Seq<char>>>,
    path: Seq<char>,
    back: Seq<Option<Seq<char>>>,
)
    requires
        front.len() < usize::MAX,
        forall|i: int|
            0 <= i < front.len() ==> #[trigger] front[i] != Some("--manifest-path"@) && !(
            front[i] is Some && "--manifest-path="@.is_prefix_of(front[i]->0)),
    ensures
        manifest_from(front, 0) is None,
        manifest_from(front + seq![Some("--manifest-path"@)] + back, 0) == if back.len() > 0 {
            Some(ManifestPath::<Seq<char>>::Argument((front.len() + 1) as usize))
        } else {
            None
        },
        manifest_from(front + seq![Some("--manifest-path="@ + path)] + back, 0) == Some(
            ManifestPath::Inline(path),
        ),
{
    let n = front.len() as int;
    lemma_manifest_behind(front, 0, n);
    let apart = front + seq![Some("--manifest-path"@)] + back;
    assert(apart[n] == Some("--manifest-path"@));
    assert forall|i: int| 0 <= i < n implies #[trigger] apart[i] != Some("--manifest-path"@)
        && !opens_with(apart[i], "--manifest-path="@) by {
        assert(apart[i] == front[i]);
    }
    lemma_manifest_behind(apart, 0, n);
    let joint = front + seq![Some("--manifest-path="@ + path)] + back;
    assert(joint[n] == Some("--manifest-path="@ + path));
    assert forall|i: int| 0 <= i < n implies #[trigger] joint[i] != Some("--manifest-path"@)
        && !opens_with(joint[i], "--manifest-path="@) by {
        assert(joint[i] == front[i]);
    }
    lemma_manifest_behind(joint, 0, n);
    prefix_comes_off(path, "--manifest-path="@);
    reveal_strlit("--manifest-path");
    reveal_strlit("--manifest-path=");
    assert(("--manifest-path="@ + path).len() > "--manifest-path"@.len());
}

/// The command that builds a program, as the user would type it.
pub proof fn builds_run_this_command(manifest: Seq<char>)
    ensures
        command_line(text_command(Program::Cargo, build_words()), manifest)
            == "cargo +nightly build --release --target bpfel-unknown-none -Z build-std=core,alloc"@,
        LINKER_SETTING@ == "target."@ + TARGET@ + ".linker=\"sbpf-linker\""@,
{
    lemma_line(Program::Cargo, build_words(), manifest);
    lemma_seven("+nightly"@, "build"@, "--release"@, "--target"@, TARGET@, "-Z"@, BUILD_STD@);
    reveal_strlit("cargo");
    reveal_strlit("+nightly");
    reveal_strlit("build");
    reveal_strlit("--release");
    reveal_strlit("--target");
    reveal_strlit("bpfel-unknown-none");
    reveal_strlit("-Z");
    reveal_strlit("build-std=core,alloc");
    reveal_strlit(
        "cargo +nightly build --release --target bpfel-unknown-none -Z build-std=core,alloc",
    );
    assert(command_line(text_command(Program::Cargo, build_words()), manifest)
        =~= "cargo +nightly build --release --target bpfel-unknown-none -Z build-std=core,alloc"@);
    reveal_strlit("target.");
    reveal_strlit(".linker=\"sbpf-linker\"");
    reveal_strlit("target.bpfel-unknown-none.linker=\"sbpf-linker\"");
    assert(LINKER_SETTING@ =~= "target."@ + TARGET@ + ".linker=\"sbpf-linker\""@);
}

/// The words that start the build of a program.
pub open spec fn build_words() -> Seq<Seq<char>> {
    seq!["+nightly"@, "build"@, "--release"@, "--target"@, TARGET@, "-Z"@, BUILD_STD@]
}

/// A command that builds a program.
#[derive(Debug)]
pub struct BuildCommand {
    pub invocation: Invocation,
    /// The compiler flags to hand over in the environment.
    pub rustflags: Option<String>,
}

/// Makes the command that builds a program. Where a Cargo configuration governs the build, the
/// compiler flags come from it and only the linker is set; otherwise the flags of the build are
/// handed over.
pub fn build_command(config: BuildConfig, configured: bool) -> (r: BuildCommand)
    ensures
        configured ==> r.rustflags is None && r.invocation@ == text_command(
            Program::Cargo,
            build_words() + seq!["--config"@, LINKER_SETTING@],
        ),
        !configured ==> r.invocation@ == text_command(Program::Cargo, build_words())
            && r.rustflags is Some && r.rustflags->0@ == joined(
            codegen_args(build_flags(config)),
            " "@,
        ),
        r.rustflags is None <==> configured,
        r.rustflags matches Some(line) ==> spaced_words(line@) == codegen_args(build_flags(config)),
        text_arguments(build_words()).is_prefix_of(r.invocation@.arguments),
        r.invocation@.arguments.len() == build_words().len() + (if configured {
            2int
        } else {
            0
        }),
{
    let mut texts: Vec<&'static str> = vec![
        "+nightly",
        "build",
        "--release",
        "--target",
        TARGET,
        "-Z",
        BUILD_STD,
    ];
    assert(str_views(texts@) =~= build_words());
    if configured {
        texts.push("--config");
        texts.push(LINKER_SETTING);
        let ghost words = build_words() + seq!["--config"@, LINKER_SETTING@];
        assert(str_views(texts@) =~= words);
        assert(text_arguments(build_words()) =~= text_arguments(words).subrange(0, 7));
        BuildCommand { invocation: command(Program::Cargo, &texts), rustflags: None }
    } else {
        proof {
            build_flags_read_back(config);
            assert(text_arguments(build_words()) =~= text_arguments(build_words()).subrange(0, 7));
        }
        BuildCommand {
            invocation: command(Program::Cargo, &texts),
            rustflags: Some(build_rustflags(config)),
        }
    }
}

/// Where the compiler flags of a build with the arguments of the user come from.
#[derive(Debug)]
pub enum FlagSource {
    /// From the Cargo configuration that there is.
    Existing,
    /// From a new Cargo configuration with this text.
    Generated(String),
    /// From the environment, where they are handed over.
    Environment(String),
}

/// Decides where the compiler flags of a build come from. A configuration that there is comes
/// first, then a new one, if the user wants it. `existing` is what the environment hands over
/// already.
pub fn flag_source(
    configured: bool,
    generate_config: bool,
    arch: SbpfArch,
    simd_0460: bool,
    existing: Option<&str>,
) -> (r: Result<FlagSource, RepairError>)
    ensures
        r is Ok,
        match r->Ok_0 {
            FlagSource::Existing => configured,
            FlagSource::Generated(text) => !configured && generate_config && repaired(
                Entries::empty(),
                arch,
                simd_0460,
            ) is Ok && parsed(text@) == Some(repaired(Entries::empty(), arch, simd_0460)->Ok_0)
                && holds(text@, "[\"core\", \"alloc\"]"@) && holds(
                text@,
                written(lined(repaired_flags(Entries::empty(), arch, simd_0460))),
            ),
            FlagSource::Environment(flags) => !configured && !generate_config && flags@
                == match existing {
                Some(existing) if trimmed(existing@).len() > 0 => existing@ + " "@ + joined(
                    codegen_args(wanted_flags(arch, simd_0460)),
                    " "@,
                ),
                _ => joined(codegen_args(wanted_flags(arch, simd_0460)), " "@),
            },
        },
{
    if configured {
        Ok(FlagSource::Existing)
    } else if generate_config {
        proof {
            fresh_config_has_no_gaps(arch, simd_0460);
            reveal_strlit("");
        }
        match ensure_recommended_cargo_config_in_content("", arch, simd_0460) {
            Ok(text) => Ok(FlagSource::Generated(text)),
            Err(error) => Err(error),
        }
    } else {
        Ok(FlagSource::Environment(merged_target_rustflags(arch, simd_0460, existing)))
    }
}

/// The exit code that a build ends with: the one of its command, or 1 where that one has none
/// or is no exit code.
pub fn exit_code(code: Option<i32>) -> (r: u8)
    ensures
        match code {
            Some(code) if 0 <= code <= 255 => r == code,
            _ => r == 1,
        },
        r == 0 <==> code == Some(0i32),
        code is None ==> r == 1,
        code matches Some(code) ==> r == code || r == 1 && !(0 <= code <= u8::MAX),
{
    match code {
        Some(code) => if 0 <= code && code <= 255 {
            code as u8
        } else {
            1
        },
        None => 1,
    }
}

/// Which files a `.cargo` directory holds.
#[derive(Clone, Copy, Debug)]
pub struct ConfigFiles {
    /// Whether there is a `config.toml`.
    pub config_toml: bool,
    /// Whether there is a `config`.
    pub config: bool,
}

/// The name of a configuration file.
#[derive(Clone, Copy, Debug, PartialEq, Eq, Structural)]
pub enum ConfigName {
    ConfigToml,
    Config,
}

impl ConfigName {
    /// The name.
    pub fn as_str(self) -> (r: &'static str)
        ensures
            r@ == match self {
                ConfigName::ConfigToml => "config.toml"@,
                ConfigName::Config => "config"@,
            },
    {
        match self {
            ConfigName::ConfigToml => "config.toml",
            ConfigName::Config => "config",
        }
    }
}

/// Finds the configuration that governs a directory. `found` says what there is, for the
/// directory and then for each one around it: the first of them with a configuration counts,
/// and in it `config.toml` before `config`.
pub fn find_cargo_config(found: &Vec<ConfigFiles>) -> (r: Option<(usize, ConfigName)>)
    ensures
        match r {
            Some((i, name)) => {
                &&& i < found.len()
                &&& forall|j: int|
                    0 <= j < i ==> !(#[trigger] found@[j]).config_toml && !found@[j].config
                &&& found@[i as int].config_toml ==> name == ConfigName::ConfigToml
                &&& !found@[i as int].config_toml ==> found@[i as int].config && name
                    == ConfigName::Config
            },
            None => forall|j: int|
                0 <= j < found.len() ==> !(#[trigger] found@[j]).config_toml && !found@[j].config,
        },
        forall|j: int|
            0 <= j < found.len() && ((#[trigger] found@[j]).config_toml || found@[j].config) ==> (
            r matches Some((i, _)) && i <= j),
        r matches Some((i, name)) ==> i < found.len() && (name == ConfigName::ConfigToml
            <==> found@[i as int].config_toml) && (name == ConfigName::Config
            ==> found@[i as int].config),
{
    let mut i: usize = 0;
    while i < found.len()
        invariant
            i <= found.len(),
            forall|j: int| 0 <= j < i ==> !(#[trigger] found@[j]).config_toml && !found@[j].config,
        decreases found.len() - i,
    {
        if found[i].config_toml {
            return Some((i, ConfigName::ConfigToml));
        }
        if found[i].config {
            return Some((i, ConfigName::Config));
        }
        i = i + 1;
    }
    None
}

/// What tells where Cargo is at home.
#[derive(Clone, Copy, Debug, PartialEq, Eq, Structural)]
pub enum CargoHome {
    /// The variable `CARGO_HOME`.
    Variable,
    /// `.cargo` in the directory that `HOME` names.
    UnderHome,
    /// `.cargo` in the directory that `USERPROFILE` names.
    UnderUserProfile,
}

/// Decides what tells where Cargo is at home. `variable` is the length of
/// `CARGO_HOME`; an empty one does not count. `home` and `user_profile` say whether the other
/// two variables are set.
pub fn cargo_home(variable: Option<usize>, home: bool, user_profile: bool) -> (r: Option<
    CargoHome,
>)
    ensures
        r == if variable matches Some(len) && len > 0 {
            Some(CargoHome::Variable)
        } else if home {
            Some(CargoHome::UnderHome)
        } else if user_profile {
            Some(CargoHome::UnderUserProfile)
        } else {
            None
        },
        r == Some(CargoHome::Variable) <==> variable is Some && variable != Some(0usize),
        r == Some(CargoHome::UnderUserProfile) ==> user_profile && !home,
        r is None <==> (variable is None || variable == Some(0usize)) && !home && !user_profile,
{
    match variable {
        Some(len) if len > 0 => Some(CargoHome::Variable),
        _ => if home {
            Some(CargoHome::UnderHome)
        } else if user_profile {
            Some(CargoHome::UnderUserProfile)
        } else {
            None
        },
    }
}

/// How many of the first arguments are the name under which Cargo starts the tool.
pub fn subcommand_words(args: &Vec<Option<String>>) -> (r: usize)
    ensures
        r == if args@.len() > 0 && given_views(args@)[0] == Some("build-sbpf"@) {
            1int
        } else {
            0
        },
        r == 1 <==> args@.len() > 0 && (args@[0] matches Some(name) && name@ == "build-sbpf"@),
        r <= 1,
{
    if args.len() > 0 && is_text(&args[0], "build-sbpf") {
        1
    } else {
        0
    }
}

/// What a diagnosis is asked for on the command line. The architecture is V3 unless it is given.
pub fn diagnosis_config(arch: Option<SbpfArch>, auto_fix: bool, skip_builtins_check: bool) -> (r:
    DiagnosisConfig)
    ensures
        r.arch == match arch {
            Some(arch) => arch,
            None => SbpfArch::V3,
        },
        arch is None ==> r.arch == SbpfArch::V3,
        arch is Some ==> Some(r.arch) == arch,
        r.auto_fix == auto_fix,
        r.skip_builtins_check == skip_builtins_check,
{
    let arch: SbpfArch = match arch {
        Some(arch) => arch,
        None => SbpfArch::default(),
    };
    DiagnosisConfig { arch, auto_fix, skip_builtins_check }
}

/// Arguments of the user are known by their texts, where they have one, and the place of a manifest
/// by its number or its text.
pub proof fn arguments_are_known(args: Seq<Option<String>>, path: ManifestPath<String>)
    ensures
        given_views(args).len() == args.len(),
        forall|i: int|
            0 <= i < args.len() ==> match args[i] {
                Some(text) => #[trigger] given_views(args)[i] == Some(text@),
                None => given_views(args)[i] is None,
            },
        match path {
            ManifestPath::Argument(i) => manifest_view(path)
                == ManifestPath::<Seq<char>>::Argument(i),
            ManifestPath::Inline(text) => manifest_view(path) == ManifestPath::Inline(text@),
        },
{
}

} // verus!
