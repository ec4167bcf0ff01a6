//! Preparing the machine for a build, step by step.
//!
//! The preparation is a walk through the states of `Setup`. Each state asks for one thing (to look
//! something up, to ask the user, to run a command), and what comes of it leads to the next
//! state. A nightly toolchain and a recent `sbpf-linker` are required, and the preparation fails
//! without them. LLVM 23 and the compiler builtins are recommended, and the user is warned
//! where they are missing. Nothing is changed without permission.

use vstd::prelude::*;

use crate::command::{
    command, command_line, lemma_four, lemma_line, lemma_seven, lemma_six, lemma_three, lemma_two, outcome_view, str_views, text_command, Invocation,
    InvocationView, Outcome, Program,
};
use crate::diagnose::{BUILTINS_CRATE, BUILTINS_GIT};
use crate::flags::TARGET;
use crate::text::views;
use crate::toml::holds;

verus! {

/// Where a preparation stands. `S` is the type of texts.
#[derive(Debug)]
pub enum Setup<S> {
    /// Look the nightly toolchain up.
    ProbeNightly,
    /// Ask whether to install the nightly toolchain.
    ConfirmNightly,
    /// Install the nightly toolchain.
    InstallNightly,
    /// Look the nightly toolchain up after it has been installed.
    ReprobeNightly,
    /// Ask whether to update the nightly toolchain.
    ConfirmUpdate,
    /// Update the nightly toolchain.
    UpdateNightly,
    /// Look the nightly toolchain up for the last time.
    RecheckNightly,
    /// Look for a linker that is recent enough.
    ProbeLinker,
    /// Look for `cargo-binstall`.
    LocateBinstall,
    /// Ask whether to install `cargo-binstall`.
    ConfirmBinstall,
    /// Update the stable toolchain, which installs `cargo-binstall`.
    UpdateStable,
    /// Install `cargo-binstall`.
    InstallBinstall,
    /// Look for `cargo-binstall` after it has been installed.
    RelocateBinstall,
    /// Ask whether to install the linker.
    ConfirmLinker,
    /// Install the linker.
    InstallLinker,
    /// Look for a linker that is recent enough after one has been installed.
    RecheckLinker,
    /// List the dependency tree.
    ListTree,
    /// Ask whether to add the compiler builtins.
    ConfirmBuiltins,
    /// Add the compiler builtins.
    AddBuiltins,
    /// The build can start.
    Ready,
    /// The build cannot start, for a reason.
    Failed(S),
}

/// What there is to know about a toolchain.
#[derive(Clone, Copy, Debug)]
pub enum Toolchain {
    Missing,
    /// The toolchain runs, with a version of LLVM if it tells.
    Present { llvm_major: Option<u64> },
}

/// What came of listing the dependency tree.
#[derive(Clone, Copy, Debug)]
pub enum Tree {
    /// The command did not start.
    Unstartable,
    /// The command failed.
    Failed,
    /// The tree was listed, with the compiler builtins in it or not.
    Listed { builtins: bool },
}

/// What came of a step. `S` is the type of texts.
#[derive(Debug)]
pub enum Event<S> {
    /// A toolchain was looked up.
    Nightly(Toolchain),
    /// The user was asked, and gave an answer, unless it could not be had.
    Answer(Option<bool>),
    /// A command ended.
    Ended(Outcome<S>),
    /// A linker that is recent enough was looked for, and found or not.
    Linker(bool),
    /// `cargo-binstall` was looked for, and found or not.
    Binstall(bool),
    /// The dependency tree was listed.
    Tree(Tree),
}

/// A state by the characters of its reason.
pub open spec fn setup_view(state: Setup<String>) -> Setup<Seq<char>> {
    match state {
        Setup::ProbeNightly => Setup::ProbeNightly,
        Setup::ConfirmNightly => Setup::ConfirmNightly,
        Setup::InstallNightly => Setup::InstallNightly,
        Setup::ReprobeNightly => Setup::ReprobeNightly,
        Setup::ConfirmUpdate => Setup::ConfirmUpdate,
        Setup::UpdateNightly => Setup::UpdateNightly,
        Setup::RecheckNightly => Setup::RecheckNightly,
        Setup::ProbeLinker => Setup::ProbeLinker,
        Setup::LocateBinstall => Setup::LocateBinstall,
        Setup::ConfirmBinstall => Setup::ConfirmBinstall,
        Setup::UpdateStable => Setup::UpdateStable,
        Setup::InstallBinstall => Setup::InstallBinstall,
        Setup::RelocateBinstall => Setup::RelocateBinstall,
        Setup::ConfirmLinker => Setup::ConfirmLinker,
        Setup::InstallLinker => Setup::InstallLinker,
        Setup::RecheckLinker => Setup::RecheckLinker,
        Setup::ListTree => Setup::ListTree,
        Setup::ConfirmBuiltins => Setup::ConfirmBuiltins,
        Setup::AddBuiltins => Setup::AddBuiltins,
        Setup::Ready => Setup::Ready,
        Setup::Failed(reason) => Setup::Failed(reason@),
    }
}

/// An event by the characters of its texts.
pub open spec fn event_view(event: Event<String>) -> Event<Seq<char>> {
    match event {
        Event::Nightly(toolchain) => Event::Nightly(toolchain),
        Event::Answer(answer) => Event::Answer(answer),
        Event::Ended(outcome) => Event::Ended(outcome_view(outcome)),
        Event::Linker(found) => Event::Linker(found),
        Event::Binstall(found) => Event::Binstall(found),
        Event::Tree(tree) => Event::Tree(tree),
    }
}

/// Whether an event is of the kind that a state leads to. A state at which a preparation ends
/// leads to none.
pub open spec fn awaited<S>(state: Setup<S>, event: Event<S>) -> bool {
    match state {
        Setup::ProbeNightly | Setup::ReprobeNightly | Setup::RecheckNightly => event is Nightly,
        Setup::ConfirmNightly
        | Setup::ConfirmUpdate
        | Setup::ConfirmBinstall
        | Setup::ConfirmLinker
        | Setup::ConfirmBuiltins => event is Answer,
        Setup::InstallNightly
        | Setup::UpdateNightly
        | Setup::UpdateStable
        | Setup::InstallBinstall
        | Setup::InstallLinker
        | Setup::AddBuiltins => event is Ended,
        Setup::ProbeLinker | Setup::RecheckLinker => event is Linker,
        Setup::LocateBinstall | Setup::RelocateBinstall => event is Binstall,
        Setup::ListTree => event is Tree,
        Setup::Ready | Setup::Failed(_) => false,
    }
}

/// Whether a toolchain uses LLVM 23.
pub open spec fn uses_llvm_23(toolchain: Toolchain) -> bool {
    toolchain matches Toolchain::Present { llvm_major: Some(major) } && major == 23
}

/// Where an answer leads: on if the user agrees, to `declined` if not. Without an answer the
/// preparation fails.
pub open spec fn answered(
    answer: Option<bool>,
    agreed: Setup<Seq<char>>,
    declined: Setup<Seq<char>>,
) -> Setup<Seq<char>> {
    match answer {
        Some(true) => agreed,
        Some(false) => declined,
        None => Setup::Failed("failed to request permission"@),
    }
}

/// Where the outcome of a command leads that has to succeed.
pub open spec fn ended(
    outcome: Outcome<Seq<char>>,
    succeeded: Setup<Seq<char>>,
    unstartable: Seq<char>,
    failed: Seq<char>,
) -> Setup<Seq<char>> {
    match outcome {
        Outcome::Succeeded => succeeded,
        Outcome::Unstartable => Setup::Failed(unstartable),
        Outcome::Failed(status) => Setup::Failed(failed + " failed with status "@ + status),
    }
}

/// Why a build needs a recent linker.
pub open spec fn linker_required() -> Seq<char> {
    "sbpf-linker 0.2.1 or newer is required for SBPF builds"@
}

/// The state that follows on an event.
pub open spec fn successor(state: Setup<Seq<char>>, event: Event<Seq<char>>) -> Setup<Seq<char>> {
    match (state, event) {
        (Setup::ProbeNightly, Event::Nightly(toolchain)) => if toolchain is Missing {
            Setup::ConfirmNightly
        } else if uses_llvm_23(toolchain) {
            Setup::ProbeLinker
        } else {
            Setup::ConfirmUpdate
        },
        (Setup::ConfirmNightly, Event::Answer(answer)) => answered(
            answer,
            Setup::InstallNightly,
            Setup::Failed("the nightly toolchain is required for SBPF builds"@),
        ),
        (Setup::InstallNightly, Event::Ended(outcome)) => ended(
            outcome,
            Setup::ReprobeNightly,
            "failed to run rustup toolchain install nightly"@,
            "rustup toolchain install nightly"@,
        ),
        (Setup::ReprobeNightly, Event::Nightly(toolchain)) => if uses_llvm_23(toolchain) {
            Setup::ProbeLinker
        } else {
            Setup::ConfirmUpdate
        },
        (Setup::ConfirmUpdate, Event::Answer(answer)) => answered(
            answer,
            Setup::UpdateNightly,
            Setup::RecheckNightly,
        ),
        (Setup::UpdateNightly, Event::Ended(outcome)) => if outcome is Unstartable {
            Setup::Failed("failed to run rustup update nightly"@)
        } else {
            Setup::RecheckNightly
        },
        (Setup::RecheckNightly, Event::Nightly(_)) => Setup::ProbeLinker,
        (Setup::ProbeLinker, Event::Linker(found)) => if found {
            Setup::ListTree
        } else {
            Setup::LocateBinstall
        },
        (Setup::LocateBinstall, Event::Binstall(found)) => if found {
            Setup::ConfirmLinker
        } else {
            Setup::ConfirmBinstall
        },
        (Setup::ConfirmBinstall, Event::Answer(answer)) => answered(
            answer,
            Setup::UpdateStable,
            Setup::Failed(linker_required()),
        ),
        (Setup::UpdateStable, Event::Ended(outcome)) => ended(
            outcome,
            Setup::InstallBinstall,
            "failed to run rustup update stable"@,
            "rustup update stable"@,
        ),
        (Setup::InstallBinstall, Event::Ended(outcome)) => ended(
            outcome,
            Setup::RelocateBinstall,
            "failed to install cargo-binstall"@,
            "cargo-binstall installation"@,
        ),
        (Setup::RelocateBinstall, Event::Binstall(found)) => if found {
            Setup::ConfirmLinker
        } else {
            Setup::Failed("cargo-binstall was installed but could not be located"@)
        },
        (Setup::ConfirmLinker, Event::Answer(answer)) => answered(
            answer,
            Setup::InstallLinker,
            Setup::Failed(linker_required()),
        ),
        (Setup::InstallLinker, Event::Ended(outcome)) => ended(
            outcome,
            Setup::RecheckLinker,
            "failed to run cargo binstall sbpf-linker"@,
            "cargo binstall sbpf-linker"@,
        ),
        (Setup::RecheckLinker, Event::Linker(found)) => if found {
            Setup::ListTree
        } else {
            Setup::Failed(
                "sbpf-linker was installed but version 0.2.1 or newer could not be located"@,
            )
        },
        (Setup::ListTree, Event::Tree(Tree::Unstartable)) => Setup::Failed(
            "failed to check for solana-compiler-builtins"@,
        ),
        (Setup::ListTree, Event::Tree(Tree::Failed)) => Setup::Failed(
            "cargo tree failed while checking for solana-compiler-builtins"@,
        ),
        (Setup::ListTree, Event::Tree(Tree::Listed { builtins })) => if builtins {
            Setup::Ready
        } else {
            Setup::ConfirmBuiltins
        },
        (Setup::ConfirmBuiltins, Event::Answer(answer)) => answered(
            answer,
            Setup::AddBuiltins,
            Setup::Ready,
        ),
        (Setup::AddBuiltins, Event::Ended(outcome)) => if outcome is Unstartable {
            Setup::Failed("failed to add solana-compiler-builtins"@)
        } else {
            Setup::Ready
        },
        _ => state,
    }
}

/// The command that adds the compiler builtins, as the user would type it.
pub open spec fn add_builtins_text() -> Seq<char> {
    "cargo add "@ + BUILTINS_CRATE@ + " --git "@ + BUILTINS_GIT@
}

/// The warning that a build goes on without the compiler builtins.
pub open spec fn without_builtins() -> Seq<char> {
    "warning: continuing without "@ + BUILTINS_CRATE@
        + ", whose compiler builtins are optimized for the SVM"@
}

/// The warnings that go with an event.
pub open spec fn warnings(state: Setup<Seq<char>>, event: Event<Seq<char>>) -> Seq<Seq<char>> {
    match (state, event) {
        (Setup::UpdateNightly, Event::Ended(Outcome::Failed(status))) => seq![
            "warning: rustup update nightly failed with status "@ + status,
        ],
        (Setup::RecheckNightly, Event::Nightly(toolchain)) if !uses_llvm_23(toolchain) => seq![
            "warning: an older LLVM version may generate less optimal SBPF code"@,
        ],
        (Setup::ConfirmBuiltins, Event::Answer(Some(false))) => seq![without_builtins()],
        (Setup::AddBuiltins, Event::Ended(Outcome::Failed(status))) => seq![
            "warning: "@ + add_builtins_text() + " failed with status "@ + status
                + "; continuing without it"@,
            without_builtins(),
        ],
        _ => Seq::empty(),
    }
}

/// The question that a state puts to the user.
pub open spec fn question(state: Setup<Seq<char>>) -> Option<Seq<char>> {
    match state {
        Setup::ConfirmNightly => Some("Run `rustup toolchain install nightly`?"@),
        Setup::ConfirmUpdate => Some(
            "Nightly does not use LLVM 23. Run `rustup update nightly`?"@,
        ),
        Setup::ConfirmBinstall => Some("Install cargo-binstall with stable Rust?"@),
        Setup::ConfirmLinker => Some("Run `cargo binstall sbpf-linker --no-confirm --force`?"@),
        Setup::ConfirmBuiltins => Some("Run `"@ + add_builtins_text() + "`?"@),
        _ => None,
    }
}

/// The command that a state runs to change something.
pub open spec fn change(state: Setup<Seq<char>>) -> Option<InvocationView> {
    match state {
        Setup::InstallNightly => Some(
            text_command(Program::Rustup, seq!["toolchain"@, "install"@, "nightly"@]),
        ),
        Setup::UpdateNightly => Some(text_command(Program::Rustup, seq!["update"@, "nightly"@])),
        Setup::UpdateStable => Some(text_command(Program::Rustup, seq!["update"@, "stable"@])),
        Setup::InstallBinstall => Some(
            text_command(
                Program::Rustup,
                seq!["run"@, "stable"@, "cargo"@, "install"@, "cargo-binstall"@, "--locked"@],
            ),
        ),
        Setup::InstallLinker => Some(
            text_command(
                Program::CargoBinstall,
                seq!["sbpf-linker"@, "--no-confirm"@, "--force"@],
            ),
        ),
        Setup::AddBuiltins => Some(
            text_command(Program::Cargo, seq!["add"@, BUILTINS_CRATE@, "--git"@, BUILTINS_GIT@]),
        ),
        _ => None,
    }
}

/// The state in which the user permits what a state changes.
pub open spec fn permission(state: Setup<Seq<char>>) -> Setup<Seq<char>> {
    match state {
        Setup::InstallNightly => Setup::ConfirmNightly,
        Setup::UpdateNightly => Setup::ConfirmUpdate,
        Setup::UpdateStable | Setup::InstallBinstall => Setup::ConfirmBinstall,
        Setup::InstallLinker => Setup::ConfirmLinker,
        Setup::AddBuiltins => Setup::ConfirmBuiltins,
        _ => state,
    }
}

/// How far a state is from the end, at most.
pub open spec fn distance(state: Setup<Seq<char>>) -> nat {
    match state {
        Setup::ProbeNightly => 19,
        Setup::ConfirmNightly => 18,
        Setup::InstallNightly => 17,
        Setup::ReprobeNightly => 16,
        Setup::ConfirmUpdate => 15,
        Setup::UpdateNightly => 14,
        Setup::RecheckNightly => 13,
        Setup::ProbeLinker => 12,
        Setup::LocateBinstall => 11,
        Setup::ConfirmBinstall => 10,
        Setup::UpdateStable => 9,
        Setup::InstallBinstall => 8,
        Setup::RelocateBinstall => 7,
        Setup::ConfirmLinker => 6,
        Setup::InstallLinker => 5,
        Setup::RecheckLinker => 4,
        Setup::ListTree => 3,
        Setup::ConfirmBuiltins => 2,
        Setup::AddBuiltins => 1,
        Setup::Ready | Setup::Failed(_) => 0,
    }
}

/// The state that a preparation is in after events.
pub open spec fn state_after(events: Seq<Event<Seq<char>>>) -> Setup<Seq<char>>
    decreases events.len(),
{
    if events.len() == 0 {
        Setup::ProbeNightly
    } else {
        successor(state_after(events.drop_last()), events.last())
    }
}

/// Whether events can follow on each other in a preparation.
pub open spec fn possible(events: Seq<Event<Seq<char>>>) -> bool
    decreases events.len(),
{
    events.len() > 0 ==> possible(events.drop_last()) && awaited(
        state_after(events.drop_last()),
        events.last(),
    )
}

/// A preparation ends: each event leads closer to the end, and only an end leads nowhere.
pub proof fn setup_ends(state: Setup<Seq<char>>, event: Event<Seq<char>>)
    ensures
        awaited(state, event) ==> distance(successor(state, event)) < distance(state),
        distance(state) == 0 <==> state is Ready || state is Failed,
{
}

/// Nothing is changed without permission: before a command that changes something, the user
/// was asked about it and agreed.
pub proof fn changes_follow_permission(events: Seq<Event<Seq<char>>>)
    requires
        possible(events),
        change(state_after(events)) is Some,
    ensures
        exists|i: int|
            0 <= i < events.len() && #[trigger] events[i] == Event::<Seq<char>>::Answer(Some(true))
                && state_after(events.take(i)) == permission(state_after(events)),
    decreases events.len(),
{
    let front = events.drop_last();
    let n = events.len() - 1;
    if state_after(events) is InstallBinstall {
        changes_follow_permission(front);
        let i = choose|i: int|
            0 <= i < front.len() && #[trigger] front[i] == Event::<Seq<char>>::Answer(Some(true))
                && state_after(front.take(i)) == permission(state_after(front));
        assert(front.take(i) =~= events.take(i));
        assert(events[i] == front[i]);
    } else {
        assert(front =~= events.take(n));
        assert(events[n] == Event::<Seq<char>>::Answer(Some(true)));
    }
}

/// A build starts only with a linker that is recent enough.
pub proof fn ready_with_linker(events: Seq<Event<Seq<char>>>)
    requires
        possible(events),
        state_after(events) is Ready || state_after(events) is ListTree || state_after(
            events,
        ) is ConfirmBuiltins || state_after(events) is AddBuiltins,
    ensures
        exists|i: int|
            0 <= i < events.len() && #[trigger] events[i] == Event::<Seq<char>>::Linker(true),
    decreases events.len(),
{
    let front = events.drop_last();
    if state_after(events) is ListTree {
        assert(events[events.len() - 1] == Event::<Seq<char>>::Linker(true));
    } else {
        ready_with_linker(front);
        let i = choose|i: int|
            0 <= i < front.len() && #[trigger] front[i] == Event::<Seq<char>>::Linker(true);
        assert(events[i] == front[i]);
    }
}

/// Who declines to install what is required gets no build.
pub proof fn required_is_required(state: Setup<Seq<char>>)
    requires
        state is ConfirmNightly || state is ConfirmBinstall || state is ConfirmLinker,
    ensures
        successor(state, Event::Answer(Some(false))) is Failed,
{
}

/// Who declines what is recommended is warned, and gets the build.
pub proof fn recommended_is_optional(toolchain: Toolchain)
    ensures
        ({
            let declined = Event::<Seq<char>>::Answer(Some(false));
            let looked_up = Event::<Seq<char>>::Nightly(toolchain);
            let update = successor(Setup::ConfirmUpdate, declined);
            &&& successor(update, looked_up) == Setup::<Seq<char>>::ProbeLinker
            &&& warnings(update, looked_up).len() > 0 <==> !uses_llvm_23(toolchain)
            &&& successor(Setup::ConfirmBuiltins, declined) == Setup::<Seq<char>>::Ready
            &&& warnings(Setup::ConfirmBuiltins, declined) == seq![without_builtins()]
        }),
{
}

/// A nightly toolchain that is there leads straight to the linker exactly where it uses LLVM 23.
/// With any other version, or an unknown one, the user is asked about an update.
pub proof fn only_llvm_23_goes_unasked(llvm_major: Option<u64>)
    ensures
        ({
            let found = Event::<Seq<char>>::Nightly(Toolchain::Present { llvm_major });
            let missing = Event::<Seq<char>>::Nightly(Toolchain::Missing);
            let next = if llvm_major == Some(23u64) {
                Setup::<Seq<char>>::ProbeLinker
            } else {
                Setup::<Seq<char>>::ConfirmUpdate
            };
            &&& successor(Setup::ProbeNightly, found) == next
            &&& successor(Setup::ReprobeNightly, found) == next
            &&& successor(Setup::RecheckNightly, found) == Setup::<Seq<char>>::ProbeLinker
            &&& successor(Setup::ProbeNightly, missing) == Setup::<Seq<char>>::ConfirmNightly
            &&& successor(Setup::ReprobeNightly, missing) == Setup::<Seq<char>>::ConfirmUpdate
            &&& successor(Setup::RecheckNightly, missing) == Setup::<Seq<char>>::ProbeLinker
        }),
{
}

/// Whether the question of the toolchain is settled in a state: the linker is looked for, or what
/// comes after it.
pub open spec fn past_toolchain<S>(state: Setup<S>) -> bool {
    match state {
        Setup::ProbeLinker
        | Setup::LocateBinstall
        | Setup::ConfirmBinstall
        | Setup::UpdateStable
        | Setup::InstallBinstall
        | Setup::RelocateBinstall
        | Setup::ConfirmLinker
        | Setup::InstallLinker
        | Setup::RecheckLinker
        | Setup::ListTree
        | Setup::ConfirmBuiltins
        | Setup::AddBuiltins
        | Setup::Ready => true,
        _ => false,
    }
}

/// No preparation gets past the toolchain unless LLVM 23 was found or the user was warned.
pub proof fn llvm_is_23_or_warned_about(events: Seq<Event<Seq<char>>>)
    requires
        possible(events),
        past_toolchain(state_after(events)),
    ensures
        exists|i: int|
            #![trigger events[i]]
            0 <= i < events.len() && (events[i] == Event::<Seq<char>>::Nightly(
                Toolchain::Present { llvm_major: Some(23u64) },
            ) || warnings(state_after(events.take(i)), events[i]).contains(
                "warning: an older LLVM version may generate less optimal SBPF code"@,
            )),
    decreases events.len(),
{
    let front = events.drop_last();
    let n = events.len() - 1;
    if past_toolchain(state_after(front)) {
        llvm_is_23_or_warned_about(front);
        let i = choose|i: int|
            #![trigger front[i]]
            0 <= i < front.len() && (front[i] == Event::<Seq<char>>::Nightly(
                Toolchain::Present { llvm_major: Some(23u64) },
            ) || warnings(state_after(front.take(i)), front[i]).contains(
                "warning: an older LLVM version may generate less optimal SBPF code"@,
            ));
        assert(front.take(i) =~= events.take(i));
        assert(events[i] == front[i]);
    } else {
        assert(front =~= events.take(n));
        let given = warnings(state_after(front), events[n]);
        if events[n] != Event::<Seq<char>>::Nightly(
            Toolchain::Present { llvm_major: Some(23u64) },
        ) {
            assert(given[0]
                == "warning: an older LLVM version may generate less optimal SBPF code"@);
        }
    }
}

/// No build starts without the compiler builtins unless the user was warned: they were in the
/// dependency tree, or were added, or there was a warning.
pub proof fn builtins_are_there_or_warned_about(events: Seq<Event<Seq<char>>>)
    requires
        possible(events),
        state_after(events) is Ready,
    ensures
        ({
            let n = events.len() - 1;
            let before = state_after(events.drop_last());
            &&& events.len() > 0
            &&& {
                ||| events[n] == Event::<Seq<char>>::Tree(Tree::Listed { builtins: true })
                ||| before is AddBuiltins && events[n] == Event::<Seq<char>>::Ended(
                    Outcome::Succeeded,
                )
                ||| warnings(before, events[n]).contains(
                    "warning: continuing without solana-compiler-builtins, whose compiler builtins are optimized for the SVM"@,
                )
            }
        }),
{
    reveal_strlit("warning: continuing without ");
    reveal_strlit("solana-compiler-builtins");
    reveal_strlit(", whose compiler builtins are optimized for the SVM");
    reveal_strlit(
        "warning: continuing without solana-compiler-builtins, whose compiler builtins are optimized for the SVM",
    );
    assert(without_builtins()
        =~= "warning: continuing without solana-compiler-builtins, whose compiler builtins are optimized for the SVM"@);
    let n = events.len() - 1;
    let before = state_after(events.drop_last());
    let given = warnings(before, events[n]);
    if before is ConfirmBuiltins {
        assert(given[0] == without_builtins());
    } else if before is AddBuiltins && events[n] != Event::<Seq<char>>::Ended(Outcome::Succeeded) {
        assert(given[1] == without_builtins());
    }
}

/// A preparation fails where an answer cannot be had, where what is required is declined, where a
/// command does not start, where a command for something required fails, where what was
/// installed cannot be found, and where the dependency tree cannot be listed. Nothing else makes
/// it fail.
pub proof fn preparations_fail_for_these_reasons(state: Setup<Seq<char>>, event: Event<Seq<char>>)
    requires
        awaited(state, event),
    ensures
        successor(state, event) is Failed <==> match event {
            Event::Nightly(_) => false,
            Event::Answer(None) => true,
            Event::Answer(Some(agreed)) => !agreed && !(state is ConfirmUpdate)
                && !(state is ConfirmBuiltins),
            Event::Ended(Outcome::Unstartable) => true,
            Event::Ended(Outcome::Failed(_)) => !(state is UpdateNightly) && !(
            state is AddBuiltins),
            Event::Ended(Outcome::Succeeded) => false,
            Event::Linker(found) => !found && state is RecheckLinker,
            Event::Binstall(found) => !found && state is RelocateBinstall,
            Event::Tree(tree) => !(tree is Listed),
        },
{
}

/// What was looked for and found leads on, and what was not found is asked about or looked for
/// elsewhere.
pub proof fn findings_lead_on()
    ensures
        successor(Setup::ProbeLinker, Event::Linker(true)) is ListTree,
        successor(Setup::ProbeLinker, Event::Linker(false)) is LocateBinstall,
        successor(Setup::RecheckLinker, Event::Linker(true)) is ListTree,
        successor(Setup::LocateBinstall, Event::Binstall(true)) is ConfirmLinker,
        successor(Setup::LocateBinstall, Event::Binstall(false)) is ConfirmBinstall,
        successor(Setup::RelocateBinstall, Event::Binstall(true)) is ConfirmLinker,
        successor(Setup::ListTree, Event::Tree(Tree::Listed { builtins: true })) is Ready,
        successor(Setup::ListTree, Event::Tree(Tree::Listed { builtins: false }))
            is ConfirmBuiltins,
{
}

/// A state that puts a question awaits an answer, a state that changes something awaits the end of
/// its command, the others await what they look up, and only an end awaits nothing.
pub proof fn states_await_what_they_ask_for(state: Setup<Seq<char>>)
    ensures
        awaited(state, Event::Answer(None)) <==> question(state) is Some,
        awaited(state, Event::Ended(Outcome::Succeeded)) <==> change(state) is Some,
        awaited(state, Event::Nightly(Toolchain::Missing)) <==> state is ProbeNightly
            || state is ReprobeNightly || state is RecheckNightly,
        awaited(state, Event::Linker(true)) <==> state is ProbeLinker || state is RecheckLinker,
        awaited(state, Event::Binstall(true)) <==> state is LocateBinstall
            || state is RelocateBinstall,
        awaited(state, Event::Tree(Tree::Failed)) <==> state is ListTree,
        (forall|event: Event<Seq<char>>| !#[trigger] awaited(state, event)) <==> state is Ready
            || state is Failed,
{
    if !(state is Ready) && !(state is Failed) {
        assert(awaited(state, Event::Answer(None)) || awaited(
            state,
            Event::Ended(Outcome::Succeeded),
        ) || awaited(state, Event::Nightly(Toolchain::Missing)) || awaited(
            state,
            Event::Linker(true),
        ) || awaited(state, Event::Binstall(true)) || awaited(state, Event::Tree(Tree::Failed)));
    }
}

/// Who agrees gets the change that was asked about, and who declines what is only recommended
/// goes on without it.
pub proof fn answers_lead_on(state: Setup<Seq<char>>)
    requires
        awaited(state, Event::Answer(Some(true))),
    ensures
        change(successor(state, Event::Answer(Some(true)))) is Some,
        permission(successor(state, Event::Answer(Some(true)))) == state,
        question(state) is Some,
        state is ConfirmBinstall ==> successor(state, Event::Answer(Some(true))) is UpdateStable
            && question(state) == Some("Install cargo-binstall with stable Rust?"@),
        state is ConfirmUpdate ==> successor(state, Event::Answer(Some(false))) is RecheckNightly,
        state is ConfirmBuiltins ==> successor(state, Event::Answer(Some(false))) is Ready,
{
}

/// A command that succeeds leads to a look at what it changed, and to the next command where
/// there are two. So does one that fails, where what it changes is only recommended.
pub proof fn commands_lead_on(status: Seq<char>)
    ensures
        successor(Setup::InstallNightly, Event::Ended(Outcome::Succeeded)) is ReprobeNightly,
        successor(Setup::UpdateNightly, Event::Ended(Outcome::Succeeded)) is RecheckNightly,
        successor(Setup::UpdateNightly, Event::Ended(Outcome::Failed(status))) is RecheckNightly,
        successor(Setup::UpdateStable, Event::Ended(Outcome::Succeeded)) is InstallBinstall,
        successor(Setup::InstallBinstall, Event::Ended(Outcome::Succeeded)) is RelocateBinstall,
        successor(Setup::InstallLinker, Event::Ended(Outcome::Succeeded)) is RecheckLinker,
        successor(Setup::AddBuiltins, Event::Ended(Outcome::Succeeded)) is Ready,
        successor(Setup::AddBuiltins, Event::Ended(Outcome::Failed(status))) is Ready,
{
}

/// Where a command fails, the user gets to see the status that it failed with: in the reason of
/// the failure, or in the first warning. Where a command succeeds, there is no warning.
pub proof fn failed_commands_are_reported(state: Setup<Seq<char>>, status: Seq<char>)
    requires
        awaited(state, Event::Ended(Outcome::Failed(status))),
    ensures
        warnings(state, Event::Ended(Outcome::Succeeded)).len() == 0,
        ({
            let end = " failed with status "@ + status;
            match successor(state, Event::Ended(Outcome::Failed(status))) {
                Setup::Failed(reason) => end.is_suffix_of(reason),
                _ => warnings(state, Event::Ended(Outcome::Failed(status))).len() > 0 && holds(
                    warnings(state, Event::Ended(Outcome::Failed(status)))[0],
                    end,
                ),
            }
        }),
{
    let event = Event::<Seq<char>>::Ended(Outcome::Failed(status));
    let end = " failed with status "@ + status;
    match successor(state, event) {
        Setup::Failed(reason) => {
            let n = reason.len() - end.len();
            assert(end =~= reason.subrange(n, reason.len() as int));
        },
        _ => {
            let first = warnings(state, event)[0];
            reveal_strlit("warning: rustup update nightly failed with status ");
            reveal_strlit(" failed with status ");
            reveal_strlit("; continuing without it");
            if state is UpdateNightly {
                assert(first.subrange(30, 30int + end.len()) =~= end);
            } else {
                let n = ("warning: "@ + add_builtins_text()).len() as int;
                assert(first.subrange(n, n + end.len()) =~= end);
            }
        },
    }
}

/// A preparation that fails says what is required, what could not be done or what is missing.
pub proof fn failures_say_why(state: Setup<Seq<char>>, status: Seq<char>)
    ensures
        awaited(state, Event::Answer(None)) ==> successor(state, Event::Answer(None))
            == Setup::Failed("failed to request permission"@),
        successor(Setup::ConfirmNightly, Event::Answer(Some(false))) == Setup::Failed(
            "the nightly toolchain is required for SBPF builds"@,
        ),
        successor(Setup::ConfirmBinstall, Event::Answer(Some(false))) == Setup::Failed(
            "sbpf-linker 0.2.1 or newer is required for SBPF builds"@,
        ),
        successor(Setup::ConfirmLinker, Event::Answer(Some(false))) == Setup::Failed(
            "sbpf-linker 0.2.1 or newer is required for SBPF builds"@,
        ),
        successor(Setup::InstallNightly, Event::Ended(Outcome::Unstartable)) == Setup::Failed(
            "failed to run rustup toolchain install nightly"@,
        ),
        successor(Setup::UpdateNightly, Event::Ended(Outcome::Unstartable)) == Setup::Failed(
            "failed to run rustup update nightly"@,
        ),
        successor(Setup::UpdateStable, Event::Ended(Outcome::Unstartable)) == Setup::Failed(
            "failed to run rustup update stable"@,
        ),
        successor(Setup::InstallBinstall, Event::Ended(Outcome::Unstartable)) == Setup::Failed(
            "failed to install cargo-binstall"@,
        ),
        successor(Setup::InstallLinker, Event::Ended(Outcome::Unstartable)) == Setup::Failed(
            "failed to run cargo binstall sbpf-linker"@,
        ),
        successor(Setup::AddBuiltins, Event::Ended(Outcome::Unstartable)) == Setup::Failed(
            "failed to add solana-compiler-builtins"@,
        ),
        successor(Setup::InstallNightly, Event::Ended(Outcome::Failed(status))) == Setup::Failed(
            "rustup toolchain install nightly"@ + " failed with status "@ + status,
        ),
        successor(Setup::UpdateStable, Event::Ended(Outcome::Failed(status))) == Setup::Failed(
            "rustup update stable"@ + " failed with status "@ + status,
        ),
        successor(Setup::InstallBinstall, Event::Ended(Outcome::Failed(status))) == Setup::Failed(
            "cargo-binstall installation"@ + " failed with status "@ + status,
        ),
        successor(Setup::InstallLinker, Event::Ended(Outcome::Failed(status))) == Setup::Failed(
            "cargo binstall sbpf-linker"@ + " failed with status "@ + status,
        ),
        successor(Setup::RelocateBinstall, Event::Binstall(false)) == Setup::Failed(
            "cargo-binstall was installed but could not be located"@,
        ),
        successor(Setup::RecheckLinker, Event::Linker(false)) == Setup::Failed(
            "sbpf-linker was installed but version 0.2.1 or newer could not be located"@,
        ),
        successor(Setup::ListTree, Event::Tree(Tree::Unstartable)) == Setup::Failed(
            "failed to check for solana-compiler-builtins"@,
        ),
        successor(Setup::ListTree, Event::Tree(Tree::Failed)) == Setup::Failed(
            "cargo tree failed while checking for solana-compiler-builtins"@,
        ),
{
}

/// There is a warning exactly where the preparation goes on without something recommended, or
/// where a command for it failed.
pub proof fn warnings_have_reasons(state: Setup<Seq<char>>, event: Event<Seq<char>>)
    requires
        awaited(state, event),
    ensures
        warnings(state, event).len() > 0 <==> match event {
            Event::Nightly(Toolchain::Present { llvm_major }) => state is RecheckNightly
                && llvm_major != Some(23u64),
            Event::Nightly(Toolchain::Missing) => state is RecheckNightly,
            Event::Answer(answer) => state is ConfirmBuiltins && answer == Some(false),
            Event::Ended(Outcome::Failed(_)) => state is UpdateNightly || state is AddBuiltins,
            _ => false,
        },
{
}

/// The changes of a preparation are these commands.
pub proof fn changes_are_these_commands(manifest: Seq<char>)
    ensures
        command_line(change(Setup::InstallNightly)->0, manifest)
            == "rustup toolchain install nightly"@,
        command_line(change(Setup::UpdateNightly)->0, manifest) == "rustup update nightly"@,
        command_line(change(Setup::UpdateStable)->0, manifest) == "rustup update stable"@,
        command_line(change(Setup::InstallBinstall)->0, manifest)
            == "rustup run stable cargo install cargo-binstall --locked"@,
        command_line(change(Setup::InstallLinker)->0, manifest)
            == "cargo binstall sbpf-linker --no-confirm --force"@,
        command_line(change(Setup::AddBuiltins)->0, manifest)
            == "cargo add solana-compiler-builtins --git https://github.com/blueshift-gg/solana-compiler-builtins"@,
{
    lemma_short_lines(manifest);
    lemma_long_lines(manifest);
}

proof fn lemma_short_lines(manifest: Seq<char>)
    ensures
        command_line(change(Setup::InstallNightly)->0, manifest)
            == "rustup toolchain install nightly"@,
        command_line(change(Setup::UpdateNightly)->0, manifest) == "rustup update nightly"@,
        command_line(change(Setup::UpdateStable)->0, manifest) == "rustup update stable"@,
        command_line(change(Setup::InstallLinker)->0, manifest)
            == "cargo binstall sbpf-linker --no-confirm --force"@,
{
    lemma_line(Program::Rustup, seq!["toolchain"@, "install"@, "nightly"@], manifest);
    lemma_line(Program::Rustup, seq!["update"@, "nightly"@], manifest);
    lemma_line(Program::Rustup, seq!["update"@, "stable"@], manifest);
    lemma_line(
        Program::CargoBinstall,
        seq!["sbpf-linker"@, "--no-confirm"@, "--force"@],
        manifest,
    );
    lemma_three("toolchain"@, "install"@, "nightly"@);
    lemma_two("update"@, "nightly"@);
    lemma_two("update"@, "stable"@);
    lemma_three("sbpf-linker"@, "--no-confirm"@, "--force"@);
    reveal_strlit("rustup");
    reveal_strlit("toolchain");
    reveal_strlit("install");
    reveal_strlit("nightly");
    reveal_strlit("update");
    reveal_strlit("stable");
    reveal_strlit("cargo binstall");
    reveal_strlit("sbpf-linker");
    reveal_strlit("--no-confirm");
    reveal_strlit("--force");
    reveal_strlit("rustup toolchain install nightly");
    reveal_strlit("rustup update nightly");
    reveal_strlit("rustup update stable");
    reveal_strlit("cargo binstall sbpf-linker --no-confirm --force");
    assert(command_line(change(Setup::InstallNightly)->0, manifest)
        =~= "rustup toolchain install nightly"@);
    assert(command_line(change(Setup::UpdateNightly)->0, manifest) =~= "rustup update nightly"@);
    assert(command_line(change(Setup::UpdateStable)->0, manifest) =~= "rustup update stable"@);
    assert(command_line(change(Setup::InstallLinker)->0, manifest)
        =~= "cargo binstall sbpf-linker --no-confirm --force"@);
}

proof fn lemma_long_lines(manifest: Seq<char>)
    ensures
        command_line(change(Setup::InstallBinstall)->0, manifest)
            == "rustup run stable cargo install cargo-binstall --locked"@,
        command_line(change(Setup::AddBuiltins)->0, manifest)
            == "cargo add solana-compiler-builtins --git https://github.com/blueshift-gg/solana-compiler-builtins"@,
{
    lemma_line(
        Program::Rustup,
        seq!["run"@, "stable"@, "cargo"@, "install"@, "cargo-binstall"@, "--locked"@],
        manifest,
    );
    lemma_line(
        Program::Cargo,
        seq!["add"@, BUILTINS_CRATE@, "--git"@, BUILTINS_GIT@],
        manifest,
    );
    lemma_six("run"@, "stable"@, "cargo"@, "install"@, "cargo-binstall"@, "--locked"@);
    lemma_four("add"@, BUILTINS_CRATE@, "--git"@, BUILTINS_GIT@);
    reveal_strlit("rustup");
    reveal_strlit("run");
    reveal_strlit("stable");
    reveal_strlit("cargo");
    reveal_strlit("install");
    reveal_strlit("cargo-binstall");
    reveal_strlit("--locked");
    reveal_strlit("add");
    reveal_strlit("--git");
    reveal_strlit("solana-compiler-builtins");
    reveal_strlit("https://github.com/blueshift-gg/solana-compiler-builtins");
    reveal_strlit("rustup run stable cargo install cargo-binstall --locked");
    reveal_strlit(
        "cargo add solana-compiler-builtins --git https://github.com/blueshift-gg/solana-compiler-builtins",
    );
    assert(command_line(change(Setup::InstallBinstall)->0, manifest)
        =~= "rustup run stable cargo install cargo-binstall --locked"@);
    assert(command_line(change(Setup::AddBuiltins)->0, manifest)
        =~= "cargo add solana-compiler-builtins --git https://github.com/blueshift-gg/solana-compiler-builtins"@);
}

/// A question that is about one command quotes the command that runs where the user agrees.
pub proof fn questions_quote_commands(state: Setup<Seq<char>>, manifest: Seq<char>)
    requires
        question(state) is Some,
        !(state is ConfirmBinstall),
    ensures
        ({
            let agreed = successor(state, Event::Answer(Some(true)));
            ("Run `"@ + command_line(change(agreed)->0, manifest) + "`?"@).is_suffix_of(
                question(state)->0,
            )
        }),
        state is ConfirmUpdate <==> "Nightly does not use LLVM 23."@.is_prefix_of(
            question(state)->0,
        ),
{
    changes_are_these_commands(manifest);
    let agreed = successor(state, Event::Answer(Some(true)));
    let end = "Run `"@ + command_line(change(agreed)->0, manifest) + "`?"@;
    let text = question(state)->0;
    reveal_strlit("Run `");
    reveal_strlit("`?");
    reveal_strlit("rustup toolchain install nightly");
    reveal_strlit("rustup update nightly");
    reveal_strlit("cargo binstall sbpf-linker --no-confirm --force");
    reveal_strlit(
        "cargo add solana-compiler-builtins --git https://github.com/blueshift-gg/solana-compiler-builtins",
    );
    reveal_strlit("cargo add ");
    reveal_strlit("solana-compiler-builtins");
    reveal_strlit(" --git ");
    reveal_strlit("https://github.com/blueshift-gg/solana-compiler-builtins");
    reveal_strlit("Run `rustup toolchain install nightly`?");
    reveal_strlit("Nightly does not use LLVM 23.");
    reveal_strlit("Nightly does not use LLVM 23. Run `rustup update nightly`?");
    reveal_strlit("Run `cargo binstall sbpf-linker --no-confirm --force`?");
    let n = text.len() - end.len();
    assert(end =~= text.subrange(n, text.len() as int));
    if state is ConfirmUpdate {
        assert("Nightly does not use LLVM 23."@ =~= text.subrange(0, 29));
    } else {
        assert(text[0] == 'R');
        assert("Nightly does not use LLVM 23."@[0] == 'N');
    }
}

fn has_llvm_23(toolchain: Toolchain) -> (r: bool)
    ensures
        r == uses_llvm_23(toolchain),
{
    match toolchain {
        Toolchain::Present { llvm_major: Some(major) } => major == 23,
        _ => false,
    }
}

fn after_answer(answer: Option<bool>, agreed: Setup<String>, declined: Setup<String>) -> (r: Setup<
    String,
>)
    ensures
        setup_view(r) == answered(answer, setup_view(agreed), setup_view(declined)),
{
    match answer {
        Some(true) => agreed,
        Some(false) => declined,
        None => Setup::Failed("failed to request permission".to_owned()),
    }
}

fn after_command(
    outcome: Outcome<String>,
    succeeded: Setup<String>,
    unstartable: &str,
    failed: &str,
) -> (r: Setup<String>)
    ensures
        setup_view(r) == ended(
            outcome_view(outcome),
            setup_view(succeeded),
            unstartable@,
            failed@,
        ),
{
    match outcome {
        Outcome::Succeeded => succeeded,
        Outcome::Unstartable => Setup::Failed(unstartable.to_owned()),
        Outcome::Failed(status) => Setup::Failed(
            failed.to_owned().concat(" failed with status ").concat(status.as_str()),
        ),
    }
}

fn add_builtins_line() -> (r: String)
    ensures
        r@ == add_builtins_text(),
{
    "cargo add ".to_owned().concat(BUILTINS_CRATE).concat(" --git ").concat(BUILTINS_GIT)
}

fn without_builtins_warning() -> (r: String)
    ensures
        r@ == without_builtins(),
{
    "warning: continuing without ".to_owned().concat(BUILTINS_CRATE).concat(
        ", whose compiler builtins are optimized for the SVM",
    )
}

impl Setup<String> {
    /// Where a preparation starts.
    pub fn start() -> (r: Self)
        ensures
            setup_view(r) == state_after(Seq::empty()),
    {
        Setup::ProbeNightly
    }

    /// The warnings that go with an event.
    pub fn warnings(&self, event: &Event<String>) -> (r: Vec<String>)
        ensures
            views(r@) == warnings(setup_view(*self), event_view(*event)),
    {
        let r: Vec<String> = match (self, event) {
            (Setup::UpdateNightly, Event::Ended(Outcome::Failed(status))) => vec![
                "warning: rustup update nightly failed with status ".to_owned().concat(
                    status.as_str(),
                ),
            ],
            (Setup::RecheckNightly, Event::Nightly(toolchain)) => if has_llvm_23(*toolchain) {
                Vec::new()
            } else {
                vec![
                    "warning: an older LLVM version may generate less optimal SBPF code".to_owned(),
                ]
            },
            (Setup::ConfirmBuiltins, Event::Answer(Some(false))) => vec![
                without_builtins_warning(),
            ],
            (Setup::AddBuiltins, Event::Ended(Outcome::Failed(status))) => vec![
                "warning: ".to_owned().concat(add_builtins_line().as_str()).concat(
                    " failed with status ",
                ).concat(status.as_str()).concat("; continuing without it"),
                without_builtins_warning(),
            ],
            _ => Vec::new(),
        };
        assert(views(r@) =~= warnings(setup_view(*self), event_view(*event)));
        r
    }

    /// The state that follows on an event.
    pub fn next(self, event: Event<String>) -> (r: Self)
        requires
            awaited(self, event),
        ensures
            setup_view(r) == successor(setup_view(self), event_view(event)),
    {
        match (self, event) {
            (Setup::ProbeNightly, Event::Nightly(toolchain)) => match toolchain {
                Toolchain::Missing => Setup::ConfirmNightly,
                _ => if has_llvm_23(toolchain) {
                    Setup::ProbeLinker
                } else {
                    Setup::ConfirmUpdate
                },
            },
            (Setup::ConfirmNightly, Event::Answer(answer)) => after_answer(
                answer,
                Setup::InstallNightly,
                Setup::Failed("the nightly toolchain is required for SBPF builds".to_owned()),
            ),
            (Setup::InstallNightly, Event::Ended(outcome)) => after_command(
                outcome,
                Setup::ReprobeNightly,
                "failed to run rustup toolchain install nightly",
                "rustup toolchain install nightly",
            ),
            (Setup::ReprobeNightly, Event::Nightly(toolchain)) => if has_llvm_23(toolchain) {
                Setup::ProbeLinker
            } else {
                Setup::ConfirmUpdate
            },
            (Setup::ConfirmUpdate, Event::Answer(answer)) => after_answer(
                answer,
                Setup::UpdateNightly,
                Setup::RecheckNightly,
            ),
            (Setup::UpdateNightly, Event::Ended(outcome)) => match outcome {
                Outcome::Unstartable => Setup::Failed(
                    "failed to run rustup update nightly".to_owned(),
                ),
                _ => Setup::RecheckNightly,
            },
            (Setup::RecheckNightly, Event::Nightly(_)) => Setup::ProbeLinker,
            (Setup::ProbeLinker, Event::Linker(found)) => if found {
                Setup::ListTree
            } else {
                Setup::LocateBinstall
            },
            (Setup::LocateBinstall, Event::Binstall(found)) => if found {
                Setup::ConfirmLinker
            } else {
                Setup::ConfirmBinstall
            },
            (Setup::ConfirmBinstall, Event::Answer(answer)) => after_answer(
                answer,
                Setup::UpdateStable,
                Setup::Failed("sbpf-linker 0.2.1 or newer is required for SBPF builds".to_owned()),
            ),
            (Setup::UpdateStable, Event::Ended(outcome)) => after_command(
                outcome,
                Setup::InstallBinstall,
                "failed to run rustup update stable",
                "rustup update stable",
            ),
            (Setup::InstallBinstall, Event::Ended(outcome)) => after_command(
                outcome,
                Setup::RelocateBinstall,
                "failed to install cargo-binstall",
                "cargo-binstall installation",
            ),
            (Setup::RelocateBinstall, Event::Binstall(found)) => if found {
                Setup::ConfirmLinker
            } else {
                Setup::Failed("cargo-binstall was installed but could not be located".to_owned())
            },
            (Setup::ConfirmLinker, Event::Answer(answer)) => after_answer(
                answer,
                Setup::InstallLinker,
                Setup::Failed("sbpf-linker 0.2.1 or newer is required for SBPF builds".to_owned()),
            ),
            (Setup::InstallLinker, Event::Ended(outcome)) => after_command(
                outcome,
                Setup::RecheckLinker,
                "failed to run cargo binstall sbpf-linker",
                "cargo binstall sbpf-linker",
            ),
            (Setup::RecheckLinker, Event::Linker(found)) => if found {
                Setup::ListTree
            } else {
                Setup::Failed(
                    "sbpf-linker was installed but version 0.2.1 or newer could not be located".to_owned(),
                )
            },
            (Setup::ListTree, Event::Tree(tree)) => match tree {
                Tree::Unstartable => Setup::Failed(
                    "failed to check for solana-compiler-builtins".to_owned(),
                ),
                Tree::Failed => Setup::Failed(
                    "cargo tree failed while checking for solana-compiler-builtins".to_owned(),
                ),
                Tree::Listed { builtins } => if builtins {
                    Setup::Ready
                } else {
                    Setup::ConfirmBuiltins
                },
            },
            (Setup::ConfirmBuiltins, Event::Answer(answer)) => after_answer(
                answer,
                Setup::AddBuiltins,
                Setup::Ready,
            ),
            (Setup::AddBuiltins, Event::Ended(outcome)) => match outcome {
                Outcome::Unstartable => Setup::Failed(
                    "failed to add solana-compiler-builtins".to_owned(),
                ),
                _ => Setup::Ready,
            },
            (state, _) => state,
        }
    }

    /// The question that the state puts to the user.
    pub fn question(&self) -> (r: Option<String>)
        ensures
            match r {
                Some(text) => question(setup_view(*self)) == Some(text@),
                None => question(setup_view(*self)) is None,
            },
    {
        match self {
            Setup::ConfirmNightly => Some("Run `rustup toolchain install nightly`?".to_owned()),
            Setup::ConfirmUpdate => Some(
                "Nightly does not use LLVM 23. Run `rustup update nightly`?".to_owned(),
            ),
            Setup::ConfirmBinstall => Some("Install cargo-binstall with stable Rust?".to_owned()),
            Setup::ConfirmLinker => Some(
                "Run `cargo binstall sbpf-linker --no-confirm --force`?".to_owned(),
            ),
            Setup::ConfirmBuiltins => Some(
                "Run `".to_owned().concat(add_builtins_line().as_str()).concat("`?"),
            ),
            _ => None,
        }
    }

    /// The command that the state runs to change something.
    pub fn change(&self) -> (r: Option<Invocation>)
        ensures
            match r {
                Some(invocation) => change(setup_view(*self)) == Some(invocation@),
                None => change(setup_view(*self)) is None,
            },
    {
        match self {
            Setup::InstallNightly => {
                let texts: Vec<&'static str> = vec!["toolchain", "install", "nightly"];
                assert(str_views(texts@) =~= seq!["toolchain"@, "install"@, "nightly"@]);
                Some(command(Program::Rustup, &texts))
            },
            Setup::UpdateNightly => {
                let texts: Vec<&'static str> = vec!["update", "nightly"];
                assert(str_views(texts@) =~= seq!["update"@, "nightly"@]);
                Some(command(Program::Rustup, &texts))
            },
            Setup::UpdateStable => {
                let texts: Vec<&'static str> = vec!["update", "stable"];
                assert(str_views(texts@) =~= seq!["update"@, "stable"@]);
                Some(command(Program::Rustup, &texts))
            },
            Setup::InstallBinstall => {
                let texts: Vec<&'static str> = vec![
                    "run",
                    "stable",
                    "cargo",
                    "install",
                    "cargo-binstall",
                    "--locked",
                ];
                assert(str_views(texts@) =~= seq![
                    "run"@,
                    "stable"@,
                    "cargo"@,
                    "install"@,
                    "cargo-binstall"@,
                    "--locked"@,
                ]);
                Some(command(Program::Rustup, &texts))
            },
            Setup::InstallLinker => {
                let texts: Vec<&'static str> = vec!["sbpf-linker", "--no-confirm", "--force"];
                assert(str_views(texts@) =~= seq!["sbpf-linker"@, "--no-confirm"@, "--force"@]);
                Some(command(Program::CargoBinstall, &texts))
            },
            Setup::AddBuiltins => {
                let texts: Vec<&'static str> = vec!["add", BUILTINS_CRATE, "--git", BUILTINS_GIT];
                assert(str_views(texts@) =~= seq![
                    "add"@,
                    BUILTINS_CRATE@,
                    "--git"@,
                    BUILTINS_GIT@,
                ]);
                Some(command(Program::Cargo, &texts))
            },
            _ => None,
        }
    }
}

/// The command that starts the compiler of the nightly toolchain.
pub fn nightly_compiler_command() -> (r: Invocation)
    ensures
        r@ == text_command(Program::Rustup, seq!["run"@, "nightly"@, "rustc"@]),
        command_line(r@, Seq::empty()) == "rustup run nightly rustc"@,
{
    proof {
        lemma_line(Program::Rustup, seq!["run"@, "nightly"@, "rustc"@], Seq::empty());
        lemma_three("run"@, "nightly"@, "rustc"@);
        reveal_strlit("rustup");
        reveal_strlit("run");
        reveal_strlit("nightly");
        reveal_strlit("rustc");
        reveal_strlit("rustup run nightly rustc");
    }
    let texts: Vec<&'static str> = vec!["run", "nightly", "rustc"];
    assert(str_views(texts@) =~= seq!["run"@, "nightly"@, "rustc"@]);
    command(Program::Rustup, &texts)
}

/// The arguments with which Cargo lists the dependency tree of a build.
pub open spec fn tree_arguments() -> Seq<Seq<char>> {
    seq!["tree"@, "--target"@, TARGET@, "-e"@, "normal,build"@, "--prefix"@, "none"@]
}

/// The command that lists the dependency tree, as the user would type it.
pub proof fn tree_is_listed_by_this_command(manifest: Seq<char>)
    ensures
        command_line(text_command(Program::Cargo, tree_arguments()), manifest)
            == "cargo tree --target bpfel-unknown-none -e normal,build --prefix none"@,
{
    lemma_line(Program::Cargo, tree_arguments(), manifest);
    lemma_seven("tree"@, "--target"@, TARGET@, "-e"@, "normal,build"@, "--prefix"@, "none"@);
    reveal_strlit("cargo");
    reveal_strlit("tree");
    reveal_strlit("--target");
    reveal_strlit("bpfel-unknown-none");
    reveal_strlit("-e");
    reveal_strlit("normal,build");
    reveal_strlit("--prefix");
    reveal_strlit("none");
    reveal_strlit("cargo tree --target bpfel-unknown-none -e normal,build --prefix none");
    assert(command_line(text_command(Program::Cargo, tree_arguments()), manifest)
        =~= "cargo tree --target bpfel-unknown-none -e normal,build --prefix none"@);
}

/// The command that lists the dependency tree.
pub fn tree_command() -> (r: Invocation)
    ensures
        r@ == text_command(Program::Cargo, tree_arguments()),
{
    let texts: Vec<&'static str> = vec![
        "tree",
        "--target",
        TARGET,
        "-e",
        "normal,build",
        "--prefix",
        "none",
    ];
    assert(str_views(texts@) =~= tree_arguments());
    command(Program::Cargo, &texts)
}

/// States and events are known by everything that they are, and by the characters of their texts.
pub proof fn states_and_events_are_known(state: Setup<String>, event: Event<String>)
    ensures
        state is ProbeNightly <==> setup_view(state) is ProbeNightly,
        state is ConfirmNightly <==> setup_view(state) is ConfirmNightly,
        state is InstallNightly <==> setup_view(state) is InstallNightly,
        state is ReprobeNightly <==> setup_view(state) is ReprobeNightly,
        state is ConfirmUpdate <==> setup_view(state) is ConfirmUpdate,
        state is UpdateNightly <==> setup_view(state) is UpdateNightly,
        state is RecheckNightly <==> setup_view(state) is RecheckNightly,
        state is ProbeLinker <==> setup_view(state) is ProbeLinker,
        state is LocateBinstall <==> setup_view(state) is LocateBinstall,
        state is ConfirmBinstall <==> setup_view(state) is ConfirmBinstall,
        state is UpdateStable <==> setup_view(state) is UpdateStable,
        state is InstallBinstall <==> setup_view(state) is InstallBinstall,
        state is RelocateBinstall <==> setup_view(state) is RelocateBinstall,
        state is ConfirmLinker <==> setup_view(state) is ConfirmLinker,
        state is InstallLinker <==> setup_view(state) is InstallLinker,
        state is RecheckLinker <==> setup_view(state) is RecheckLinker,
        state is ListTree <==> setup_view(state) is ListTree,
        state is ConfirmBuiltins <==> setup_view(state) is ConfirmBuiltins,
        state is AddBuiltins <==> setup_view(state) is AddBuiltins,
        state is Ready <==> setup_view(state) is Ready,
        state matches Setup::Failed(reason) ==> setup_view(state) == Setup::Failed(reason@),
        awaited(state, event) <==> awaited(setup_view(state), event_view(event)),
        match event {
            Event::Nightly(toolchain) => event_view(event) == Event::<Seq<char>>::Nightly(
                toolchain,
            ),
            Event::Answer(answer) => event_view(event) == Event::<Seq<char>>::Answer(answer),
            Event::Linker(found) => event_view(event) == Event::<Seq<char>>::Linker(found),
            Event::Binstall(found) => event_view(event) == Event::<Seq<char>>::Binstall(found),
            Event::Tree(tree) => event_view(event) == Event::<Seq<char>>::Tree(tree),
            Event::Ended(Outcome::Succeeded) => event_view(event) == Event::<Seq<char>>::Ended(
                Outcome::Succeeded,
            ),
            Event::Ended(Outcome::Unstartable) => event_view(event) == Event::<Seq<char>>::Ended(
                Outcome::Unstartable,
            ),
            Event::Ended(Outcome::Failed(status)) => event_view(event) == Event::Ended(
                Outcome::Failed(status@),
            ),
        },
{
}

} // verus!
