//! Commands to run, as plain data.

use vstd::prelude::*;

use crate::text::joined;

verus! {

/// A program that the tool runs.
#[derive(Clone, Copy, Debug, PartialEq, Eq, Structural)]
pub enum Program {
    Rustup,
    Cargo,
    /// `cargo-binstall`, wherever it was found.
    CargoBinstall,
}

/// An argument of a command. `S` is the type of texts.
#[derive(Debug)]
pub enum Argument<S> {
    Text(S),
    /// The path of the project's manifest.
    Manifest,
    /// An argument that the user gave, by its place among them.
    Forwarded(usize),
}

/// A command to run.
#[derive(Debug)]
pub struct Invocation {
    pub program: Program,
    pub arguments: Vec<Argument<String>>,
}

/// How a command ended. `S` is the type of texts.
#[derive(Debug)]
pub enum Outcome<S> {
    /// It did not start.
    Unstartable,
    /// It failed, with a status.
    Failed(S),
    Succeeded,
}

/// A command by the characters of its arguments.
pub ghost struct InvocationView {
    pub program: Program,
    pub arguments: Seq<Argument<Seq<char>>>,
}

/// An outcome by the characters of its status.
pub open spec fn outcome_view(outcome: Outcome<String>) -> Outcome<Seq<char>> {
    match outcome {
        Outcome::Unstartable => Outcome::Unstartable,
        Outcome::Failed(status) => Outcome::Failed(status@),
        Outcome::Succeeded => Outcome::Succeeded,
    }
}

/// An argument by its characters.
pub open spec fn argument_view(argument: Argument<String>) -> Argument<Seq<char>> {
    match argument {
        Argument::Text(text) => Argument::Text(text@),
        Argument::Manifest => Argument::Manifest,
        Argument::Forwarded(i) => Argument::Forwarded(i),
    }
}

/// Arguments by their characters.
pub open spec fn argument_views(arguments: Seq<Argument<String>>) -> Seq<Argument<Seq<char>>> {
    arguments.map_values(|argument: Argument<String>| argument_view(argument))
}

impl View for Invocation {
    type V = InvocationView;

    open spec fn view(&self) -> InvocationView {
        InvocationView {
            program: self.program,
            arguments: argument_views(self.arguments@),
        }
    }
}

/// Texts as arguments.
pub open spec fn text_arguments(texts: Seq<Seq<char>>) -> Seq<Argument<Seq<char>>> {
    texts.map_values(|text: Seq<char>| Argument::Text(text))
}

/// The command that runs `program` with texts as its arguments.
pub open spec fn text_command(program: Program, texts: Seq<Seq<char>>) -> InvocationView {
    InvocationView { program, arguments: text_arguments(texts) }
}

/// What the user would type to start a program.
pub open spec fn program_text(program: Program) -> Seq<char> {
    match program {
        Program::Rustup => "rustup"@,
        Program::Cargo => "cargo"@,
        Program::CargoBinstall => "cargo binstall"@,
    }
}

/// An argument as the user would type it. `manifest` is the path of the project's manifest.
pub open spec fn argument_text(argument: Argument<Seq<char>>, manifest: Seq<char>) -> Seq<char> {
    match argument {
        Argument::Text(text) => text,
        _ => manifest,
    }
}

/// A command as the user would type it. `manifest` is the path of the project's manifest.
pub open spec fn command_line(command: InvocationView, manifest: Seq<char>) -> Seq<char> {
    joined(
        seq![program_text(command.program)] + command.arguments.map_values(
            |argument: Argument<Seq<char>>| argument_text(argument, manifest),
        ),
        " "@,
    )
}

/// The characters of each text.
pub open spec fn str_views(texts: Seq<&'static str>) -> Seq<Seq<char>> {
    texts.map_values(|text: &'static str| text@)
}

/// Texts, each with a space in front of it.
pub open spec fn spaced(texts: Seq<Seq<char>>) -> Seq<char>
    decreases texts.len(),
{
    if texts.len() == 0 {
        Seq::empty()
    } else {
        spaced(texts.drop_last()) + " "@ + texts.last()
    }
}

/// A further text stands behind the others and a space.
proof fn lemma_spaced()
    ensures
        spaced(Seq::empty()) == Seq::<char>::empty(),
        forall|front: Seq<Seq<char>>, text: Seq<char>| #[trigger]
            spaced(front.push(text)) == spaced(front) + seq![' '] + text,
{
    reveal_strlit(" ");
    assert(" "@ =~= seq![' ']);
    assert forall|front: Seq<Seq<char>>, text: Seq<char>| #[trigger]
        spaced(front.push(text)) == spaced(front) + seq![' '] + text by {
        assert(front.push(text).drop_last() =~= front);
    }
}

/// Two texts, each with a space in front of it.
pub proof fn lemma_two(a: Seq<char>, b: Seq<char>)
    ensures
        spaced(seq![a, b]) == seq![' '] + a + seq![' '] + b,
{
    lemma_spaced();
    assert(seq![a, b] =~= Seq::<Seq<char>>::empty().push(a).push(b));
}

/// Three texts, each with a space in front of it.
pub proof fn lemma_three(a: Seq<char>, b: Seq<char>, c: Seq<char>)
    ensures
        spaced(seq![a, b, c]) == seq![' '] + a + seq![' '] + b + seq![' '] + c,
{
    lemma_spaced();
    assert(seq![a, b, c] =~= Seq::<Seq<char>>::empty().push(a).push(b).push(c));
}

/// Four texts, each with a space in front of it.
pub proof fn lemma_four(a: Seq<char>, b: Seq<char>, c: Seq<char>, d: Seq<char>)
    ensures
        spaced(seq![a, b, c, d]) == seq![' '] + a + seq![' '] + b + seq![' '] + c + seq![' '] + d,
{
    lemma_spaced();
    assert(seq![a, b, c, d] =~= Seq::<Seq<char>>::empty().push(a).push(b).push(c).push(d));
}

/// Six texts, each with a space in front of it.
pub proof fn lemma_six(a: Seq<char>, b: Seq<char>, c: Seq<char>, d: Seq<char>, e: Seq<char>, f: Seq<char>)
    ensures
        spaced(seq![a, b, c, d, e, f]) == seq![' '] + a + seq![' '] + b + seq![' '] + c + seq![' '] + d + seq![' '] + e + seq![' '] + f,
{
    lemma_spaced();
    assert(seq![a, b, c, d, e, f] =~= Seq::<Seq<char>>::empty().push(a).push(b).push(c).push(d).push(e).push(f));
}

/// Seven texts, each with a space in front of it.
pub proof fn lemma_seven(a: Seq<char>, b: Seq<char>, c: Seq<char>, d: Seq<char>, e: Seq<char>, f: Seq<char>, g: Seq<char>)
    ensures
        spaced(seq![a, b, c, d, e, f, g]) == seq![' '] + a + seq![' '] + b + seq![' '] + c + seq![' '] + d + seq![' '] + e + seq![' '] + f + seq![' '] + g,
{
    lemma_spaced();
    assert(seq![a, b, c, d, e, f, g] =~= Seq::<Seq<char>>::empty().push(a).push(b).push(c).push(d).push(e).push(f).push(g));
}

/// What the user would type is the program, and each argument behind a space.
pub proof fn lemma_line(program: Program, texts: Seq<Seq<char>>, manifest: Seq<char>)
    ensures
        command_line(text_command(program, texts), manifest) == program_text(program) + spaced(
            texts,
        ),
    decreases texts.len(),
{
    let all = seq![program_text(program)] + text_command(program, texts).arguments.map_values(
        |argument: Argument<Seq<char>>| argument_text(argument, manifest),
    );
    assert(all =~= seq![program_text(program)] + texts);
    if texts.len() > 0 {
        let front = texts.drop_last();
        lemma_line(program, front, manifest);
        let before = seq![program_text(program)] + text_command(
            program,
            front,
        ).arguments.map_values(
            |argument: Argument<Seq<char>>| argument_text(argument, manifest),
        );
        assert(all.drop_last() =~= before);
        assert(joined(all, " "@) =~= program_text(program) + spaced(texts));
    } else {
        assert(joined(all, " "@) =~= program_text(program) + spaced(texts));
    }
}

/// Adds texts to a list of arguments.
pub fn push_texts(arguments: &mut Vec<Argument<String>>, texts: &Vec<&'static str>)
    ensures
        argument_views(final(arguments)@) == argument_views(old(arguments)@) + text_arguments(
            str_views(texts@),
        ),
{
    let ghost start = argument_views(arguments@);
    let ghost added = text_arguments(str_views(texts@));
    let mut i: usize = 0;
    assert(start + added.take(0) =~= start);
    while i < texts.len()
        invariant
            i <= texts.len(),
            added == text_arguments(str_views(texts@)),
            argument_views(arguments@) == start + added.take(i as int),
        decreases texts.len() - i,
    {
        let ghost sofar = argument_views(arguments@);
        arguments.push(Argument::Text(texts[i].to_owned()));
        assert(argument_views(arguments@) =~= sofar.push(added[i as int]));
        assert(argument_views(arguments@) =~= start + added.take(i + 1));
        i = i + 1;
    }
    assert(added.take(i as int) =~= added);
}

/// Makes the command that runs `program` with texts as its arguments.
pub fn command(program: Program, texts: &Vec<&'static str>) -> (r: Invocation)
    ensures
        r@ == text_command(program, str_views(texts@)),
{
    let mut arguments: Vec<Argument<String>> = Vec::new();
    push_texts(&mut arguments, texts);
    assert(argument_views(Seq::<Argument<String>>::empty()) =~= Seq::empty());
    assert(argument_views(arguments@) =~= text_arguments(str_views(texts@)));
    Invocation { program, arguments }
}

/// A command is known by its program and by each of its arguments, in their order.
pub proof fn commands_are_known(command: Invocation)
    ensures
        command@.program == command.program,
        command@.arguments.len() == command.arguments@.len(),
        forall|i: int|
            0 <= i < command.arguments@.len() ==> match command.arguments@[i] {
                Argument::Text(text) => #[trigger] command@.arguments[i] == Argument::Text(text@),
                Argument::Manifest => command@.arguments[i] == Argument::<Seq<char>>::Manifest,
                Argument::Forwarded(k) => command@.arguments[i]
                    == Argument::<Seq<char>>::Forwarded(k),
            },
{
}

} // verus!
