//! TOML documents, read and edited in place with `toml_edit`.
//!
//! A document and its parts are known here by the data they hold. `toml_edit` also keeps how a
//! document is laid out (white space, comments, the order of tables), and lets a caller set a
//! layout that no longer reads as TOML. The data of a part is therefore known only while its
//! layout is plain: white space and comments where TOML allows them, no placeholder items, no
//! empty table without a header, and a root that is a table in its own right. The parser
//! produces such layouts, and the edits below keep them: none of them hands out the root itself,
//! in whose place a table for dotted keys would not be printed.
//!
//! The parser refuses keys and headers of too many parts, and edits can make them longer. So the
//! number of their parts is known here too: it stays small enough in a document that was parsed,
//! unless an edit puts long keys in.

use vstd::prelude::*;

use crate::text::{
    is_word, joined, joined_pieces, lemma_pieces, lemma_trimmed_word, pieces, pieces_add_up,
    pieces_end_at_separators, trimmed, views,
};

verus! {

/// The data at one place of a document.
pub ghost enum Node {
    /// A string.
    Text(Seq<char>),
    /// A number, a boolean or a date, by the text that writes it.
    Scalar(Seq<char>),
    /// An array.
    List(Seq<Node>),
    /// A table that is written as a value, in braces.
    Inline(Map<Seq<char>, Node>),
    /// A table that is written under a header or through dotted keys.
    Table(Map<Seq<char>, Node>),
    /// An array of tables, each under a header.
    Tables(Seq<Map<Seq<char>, Node>>),
}

/// The entries of a table, by key.
pub type Entries = Map<Seq<char>, Node>;

/// The entries of a table, however it is written.
pub open spec fn table_like(node: Node) -> Option<Entries> {
    match node {
        Node::Table(entries) => Some(entries),
        Node::Inline(entries) => Some(entries),
        _ => None,
    }
}

/// The entry `key` of a table, however the table is written.
pub open spec fn member(node: Option<Node>, key: Seq<char>) -> Option<Node> {
    match node {
        Some(node) => match table_like(node) {
            Some(entries) => entries.get(key),
            None => None,
        },
        None => None,
    }
}

/// A list of strings.
pub open spec fn text_list(texts: Seq<Seq<char>>) -> Node {
    Node::List(texts.map_values(|text: Seq<char>| Node::Text(text)))
}

/// The words of a text that single spaces separate, each without white space around it. A
/// word that has nothing else in it is left out.
pub open spec fn spaced_words(text: Seq<char>) -> Seq<Seq<char>> {
    pieces(text, ' ').map_values(|piece: Seq<char>| trimmed(piece)).filter(
        |word: Seq<char>| word.len() > 0,
    )
}

proof fn lemma_filter_all(list: Seq<Seq<char>>)
    requires
        forall|i: int| 0 <= i < list.len() ==> (#[trigger] list[i]).len() > 0,
    ensures
        list.filter(|word: Seq<char>| word.len() > 0) == list,
    decreases list.len(),
{
    reveal(Seq::filter);
    if list.len() > 0 {
        lemma_filter_all(list.drop_last());
        assert(list[list.len() - 1].len() > 0);
        assert(list.drop_last().push(list.last()) =~= list);
    }
}

/// The words of a text can stand between spaces.
pub proof fn lemma_spaced_words(text: Seq<char>)
    ensures
        forall|i: int| 0 <= i < spaced_words(text).len() ==> is_word(#[trigger] spaced_words(text)[i]),
{
    let parts = pieces(text, ' ');
    let words = parts.map_values(|piece: Seq<char>| trimmed(piece));
    let pred = |word: Seq<char>| word.len() > 0;
    lemma_pieces(text, ' ');
    assert forall|i: int| 0 <= i < spaced_words(text).len() implies is_word(
        #[trigger] spaced_words(text)[i],
    ) by {
        let word = words.filter(pred)[i];
        assert(pred(word));
        words.lemma_filter_contains_rev(pred, word);
        let k = choose|k: int| 0 <= k < words.len() && words[k] == word;
        assert(word == trimmed(parts[k]));
        lemma_trimmed_word(parts[k]);
    }
}

/// Words that are joined by spaces are the words of the text.
pub proof fn joined_words_read_back(words: Seq<Seq<char>>)
    requires
        forall|i: int| 0 <= i < words.len() ==> is_word(#[trigger] words[i]),
    ensures
        spaced_words(joined(words, " "@)) == words,
{
    reveal_strlit(" ");
    assert(" "@ =~= seq![' ']);
    if words.len() == 0 {
        let parts = pieces(joined(words, " "@), ' ');
        assert(parts =~= seq![Seq::<char>::empty()]);
        let trimmed_parts = parts.map_values(|piece: Seq<char>| trimmed(piece));
        assert(trimmed_parts =~= parts);
        reveal_with_fuel(Seq::filter, 2);
        assert(spaced_words(joined(words, " "@)) =~= words);
    } else {
        joined_pieces(words, ' ');
        let trimmed_parts = words.map_values(|piece: Seq<char>| trimmed(piece));
        assert(trimmed_parts =~= words);
        lemma_filter_all(words);
    }
}

/// The words of a text that a space parts in two are those of the one part and then those of the
/// other.
pub proof fn words_add_up(front: Seq<char>, back: Seq<char>)
    ensures
        spaced_words(front + seq![' '] + back) == spaced_words(front) + spaced_words(back),
{
    let pred = |word: Seq<char>| word.len() > 0;
    let trim = |piece: Seq<char>| trimmed(piece);
    pieces_add_up(front, ' ', back);
    let a = pieces(front, ' ').map_values(trim);
    let b = pieces(back, ' ').map_values(trim);
    assert((pieces(front, ' ') + pieces(back, ' ')).map_values(trim) =~= a + b);
    Seq::filter_distributes_over_add(a, b, pred);
}

/// A text without spaces is one word, without the white space around it, and no word where there
/// is nothing else in it.
pub proof fn text_without_spaces_is_a_word(text: Seq<char>)
    requires
        !text.contains(' '),
    ensures
        spaced_words(text) == if trimmed(text).len() > 0 {
            seq![trimmed(text)]
        } else {
            Seq::empty()
        },
{
    pieces_end_at_separators(text, ' ', Seq::empty());
    let words = pieces(text, ' ').map_values(|piece: Seq<char>| trimmed(piece));
    assert(words =~= seq![trimmed(text)]);
    reveal_with_fuel(Seq::filter, 2);
    assert(words.drop_last() =~= Seq::empty());
    assert(spaced_words(text) =~= if trimmed(text).len() > 0 {
        seq![trimmed(text)]
    } else {
        Seq::empty()
    });
}

/// The compiler flags that a node declares: the strings of a list, or the words of a string.
pub open spec fn flags_of(node: Node) -> Option<Seq<Seq<char>>> {
    match node {
        Node::Text(text) => Some(spaced_words(text)),
        Node::List(nodes) => Some(nodes.map_values(|node: Node| node->Text_0)),
        _ => None,
    }
}

/// The node at `target.<triple>.rustflags`.
pub open spec fn rustflags_node(data: Entries, triple: Seq<char>) -> Option<Node> {
    member(member(data.get("target"@), triple), "rustflags"@)
}

/// The compiler flags that the document declares for `triple`, if it declares any.
pub open spec fn declared_rustflags(data: Entries, triple: Seq<char>) -> Option<Seq<Seq<char>>> {
    match rustflags_node(data, triple) {
        Some(node) => flags_of(node),
        None => None,
    }
}

/// Whether an entry that declares compiler flags, if it is there, is a string or a list of strings.
pub open spec fn flags_well_typed(entry: Option<Node>) -> bool {
    match entry {
        None => true,
        Some(Node::Text(_)) => true,
        Some(Node::List(nodes)) => forall|i: int|
            0 <= i < nodes.len() ==> #[trigger] nodes[i] is Text,
        Some(_) => false,
    }
}

/// Whether every character of `s` is a space, a tab or a line feed.
pub open spec fn blank(s: Seq<char>) -> bool {
    forall|i: int| 0 <= i < s.len() ==> #[trigger] s[i] == ' ' || s[i] == '\t' || s[i] == '\n'
}

/// The largest numbers of parts of the keys and headers in a part of a document.
pub ghost struct KeyParts {
    /// Of the headers, from the part on: how many keys lead from it to a table that is not made by
    /// dotted keys, or to an array of tables.
    pub headers: nat,
    /// Of the dotted keys that lead into the part, from it on. There are such keys only where the
    /// part is a table that is made by them.
    pub dotted: nat,
    /// Of the keys of values that begin in the part, in a table that is not made by dotted keys.
    pub inner: nat,
}

/// The numbers of parts where there are no keys.
pub open spec fn no_keys() -> KeyParts {
    KeyParts { headers: 0, dotted: 0, inner: 0 }
}

/// Whether no key of `after` has more parts than those of `before`, or than `n`.
pub open spec fn grown(before: KeyParts, after: KeyParts, n: nat) -> bool {
    &&& after.headers <= before.headers || after.headers <= n
    &&& after.dotted <= before.dotted || after.dotted <= n
    &&& after.inner <= before.inner || after.inner <= n
}

/// How many parts a key or header can have for the parser.
pub open spec fn part_limit() -> nat {
    80
}

/// Whether the parser takes keys and headers with these numbers of parts.
pub open spec fn readable(keys: KeyParts) -> bool {
    keys.headers <= part_limit() && keys.inner <= part_limit()
}

/// The same kind of table with other entries.
pub open spec fn rewrapped(node: Node, entries: Entries) -> Node {
    match node {
        Node::Table(_) => Node::Table(entries),
        _ => Node::Inline(entries),
    }
}

/// The data of a document without compiler flags for `triple`, but with a table for it.
pub open spec fn without_flags(data: Entries, triple: Seq<char>) -> Entries {
    let target = match data.get("target"@) {
        Some(node) => node,
        None => Node::Table(Entries::empty()),
    };
    match table_like(target) {
        Some(targets) => {
            let entry = match targets.get(triple) {
                Some(node) => match table_like(node) {
                    Some(entries) => rewrapped(node, entries.remove("rustflags"@)),
                    None => node,
                },
                None => Node::Table(Entries::empty()),
            };
            data.insert("target"@, rewrapped(target, targets.insert(triple, entry)))
        },
        None => data,
    }
}

/// Whether a document with this data is a valid Cargo configuration: the compiler flags for
/// `triple` are a string or a list of strings, and the rest is valid without them.
pub open spec fn accepted(data: Entries, triple: Seq<char>) -> bool {
    flags_well_typed(rustflags_node(data, triple)) && valid_config(without_flags(data, triple))
}

/// How an element of an array is written: its text, and the white space and comments around it.
pub ghost struct ElementWriting {
    pub prefix: Seq<char>,
    pub text: Seq<char>,
    pub suffix: Seq<char>,
}

/// How an array is written: its elements, what stands behind the last one, and whether a comma
/// follows that one.
pub ghost struct ArrayWriting {
    pub elements: Seq<ElementWriting>,
    pub trailing: Seq<char>,
    pub trailing_comma: bool,
}

/// How an array without elements is written that has not been laid out.
pub open spec fn empty_writing() -> ArrayWriting {
    ArrayWriting { elements: Seq::empty(), trailing: Seq::empty(), trailing_comma: false }
}

/// How `toml_edit` writes a string by itself, as the element at `index` of an array: with a space
/// in front of it, unless it is the first.
pub open spec fn default_element(index: int, text: Seq<char>) -> ElementWriting {
    ElementWriting {
        prefix: if index == 0 {
            Seq::empty()
        } else {
            seq![' ']
        },
        text: quote(text),
        suffix: Seq::empty(),
    }
}

/// How a value is written: an array by its elements, any other value by its text.
pub ghost enum ValueWriting {
    Array(ArrayWriting),
    Text(Seq<char>),
}

/// How the values in a part of a document are written, each by the keys that lead to it from there
/// through tables.
pub type Writing = Map<Seq<Seq<char>>, ValueWriting>;

/// The writing of a part that is a value.
pub open spec fn only(value: ValueWriting) -> Writing {
    Map::empty().insert(Seq::empty(), value)
}

/// How the values under `key` are written.
pub open spec fn under(writing: Writing, key: Seq<char>) -> Writing {
    Map::new(
        |path: Seq<Seq<char>>| writing.contains_key(seq![key] + path),
        |path: Seq<Seq<char>>| writing[seq![key] + path],
    )
}

/// How the values that are not under `key` are written.
pub open spec fn beside(writing: Writing, key: Seq<char>) -> Writing {
    Map::new(
        |path: Seq<Seq<char>>|
            writing.contains_key(path) && !(path.len() > 0 && path[0] == key),
        |path: Seq<Seq<char>>| writing[path],
    )
}

/// What is written under a key is written in the whole.
pub proof fn lemma_under(writing: Writing, key: Seq<char>, path: Seq<Seq<char>>)
    requires
        under(writing, key).contains_key(path),
    ensures
        writing.contains_key(seq![key] + path),
        writing[seq![key] + path] == under(writing, key)[path],
{
}

/// Whether `after` is `before` with `value` at `place`. What was elsewhere is written as before.
pub open spec fn rewritten(
    before: Writing,
    after: Writing,
    place: Seq<Seq<char>>,
    value: ValueWriting,
) -> bool {
    &&& after.contains_key(place)
    &&& after[place] == value
    &&& forall|path: Seq<Seq<char>>| #[trigger]
        before.contains_key(path) && !place.is_prefix_of(path) ==> after.contains_key(path)
            && after[path] == before[path]
}

/// A change of the part under a key is a change of the whole. The part may be new.
pub proof fn lemma_rewritten(
    before: Writing,
    after: Writing,
    key: Seq<char>,
    part: Writing,
    place: Seq<Seq<char>>,
    value: ValueWriting,
)
    requires
        beside(after, key) == beside(before, key),
        under(before, key) == part || under(before, key) == Writing::empty(),
        rewritten(part, under(after, key), place, value),
    ensures
        rewritten(before, after, seq![key] + place, value),
{
    assert(under(after, key).contains_key(place));
    assert forall|path: Seq<Seq<char>>| #[trigger]
        before.contains_key(path) && !(seq![key] + place).is_prefix_of(
            path,
        ) implies after.contains_key(path) && after[path] == before[path] by {
        if path.len() > 0 && path[0] == key {
            let rest = path.skip(1);
            assert(path =~= seq![key] + rest);
            assert(under(before, key).contains_key(rest));
            assert(part.contains_key(rest));
            if place.is_prefix_of(rest) {
                assert((seq![key] + place) =~= path.subrange(0, (seq![key] + place).len() as int));
            }
            assert(under(after, key).contains_key(rest));
            assert(under(after, key)[rest] == after[path]);
            assert(under(before, key)[rest] == before[path]);
        } else {
            assert(beside(before, key).contains_key(path));
            assert(beside(after, key).contains_key(path));
            assert(beside(after, key)[path] == after[path]);
            assert(beside(before, key)[path] == before[path]);
        }
    }
}

/// The elements of an array as they are written, with a comma between each two.
pub open spec fn written_elements(elements: Seq<ElementWriting>) -> Seq<char>
    decreases elements.len(),
{
    if elements.len() == 0 {
        Seq::empty()
    } else {
        let last = elements.last();
        written_elements(elements.drop_last()) + (if elements.len() > 1 {
            ","@
        } else {
            Seq::empty()
        }) + last.prefix + last.text + last.suffix
    }
}

/// An array as it is written.
pub open spec fn written(writing: ArrayWriting) -> Seq<char> {
    "["@ + written_elements(writing.elements) + (if writing.trailing_comma
        && writing.elements.len() > 0 {
        ","@
    } else {
        Seq::empty()
    }) + writing.trailing + "]"@
}

/// A value as it is written.
pub open spec fn value_text(value: ValueWriting) -> Seq<char> {
    match value {
        ValueWriting::Array(writing) => written(writing),
        ValueWriting::Text(text) => text,
    }
}

/// Whether a text needs no escapes between double quotes: it holds neither those nor a backslash
/// nor a control character of ASCII.
pub open spec fn unescaped(text: Seq<char>) -> bool {
    forall|i: int|
        0 <= i < text.len() ==> #[trigger] text[i] != '"' && text[i] != '\\' && text[i] >= ' '
            && text[i] != '\u{7f}'
}

/// How `toml_edit` writes a string by itself.
pub open spec fn quote(text: Seq<char>) -> Seq<char> {
    if unescaped(text) {
        "\""@ + text + "\""@
    } else {
        escaped(text)
    }
}

/// Whether `part` stands somewhere in `text`.
pub open spec fn holds(text: Seq<char>, part: Seq<char>) -> bool {
    exists|i: int|
        0 <= i <= text.len() - part.len() && #[trigger] text.subrange(i, i + part.len()) == part
}

/// An editable document of `toml_edit`.
#[verifier::external_type_specification]
#[verifier::external_body]
pub struct ExDocumentMut(toml_edit::DocumentMut);

/// A table of a document, of `toml_edit`.
#[verifier::external_type_specification]
#[verifier::external_body]
pub struct ExTable(toml_edit::Table);

/// One entry of a table, of `toml_edit`.
#[verifier::external_type_specification]
#[verifier::external_body]
pub struct ExItem(toml_edit::Item);

/// An array of values, of `toml_edit`.
#[verifier::external_type_specification]
#[verifier::external_body]
pub struct ExArray(toml_edit::Array);

/// Why `toml_edit` could not parse a text.
#[verifier::external_type_specification]
#[verifier::external_body]
pub struct ExTomlError(toml_edit::TomlError);

/// Why `toml_edit` could not read a document as a value of another type.
#[verifier::external_type_specification]
#[verifier::external_body]
pub struct ExDeserializeError(toml_edit::de::Error);

/// What a text is as a TOML document.
pub ghost struct Reading {
    pub data: Entries,
    pub writing: Writing,
}

/// What a text is as a TOML document; none where it is no TOML document.
pub uninterp spec fn reading(text: Seq<char>) -> Option<Reading>;

/// The data that a text holds as a TOML document; none where it is no TOML document.
pub open spec fn parsed(text: Seq<char>) -> Option<Entries> {
    match reading(text) {
        Some(reading) => Some(reading.data),
        None => None,
    }
}

/// How a text that is a TOML document writes its values.
pub open spec fn writing_of(text: Seq<char>) -> Writing {
    reading(text)->0.writing
}

/// Whether a text holds each value of a document as it is written there.
pub open spec fn shows(text: Seq<char>, writing: Writing) -> bool {
    forall|path: Seq<Seq<char>>| #[trigger]
        writing.contains_key(path) ==> holds(text, value_text(writing[path]))
}

/// Whether a document with this data, which declares no compiler flags for the target that it
/// is read for, is a valid Cargo configuration.
pub uninterp spec fn valid_config(data: Entries) -> bool;

/// How `toml_edit` writes a string by itself that cannot stand unescaped between double quotes.
pub uninterp spec fn escaped(text: Seq<char>) -> Seq<char>;

/// The data of a document, while its layout is plain.
pub uninterp spec fn document_data(document: toml_edit::DocumentMut) -> Option<Entries>;

/// The data of a table, while its layout is plain.
pub uninterp spec fn table_data(table: toml_edit::Table) -> Option<Entries>;

/// The data of an item, while its layout is plain.
pub uninterp spec fn item_data(item: toml_edit::Item) -> Option<Node>;

/// The data of an array, while its layout is plain.
pub uninterp spec fn array_data(array: toml_edit::Array) -> Option<Seq<Node>>;

/// How the values in a document are written.
pub uninterp spec fn document_writing(document: toml_edit::DocumentMut) -> Writing;

/// How the values in a table are written.
pub uninterp spec fn table_writing(table: toml_edit::Table) -> Writing;

/// How the values in an item are written. The item may be a value itself.
pub uninterp spec fn item_writing(item: toml_edit::Item) -> Writing;

/// How an array is written.
pub uninterp spec fn array_writing(array: toml_edit::Array) -> ArrayWriting;

/// The numbers of parts of the keys in a document.
pub uninterp spec fn document_keys(document: toml_edit::DocumentMut) -> KeyParts;

/// The numbers of parts of the keys in a table.
pub uninterp spec fn table_keys(table: toml_edit::Table) -> KeyParts;

/// The numbers of parts of the keys in an item. A value has none.
pub uninterp spec fn item_keys(item: toml_edit::Item) -> KeyParts;

/// Calls `<toml_edit::DocumentMut as FromStr>::from_str`. It succeeds on exactly the TOML
/// documents, and what it returns is laid out as the text is, which is plain. No key or header has
/// more parts than it takes. The empty text is the document without entries.
#[verifier::external_body]
pub(crate) fn parse(text: &str) -> (r: Result<toml_edit::DocumentMut, toml_edit::TomlError>)
    ensures
        match r {
            Ok(document) => reading(text@) is Some && document_data(document) == Some(
                reading(text@)->0.data,
            ) && document_writing(document) == reading(text@)->0.writing && readable(
                document_keys(document),
            ),
            Err(_) => reading(text@) is None,
        },
        text@.len() == 0 ==> r is Ok && document_data(r->Ok_0) == Some(Entries::empty()),
{
    text.parse::<toml_edit::DocumentMut>()
}

/// Calls `to_string` of `toml_edit::DocumentMut`. The text of a plainly laid out document is
/// a TOML document with the same data, unless a key or header has too many parts for the parser.
/// It holds each value as it is written. How the text is laid out around the values is not stated.
#[verifier::external_body]
pub(crate) fn print(document: &toml_edit::DocumentMut) -> (r: String)
    requires
        document_data(*document) is Some,
    ensures
        readable(document_keys(*document)) ==> parsed(r@) == document_data(*document),
        shows(r@, document_writing(*document)),
{
    document.to_string()
}

/// Calls `toml_edit::de::from_document` for a `cargo_config2::de::Config`, and picks the flags of
/// one target from it. Whether it succeeds depends on the data of the document alone. It reads
/// each entry by itself, and no entry is required: so it succeeds where those flags are of the
/// right type and the rest is a valid configuration. On success the flags are those that the
/// document declares: `cargo_config2` takes them from an array of strings as they stand, and
/// from a string by splitting it at spaces and trimming the parts.
#[verifier::external_body]
pub(crate) fn read_rustflags(document: &toml_edit::DocumentMut, triple: &str) -> (r: Result<
    Option<Vec<String>>,
    toml_edit::de::Error,
>)
    requires
        document_data(*document) is Some,
    ensures
        match r {
            Ok(flags) => flags_well_typed(
                rustflags_node(document_data(*document)->0, triple@),
            ) && valid_config(without_flags(document_data(*document)->0, triple@)) && match flags {
                Some(flags) => declared_rustflags(document_data(*document)->0, triple@) == Some(
                    views(flags@),
                ),
                None => declared_rustflags(document_data(*document)->0, triple@) is None,
            },
            Err(_) => !accepted(document_data(*document)->0, triple@),
        },
{
    let config: cargo_config2::de::Config = toml_edit::de::from_document(document.clone())?;
    let target = config.target.get(triple);
    Ok(target.and_then(|target| target.rustflags.as_ref()).map(|flags| {
        flags.flags.iter().map(|flag| flag.val.clone()).collect()
    }))
}

/// `toml_edit::DocumentMut::as_table` gives the root table, which holds the document's data. It
/// panics where the root is no table.
pub assume_specification[ toml_edit::DocumentMut::as_table ](
    document: &toml_edit::DocumentMut,
) -> (r: &toml_edit::Table)
    requires
        document_data(*document) is Some,
    ensures
        table_data(*r) == document_data(*document),
;

/// Calls `toml_edit::DocumentMut::as_table_mut`, `toml_edit::Table::entry` and `or_insert` of the
/// entry: the item under a key of the root table, which is `fresh` where the key was not there.
/// What becomes of the item becomes of the document's entry, and the other entries stay. A key that
/// goes on in the item has one part more in the document.
#[verifier::external_body]
pub(crate) fn root_entry_or<'a>(
    document: &'a mut toml_edit::DocumentMut,
    key: &str,
    fresh: toml_edit::Item,
) -> (r: &'a mut toml_edit::Item)
    requires
        document_data(*old(document)) is Some,
    ensures
        ({
            let entries = document_data(*old(document))->0;
            &&& entries.contains_key(key@) ==> item_data(*r) == Some(entries[key@])
                && item_writing(*r) == under(document_writing(*old(document)), key@)
            &&& !entries.contains_key(key@) ==> *r == fresh && under(
                document_writing(*old(document)),
                key@,
            ) == Writing::empty()
            &&& entries.contains_key(key@) ==> forall|n: nat| #[trigger]
                grown(item_keys(*r), item_keys(*final(r)), n) ==> grown(
                    document_keys(*old(document)),
                    document_keys(*final(document)),
                    n + 1,
                )
            &&& forall|n: nat| #[trigger]
                grown(no_keys(), item_keys(*final(r)), n) ==> grown(
                    document_keys(*old(document)),
                    document_keys(*final(document)),
                    n + 1,
                )
            &&& item_data(*final(r)) matches Some(node) ==> document_data(*final(document)) == Some(
                entries.insert(key@, node),
            )
        }),
        under(document_writing(*final(document)), key@) == item_writing(*final(r)),
        beside(document_writing(*final(document)), key@) == beside(
            document_writing(*old(document)),
            key@,
        ),
{
    document.as_table_mut().entry(key).or_insert(fresh)
}

/// `toml_edit::Table::get` gives the entry under a key.
pub assume_specification<'a>[ toml_edit::Table::get ](table: &'a toml_edit::Table, key: &str) -> (r: Option<
    &'a toml_edit::Item,
>)
    ensures
        table_data(*table) matches Some(entries) ==> match r {
            Some(item) => entries.contains_key(key@) && item_data(*item) == Some(entries[key@]),
            None => !entries.contains_key(key@),
        },
;

/// Calls `toml_edit::Item::get` with a string: the entry under a key of a table or of an inline
/// table, and nothing of any other item.
#[verifier::external_body]
pub(crate) fn item_member<'a>(item: &'a toml_edit::Item, key: &str) -> (r: Option<
    &'a toml_edit::Item,
>)
    ensures
        item_data(*item) is Some ==> match r {
            Some(inner) => item_data(*inner) is Some && member(item_data(*item), key@) == item_data(
                *inner,
            ),
            None => member(item_data(*item), key@) is None,
        },
{
    item.get(key)
}

/// `toml_edit::Item::as_table` gives the table that an item is. An inline table is none.
pub assume_specification[ toml_edit::Item::as_table ](item: &toml_edit::Item) -> (r: Option<
    &toml_edit::Table,
>)
    ensures
        item_data(*item) matches Some(node) ==> match r {
            Some(table) => node is Table && table_data(*table) == Some(node->Table_0),
            None => !(node is Table),
        },
;

/// `toml_edit::Item::as_table_mut` gives the table that an item is, with its values and keys. What
/// becomes of the table becomes of the item.
pub assume_specification[ toml_edit::Item::as_table_mut ](item: &mut toml_edit::Item) -> (r: Option<
    &mut toml_edit::Table,
>)
    ensures
        item_data(*old(item)) matches Some(node) ==> match r {
            Some(table) => node is Table && table_data(*table) == Some(node->Table_0) && (
            table_data(*final(table)) matches Some(entries) ==> item_data(*final(item)) == Some(
                Node::Table(entries),
            )) && table_writing(*table) == item_writing(*old(item)) && item_writing(*final(item))
                == table_writing(*final(table)) && table_keys(*table) == item_keys(*old(item))
                && item_keys(*final(item)) == table_keys(*final(table)),
            None => !(node is Table) && *final(item) == *old(item),
        },
;

/// `toml_edit::Item::as_array` gives the array that an item is.
pub assume_specification[ toml_edit::Item::as_array ](item: &toml_edit::Item) -> (r: Option<
    &toml_edit::Array,
>)
    ensures
        item_data(*item) matches Some(node) ==> match r {
            Some(array) => node is List && array_data(*array) == Some(node->List_0),
            None => !(node is List),
        },
;

/// `toml_edit::Item::as_array_mut` gives the array that an item is, as it is written. What becomes
/// of the array becomes of the item, which has no keys.
pub assume_specification[ toml_edit::Item::as_array_mut ](item: &mut toml_edit::Item) -> (r: Option<
    &mut toml_edit::Array,
>)
    ensures
        item_data(*old(item)) matches Some(node) ==> match r {
            Some(array) => node is List && array_data(*array) == Some(node->List_0) && (array_data(
                *final(array),
            ) matches Some(nodes) ==> item_data(*final(item)) == Some(Node::List(nodes)))
                && item_writing(*old(item)) == only(ValueWriting::Array(array_writing(*array)))
                && item_writing(*final(item)) == only(
                ValueWriting::Array(array_writing(*final(array))),
            ) && item_keys(*final(item)) == item_keys(*old(item)),
            None => !(node is List) && *final(item) == *old(item),
        },
;

/// `toml_edit::Item::as_str` gives the text of a string.
pub assume_specification[ toml_edit::Item::as_str ](item: &toml_edit::Item) -> (r: Option<&str>)
    ensures
        item_data(*item) matches Some(node) ==> match r {
            Some(text) => node == Node::Text(text@),
            None => !(node is Text),
        },
;

/// `toml_edit::Array::len` gives the number of elements.
pub assume_specification[ toml_edit::Array::len ](array: &toml_edit::Array) -> (r: usize)
    ensures
        array_data(*array) matches Some(nodes) ==> r == nodes.len() && r == array_writing(
            *array,
        ).elements.len(),
;

/// Calls `toml_edit::Array::get` and `toml_edit::Value::as_str`: the text of the element at an
/// index, where there is an element and it is a string.
#[verifier::external_body]
pub(crate) fn array_text(array: &toml_edit::Array, index: usize) -> (r: Option<&str>)
    ensures
        array_data(*array) matches Some(nodes) ==> match r {
            Some(text) => index < nodes.len() && nodes[index as int] == Node::Text(text@),
            None => index >= nodes.len() || !(nodes[index as int] is Text),
        },
{
    array.get(index).and_then(toml_edit::Value::as_str)
}

/// `toml_edit::Array::new` makes an array without elements.
pub assume_specification[ toml_edit::Array::new ]() -> (r: toml_edit::Array)
    ensures
        array_data(r) == Some(Seq::<Node>::empty()),
        array_writing(r) == empty_writing(),
;

/// Calls `toml_edit::Array::push` with a string: it becomes the last element, with a space in front
/// of it unless it is the first.
#[verifier::external_body]
pub(crate) fn push_text(array: &mut toml_edit::Array, text: &str)
    ensures
        array_data(*old(array)) matches Some(nodes) ==> array_data(*final(array)) == Some(
            nodes.push(Node::Text(text@)),
        ),
        array_writing(*final(array)) == (ArrayWriting {
            elements: array_writing(*old(array)).elements.push(
                default_element(array_writing(*old(array)).elements.len() as int, text@),
            ),
            ..array_writing(*old(array))
        }),
{
    array.push(text);
}

/// Calls `toml_edit::Array::push_formatted` with a string that has white space in front of it,
/// set through `decor_mut` of `toml_edit::Value`: the string becomes the last element, behind
/// that white space.
#[verifier::external_body]
pub(crate) fn push_text_after(array: &mut toml_edit::Array, prefix: &str, text: &str)
    requires
        blank(prefix@),
    ensures
        array_data(*old(array)) matches Some(nodes) ==> array_data(*final(array)) == Some(
            nodes.push(Node::Text(text@)),
        ),
        array_writing(*final(array)) == (ArrayWriting {
            elements: array_writing(*old(array)).elements.push(
                (ElementWriting { prefix: prefix@, text: quote(text@), suffix: Seq::empty() }),
            ),
            ..array_writing(*old(array))
        }),
{
    let mut value = toml_edit::Value::from(text);
    value.decor_mut().set_prefix(prefix);
    array.push_formatted(value);
}

/// Calls `toml_edit::Array::get_mut` and assigns a string to the element, in a layout of its own.
#[verifier::external_body]
pub(crate) fn set_text(array: &mut toml_edit::Array, index: usize, text: &str)
    ensures
        array_data(*old(array)) matches Some(nodes) ==> index < nodes.len() ==> array_data(
            *final(array),
        ) == Some(nodes.update(index as int, Node::Text(text@))),
        array_data(*old(array)) matches Some(nodes) ==> index < nodes.len() ==> array_writing(
            *final(array),
        ) == (ArrayWriting {
            elements: array_writing(*old(array)).elements.update(
                index as int,
                default_element(index as int, text@),
            ),
            ..array_writing(*old(array))
        }),
{
    if let Some(value) = array.get_mut(index) {
        *value = toml_edit::Value::from(text);
    }
}

/// Calls `toml_edit::Array::set_trailing` with white space, which no element is.
#[verifier::external_body]
pub(crate) fn set_trailing(array: &mut toml_edit::Array, trailing: &str)
    requires
        blank(trailing@),
    ensures
        array_data(*old(array)) is Some ==> array_data(*final(array)) == array_data(*old(array)),
        array_writing(*final(array)) == (ArrayWriting {
            trailing: trailing@,
            ..array_writing(*old(array))
        }),
{
    array.set_trailing(trailing);
}

/// `toml_edit::Array::set_trailing_comma` leaves the elements as they are.
pub assume_specification[ toml_edit::Array::set_trailing_comma ](
    array: &mut toml_edit::Array,
    yes: bool,
)
    ensures
        array_data(*old(array)) is Some ==> array_data(*final(array)) == array_data(*old(array)),
        array_writing(*final(array)) == (ArrayWriting {
            trailing_comma: yes,
            ..array_writing(*old(array))
        }),
;

/// Calls `toml_edit::value` with an array, which stays as it is written.
#[verifier::external_body]
pub(crate) fn array_item(array: toml_edit::Array) -> (r: toml_edit::Item)
    ensures
        array_data(array) matches Some(nodes) ==> item_data(r) == Some(Node::List(nodes)),
        item_writing(r) == only(ValueWriting::Array(array_writing(array))),
        item_keys(r) == no_keys(),
{
    toml_edit::value(array)
}

/// Calls `toml_edit::value` with a string, which is written as `toml_edit` does it by itself.
#[verifier::external_body]
pub(crate) fn text_item(text: &str) -> (r: toml_edit::Item)
    ensures
        item_data(r) == Some(Node::Text(text@)),
        item_writing(r) == only(ValueWriting::Text(quote(text@))),
        !unescaped(text@) ==> item_writing(r) == only(ValueWriting::Text(escaped(text@))),
        item_keys(r) == no_keys(),
{
    toml_edit::value(text)
}

/// Calls `toml_edit::table`: an empty table with a header of its own.
#[verifier::external_body]
pub(crate) fn new_table() -> (r: toml_edit::Item)
    ensures
        item_data(r) == Some(Node::Table(Entries::empty())),
        item_keys(r) == no_keys(),
{
    toml_edit::table()
}

/// Makes a table whose header shows only where it has values of its own, with
/// `toml_edit::Table::set_implicit`, and puts one table in it, with `toml_edit::Table::insert`. The
/// keys of that table have one part more in the outer one.
#[verifier::external_body]
pub(crate) fn new_outer_table(key: &str, inner: toml_edit::Item) -> (r: toml_edit::Item)
    ensures
        item_data(inner) matches Some(node) ==> node is Table ==> item_data(r) == Some(
            Node::Table(Entries::empty().insert(key@, node)),
        ),
        forall|n: nat| #[trigger]
            grown(no_keys(), item_keys(inner), n) ==> grown(no_keys(), item_keys(r), n + 1),
{
    let mut table = toml_edit::Table::new();
    table.set_implicit(true);
    table.insert(key, inner);
    toml_edit::Item::Table(table)
}

/// Calls `toml_edit::Table::entry` and `or_insert` of the entry: the item under a key, which
/// is `fresh` where the key was not there. What becomes of the item becomes of the table's entry,
/// and the other entries stay. A key that goes on in the item has one part more in the table.
#[verifier::external_body]
pub(crate) fn entry_or<'a>(
    table: &'a mut toml_edit::Table,
    key: &str,
    fresh: toml_edit::Item,
) -> (r: &'a mut toml_edit::Item)
    ensures
        table_data(*old(table)) matches Some(entries) ==> {
            &&& entries.contains_key(key@) ==> item_data(*r) == Some(entries[key@])
                && item_writing(*r) == under(table_writing(*old(table)), key@)
            &&& !entries.contains_key(key@) ==> *r == fresh && under(
                table_writing(*old(table)),
                key@,
            ) == Writing::empty()
            &&& entries.contains_key(key@) ==> forall|n: nat| #[trigger]
                grown(item_keys(*r), item_keys(*final(r)), n) ==> grown(
                    table_keys(*old(table)),
                    table_keys(*final(table)),
                    n + 1,
                )
            &&& forall|n: nat| #[trigger]
                grown(no_keys(), item_keys(*final(r)), n) ==> grown(
                    table_keys(*old(table)),
                    table_keys(*final(table)),
                    n + 1,
                )
            &&& item_data(*final(r)) matches Some(node) ==> table_data(*final(table)) == Some(
                entries.insert(key@, node),
            )
        },
        under(table_writing(*final(table)), key@) == item_writing(*final(r)),
        beside(table_writing(*final(table)), key@) == beside(table_writing(*old(table)), key@),
{
    table.entry(key).or_insert(fresh)
}

/// Assigns through the `IndexMut` of `toml_edit::Table`: the item becomes the entry under a key, and
/// the other entries stay. A key that goes on in the item has one part more in the table.
#[verifier::external_body]
pub(crate) fn set_entry(table: &mut toml_edit::Table, key: &str, item: toml_edit::Item)
    ensures
        table_data(*old(table)) matches Some(entries) ==> item_data(item) matches Some(node)
            ==> table_data(*final(table)) == Some(entries.insert(key@, node)),
        under(table_writing(*final(table)), key@) == item_writing(item),
        beside(table_writing(*final(table)), key@) == beside(table_writing(*old(table)), key@),
        forall|n: nat| #[trigger]
            grown(no_keys(), item_keys(item), n) ==> grown(
                table_keys(*old(table)),
                table_keys(*final(table)),
                n + 1,
            ),
{
    table[key] = item;
}

/// An array is written in brackets. A further element stands behind a comma, unless it comes
/// first, and a comma may follow the last one.
pub proof fn arrays_are_written_in_brackets(
    elements: Seq<ElementWriting>,
    last: ElementWriting,
    trailing: Seq<char>,
    trailing_comma: bool,
)
    ensures
        written_elements(Seq::empty()) == Seq::<char>::empty(),
        written_elements(elements.push(last)) == written_elements(elements) + (if elements.len()
            > 0 {
            seq![',']
        } else {
            Seq::empty()
        }) + last.prefix + last.text + last.suffix,
        written((ArrayWriting { elements, trailing, trailing_comma })) == seq!['[']
            + written_elements(elements) + (if trailing_comma && elements.len() > 0 {
            seq![',']
        } else {
            Seq::empty()
        }) + trailing + seq![']'],
{
    reveal_strlit(",");
    reveal_strlit("[");
    reveal_strlit("]");
    assert(","@ =~= seq![',']);
    assert("["@ =~= seq!['[']);
    assert("]"@ =~= seq![']']);
    assert(elements.push(last).drop_last() =~= elements);
}

/// A string is written between double quotes, unless something in it has to be escaped.
pub proof fn strings_are_written_in_quotes(text: Seq<char>)
    ensures
        (forall|i: int|
            0 <= i < text.len() ==> #[trigger] text[i] != '"' && text[i] != '\\' && ' ' <= text[i]
                && text[i] != '\u{7f}') ==> quote(text) == seq!['"'] + text + seq!['"'],
{
    reveal_strlit("\"");
    assert("\""@ =~= seq!['"']);
}

} // verus!
