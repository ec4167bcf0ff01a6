//! Operations on text, each specified over the sequence of its characters.

use vstd::prelude::*;

verus! {

/// Whether `c` has the Unicode property `White_Space`.
pub open spec fn white_space(c: char) -> bool {
    ||| '\u{9}' <= c <= '\u{d}'
    ||| c == '\u{20}'
    ||| c == '\u{85}'
    ||| c == '\u{a0}'
    ||| c == '\u{1680}'
    ||| '\u{2000}' <= c <= '\u{200a}'
    ||| c == '\u{2028}'
    ||| c == '\u{2029}'
    ||| c == '\u{202f}'
    ||| c == '\u{205f}'
    ||| c == '\u{3000}'
}

/// What is left of `s` once `prefix` is taken off its front, if it starts with it.
pub open spec fn without_prefix(s: Seq<char>, prefix: Seq<char>) -> Option<Seq<char>> {
    if prefix.is_prefix_of(s) {
        Some(s.skip(prefix.len() as int))
    } else {
        None
    }
}

/// `s` without the white space at its front.
pub open spec fn trimmed_start(s: Seq<char>) -> Seq<char>
    decreases s.len(),
{
    if s.len() > 0 && white_space(s[0]) {
        trimmed_start(s.drop_first())
    } else {
        s
    }
}

/// `s` without the white space at its end.
pub open spec fn trimmed_end(s: Seq<char>) -> Seq<char>
    decreases s.len(),
{
    if s.len() > 0 && white_space(s.last()) {
        trimmed_end(s.drop_last())
    } else {
        s
    }
}

/// `s` without the white space around it.
pub open spec fn trimmed(s: Seq<char>) -> Seq<char> {
    trimmed_end(trimmed_start(s))
}

/// The part of `s` before its first `c`, or all of it where `c` does not occur.
pub open spec fn before(s: Seq<char>, c: char) -> Seq<char>
    decreases s.len(),
{
    if s.len() == 0 || s[0] == c {
        Seq::empty()
    } else {
        seq![s[0]] + before(s.drop_first(), c)
    }
}

/// The first run of characters in `s` that are no white space, if there is one.
pub open spec fn first_word(s: Seq<char>) -> Option<Seq<char>> {
    let rest = trimmed_start(s);
    if rest.len() == 0 {
        None
    } else {
        Some(leading_word(rest))
    }
}

/// The longest front part of `s` that holds no white space.
pub open spec fn leading_word(s: Seq<char>) -> Seq<char>
    decreases s.len(),
{
    if s.len() == 0 || white_space(s[0]) {
        Seq::empty()
    } else {
        seq![s[0]] + leading_word(s.drop_first())
    }
}

/// The pieces of `s` between the occurrences of `c`: one more than there are occurrences.
pub open spec fn pieces(s: Seq<char>, c: char) -> Seq<Seq<char>>
    decreases s.len(),
{
    let head = before(s, c);
    if head.len() < s.len() {
        seq![head] + pieces(s.skip(head.len() + 1int), c)
    } else {
        seq![s]
    }
}

/// A line without the carriage return that ends it.
pub open spec fn without_return(line: Seq<char>) -> Seq<char> {
    if line.len() > 0 && line.last() == '\r' {
        line.drop_last()
    } else {
        line
    }
}

/// The lines of `s`. A line ends in a line feed, which a carriage return may precede; neither
/// belongs to the line. The last line may lack its ending, and then keeps a carriage return.
pub open spec fn lines(s: Seq<char>) -> Seq<Seq<char>>
    decreases s.len(),
{
    let head = before(s, '\n');
    if s.len() == 0 {
        Seq::empty()
    } else if head.len() < s.len() {
        seq![without_return(head)] + lines(s.skip(head.len() + 1int))
    } else {
        seq![s]
    }
}

/// The texts of `list` one after the other, with `separator` between each two.
pub open spec fn joined(list: Seq<Seq<char>>, separator: Seq<char>) -> Seq<char>
    decreases list.len(),
{
    if list.len() == 0 {
        Seq::empty()
    } else if list.len() == 1 {
        list[0]
    } else {
        joined(list.drop_last(), separator) + separator + list.last()
    }
}

/// The characters that each text of a list holds.
pub open spec fn views(list: Seq<String>) -> Seq<Seq<char>> {
    list.map_values(|s: String| s@)
}

/// Decides whether `c` is white space.
pub fn is_white_space(c: char) -> (r: bool)
    ensures
        r == white_space(c),
{
    ('\u{9}' <= c && c <= '\u{d}') || c == '\u{20}' || c == '\u{85}' || c == '\u{a0}'
        || c == '\u{1680}' || ('\u{2000}' <= c && c <= '\u{200a}') || c == '\u{2028}'
        || c == '\u{2029}' || c == '\u{202f}' || c == '\u{205f}' || c == '\u{3000}'
}

/// Decides whether two texts are the same.
pub fn same(a: &str, b: &str) -> (r: bool)
    ensures
        r == (a@ == b@),
{
    a.to_owned() == b.to_owned()
}

/// The characters of `s`.
pub fn characters(s: &str) -> (r: Vec<char>)
    ensures
        r@ == s@,
{
    let mut out: Vec<char> = Vec::new();
    for c in it: s.chars()
        invariant
            out@ == s@.take(it.index()),
            it.seq() == s@,
    {
        assert(s@.take(it.index() + 1) =~= s@.take(it.index()).push(c));
        out.push(c);
    }
    assert(s@.take(s@.len() as int) =~= s@);
    out
}

/// Takes `prefix` off the front of `s`.
pub fn strip_prefix<'a>(s: &'a str, prefix: &str) -> (r: Option<&'a str>)
    ensures
        match r {
            Some(rest) => without_prefix(s@, prefix@) == Some(rest@),
            None => without_prefix(s@, prefix@) is None,
        },
{
    let n: usize = prefix.unicode_len();
    let len: usize = s.unicode_len();
    if len < n {
        return None;
    }
    let head: &str = s.substring_char(0, n);
    if same(head, prefix) {
        assert(prefix@.is_prefix_of(s@));
        assert(s@.subrange(n as int, len as int) =~= s@.skip(n as int));
        Some(s.substring_char(n, len))
    } else {
        assert(prefix@.is_prefix_of(s@) ==> head@ =~= prefix@);
        None
    }
}

/// Decides whether `s` starts with `prefix`.
pub fn starts_with(s: &str, prefix: &str) -> (r: bool)
    ensures
        r == prefix@.is_prefix_of(s@),
{
    strip_prefix(s, prefix).is_some()
}

/// Takes the white space off the front of `s`.
pub fn trim_start<'a>(s: &'a str) -> (r: &'a str)
    ensures
        r@ == trimmed_start(s@),
{
    let chars: Vec<char> = characters(s);
    let mut i: usize = 0;
    assert(s@.skip(0) =~= s@);
    while i < chars.len() && is_white_space(chars[i])
        invariant
            chars@ == s@,
            i <= chars.len(),
            trimmed_start(s@.skip(i as int)) == trimmed_start(s@),
        decreases chars.len() - i,
    {
        assert(s@.skip(i as int).drop_first() =~= s@.skip(i + 1));
        i = i + 1;
    }
    assert(s@.subrange(i as int, s@.len() as int) =~= s@.skip(i as int));
    s.substring_char(i, chars.len())
}

/// Takes the white space off the end of `s`.
pub fn trim_end<'a>(s: &'a str) -> (r: &'a str)
    ensures
        r@ == trimmed_end(s@),
{
    let chars: Vec<char> = characters(s);
    let mut n: usize = chars.len();
    assert(s@.take(n as int) =~= s@);
    while n > 0 && is_white_space(chars[n - 1])
        invariant
            chars@ == s@,
            n <= chars.len(),
            trimmed_end(s@.take(n as int)) == trimmed_end(s@),
        decreases n,
    {
        assert(s@.take(n as int).drop_last() =~= s@.take(n - 1));
        n = n - 1;
    }
    assert(s@.subrange(0, n as int) =~= s@.take(n as int));
    s.substring_char(0, n)
}

/// Takes the white space off both ends of `s`.
pub fn trim<'a>(s: &'a str) -> (r: &'a str)
    ensures
        r@ == trimmed(s@),
{
    trim_end(trim_start(s))
}

/// `before` ends where its argument first holds `c`.
pub proof fn lemma_before(s: Seq<char>, c: char, n: int)
    requires
        0 <= n <= s.len(),
        forall|i: int| 0 <= i < n ==> s[i] != c,
        n < s.len() ==> s[n] == c,
    ensures
        before(s, c) == s.take(n),
    decreases s.len(),
{
    if n > 0 {
        lemma_before(s.drop_first(), c, n - 1);
        assert(seq![s[0]] + s.drop_first().take(n - 1) =~= s.take(n));
    } else {
        assert(s.take(0) =~= Seq::<char>::empty());
    }
}

/// The part of `s` before its first `c`.
pub fn cut_before<'a>(s: &'a str, c: char) -> (r: &'a str)
    ensures
        r@ == before(s@, c),
{
    let chars: Vec<char> = characters(s);
    let mut n: usize = 0;
    while n < chars.len() && chars[n] != c
        invariant
            chars@ == s@,
            n <= chars.len(),
            forall|i: int| 0 <= i < n ==> s@[i] != c,
        decreases chars.len() - n,
    {
        n = n + 1;
    }
    proof {
        lemma_before(s@, c, n as int);
    }
    assert(s@.subrange(0, n as int) =~= s@.take(n as int));
    s.substring_char(0, n)
}

/// The first word of `s`.
pub fn split_first_word<'a>(s: &'a str) -> (r: Option<&'a str>)
    ensures
        match r {
            Some(word) => first_word(s@) == Some(word@),
            None => first_word(s@) is None,
        },
{
    let rest: &str = trim_start(s);
    let chars: Vec<char> = characters(rest);
    if chars.len() == 0 {
        return None;
    }
    let mut n: usize = 0;
    assert(rest@.take(0) + leading_word(rest@.skip(0)) =~= leading_word(rest@)) by {
        assert(rest@.skip(0) =~= rest@);
    }
    while n < chars.len() && !is_white_space(chars[n])
        invariant
            chars@ == rest@,
            n <= chars.len(),
            rest@.take(n as int) + leading_word(rest@.skip(n as int)) == leading_word(rest@),
        decreases chars.len() - n,
    {
        assert(rest@.skip(n as int).drop_first() =~= rest@.skip(n + 1));
        assert(rest@.take(n + 1) + leading_word(rest@.skip(n + 1)) =~= rest@.take(n as int) + (
        seq![rest@[n as int]] + leading_word(rest@.skip(n + 1))));
        n = n + 1;
    }
    assert(leading_word(rest@.skip(n as int)) =~= Seq::<char>::empty());
    assert(rest@.subrange(0, n as int) =~= leading_word(rest@));
    Some(rest.substring_char(0, n))
}

/// The lines of `s`.
pub fn split_lines<'a>(s: &'a str) -> (r: Vec<&'a str>)
    ensures
        r@.map_values(|line: &str| line@) == lines(s@),
{
    let chars: Vec<char> = characters(s);
    let mut out: Vec<&'a str> = Vec::new();
    let mut start: usize = 0;
    assert(s@.skip(0) =~= s@);
    assert(out@.map_values(|line: &str| line@) + lines(s@) =~= lines(s@));
    while start < chars.len()
        invariant
            chars@ == s@,
            start <= chars.len(),
            out@.map_values(|line: &str| line@) + lines(s@.skip(start as int)) == lines(s@),
        decreases chars.len() - start,
    {
        let ghost rest = s@.skip(start as int);
        let mut end: usize = start;
        while end < chars.len() && chars[end] != '\n'
            invariant
                chars@ == s@,
                start <= end <= chars.len(),
                forall|i: int| start <= i < end ==> s@[i] != '\n',
            decreases chars.len() - end,
        {
            end = end + 1;
        }
        let ghost head = s@.subrange(start as int, end as int);
        proof {
            lemma_before(rest, '\n', end - start);
            assert(rest.take(end - start) =~= head);
        }
        let ghost sofar = out@.map_values(|line: &str| line@);
        if end < chars.len() {
            let stop: usize = if end > start && chars[end - 1] == '\r' {
                end - 1
            } else {
                end
            };
            let line: &'a str = s.substring_char(start, stop);
            assert(line@ =~= without_return(head));
            out.push(line);
            assert(rest.skip(head.len() + 1int) =~= s@.skip(end + 1));
            assert(out@.map_values(|line: &str| line@) =~= sofar.push(line@));
            assert(sofar.push(line@) + lines(s@.skip(end + 1)) =~= sofar + lines(rest));
            start = end + 1;
        } else {
            let line: &'a str = s.substring_char(start, end);
            assert(line@ =~= rest);
            out.push(line);
            assert(out@.map_values(|line: &str| line@) =~= sofar.push(line@));
            assert(sofar.push(line@) + lines(s@.skip(end as int)) =~= sofar + lines(rest));
            start = end;
        }
    }
    assert(out@.map_values(|line: &str| line@) + lines(s@.skip(start as int)) =~= out@.map_values(
        |line: &str| line@,
    ));
    out
}

/// The texts of `list` with `separator` between them.
pub fn join(list: &Vec<String>, separator: &str) -> (r: String)
    ensures
        r@ == joined(views(list@), separator@),
{
    let mut out: String = String::new();
    let mut i: usize = 0;
    while i < list.len()
        invariant
            i <= list.len(),
            out@ == joined(views(list@).take(i as int), separator@),
        decreases list.len() - i,
    {
        if i > 0 {
            out.append(separator);
        }
        out.append(list[i].as_str());
        assert(views(list@).take(i + 1).drop_last() =~= views(list@).take(i as int));
        i = i + 1;
        assert(out@ =~= joined(views(list@).take(i as int), separator@));
    }
    assert(views(list@).take(i as int) =~= views(list@));
    out
}

/// Taking white space off the front of a text leaves an end of it, which starts otherwise.
pub proof fn lemma_trimmed_start(s: Seq<char>) -> (n: int)
    ensures
        0 <= n <= s.len(),
        trimmed_start(s) == s.skip(n),
        n < s.len() ==> !white_space(s[n]),
    decreases s.len(),
{
    if s.len() > 0 && white_space(s[0]) {
        let n = lemma_trimmed_start(s.drop_first());
        assert(s.drop_first().skip(n) =~= s.skip(n + 1));
        n + 1
    } else {
        assert(s.skip(0) =~= s);
        0
    }
}

/// Taking white space off the end of a text leaves a front of it, which ends otherwise.
pub proof fn lemma_trimmed_end(s: Seq<char>) -> (n: int)
    ensures
        0 <= n <= s.len(),
        trimmed_end(s) == s.take(n),
        n > 0 ==> !white_space(s[n - 1]),
        forall|i: int| n <= i < s.len() ==> white_space(#[trigger] s[i]),
    decreases s.len(),
{
    if s.len() > 0 && white_space(s.last()) {
        let n = lemma_trimmed_end(s.drop_last());
        assert(s.drop_last().take(n) =~= s.take(n));
        assert forall|i: int| n <= i < s.len() implies white_space(#[trigger] s[i]) by {
            if i < s.len() - 1 {
                assert(s.drop_last()[i] == s[i]);
            }
        }
        n
    } else {
        assert(s.take(s.len() as int) =~= s);
        s.len() as int
    }
}

/// Whether a text can stand as a word between spaces.
pub open spec fn is_word(s: Seq<char>) -> bool {
    s.len() > 0 && trimmed(s) == s && !s.contains(' ')
}

/// A text without white space in it can stand as a word.
pub proof fn lemma_solid_word(s: Seq<char>)
    requires
        s.len() > 0,
        forall|i: int| 0 <= i < s.len() ==> !white_space(#[trigger] s[i]),
    ensures
        is_word(s),
{
    assert(!white_space(s[0]));
    assert(!white_space(s[s.len() - 1]));
    if s.contains(' ') {
        let i = choose|i: int| 0 <= i < s.len() && s[i] == ' ';
        assert(white_space(s[i]));
    }
}

/// What is left of a text without spaces can stand as a word, if there is anything left.
pub proof fn lemma_trimmed_word(s: Seq<char>)
    requires
        !s.contains(' '),
    ensures
        trimmed(s).len() > 0 ==> is_word(trimmed(s)),
{
    let n = lemma_trimmed_start(s);
    let rest = trimmed_start(s);
    let m = lemma_trimmed_end(rest);
    let word = trimmed(s);
    if word.len() > 0 {
        assert(word[0] == rest[0]);
        assert(rest[0] == s[n]);
        assert(word.last() == rest[m - 1]);
        if word.contains(' ') {
            let i = choose|i: int| 0 <= i < word.len() && word[i] == ' ';
            assert(s[n + i] == ' ');
        }
    }
}

/// A text without the separator is one piece.
proof fn lemma_one_piece(s: Seq<char>, c: char)
    requires
        !s.contains(c),
    ensures
        pieces(s, c) == seq![s],
{
    assert forall|i: int| 0 <= i < s.len() implies s[i] != c by {
        assert(s.contains(s[i]));
    }
    lemma_before(s, c, s.len() as int);
    assert(s.take(s.len() as int) =~= s);
}

/// A separator and a text without one add one piece.
proof fn lemma_further_piece(s: Seq<char>, c: char, last: Seq<char>)
    requires
        !last.contains(c),
    ensures
        pieces(s.push(c) + last, c) == pieces(s, c).push(last),
    decreases s.len(),
{
    let all = s.push(c) + last;
    if s.contains(c) {
        let n = s.index_of_first(c)->0;
        s.index_of_first_ensures(c);
        lemma_before(s, c, n);
        lemma_before(all, c, n);
        assert(s.take(n) =~= all.take(n));
        let rest = s.skip(n + 1);
        lemma_further_piece(rest, c, last);
        assert(all.skip(n + 1) =~= rest.push(c) + last);
        assert(pieces(all, c) =~= pieces(s, c).push(last));
    } else {
        assert forall|i: int| 0 <= i < s.len() implies s[i] != c by {
            assert(s.contains(s[i]));
        }
        lemma_before(all, c, s.len() as int);
        assert(all.take(s.len() as int) =~= s);
        assert(all.skip(s.len() + 1int) =~= last);
        lemma_one_piece(last, c);
        lemma_one_piece(s, c);
        assert(pieces(all, c) =~= pieces(s, c).push(last));
    }
}

/// No piece holds the separator.
pub proof fn lemma_pieces(s: Seq<char>, c: char)
    ensures
        forall|i: int| 0 <= i < pieces(s, c).len() ==> !(#[trigger] pieces(s, c)[i]).contains(c),
    decreases s.len(),
{
    if s.contains(c) {
        let n = s.index_of_first(c)->0;
        s.index_of_first_ensures(c);
        lemma_before(s, c, n);
        let head = before(s, c);
        lemma_pieces(s.skip(n + 1), c);
        if head.contains(c) {
            let i = choose|i: int| 0 <= i < head.len() && head[i] == c;
            assert(s[i] == c);
        }
        assert forall|i: int| 0 <= i < pieces(s, c).len() implies !(
        #[trigger] pieces(s, c)[i]).contains(c) by {
            if i > 0 {
                assert(pieces(s, c)[i] == pieces(s.skip(n + 1), c)[i - 1]);
            }
        }
    } else {
        lemma_one_piece(s, c);
    }
}

/// Texts that are joined by a separator which none of them holds come apart again.
pub proof fn joined_pieces(list: Seq<Seq<char>>, c: char)
    requires
        list.len() > 0,
        forall|i: int| 0 <= i < list.len() ==> !(#[trigger] list[i]).contains(c),
    ensures
        pieces(joined(list, seq![c]), c) == list,
    decreases list.len(),
{
    if list.len() == 1 {
        lemma_one_piece(list[0], c);
        assert(seq![list[0]] =~= list);
    } else {
        let front = list.drop_last();
        assert forall|i: int| 0 <= i < front.len() implies !(#[trigger] front[i]).contains(c) by {
            assert(front[i] == list[i]);
        }
        joined_pieces(front, c);
        assert(!list[list.len() - 1].contains(c));
        lemma_further_piece(joined(front, seq![c]), c, list.last());
        assert(joined(list, seq![c]) =~= joined(front, seq![c]).push(c) + list.last());
        assert(front.push(list.last()) =~= list);
    }
}

/// The characters with the property `White_Space`, by their code points.
pub proof fn white_space_is_these_characters(c: char)
    ensures
        white_space(c) <==> set![
            0x9u32, 0xa, 0xb, 0xc, 0xd, 0x20, 0x85, 0xa0, 0x1680, 0x2000, 0x2001, 0x2002, 0x2003,
            0x2004, 0x2005, 0x2006, 0x2007, 0x2008, 0x2009, 0x200a, 0x2028, 0x2029, 0x202f, 0x205f,
            0x3000,
        ].contains(c as u32),
{
}

/// A prefix that is put in front of a text comes off again, and what comes off goes back on.
pub proof fn prefix_comes_off(s: Seq<char>, prefix: Seq<char>)
    ensures
        without_prefix(prefix + s, prefix) == Some(s),
        without_prefix(s, prefix) matches Some(rest) ==> prefix + rest == s,
        without_prefix(s, prefix) is None <==> forall|rest: Seq<char>| #[trigger] (prefix + rest)
            != s,
{
    assert((prefix + s).subrange(0, prefix.len() as int) =~= prefix);
    assert((prefix + s).skip(prefix.len() as int) =~= s);
    if prefix.is_prefix_of(s) {
        assert(prefix + s.skip(prefix.len() as int) =~= s);
    } else {
        assert forall|rest: Seq<char>| #[trigger] (prefix + rest) != s by {
            assert((prefix + rest).subrange(0, prefix.len() as int) =~= prefix);
        }
    }
}

/// White space at the front of a text is taken off it.
pub proof fn lemma_leading_space(gap: Seq<char>, rest: Seq<char>)
    requires
        forall|i: int| 0 <= i < gap.len() ==> white_space(#[trigger] gap[i]),
        rest.len() > 0 ==> !white_space(rest[0]),
    ensures
        trimmed_start(gap + rest) == rest,
    decreases gap.len(),
{
    if gap.len() > 0 {
        assert((gap + rest)[0] == gap[0]);
        assert((gap + rest).drop_first() =~= gap.drop_first() + rest);
        lemma_leading_space(gap.drop_first(), rest);
    } else {
        assert(gap + rest =~= rest);
    }
}

proof fn lemma_trailing_space(rest: Seq<char>, gap: Seq<char>)
    requires
        forall|i: int| 0 <= i < gap.len() ==> white_space(#[trigger] gap[i]),
        rest.len() > 0 ==> !white_space(rest.last()),
    ensures
        trimmed_end(rest + gap) == rest,
    decreases gap.len(),
{
    if gap.len() > 0 {
        assert((rest + gap).last() == gap[gap.len() - 1]);
        assert((rest + gap).drop_last() =~= rest + gap.drop_last());
        lemma_trailing_space(rest, gap.drop_last());
    } else {
        assert(rest + gap =~= rest);
    }
}

/// Trimming takes the white space around a text off, all of it and nothing else.
pub proof fn trimming_takes_white_space_off(front: Seq<char>, text: Seq<char>, back: Seq<char>)
    requires
        forall|i: int| 0 <= i < front.len() ==> white_space(#[trigger] front[i]),
        forall|i: int| 0 <= i < back.len() ==> white_space(#[trigger] back[i]),
        text.len() > 0 ==> !white_space(text[0]) && !white_space(text.last()),
    ensures
        trimmed(front + text + back) == text,
        trimmed_start(front + text) == text,
        trimmed_end(text + back) == text,
{
    lemma_leading_space(front, text);
    lemma_trailing_space(text, back);
    if text.len() > 0 {
        assert(front + text + back =~= front + (text + back));
        lemma_leading_space(front, text + back);
    } else {
        let all = front + text + back;
        assert(all =~= all + Seq::<char>::empty());
        assert forall|i: int| 0 <= i < all.len() implies white_space(#[trigger] all[i]) by {
            if i >= front.len() {
                assert(all[i] == back[i - front.len()]);
            } else {
                assert(all[i] == front[i]);
            }
        }
        lemma_leading_space(all, Seq::empty());
        assert(trimmed(all) =~= text);
    }
}

/// A text ends where a character first occurs that it does not hold itself.
pub proof fn text_ends_at_first_occurrence(head: Seq<char>, c: char, tail: Seq<char>)
    requires
        !head.contains(c),
    ensures
        before(head, c) == head,
        before(head + seq![c] + tail, c) == head,
{
    let all = head + seq![c] + tail;
    assert forall|i: int| 0 <= i < head.len() implies head[i] != c by {
        assert(head.contains(head[i]));
    }
    lemma_before(head, c, head.len() as int);
    assert(head.take(head.len() as int) =~= head);
    assert forall|i: int| 0 <= i < head.len() implies all[i] != c by {
        assert(all[i] == head[i]);
    }
    lemma_before(all, c, head.len() as int);
    assert(all.take(head.len() as int) =~= head);
}

proof fn lemma_leading_word(word: Seq<char>, rest: Seq<char>)
    requires
        forall|i: int| 0 <= i < word.len() ==> !white_space(#[trigger] word[i]),
        rest.len() > 0 ==> white_space(rest[0]),
    ensures
        leading_word(word + rest) == word,
    decreases word.len(),
{
    if word.len() > 0 {
        assert((word + rest)[0] == word[0]);
        assert((word + rest).drop_first() =~= word.drop_first() + rest);
        lemma_leading_word(word.drop_first(), rest);
        assert(seq![word[0]] + word.drop_first() =~= word);
    } else {
        assert(word + rest =~= rest);
        assert(leading_word(rest) =~= word);
    }
}

/// The first word of a text is what stands behind the white space at its front, up to the next
/// white space. White space alone has no word.
pub proof fn first_word_stands_between_white_space(
    gap: Seq<char>,
    word: Seq<char>,
    rest: Seq<char>,
)
    requires
        forall|i: int| 0 <= i < gap.len() ==> white_space(#[trigger] gap[i]),
        forall|i: int| 0 <= i < word.len() ==> !white_space(#[trigger] word[i]),
        rest.len() > 0 ==> white_space(rest[0]),
    ensures
        word.len() > 0 ==> first_word(gap + word + rest) == Some(word),
        first_word(gap) is None,
{
    assert(gap + Seq::<char>::empty() =~= gap);
    lemma_leading_space(gap, Seq::empty());
    if word.len() > 0 {
        assert(gap + word + rest =~= gap + (word + rest));
        assert((word + rest)[0] == word[0]);
        lemma_leading_space(gap, word + rest);
        lemma_leading_word(word, rest);
    }
}

/// A text comes apart at a separator, wherever one stands.
pub proof fn pieces_end_at_separators(head: Seq<char>, c: char, tail: Seq<char>)
    requires
        !head.contains(c),
    ensures
        pieces(head, c) == seq![head],
        pieces(head + seq![c] + tail, c) == seq![head] + pieces(tail, c),
{
    let all = head + seq![c] + tail;
    lemma_one_piece(head, c);
    text_ends_at_first_occurrence(head, c, tail);
    assert(all.skip(head.len() + 1int) =~= tail);
}

/// A line feed ends a line, with the carriage return before it, and a text ends its last line.
pub proof fn lines_end_at_line_feeds(line: Seq<char>, tail: Seq<char>)
    requires
        !line.contains('\n'),
    ensures
        lines(Seq::empty()) == Seq::<Seq<char>>::empty(),
        line.len() > 0 ==> lines(line) == seq![line],
        lines(line + seq!['\r', '\n'] + tail) == seq![line] + lines(tail),
        line.len() == 0 || line.last() != '\r' ==> lines(line + seq!['\n'] + tail) == seq![line]
            + lines(tail),
{
    text_ends_at_first_occurrence(line, '\n', tail);
    let plain = line + seq!['\n'] + tail;
    assert(plain.skip(line.len() + 1int) =~= tail);
    let head = line.push('\r');
    assert(!head.contains('\n')) by {
        if head.contains('\n') {
            let i = choose|i: int| 0 <= i < head.len() && head[i] == '\n';
            assert(line[i] == '\n');
        }
    }
    text_ends_at_first_occurrence(head, '\n', tail);
    let all = line + seq!['\r', '\n'] + tail;
    assert(all =~= head + seq!['\n'] + tail);
    assert(all.skip(head.len() + 1int) =~= tail);
    assert(head.drop_last() =~= line);
}

/// The lines of texts that stand one after the other are the lines of the one and then those of
/// the other, where the first ends in a line feed.
pub proof fn lines_add_up(front: Seq<char>, back: Seq<char>)
    requires
        front.len() == 0 || front.last() == '\n',
    ensures
        lines(front + back) == lines(front) + lines(back),
    decreases front.len(),
{
    if front.len() == 0 {
        assert(front + back =~= back);
        assert(lines(front) + lines(back) =~= lines(back));
    } else {
        assert(front.contains('\n')) by {
            assert(front[front.len() - 1] == '\n');
        }
        let n = front.index_of_first('\n')->0;
        front.index_of_first_ensures('\n');
        lemma_before(front, '\n', n);
        lemma_before(front + back, '\n', n);
        assert((front + back).take(n) =~= front.take(n));
        let rest = front.skip(n + 1);
        assert((front + back).skip(n + 1) =~= rest + back);
        if rest.len() > 0 {
            assert(rest.last() == front.last());
        }
        lines_add_up(rest, back);
        let first = seq![without_return(front.take(n))];
        assert(first + (lines(rest) + lines(back)) =~= first + lines(rest) + lines(back));
    }
}

/// Joining puts the separator between any two parts of a list, and nowhere else.
pub proof fn joining_separates_parts(
    front: Seq<Seq<char>>,
    back: Seq<Seq<char>>,
    text: Seq<char>,
    separator: Seq<char>,
)
    ensures
        joined(Seq::empty(), separator) == Seq::<char>::empty(),
        joined(seq![text], separator) == text,
        front.len() > 0 && back.len() > 0 ==> joined(front + back, separator) == joined(
            front,
            separator,
        ) + separator + joined(back, separator),
    decreases back.len(),
{
    if front.len() > 0 && back.len() == 1 {
        assert((front + back).drop_last() =~= front);
    } else if front.len() > 0 && back.len() > 1 {
        joining_separates_parts(front, back.drop_last(), text, separator);
        assert((front + back).drop_last() =~= front + back.drop_last());
        assert(joined(front + back, separator) =~= joined(front, separator) + separator + joined(
            back,
            separator,
        ));
    }
}

/// A line stands in its text at the front or behind a line feed.
pub proof fn lines_stand_in_the_text(s: Seq<char>, i: int) -> (front: Seq<char>)
    requires
        0 <= i < lines(s).len(),
    ensures
        front.len() == 0 || front.last() == '\n',
        (front + lines(s)[i]).is_prefix_of(s),
    decreases s.len(),
{
    let head = before(s, '\n');
    if s.contains('\n') {
        let n = s.index_of_first('\n')->0;
        s.index_of_first_ensures('\n');
        lemma_before(s, '\n', n);
        let rest = s.skip(n + 1);
        if i == 0 {
            let front = Seq::<char>::empty();
            assert(front + lines(s)[0] =~= s.subrange(0, lines(s)[0].len() as int));
            front
        } else {
            let inner = lines_stand_in_the_text(rest, i - 1);
            let front = s.take(n + 1) + inner;
            let line = lines(rest)[i - 1];
            assert(lines(s)[i] == line);
            assert(front + line =~= s.subrange(0, (front + line).len() as int)) by {
                assert(inner + line =~= rest.subrange(0, (inner + line).len() as int));
                assert forall|k: int| 0 <= k < (front + line).len() implies #[trigger] (front
                    + line)[k] == s[k] by {
                    if k >= n + 1 {
                        assert((front + line)[k] == (inner + line)[k - n - 1]);
                        assert((inner + line)[k - n - 1] == rest[k - n - 1]);
                    }
                }
            }
            front
        }
    } else {
        assert forall|k: int| 0 <= k < s.len() implies s[k] != '\n' by {
            assert(s.contains(s[k]));
        }
        lemma_before(s, '\n', s.len() as int);
        let front = Seq::<char>::empty();
        assert(front + s =~= s.subrange(0, s.len() as int));
        front
    }
}

/// A text starts with what stands before a character in it, and then that character follows, if
/// anything does.
pub proof fn text_goes_on_at_first_occurrence(s: Seq<char>, c: char)
    ensures
        !before(s, c).contains(c),
        s == before(s, c) || (before(s, c) + seq![c]).is_prefix_of(s),
{
    if s.contains(c) {
        let n = s.index_of_first(c)->0;
        s.index_of_first_ensures(c);
        lemma_before(s, c, n);
        let head = before(s, c);
        if head.contains(c) {
            let i = choose|i: int| 0 <= i < head.len() && head[i] == c;
            assert(s[i] == c);
        }
        assert(head + seq![c] =~= s.subrange(0, n + 1));
    } else {
        assert forall|i: int| 0 <= i < s.len() implies s[i] != c by {
            assert(s.contains(s[i]));
        }
        lemma_before(s, c, s.len() as int);
        assert(s.take(s.len() as int) =~= s);
    }
}

/// The pieces of a text that a separator parts in two are those of the one part and then those of
/// the other.
pub proof fn pieces_add_up(front: Seq<char>, c: char, back: Seq<char>)
    ensures
        pieces(front + seq![c] + back, c) == pieces(front, c) + pieces(back, c),
    decreases front.len(),
{
    if front.contains(c) {
        let n = front.index_of_first(c)->0;
        front.index_of_first_ensures(c);
        let head = front.take(n);
        let rest = front.skip(n + 1);
        assert(!head.contains(c)) by {
            if head.contains(c) {
                let i = choose|i: int| 0 <= i < head.len() && head[i] == c;
                assert(front[i] == c);
            }
        }
        pieces_add_up(rest, c, back);
        assert(front =~= head + seq![c] + rest);
        pieces_end_at_separators(head, c, rest);
        let tail = rest + seq![c] + back;
        assert(front + seq![c] + back =~= head + seq![c] + tail);
        pieces_end_at_separators(head, c, tail);
        assert(seq![head] + (pieces(rest, c) + pieces(back, c)) =~= seq![head] + pieces(rest, c)
            + pieces(back, c));
    } else {
        pieces_end_at_separators(front, c, back);
    }
}

/// Texts are known by their characters, in their order.
pub proof fn texts_are_known(list: Seq<String>)
    ensures
        views(list).len() == list.len(),
        forall|i: int| 0 <= i < list.len() ==> #[trigger] views(list)[i] == list[i]@,
{
}

} // verus!
