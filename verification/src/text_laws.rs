//! What the operations on text do, said in terms of the texts that go in and come out.
use crate::text::{
    ascii_lower, decimal, first_at, has_prefix, has_substring, has_suffix, is_white_space,
    last_segment_of, line_len, lines_of, occurs_at, same_ignoring_ascii_case, split_at_first,
    trimmed, trimmed_end, trimmed_start, without_cr, word_len, words,
};
use crate::text::{law_split_at_first, lemma_trimmed_start_len, lemma_word_len};
use vstd::prelude::*;

verus! {

/// A text begins with a part exactly where it is the part and something behind it.
pub proof fn law_prefix(s: Seq<char>, part: Seq<char>, rest: Seq<char>)
    ensures
        has_prefix(part + rest, part),
        has_prefix(s, part) ==> part.len() <= s.len() && s == part + s.skip(part.len() as int),
{
    assert((part + rest).subrange(0, part.len() as int) =~= part);
    if has_prefix(s, part) {
        assert(s =~= s.subrange(0, part.len() as int) + s.skip(part.len() as int));
    }
}

/// A text ends with a part exactly where it is something and the part behind it.
pub proof fn law_suffix(s: Seq<char>, part: Seq<char>, front: Seq<char>)
    ensures
        has_suffix(front + part, part),
        has_suffix(s, part) ==> part.len() <= s.len() && s == s.take(s.len() - part.len()) + part,
{
    assert((front + part).subrange(front.len() as int, (front + part).len() as int) =~= part);
    if has_suffix(s, part) {
        assert(s =~= s.take(s.len() - part.len()) + s.subrange(
            s.len() - part.len(),
            s.len() as int,
        ));
    }
}

/// The text is something, the part, and something behind it.
pub open spec fn is_made_of(s: Seq<char>, a: Seq<char>, part: Seq<char>, b: Seq<char>) -> bool {
    s == a + part + b
}

/// A part stands in a text exactly where the text is something, the part, and something
/// behind it.
pub proof fn law_substring(s: Seq<char>, part: Seq<char>, front: Seq<char>, rest: Seq<char>)
    ensures
        has_substring(front + part + rest, part),
        has_substring(s, part) ==> exists|a: Seq<char>, b: Seq<char>| #[trigger]
            is_made_of(s, a, part, b),
{
    let whole = front + part + rest;
    assert(whole.subrange(front.len() as int, front.len() as int + part.len()) =~= part);
    assert(occurs_at(whole, part, front.len() as int));
    if has_substring(s, part) {
        let at = choose|at: int| #[trigger] occurs_at(s, part, at);
        let a = s.take(at);
        let b = s.skip(at + part.len());
        assert(s =~= (a + s.subrange(at, at + part.len())) + b);
        assert(is_made_of(s, a, part, b));
    }
}

/// A text that holds a separator is cut at the first one, and one that does not is not cut.
pub proof fn law_split(before: Seq<char>, separator: Seq<char>, behind: Seq<char>)
    requires
        separator.len() > 0,
        forall|at: int|
            0 <= at < before.len() ==> !#[trigger] occurs_at(
                before + separator + behind,
                separator,
                at,
            ),
    ensures
        split_at_first(before + separator + behind, separator) == Some((before, behind)),
{
    let s = before + separator + behind;
    let n = before.len() as int;
    assert(s.subrange(n, n + separator.len()) =~= separator);
    assert(first_at(s, separator, n));
    let at = choose|at: int| first_at(s, separator, at);
    assert(first_at(s, separator, at));
    assert(occurs_at(s, separator, at) && occurs_at(s, separator, n));
    assert(at == n);
    assert(s.take(n) =~= before);
    assert(s.skip(n + separator.len()) =~= behind);
}

/// The separator stands nowhere before the place where a text is cut.
pub proof fn lemma_split_is_first(s: Seq<char>, separator: Seq<char>)
    requires
        has_substring(s, separator),
        separator.len() > 0,
    ensures
        split_at_first(s, separator) matches Some((before, behind)) && forall|at: int|
            0 <= at < before.len() ==> !#[trigger] occurs_at(s, separator, at),
{
    law_split_at_first(s, separator);
    let (before, behind) = split_at_first(s, separator)->0;
    assert forall|at: int| 0 <= at < before.len() implies !#[trigger] occurs_at(
        s,
        separator,
        at,
    ) by {
        crate::text::lemma_first_exists(s, separator);
        let first = choose|at: int| first_at(s, separator, at);
        assert(first_at(s, separator, first));
    }
}

/// A text that does not hold the separator is not cut.
pub proof fn law_no_split(s: Seq<char>, separator: Seq<char>)
    ensures
        split_at_first(s, separator) is Some ==> exists|a: Seq<char>, b: Seq<char>| #[trigger]
            is_made_of(s, a, separator, b),
{
    if split_at_first(s, separator) is Some {
        law_substring(s, separator, Seq::empty(), Seq::empty());
    }
}

/// The characters that are white space, by their numbers.
pub open spec fn white_space_numbers() -> Seq<u32> {
    seq![
        0x09u32, 0x0a, 0x0b, 0x0c, 0x0d, 0x20, 0x85, 0xa0, 0x1680, 0x2000, 0x2001, 0x2002, 0x2003,
        0x2004, 0x2005, 0x2006, 0x2007, 0x2008, 0x2009, 0x200a, 0x2028, 0x2029, 0x202f, 0x205f,
        0x3000,
    ]
}

/// Twenty-five characters are white space, and no others.
pub proof fn law_white_space(c: char)
    ensures
        is_white_space(c) == exists|i: int|
            0 <= i < 25 && #[trigger] white_space_numbers()[i] == c as u32,
{
    let n = white_space_numbers();
    if is_white_space(c) {
        let at: int = if c as u32 <= 0x0d {
            c as u32 - 0x09
        } else if c as u32 == 0x20 {
            5
        } else if c as u32 == 0x85 {
            6
        } else if c as u32 == 0xa0 {
            7
        } else if c as u32 == 0x1680 {
            8
        } else if c as u32 <= 0x200a {
            9 + (c as u32 - 0x2000)
        } else if c as u32 == 0x2028 {
            20
        } else if c as u32 == 0x2029 {
            21
        } else if c as u32 == 0x202f {
            22
        } else if c as u32 == 0x205f {
            23
        } else {
            24
        };
        assert(n[at] == c as u32);
    }
}

/// Only white space.
pub open spec fn all_white(s: Seq<char>) -> bool {
    forall|i: int| 0 <= i < s.len() ==> is_white_space(#[trigger] s[i])
}

/// No white space at all.
pub open spec fn none_white(s: Seq<char>) -> bool {
    forall|i: int| 0 <= i < s.len() ==> !is_white_space(#[trigger] s[i])
}

proof fn lemma_trim_front(front: Seq<char>, s: Seq<char>)
    requires
        all_white(front),
        s.len() > 0 ==> !is_white_space(s[0]),
    ensures
        trimmed_start(front + s) == s,
    decreases front.len(),
{
    let whole = front + s;
    if front.len() > 0 {
        assert(whole[0] == front[0]);
        assert(whole.skip(1) =~= front.skip(1) + s);
        assert forall|i: int| 0 <= i < front.skip(1).len() implies is_white_space(
            #[trigger] front.skip(1)[i],
        ) by {
            assert(front.skip(1)[i] == front[i + 1]);
        }
        lemma_trim_front(front.skip(1), s);
    } else {
        assert(whole =~= s);
    }
}

proof fn lemma_trim_back(s: Seq<char>, back: Seq<char>)
    requires
        all_white(back),
        s.len() > 0 ==> !is_white_space(s.last()),
    ensures
        trimmed_end(s + back) == s,
    decreases back.len(),
{
    let whole = s + back;
    if back.len() > 0 {
        assert(whole.last() == back[back.len() - 1]);
        assert(whole.drop_last() =~= s + back.drop_last());
        assert forall|i: int| 0 <= i < back.drop_last().len() implies is_white_space(
            #[trigger] back.drop_last()[i],
        ) by {
            assert(back.drop_last()[i] == back[i]);
        }
        lemma_trim_back(s, back.drop_last());
    } else {
        assert(whole =~= s);
    }
}

/// White space around a text is taken off, all of it, and nothing else.
pub proof fn law_trim(front: Seq<char>, s: Seq<char>, back: Seq<char>)
    requires
        all_white(front),
        all_white(back),
        s.len() > 0 ==> !is_white_space(s[0]) && !is_white_space(s.last()),
    ensures
        trimmed(front + s + back) == s,
{
    let whole = front + s + back;
    if s.len() > 0 {
        assert(whole =~= front + (s + back));
        assert((s + back)[0] == s[0]);
        lemma_trim_front(front, s + back);
    } else {
        let white = front + back;
        assert(whole =~= white + s);
        assert forall|i: int| 0 <= i < white.len() implies is_white_space(#[trigger] white[i]) by {
            if i < front.len() {
                assert(white[i] == front[i]);
            } else {
                assert(white[i] == back[i - front.len()]);
            }
        }
        lemma_trim_front(white, s);
        assert(s + Seq::<char>::empty() =~= s);
        lemma_trim_back(s, Seq::empty());
    }
    if s.len() > 0 {
        lemma_trim_back(s, back);
    }
}

proof fn lemma_words_of_white(s: Seq<char>)
    requires
        all_white(s),
    ensures
        words(s).len() == 0,
{
    lemma_trim_front(s, Seq::empty());
    assert(s + Seq::<char>::empty() =~= s);
}

proof fn lemma_word_run(s: Seq<char>, rest: Seq<char>)
    requires
        none_white(s),
        rest.len() > 0 ==> is_white_space(rest[0]),
    ensures
        word_len(s + rest) == s.len(),
    decreases s.len(),
{
    let whole = s + rest;
    if s.len() > 0 {
        assert(whole[0] == s[0]);
        assert(whole.skip(1) =~= s.skip(1) + rest);
        assert forall|i: int| 0 <= i < s.skip(1).len() implies !is_white_space(
            #[trigger] s.skip(1)[i],
        ) by {
            assert(s.skip(1)[i] == s[i + 1]);
        }
        lemma_word_run(s.skip(1), rest);
    } else {
        assert(whole =~= rest);
    }
}

/// A text without white space is one word, and white space alone holds none.
pub proof fn law_one_word(word: Seq<char>, white: Seq<char>)
    requires
        word.len() > 0,
        none_white(word),
        all_white(white),
    ensures
        words(word) == seq![word],
        words(white) == Seq::<Seq<char>>::empty(),
{
    lemma_words_of_white(white);
    assert(words(white) =~= Seq::empty());
    assert(word + Seq::<char>::empty() =~= word);
    lemma_word_run(word, Seq::empty());
    assert(trimmed_start(word) == word);
    assert(word.take(word.len() as int) =~= word);
    lemma_words_of_white(word.skip(word.len() as int));
    assert(words(word) =~= seq![word]);
}

/// A leading word: the text is the word and what follows it, which begins with white space.
proof fn lemma_words_split_at(s: Seq<char>)
    requires
        s.len() > 0,
        !is_white_space(s[0]),
    ensures
        word_len(s) > 0,
        word_len(s) <= s.len(),
        none_white(s.take(word_len(s) as int)),
        word_len(s) < s.len() ==> is_white_space(s[word_len(s) as int]),
    decreases s.len(),
{
    lemma_word_len(s);
    let rest = s.skip(1);
    let n = word_len(s) as int;
    if rest.len() > 0 && !is_white_space(rest[0]) {
        lemma_words_split_at(rest);
        assert forall|i: int| 0 <= i < n implies !is_white_space(#[trigger] s.take(n)[i]) by {
            if i > 0 {
                assert(rest.take(n - 1)[i - 1] == s[i]);
            }
        }
        if n < s.len() {
            assert(rest[n - 1] == s[n]);
        }
    } else {
        reveal_with_fuel(word_len, 2);
        assert(n == 1);
        if n < s.len() {
            assert(rest[0] == s[1]);
        }
    }
}

proof fn lemma_trim_gap(a: Seq<char>, b: Seq<char>)
    ensures
        trimmed_start(a).len() > 0 ==> trimmed_start(a + b) == trimmed_start(a) + b,
        trimmed_start(a).len() == 0 ==> trimmed_start(a + b) == trimmed_start(b),
    decreases a.len(),
{
    let whole = a + b;
    if a.len() > 0 && is_white_space(a[0]) {
        assert(whole[0] == a[0]);
        assert(whole.skip(1) =~= a.skip(1) + b);
        lemma_trim_gap(a.skip(1), b);
    } else if a.len() > 0 {
        assert(whole[0] == a[0]);
    } else {
        assert(whole =~= b);
    }
}

/// The words of two texts with white space between them are those of the first and behind
/// them those of the second.
pub proof fn law_words_of_two(a: Seq<char>, gap: char, b: Seq<char>)
    requires
        is_white_space(gap),
    ensures
        words(a.push(gap) + b) == words(a) + words(b),
    decreases a.len(),
{
    let whole = a.push(gap) + b;
    let head = trimmed_start(a);
    lemma_trimmed_start_len(a);
    let tail = seq![gap] + b;
    assert(whole =~= a + tail);
    lemma_trim_gap(a, tail);
    if head.len() == 0 {
        assert(tail.skip(1) =~= b);
        assert(trimmed_start(tail) == trimmed_start(b));
        assert(words(whole) =~= words(a) + words(b));
    } else {
        lemma_words_split_at(head);
        let n = word_len(head) as int;
        let more = head + tail;
        let first = head.take(n);
        let rest = head.skip(n);
        assert(more =~= first + (rest + tail));
        assert((rest + tail)[0] == (if n < head.len() {
            head[n]
        } else {
            gap
        }));
        lemma_word_run(first, rest + tail);
        assert(more.take(n) =~= first);
        assert(more.skip(n) =~= rest.push(gap) + b);
        law_words_of_two(rest, gap, b);
        assert(words(whole) =~= words(a) + words(b));
    }
}

proof fn lemma_line_run(line: Seq<char>, rest: Seq<char>)
    requires
        forall|i: int| 0 <= i < line.len() ==> #[trigger] line[i] != '\n',
        rest.len() > 0 ==> rest[0] == '\n',
    ensures
        line_len(line + rest) == line.len(),
    decreases line.len(),
{
    let whole = line + rest;
    if line.len() > 0 {
        assert(whole[0] == line[0]);
        assert(whole.skip(1) =~= line.skip(1) + rest);
        assert forall|i: int| 0 <= i < line.skip(1).len() implies #[trigger] line.skip(1)[i]
            != '\n' by {
            assert(line.skip(1)[i] == line[i + 1]);
        }
        lemma_line_run(line.skip(1), rest);
    } else {
        assert(whole =~= rest);
    }
}

/// A line ends before a line feed, with or without a carriage return before it, and what
/// follows are the further lines; what has no line feed is one line, as it is.
pub proof fn law_lines(line: Seq<char>, rest: Seq<char>)
    requires
        forall|i: int| 0 <= i < line.len() ==> #[trigger] line[i] != '\n',
    ensures
        line.len() > 0 ==> lines_of(line) == seq![line],
        line.len() == 0 || line.last() != '\r' ==> lines_of(line.push('\n') + rest) == seq![line]
            + lines_of(rest),
        lines_of(line.push('\r').push('\n') + rest) == seq![line] + lines_of(rest),
        lines_of(Seq::empty()) == Seq::<Seq<char>>::empty(),
{
    assert(lines_of(Seq::empty()) =~= Seq::<Seq<char>>::empty());
    assert(line + Seq::<char>::empty() =~= line);
    lemma_line_run(line, Seq::empty());
    let end = seq!['\n'] + rest;
    let plain = line.push('\n') + rest;
    assert(plain =~= line + end);
    lemma_line_run(line, end);
    assert(plain.take(line.len() as int) =~= line);
    assert(plain.skip(line.len() as int + 1) =~= rest);
    let with_return = line.push('\r');
    let full = with_return.push('\n') + rest;
    assert(full =~= with_return + end);
    lemma_line_run(with_return, end);
    assert(full.take(with_return.len() as int) =~= with_return);
    assert(full.skip(with_return.len() as int + 1) =~= rest);
    assert(without_cr(with_return) =~= line);
}

/// What stands behind the last separator is all that follows it, and all of a text without
/// one.
pub proof fn law_last_segment(front: Seq<char>, segment: Seq<char>, separator: char)
    requires
        forall|i: int| 0 <= i < segment.len() ==> #[trigger] segment[i] != separator,
    ensures
        last_segment_of(segment, separator) == segment,
        last_segment_of(front.push(separator) + segment, separator) == segment,
    decreases segment.len(),
{
    let whole = front.push(separator) + segment;
    if segment.len() == 0 {
        assert(whole.last() == separator);
        assert(last_segment_of(segment, separator) =~= segment);
        assert(last_segment_of(whole, separator) =~= segment);
    } else {
        let shorter = segment.drop_last();
        assert forall|i: int| 0 <= i < shorter.len() implies #[trigger] shorter[i] != separator by {
            assert(shorter[i] == segment[i]);
        }
        law_last_segment(front, shorter, separator);
        assert(segment.last() == segment[segment.len() - 1]);
        assert(whole.last() == segment.last());
        assert(whole.drop_last() =~= front.push(separator) + shorter);
        assert(last_segment_of(segment, separator) =~= segment);
        assert(last_segment_of(whole, separator) =~= segment);
    }
}

/// Two characters are the same letter of the Latin alphabet, one large and one small.
pub open spec fn differ_in_case(large: char, small: char) -> bool {
    'A' <= large && large <= 'Z' && small as u32 == large as u32 + 32
}

/// Two texts are equal but for case where each character of one is that of the other, or the
/// same letter in the other case.
pub proof fn law_same_ignoring_case(a: Seq<char>, b: Seq<char>)
    ensures
        same_ignoring_ascii_case(a, b) == (a.len() == b.len() && forall|i: int|
            0 <= i < a.len() ==> #[trigger] a[i] == b[i] || differ_in_case(a[i], b[i])
                || differ_in_case(b[i], a[i])),
{
    if a.len() == b.len() {
        assert forall|i: int| 0 <= i < a.len() implies (ascii_lower(#[trigger] a[i])
            == ascii_lower(b[i])) == (a[i] == b[i] || differ_in_case(a[i], b[i])
            || differ_in_case(b[i], a[i])) by {}
        if same_ignoring_ascii_case(a, b) {
            assert forall|i: int| 0 <= i < a.len() implies #[trigger] a[i] == b[i]
                || differ_in_case(a[i], b[i]) || differ_in_case(b[i], a[i]) by {
                assert(ascii_lower(a[i]) == ascii_lower(b[i]));
            }
        } else {
            let i = choose|i: int|
                0 <= i < a.len() && ascii_lower(#[trigger] a[i]) != ascii_lower(b[i]);
            assert(!(a[i] == b[i] || differ_in_case(a[i], b[i]) || differ_in_case(b[i], a[i])));
        }
    }
}

/// The digits of a number: the last one is what is left over by tens, and before it stand the
/// digits of the tens.
pub proof fn law_decimal(tens: nat, ones: nat)
    requires
        ones < 10,
    ensures
        decimal(ones).len() == 1,
        decimal(ones)[0] as u32 == '0' as u32 + ones,
        tens > 0 ==> decimal(10 * tens + ones) == decimal(tens).push(decimal(ones)[0]),
{
    let n = 10 * tens + ones;
    assert(n / 10 == tens && n % 10 == ones);
}

} // verus!
