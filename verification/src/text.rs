//! Text operations on characters, each with an exact contract over `Seq<char>`.
use vstd::prelude::*;
use vstd::string::*;

verus! {

/// `part` stands in `s` at position `at`.
pub open spec fn occurs_at(s: Seq<char>, part: Seq<char>, at: int) -> bool {
    &&& 0 <= at
    &&& at + part.len() <= s.len()
    &&& s.subrange(at, at + part.len()) == part
}

/// `part` stands in `s` at some position.
pub open spec fn has_substring(s: Seq<char>, part: Seq<char>) -> bool {
    exists|at: int| #[trigger] occurs_at(s, part, at)
}

/// `part` stands in `s` at `at` and nowhere before it.
pub open spec fn first_at(s: Seq<char>, part: Seq<char>, at: int) -> bool {
    &&& occurs_at(s, part, at)
    &&& forall|earlier: int| 0 <= earlier < at ==> !#[trigger] occurs_at(s, part, earlier)
}

/// What stands before and behind the first `separator` in `s`, where there is one.
pub open spec fn split_at_first(s: Seq<char>, separator: Seq<char>) -> Option<
    (Seq<char>, Seq<char>),
> {
    if has_substring(s, separator) {
        let at = choose|at: int| first_at(s, separator, at);
        Some((s.take(at), s.skip(at + separator.len())))
    } else {
        None
    }
}

/// `s` begins with `part`.
pub open spec fn has_prefix(s: Seq<char>, part: Seq<char>) -> bool {
    occurs_at(s, part, 0)
}

/// `s` ends with `part`.
pub open spec fn has_suffix(s: Seq<char>, part: Seq<char>) -> bool {
    occurs_at(s, part, s.len() - part.len())
}

/// The characters that Unicode lists as White_Space.
pub open spec fn is_white_space(c: char) -> bool {
    ||| 0x09 <= c as u32 && c as u32 <= 0x0d
    ||| c as u32 == 0x20
    ||| c as u32 == 0x85
    ||| c as u32 == 0xa0
    ||| c as u32 == 0x1680
    ||| 0x2000 <= c as u32 && c as u32 <= 0x200a
    ||| c as u32 == 0x2028
    ||| c as u32 == 0x2029
    ||| c as u32 == 0x202f
    ||| c as u32 == 0x205f
    ||| c as u32 == 0x3000
}

/// `s` without its leading white space.
pub open spec fn trimmed_start(s: Seq<char>) -> Seq<char>
    decreases s.len(),
{
    if s.len() > 0 && is_white_space(s[0]) {
        trimmed_start(s.skip(1))
    } else {
        s
    }
}

/// `s` without its trailing white space.
pub open spec fn trimmed_end(s: Seq<char>) -> Seq<char>
    decreases s.len(),
{
    if s.len() > 0 && is_white_space(s.last()) {
        trimmed_end(s.drop_last())
    } else {
        s
    }
}

/// `s` without leading and trailing white space.
pub open spec fn trimmed(s: Seq<char>) -> Seq<char> {
    trimmed_end(trimmed_start(s))
}

/// The length of the run without white space at the head of `s`.
pub open spec fn word_len(s: Seq<char>) -> nat
    decreases s.len(),
{
    if s.len() > 0 && !is_white_space(s[0]) {
        1 + word_len(s.skip(1))
    } else {
        0
    }
}

/// The maximal runs of `s` without white space, in order.
pub open spec fn words(s: Seq<char>) -> Seq<Seq<char>>
    decreases s.len(),
{
    let rest = trimmed_start(s);
    if rest.len() == 0 {
        Seq::empty()
    } else {
        proof {
            lemma_trimmed_start_len(s);
            lemma_word_len(rest);
        }
        seq![rest.take(word_len(rest) as int)] + words(rest.skip(word_len(rest) as int))
    }
}

/// The lines of `s`: a line ends before `\n` or `\r\n`; the last may have no end.
pub open spec fn lines_of(s: Seq<char>) -> Seq<Seq<char>>
    decreases s.len(),
{
    if s.len() == 0 {
        Seq::empty()
    } else {
        let n = line_len(s);
        if n < s.len() {
            seq![without_cr(s.take(n as int))] + lines_of(s.skip(n as int + 1))
        } else {
            seq![s]
        }
    }
}

/// The number of characters before the first `\n` of `s`, or all of them.
pub open spec fn line_len(s: Seq<char>) -> nat
    decreases s.len(),
{
    if s.len() > 0 && s[0] != '\n' {
        1 + line_len(s.skip(1))
    } else {
        0
    }
}

/// `s` without one `\r` at its end.
pub open spec fn without_cr(s: Seq<char>) -> Seq<char> {
    if s.len() > 0 && s.last() == '\r' {
        s.drop_last()
    } else {
        s
    }
}

/// What stands in `s` behind its last `separator`; all of `s` where there is none.
pub open spec fn last_segment_of(s: Seq<char>, separator: char) -> Seq<char>
    decreases s.len(),
{
    if s.len() == 0 || s.last() == separator {
        Seq::empty()
    } else {
        last_segment_of(s.drop_last(), separator).push(s.last())
    }
}

/// The lower case of an ASCII letter; any other character is itself.
pub open spec fn ascii_lower(c: char) -> char {
    if 'A' <= c && c <= 'Z' {
        (c as u32 + 32) as char
    } else {
        c
    }
}

/// The two texts are equal but for the case of ASCII letters.
pub open spec fn same_ignoring_ascii_case(a: Seq<char>, b: Seq<char>) -> bool {
    &&& a.len() == b.len()
    &&& forall|i: int| 0 <= i < a.len() ==> ascii_lower(#[trigger] a[i]) == ascii_lower(b[i])
}

/// The decimal digit with the value `n`.
pub open spec fn digit(n: nat) -> char {
    (48 + n) as char
}

/// The decimal notation of `n`, without leading zeros.
pub open spec fn decimal(n: nat) -> Seq<char>
    decreases n,
{
    if n < 10 {
        seq![digit(n)]
    } else {
        decimal(n / 10).push(digit(n % 10))
    }
}

/// What the Unicode lower-case mapping of `str::to_lowercase` makes of a text.
pub uninterp spec fn lowercased(s: Seq<char>) -> Seq<char>;

/// Trimming shortens a text, and leaves no white space at its head.
pub proof fn lemma_trimmed_start_len(s: Seq<char>)
    ensures
        trimmed_start(s).len() <= s.len(),
        trimmed_start(s).len() > 0 ==> !is_white_space(trimmed_start(s)[0]),
    decreases s.len(),
{
    if s.len() > 0 && is_white_space(s[0]) {
        lemma_trimmed_start_len(s.skip(1));
    }
}

/// A word is no longer than its text, and not empty at a head without white space.
pub proof fn lemma_word_len(s: Seq<char>)
    ensures
        word_len(s) <= s.len(),
        s.len() > 0 && !is_white_space(s[0]) ==> word_len(s) > 0,
    decreases s.len(),
{
    if s.len() > 0 && !is_white_space(s[0]) {
        lemma_word_len(s.skip(1));
    }
}

/// A text with something other than white space in it trims to a text that is not
/// empty, and only such a text does.
pub proof fn law_trimmed_empty(s: Seq<char>)
    ensures
        trimmed(s).len() == 0 <==> forall|i: int| 0 <= i < s.len() ==> is_white_space(#[trigger] s[i]),
{
    lemma_trimmed_start_empty(s);
    lemma_trimmed_start_len(s);
    let rest = trimmed_start(s);
    if rest.len() > 0 {
        lemma_trimmed_end_keeps(rest);
    }
}

proof fn lemma_trimmed_start_empty(s: Seq<char>)
    ensures
        trimmed_start(s).len() == 0 <==> forall|i: int| 0 <= i < s.len() ==> is_white_space(#[trigger] s[i]),
    decreases s.len(),
{
    if s.len() > 0 && is_white_space(s[0]) {
        lemma_trimmed_start_empty(s.skip(1));
        assert forall|i: int| 0 <= i < s.len() && (forall|j: int| 0 <= j < s.skip(1).len() ==> is_white_space(#[trigger] s.skip(1)[j]))
            implies is_white_space(#[trigger] s[i]) by {
            if i > 0 {
                assert(s.skip(1)[i - 1] == s[i]);
            }
        }
        assert forall|j: int| 0 <= j < s.skip(1).len() && (forall|i: int| 0 <= i < s.len() ==> is_white_space(#[trigger] s[i]))
            implies is_white_space(#[trigger] s.skip(1)[j]) by {
            assert(s.skip(1)[j] == s[j + 1]);
        }
    }
}

proof fn lemma_trimmed_end_keeps(s: Seq<char>)
    requires
        s.len() > 0,
        !is_white_space(s[0]),
    ensures
        trimmed_end(s).len() > 0,
    decreases s.len(),
{
    if is_white_space(s.last()) {
        lemma_trimmed_end_keeps(s.drop_last());
    }
}

/// The decimal notation tells numbers apart.
pub proof fn law_decimal_injective(a: nat, b: nat)
    requires
        decimal(a) == decimal(b),
    ensures
        a == b,
    decreases a,
{
    reveal_with_fuel(decimal, 2);
    lemma_decimal_len(a);
    lemma_decimal_len(b);
    if a < 10 && b < 10 {
        assert(decimal(a)[0] == digit(a));
        assert(decimal(b)[0] == digit(b));
    } else {
        assert(decimal(a).last() == digit(a % 10));
        assert(decimal(b).last() == digit(b % 10));
        assert(a >= 10 && b >= 10);
        assert(decimal(a).drop_last() =~= decimal(a / 10));
        assert(decimal(b).drop_last() =~= decimal(b / 10));
        law_decimal_injective(a / 10, b / 10);
    }
}

proof fn lemma_decimal_len(n: nat)
    ensures
        decimal(n).len() >= 1,
        n >= 10 ==> decimal(n).len() >= 2,
    decreases n,
{
    if n >= 10 {
        lemma_decimal_len(n / 10);
    }
}

/// The characters of a string, in order.
pub fn chars_of(s: &str) -> (chars: Vec<char>)
    ensures
        chars@ == s@,
{
    let mut out: Vec<char> = Vec::new();
    for c in it: s.chars()
        invariant
            it.seq() == s@,
            out@ == s@.take(it.index()),
    {
        out.push(c);
    }
    assert(s@.take(s@.len() as int) =~= s@);
    out
}

/// The two strings hold the same characters.
pub fn text_eq(a: &str, b: &str) -> (same: bool)
    ensures
        same == (a@ == b@),
{
    a.to_owned() == b.to_owned()
}

/// Does `part` stand in `chars` at `at`?
fn matches_at(chars: &Vec<char>, part: &Vec<char>, at: usize) -> (found: bool)
    requires
        at + part@.len() <= chars@.len(),
    ensures
        found == occurs_at(chars@, part@, at as int),
{
    let total: usize = chars.len();
    let mut i: usize = 0;
    while i < part.len()
        invariant
            total == chars@.len(),
            at + part@.len() <= total,
            i <= part@.len(),
            forall|j: int| 0 <= j < i ==> chars@[at + j] == #[trigger] part@[j],
        decreases part@.len() - i,
    {
        if chars[at + i] != part[i] {
            proof {
                assert(chars@.subrange(at as int, at + part@.len())[i as int] == chars@[at + i]);
            }
            return false;
        }
        i = i + 1;
    }
    assert(chars@.subrange(at as int, at + part@.len()) =~= part@);
    true
}

/// The first position of `part` in `s`, counted in characters.
pub fn find(s: &str, part: &str) -> (position: Option<usize>)
    ensures
        (match position {
            Some(at) => first_at(s@, part@, at as int),
            None => !has_substring(s@, part@),
        }),
{
    let chars: Vec<char> = chars_of(s);
    let wanted: Vec<char> = chars_of(part);
    if wanted.len() > chars.len() {
        return None;
    }
    let last: usize = chars.len() - wanted.len();
    let mut at: usize = 0;
    while at <= last
        invariant
            chars@ == s@,
            wanted@ == part@,
            last + wanted@.len() == chars@.len(),
            at <= last + 1,
            forall|earlier: int| 0 <= earlier < at ==> !#[trigger] occurs_at(s@, part@, earlier),
        decreases last + 1 - at,
    {
        if matches_at(&chars, &wanted, at) {
            return Some(at);
        }
        if at == last {
            return None;
        }
        at = at + 1;
    }
    None
}

/// Does `part` stand somewhere in `s`?
pub fn contains(s: &str, part: &str) -> (found: bool)
    ensures
        found == has_substring(s@, part@),
{
    match find(s, part) {
        Some(at) => {
            assert(occurs_at(s@, part@, at as int));
            true
        },
        None => false,
    }
}

/// Does `s` begin with `part`?
pub fn starts_with(s: &str, part: &str) -> (found: bool)
    ensures
        found == has_prefix(s@, part@),
{
    let chars: Vec<char> = chars_of(s);
    let wanted: Vec<char> = chars_of(part);
    wanted.len() <= chars.len() && matches_at(&chars, &wanted, 0)
}

/// Does `s` end with `part`?
pub fn ends_with(s: &str, part: &str) -> (found: bool)
    ensures
        found == has_suffix(s@, part@),
{
    let chars: Vec<char> = chars_of(s);
    let wanted: Vec<char> = chars_of(part);
    wanted.len() <= chars.len() && matches_at(&chars, &wanted, chars.len() - wanted.len())
}

/// `s` behind its prefix `part`, where it has it.
pub fn strip_prefix<'a>(s: &'a str, part: &str) -> (rest: Option<&'a str>)
    ensures
        rest is Some == has_prefix(s@, part@),
        rest matches Some(r) ==> r@ == s@.skip(part@.len() as int),
{
    if starts_with(s, part) {
        let n: usize = s.unicode_len();
        Some(s.substring_char(part.unicode_len(), n))
    } else {
        None
    }
}

/// `s` before its suffix `part`, where it has it.
pub fn strip_suffix<'a>(s: &'a str, part: &str) -> (rest: Option<&'a str>)
    ensures
        rest is Some == has_suffix(s@, part@),
        rest matches Some(r) ==> r@ == s@.take(s@.len() - part@.len()),
{
    if ends_with(s, part) {
        Some(s.substring_char(0, s.unicode_len() - part.unicode_len()))
    } else {
        None
    }
}

/// There is no more than one first position.
proof fn lemma_first_at_unique(s: Seq<char>, part: Seq<char>, a: int, b: int)
    requires
        first_at(s, part, a),
        first_at(s, part, b),
    ensures
        a == b,
{
    if a < b {
        assert(!occurs_at(s, part, a));
    } else if b < a {
        assert(!occurs_at(s, part, b));
    }
}

/// `s` before and behind the first `separator` in it, where there is one.
pub fn split_once<'a>(s: &'a str, separator: &str) -> (halves: Option<(&'a str, &'a str)>)
    ensures
        halves is Some == split_at_first(s@, separator@) is Some,
        halves matches Some((before, behind)) ==> split_at_first(s@, separator@) == Some(
            (before@, behind@),
        ),
{
    match find(s, separator) {
        Some(at) => {
            assert(occurs_at(s@, separator@, at as int));
            let n: usize = s.unicode_len();
            let m: usize = separator.unicode_len();
            let before: &str = s.substring_char(0, at);
            let behind: &str = s.substring_char(at + m, n);
            proof {
                let first = choose|at: int| first_at(s@, separator@, at);
                lemma_first_at_unique(s@, separator@, first, at as int);
                assert(before@ =~= s@.take(first));
                assert(behind@ =~= s@.skip(first + separator@.len()));
            }
            Some((before, behind))
        },
        None => None,
    }
}

/// A text that is split and put together again with the separator is what it was, and the
/// separator does not stand in the first half.
pub proof fn law_split_at_first(s: Seq<char>, separator: Seq<char>)
    requires
        has_substring(s, separator),
        separator.len() > 0,
    ensures
        split_at_first(s, separator) matches Some((before, behind)) && s == before + separator
            + behind && !has_substring(before, separator),
{
    lemma_first_exists(s, separator);
    let at = choose|at: int| first_at(s, separator, at);
    assert(first_at(s, separator, at));
    let before = s.take(at);
    let behind = s.skip(at + separator.len());
    assert(s =~= before + s.subrange(at, at + separator.len()) + behind);
    if has_substring(before, separator) {
        let k = choose|k: int| occurs_at(before, separator, k);
        assert(before.subrange(k, k + separator.len()) =~= s.subrange(k, k + separator.len()));
        assert(occurs_at(s, separator, k));
    }
}

/// Where a part stands somewhere, it stands somewhere first.
pub proof fn lemma_first_exists(s: Seq<char>, part: Seq<char>)
    requires
        has_substring(s, part),
    ensures
        exists|at: int| first_at(s, part, at),
{
    let at = choose|at: int| occurs_at(s, part, at);
    lemma_first_before(s, part, at);
}

proof fn lemma_first_before(s: Seq<char>, part: Seq<char>, at: int)
    requires
        occurs_at(s, part, at),
    ensures
        exists|first: int| first_at(s, part, first),
    decreases at,
{
    if exists|earlier: int| 0 <= earlier < at && #[trigger] occurs_at(s, part, earlier) {
        let earlier = choose|earlier: int|
            0 <= earlier < at && #[trigger] occurs_at(s, part, earlier);
        lemma_first_before(s, part, earlier);
    } else {
        assert(first_at(s, part, at));
    }
}

/// Is `c` white space?
pub fn is_whitespace(c: char) -> (yes: bool)
    ensures
        yes == is_white_space(c),
{
    let n: u32 = c as u32;
    (0x09 <= n && n <= 0x0d) || n == 0x20 || n == 0x85 || n == 0xa0 || n == 0x1680 || (0x2000 <= n
        && n <= 0x200a) || n == 0x2028 || n == 0x2029 || n == 0x202f || n == 0x205f || n == 0x3000
}

/// The first position at or behind `from` without white space.
fn skip_white(chars: &Vec<char>, from: usize) -> (at: usize)
    requires
        from <= chars@.len(),
    ensures
        from <= at <= chars@.len(),
        trimmed_start(chars@.skip(from as int)) == chars@.skip(at as int),
{
    let mut at: usize = from;
    while at < chars.len() && is_whitespace(chars[at])
        invariant
            from <= at <= chars@.len(),
            trimmed_start(chars@.skip(from as int)) == trimmed_start(chars@.skip(at as int)),
        decreases chars@.len() - at,
    {
        assert(chars@.skip(at as int)[0] == chars@[at as int]);
        assert(chars@.skip(at as int).skip(1) =~= chars@.skip(at + 1));
        at = at + 1;
    }
    proof {
        if at < chars@.len() {
            assert(chars@.skip(at as int)[0] == chars@[at as int]);
        }
    }
    at
}

/// The first position at or behind `from` with white space.
fn skip_word(chars: &Vec<char>, from: usize) -> (at: usize)
    requires
        from <= chars@.len(),
    ensures
        from <= at <= chars@.len(),
        word_len(chars@.skip(from as int)) == at - from,
{
    let mut at: usize = from;
    while at < chars.len() && !is_whitespace(chars[at])
        invariant
            from <= at <= chars@.len(),
            word_len(chars@.skip(from as int)) == (at - from) + word_len(chars@.skip(at as int)),
        decreases chars@.len() - at,
    {
        assert(chars@.skip(at as int)[0] == chars@[at as int]);
        assert(chars@.skip(at as int).skip(1) =~= chars@.skip(at + 1));
        at = at + 1;
    }
    proof {
        if at < chars@.len() {
            assert(chars@.skip(at as int)[0] == chars@[at as int]);
        }
    }
    at
}

/// `s` without leading and trailing white space.
pub fn trim<'a>(s: &'a str) -> (rest: &'a str)
    ensures
        rest@ == trimmed(s@),
{
    let chars: Vec<char> = chars_of(s);
    let from: usize = skip_white(&chars, 0);
    assert(s@.skip(0) =~= s@);
    let mut to: usize = chars.len();
    while from < to && is_whitespace(chars[to - 1])
        invariant
            chars@ == s@,
            from <= to <= chars@.len(),
            trimmed_end(s@.skip(from as int)) == trimmed_end(s@.subrange(from as int, to as int)),
        decreases to,
    {
        let ghost part = s@.subrange(from as int, to as int);
        assert(part.last() == chars@[to - 1]);
        assert(part.drop_last() =~= s@.subrange(from as int, to - 1));
        to = to - 1;
    }
    proof {
        let part = s@.subrange(from as int, to as int);
        if from < to {
            assert(part.last() == chars@[to - 1]);
        }
    }
    s.substring_char(from, to)
}

/// The words of `s`: its maximal runs without white space, in order.
pub fn split_whitespace(s: &str) -> (list: Vec<String>)
    ensures
        list.deep_view() == words(s@),
{
    let chars: Vec<char> = chars_of(s);
    let mut list: Vec<String> = Vec::new();
    let mut at: usize = 0;
    let mut more: bool = true;
    assert(s@.skip(0) =~= s@);
    assert(list.deep_view() + words(s@) =~= words(s@));
    while more
        invariant
            chars@ == s@,
            at <= chars@.len(),
            more ==> words(s@) == list.deep_view() + words(s@.skip(at as int)),
            !more ==> words(s@) == list.deep_view(),
        decreases chars@.len() - at + (if more { 1int } else { 0 }),
    {
        let from: usize = skip_white(&chars, at);
        let ghost tail = s@.skip(at as int);
        if from == chars.len() {
            assert(words(tail) =~= Seq::<Seq<char>>::empty());
            assert(list.deep_view() + words(tail) =~= list.deep_view());
            more = false;
        } else {
            let to: usize = skip_word(&chars, from);
            let ghost rest = trimmed_start(tail);
            proof {
                lemma_trimmed_start_len(tail);
                lemma_word_len(rest);
                assert(rest == s@.skip(from as int));
                assert(rest.take(to - from) =~= s@.subrange(from as int, to as int));
                assert(rest.skip(to - from) =~= s@.skip(to as int));
            }
            let ghost before = list.deep_view();
            let word: String = s.substring_char(from, to).to_owned();
            list.push(word);
            assert(list.deep_view() =~= before.push(s@.subrange(from as int, to as int)));
            assert(before + words(tail) =~= list.deep_view() + words(s@.skip(to as int)));
            at = to;
        }
    }
    list
}

/// The first word of `s`, where it has one.
pub fn first_word(s: &str) -> (word: Option<String>)
    ensures
        (match word {
            Some(w) => words(s@).len() > 0 && w@ == words(s@)[0],
            None => words(s@).len() == 0,
        }),
{
    let chars: Vec<char> = chars_of(s);
    assert(s@.skip(0) =~= s@);
    let from: usize = skip_white(&chars, 0);
    if from == chars.len() {
        return None;
    }
    let to: usize = skip_word(&chars, from);
    proof {
        lemma_trimmed_start_len(s@);
        lemma_word_len(trimmed_start(s@));
        assert(trimmed_start(s@).take(to - from) =~= s@.subrange(from as int, to as int));
    }
    Some(s.substring_char(from, to).to_owned())
}

/// The lines of `s`.
pub fn lines(s: &str) -> (list: Vec<String>)
    ensures
        list.deep_view() == lines_of(s@),
{
    let chars: Vec<char> = chars_of(s);
    let mut list: Vec<String> = Vec::new();
    let mut at: usize = 0;
    assert(s@.skip(0) =~= s@);
    assert(list.deep_view() + lines_of(s@) =~= lines_of(s@));
    while at < chars.len()
        invariant
            chars@ == s@,
            at <= chars@.len(),
            lines_of(s@) == list.deep_view() + lines_of(s@.skip(at as int)),
        decreases chars@.len() - at,
    {
        let ghost tail = s@.skip(at as int);
        let mut to: usize = at;
        while to < chars.len() && chars[to] != '\n'
            invariant
                chars@ == s@,
                at <= to <= chars@.len(),
                tail == s@.skip(at as int),
                line_len(tail) == (to - at) + line_len(s@.skip(to as int)),
            decreases chars@.len() - to,
        {
            assert(s@.skip(to as int)[0] == chars@[to as int]);
            assert(s@.skip(to as int).skip(1) =~= s@.skip(to + 1));
            to = to + 1;
        }
        let ghost before = list.deep_view();
        if to < chars.len() {
            assert(s@.skip(to as int)[0] == '\n');
            assert(line_len(tail) == to - at);
            assert(tail.take(to - at) =~= s@.subrange(at as int, to as int));
            assert(tail.skip(to - at + 1) =~= s@.skip(to + 1));
            let end: usize = if at < to && chars[to - 1] == '\r' {
                to - 1
            } else {
                to
            };
            assert(s@.subrange(at as int, end as int) =~= without_cr(tail.take(to - at)));
            let line: String = s.substring_char(at, end).to_owned();
            list.push(line);
            assert(list.deep_view() =~= before.push(without_cr(tail.take(to - at))));
            assert(before + lines_of(tail) =~= list.deep_view() + lines_of(s@.skip(to + 1)));
            at = to + 1;
        } else {
            assert(line_len(tail) == tail.len());
            assert(tail =~= s@.subrange(at as int, to as int));
            let line: String = s.substring_char(at, to).to_owned();
            list.push(line);
            assert(list.deep_view() =~= before.push(tail));
            assert(lines_of(s@.skip(to as int)) =~= Seq::<Seq<char>>::empty());
            assert(before + lines_of(tail) =~= list.deep_view() + lines_of(s@.skip(to as int)));
            at = to;
        }
    }
    assert(list.deep_view() + lines_of(s@.skip(at as int)) =~= list.deep_view());
    list
}

/// What stands in `s` behind its last `separator`.
pub fn last_segment<'a>(s: &'a str, separator: char) -> (segment: &'a str)
    ensures
        segment@ == last_segment_of(s@, separator),
{
    let chars: Vec<char> = chars_of(s);
    let n: usize = chars.len();
    let mut from: usize = n;
    assert(s@.take(n as int) =~= s@);
    assert(last_segment_of(s@, separator) + s@.skip(n as int) =~= last_segment_of(s@, separator));
    while from > 0 && chars[from - 1] != separator
        invariant
            chars@ == s@,
            n == chars@.len(),
            from <= n,
            last_segment_of(s@, separator) == last_segment_of(s@.take(from as int), separator)
                + s@.skip(from as int),
        decreases from,
    {
        let ghost head = s@.take(from as int);
        assert(head.last() == chars@[from - 1]);
        assert(head.drop_last() =~= s@.take(from - 1));
        assert(last_segment_of(s@.take(from - 1), separator).push(s@[from - 1]) + s@.skip(from as int)
            =~= last_segment_of(s@.take(from - 1), separator) + s@.skip(from - 1));
        from = from - 1;
    }
    proof {
        if from > 0 {
            assert(s@.take(from as int).last() == chars@[from - 1]);
        }
        assert(last_segment_of(s@.take(from as int), separator) =~= Seq::<char>::empty());
        assert(s@.skip(from as int) =~= s@.subrange(from as int, n as int));
    }
    s.substring_char(from, n)
}

/// The lower case of an ASCII letter; any other character is itself.
fn lower(c: char) -> (l: u32)
    ensures
        l == ascii_lower(c) as u32,
{
    let n: u32 = c as u32;
    if 65 <= n && n <= 90 {
        n + 32
    } else {
        n
    }
}

/// Are the two strings equal but for the case of ASCII letters?
pub fn eq_ignore_ascii_case(a: &str, b: &str) -> (same: bool)
    ensures
        same == same_ignoring_ascii_case(a@, b@),
{
    let left: Vec<char> = chars_of(a);
    let right: Vec<char> = chars_of(b);
    if left.len() != right.len() {
        return false;
    }
    let mut i: usize = 0;
    while i < left.len()
        invariant
            left@ == a@,
            right@ == b@,
            left@.len() == right@.len(),
            i <= left@.len(),
            forall|j: int| 0 <= j < i ==> ascii_lower(#[trigger] a@[j]) == ascii_lower(b@[j]),
        decreases left@.len() - i,
    {
        if lower(left[i]) != lower(right[i]) {
            assert(ascii_lower(a@[i as int]) != ascii_lower(b@[i as int]));
            return false;
        }
        i = i + 1;
    }
    true
}

/// The decimal notation of `n`.
pub fn decimal_text(n: usize) -> (s: String)
    ensures
        s@ == decimal(n as nat),
    decreases n,
{
    let rest: usize = n % 10;
    let last: &str = digit_text(rest);
    if n < 10 {
        last.to_owned()
    } else {
        let mut s: String = decimal_text(n / 10);
        s.append(last);
        assert(s@ =~= decimal((n / 10) as nat).push(digit(rest as nat)));
        s
    }
}

fn digit_text(n: usize) -> (s: &'static str)
    requires
        n < 10,
    ensures
        s@ == seq![digit(n as nat)],
{
    proof {
        reveal_strlit("0");
        reveal_strlit("1");
        reveal_strlit("2");
        reveal_strlit("3");
        reveal_strlit("4");
        reveal_strlit("5");
        reveal_strlit("6");
        reveal_strlit("7");
        reveal_strlit("8");
        reveal_strlit("9");
    }
    match n {
        0 => "0",
        1 => "1",
        2 => "2",
        3 => "3",
        4 => "4",
        5 => "5",
        6 => "6",
        7 => "7",
        8 => "8",
        _ => "9",
    }
}

/// `str::to_lowercase`: the lower-case mapping of Unicode, whose result is a function of
/// the characters alone. What the mapping makes of a given text is left unsaid.
#[verifier::external_body]
pub(crate) fn to_lowercase(s: &str) -> (lower: String)
    ensures
        lower@ == lowercased(s@),
{
    s.to_lowercase()
}

} // verus!
