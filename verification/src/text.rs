//! Text as sequences of characters: searching, cutting at a separator,
//! and decimal numerals.

use vstd::prelude::*;

verus! {

/// The separator between the tokens of a request line and of a status line.
pub open spec fn space() -> Seq<char> {
    seq![' ']
}

/// The separator between a protocol's name and its version number.
pub open spec fn slash() -> Seq<char> {
    seq!['/']
}

/// The line end of the wire format.
pub open spec fn crlf() -> Seq<char> {
    seq!['\r', '\n']
}

/// The separator between a header's name and its value.
pub open spec fn colon_space() -> Seq<char> {
    seq![':', ' ']
}

/// What an optional string holds, as plain text.
pub open spec fn optional_text(text: Option<String>) -> Option<Seq<char>> {
    match text {
        Some(s) => Some(s@),
        None => None,
    }
}

/// `pattern` stands in `text` at position `at`.
pub open spec fn occurs_at(text: Seq<char>, pattern: Seq<char>, at: int) -> bool {
    &&& 0 <= at
    &&& at + pattern.len() <= text.len()
    &&& text.subrange(at, at + pattern.len()) =~= pattern
}

/// `pattern` stands in `text` at `at` and nowhere before.
pub open spec fn is_first_occurrence(text: Seq<char>, pattern: Seq<char>, at: int) -> bool {
    &&& occurs_at(text, pattern, at)
    &&& forall|earlier: int| 0 <= earlier < at ==> !occurs_at(text, pattern, earlier)
}

/// The position of the leftmost occurrence of `pattern` in `text`, if there is one.
pub open spec fn first_occurrence(text: Seq<char>, pattern: Seq<char>) -> Option<int> {
    if exists|at: int| occurs_at(text, pattern, at) {
        Some(choose|at: int| is_first_occurrence(text, pattern, at))
    } else {
        None
    }
}

/// `text` cut at the leftmost occurrence of `separator`: what stands before it,
/// and what follows it. Without an occurrence the whole text stands before and
/// nothing follows.
pub open spec fn cut(text: Seq<char>, separator: Seq<char>) -> (Seq<char>, Option<Seq<char>>) {
    match first_occurrence(text, separator) {
        Some(at) => (text.take(at), Some(text.skip(at + separator.len()))),
        None => (text, None),
    }
}

/// `text` ends with `suffix`.
pub open spec fn ends_with(text: Seq<char>, suffix: Seq<char>) -> bool {
    &&& suffix.len() <= text.len()
    &&& text.skip(text.len() - suffix.len()) =~= suffix
}

/// `pattern` occurs nowhere in `text`.
pub open spec fn lacks(text: Seq<char>, pattern: Seq<char>) -> bool {
    forall|at: int| !occurs_at(text, pattern, at)
}

/// How often the character `c` stands in `text`.
pub open spec fn count(text: Seq<char>, c: char) -> nat
    decreases text.len(),
{
    if text.len() == 0 {
        0
    } else if text[0] == c {
        1 + count(text.drop_first(), c)
    } else {
        count(text.drop_first(), c)
    }
}

proof fn lemma_least_occurrence(text: Seq<char>, pattern: Seq<char>, at: int)
    requires
        occurs_at(text, pattern, at),
    ensures
        exists|least: int| is_first_occurrence(text, pattern, least),
    decreases at,
{
    if exists|earlier: int| 0 <= earlier < at && occurs_at(text, pattern, earlier) {
        let earlier = choose|earlier: int| 0 <= earlier < at && occurs_at(text, pattern, earlier);
        lemma_least_occurrence(text, pattern, earlier);
    } else {
        assert(is_first_occurrence(text, pattern, at));
    }
}

/// `first_occurrence` yields the least position at which the pattern occurs,
/// and nothing exactly when the pattern occurs nowhere.
pub proof fn lemma_first_occurrence(text: Seq<char>, pattern: Seq<char>)
    ensures
        match first_occurrence(text, pattern) {
            Some(at) => is_first_occurrence(text, pattern, at),
            None => forall|at: int| !occurs_at(text, pattern, at),
        },
{
    if exists|at: int| occurs_at(text, pattern, at) {
        let at = choose|at: int| occurs_at(text, pattern, at);
        lemma_least_occurrence(text, pattern, at);
    }
}

/// A position that is a first occurrence is the one `first_occurrence` yields.
pub proof fn lemma_first_occurrence_unique(text: Seq<char>, pattern: Seq<char>, at: int)
    requires
        is_first_occurrence(text, pattern, at),
    ensures
        first_occurrence(text, pattern) == Some(at),
{
}

/// Cutting never lengthens: what follows the separator is shorter than the text.
pub proof fn lemma_cut_shrinks(text: Seq<char>, separator: Seq<char>)
    requires
        separator.len() > 0,
    ensures
        cut(text, separator).0.len() <= text.len(),
        cut(text, separator).1 matches Some(rest) ==> rest.len() + separator.len() + cut(
            text,
            separator,
        ).0.len() == text.len(),
{
    lemma_first_occurrence(text, separator);
}

/// A text put together from a part free of the separator, the separator and a
/// remainder is cut back into the part and the remainder.
pub proof fn lemma_cut_joined(before: Seq<char>, separator: Seq<char>, after: Seq<char>)
    requires
        forall|at: int| 0 <= at < before.len() ==> !occurs_at(before + separator, separator, at),
    ensures
        cut(before + separator + after, separator) == (before, Some(after)),
{
    let text = before + separator + after;
    let here = before.len() as int;
    assert forall|earlier: int| 0 <= earlier < here implies !occurs_at(
        text,
        separator,
        earlier,
    ) by {
        if occurs_at(text, separator, earlier) {
            assert(occurs_at(before + separator, separator, earlier));
        }
    }
    lemma_first_occurrence_unique(text, separator, here);
}

/// Where a one-character pattern occurs.
pub proof fn lemma_occurs_at_single(text: Seq<char>, c: char, at: int)
    ensures
        occurs_at(text, seq![c], at) <==> (0 <= at < text.len() && text[at] == c),
{
    if 0 <= at < text.len() {
        assert(text.subrange(at, at + 1)[0] == text[at]);
    }
}

/// Where a two-character pattern occurs.
pub proof fn lemma_occurs_at_pair(text: Seq<char>, a: char, b: char, at: int)
    ensures
        occurs_at(text, seq![a, b], at) <==> (0 <= at && at + 2 <= text.len() && text[at] == a
            && text[at + 1] == b),
{
}

/// A text that lacks a character is cut at that character where it is
/// followed by it.
pub proof fn lemma_cut_at_single(before: Seq<char>, c: char, after: Seq<char>)
    requires
        lacks(before, seq![c]),
    ensures
        cut(before + seq![c] + after, seq![c]) == (before, Some(after)),
{
    assert forall|at: int| 0 <= at < before.len() implies !occurs_at(
        before + seq![c],
        seq![c],
        at,
    ) by {
        lemma_occurs_at_single(before, c, at);
    }
    lemma_cut_joined(before, seq![c], after);
}

/// A text that lacks a pair of two different characters is cut at that pair
/// where it is followed by it.
pub proof fn lemma_cut_at_pair(before: Seq<char>, a: char, b: char, after: Seq<char>)
    requires
        a != b,
        lacks(before, seq![a, b]),
    ensures
        cut(before + seq![a, b] + after, seq![a, b]) == (before, Some(after)),
{
    assert forall|at: int| 0 <= at < before.len() implies !occurs_at(
        before + seq![a, b],
        seq![a, b],
        at,
    ) by {
        lemma_occurs_at_pair(before, a, b, at);
    }
    lemma_cut_joined(before, seq![a, b], after);
}

/// Two texts that lack a character, joined by a separator that is free of
/// it, lack it together.
pub proof fn lemma_lacks_single_joined(a: Seq<char>, separator: Seq<char>, b: Seq<char>, c: char)
    requires
        lacks(a, seq![c]),
        lacks(b, seq![c]),
        forall|k: int| 0 <= k < separator.len() ==> separator[k] != c,
    ensures
        lacks(a + separator + b, seq![c]),
{
    let text = a + separator + b;
    assert forall|at: int| !occurs_at(text, seq![c], at) by {
        lemma_occurs_at_single(text, c, at);
        lemma_occurs_at_single(a, c, at);
        lemma_occurs_at_single(b, c, at - a.len() - separator.len());
    }
}

/// Two texts that lack a pair of characters, joined by a separator that is
/// not empty and free of both, lack the pair together.
pub proof fn lemma_lacks_pair_joined(
    a: Seq<char>,
    separator: Seq<char>,
    b: Seq<char>,
    x: char,
    y: char,
)
    requires
        lacks(a, seq![x, y]),
        lacks(b, seq![x, y]),
        separator.len() > 0,
        forall|k: int| 0 <= k < separator.len() ==> separator[k] != x && separator[k] != y,
    ensures
        lacks(a + separator + b, seq![x, y]),
{
    let text = a + separator + b;
    assert forall|at: int| !occurs_at(text, seq![x, y], at) by {
        lemma_occurs_at_pair(a, x, y, at);
        lemma_occurs_at_pair(b, x, y, at - a.len() - separator.len());
    }
}

/// A text holds a character as often as what follows its first occurrence,
/// and once more; a text that lacks it holds it not at all.
pub proof fn lemma_count_after_cut(text: Seq<char>, c: char)
    ensures
        match first_occurrence(text, seq![c]) {
            Some(at) => count(text, c) == 1 + count(text.skip(at + 1), c),
            None => count(text, c) == 0,
        },
    decreases text.len(),
{
    if text.len() == 0 {
    } else if text[0] == c {
        lemma_first_occurrence_unique(text, seq![c], 0);
    } else {
        let rest = text.drop_first();
        lemma_count_after_cut(rest, c);
        lemma_first_occurrence(rest, seq![c]);
        match first_occurrence(rest, seq![c]) {
            Some(at) => {
                assert forall|earlier: int| 0 <= earlier < at + 1 implies !occurs_at(
                    text,
                    seq![c],
                    earlier,
                ) by {
                    lemma_occurs_at_single(text, c, earlier);
                    lemma_occurs_at_single(rest, c, earlier - 1);
                }
                lemma_first_occurrence_unique(text, seq![c], at + 1);
                assert(text.skip(at + 2) =~= rest.skip(at + 1));
            },
            None => {
                assert forall|at: int| !occurs_at(text, seq![c], at) by {
                    lemma_occurs_at_single(text, c, at);
                    lemma_occurs_at_single(rest, c, at - 1);
                }
            },
        }
    }
}

/// The characters of `s`, in order.
pub fn chars_of(s: &str) -> (chars: Vec<char>)
    ensures
        chars@ == s@,
{
    let mut chars: Vec<char> = Vec::new();
    for c in it: s.chars()
        invariant
            chars@ == it.seq().take(it.index()),
            it.seq() == s@,
    {
        chars.push(c);
    }
    chars
}

/// The leftmost position of `c` within `chars[from..to]`.
pub(crate) fn find_char(chars: &Vec<char>, from: usize, to: usize, c: char) -> (found: Option<
    usize,
>)
    requires
        from <= to <= chars.len(),
    ensures
        match found {
            Some(at) => from <= at < to && first_occurrence(
                chars@.subrange(from as int, to as int),
                seq![c],
            ) == Some(at - from),
            None => first_occurrence(chars@.subrange(from as int, to as int), seq![c]) is None,
        },
{
    let ghost part = chars@.subrange(from as int, to as int);
    let mut i: usize = from;
    while i < to
        invariant
            from <= i <= to <= chars.len(),
            part == chars@.subrange(from as int, to as int),
            forall|earlier: int| 0 <= earlier < i - from ==> !occurs_at(part, seq![c], earlier),
        decreases to - i,
    {
        proof {
            lemma_occurs_at_single(part, c, i - from);
        }
        if chars[i] == c {
            proof {
                lemma_first_occurrence_unique(part, seq![c], i - from);
            }
            return Some(i);
        }
        i += 1;
    }
    None
}

/// The leftmost position of the pair `a`, `b` within `chars[from..to]`.
pub(crate) fn find_pair(
    chars: &Vec<char>,
    from: usize,
    to: usize,
    a: char,
    b: char,
) -> (found: Option<usize>)
    requires
        from <= to <= chars.len(),
    ensures
        match found {
            Some(at) => from <= at && at + 2 <= to && first_occurrence(
                chars@.subrange(from as int, to as int),
                seq![a, b],
            ) == Some(at - from),
            None => first_occurrence(chars@.subrange(from as int, to as int), seq![a, b]) is None,
        },
{
    let ghost part = chars@.subrange(from as int, to as int);
    let mut i: usize = from;
    while i < to && to - i >= 2
        invariant
            from <= i <= to <= chars.len(),
            part == chars@.subrange(from as int, to as int),
            forall|earlier: int| 0 <= earlier < i - from ==> !occurs_at(part, seq![a, b], earlier),
        decreases to - i,
    {
        proof {
            lemma_occurs_at_pair(part, a, b, i - from);
        }
        if chars[i] == a && chars[i + 1] == b {
            proof {
                lemma_first_occurrence_unique(part, seq![a, b], i - from);
            }
            return Some(i);
        }
        i += 1;
    }
    None
}

/// `String::push` puts the character behind those that the string holds.
pub assume_specification[ String::push ](text: &mut String, ch: char)
    ensures
        final(text)@ == old(text)@.push(ch),
;

/// The characters `chars[from..to]` as a string.
pub(crate) fn text_of(chars: &Vec<char>, from: usize, to: usize) -> (part: String)
    requires
        from <= to <= chars.len(),
    ensures
        part@ == chars@.subrange(from as int, to as int),
{
    let mut part = String::new();
    let mut i: usize = from;
    while i < to
        invariant
            from <= i <= to <= chars.len(),
            part@ == chars@.subrange(from as int, i as int),
        decreases to - i,
    {
        part.push(chars[i]);
        i += 1;
    }
    part
}

/// The ten decimal digits.
pub open spec fn digits() -> Seq<char> {
    seq!['0', '1', '2', '3', '4', '5', '6', '7', '8', '9']
}

/// The decimal numeral of `n`, without sign or leading zeros.
pub open spec fn decimal(n: nat) -> Seq<char>
    decreases n,
{
    if n < 10 {
        seq![digits()[n as int]]
    } else {
        decimal(n / 10).push(digits()[(n % 10) as int])
    }
}

/// Writes `n` as a decimal numeral.
pub fn to_decimal(n: u64) -> (numeral: String)
    ensures
        numeral@ == decimal(n as nat),
    decreases n,
{
    let last: usize = (n % 10) as usize;
    proof {
        reveal_strlit("0123456789");
    }
    let digit = "0123456789".substring_char(last, last + 1);
    if n < 10 {
        digit.to_owned()
    } else {
        let mut numeral = to_decimal(n / 10);
        numeral.append(digit);
        numeral
    }
}

} // verus!
