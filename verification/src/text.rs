//! The model of text that the parsers, the classifiers and the filter are
//! stated over: a text is a `Seq<char>`.

use vstd::prelude::*;

verus! {

/// Whether `c` is white space: a character with the Unicode property
/// `White_Space`.
pub open spec fn white_space(c: char) -> bool {
    let u = c as u32;
    ||| 0x09 <= u <= 0x0d
    ||| u == 0x20
    ||| u == 0x85
    ||| u == 0xa0
    ||| u == 0x1680
    ||| 0x2000 <= u <= 0x200a
    ||| u == 0x2028
    ||| u == 0x2029
    ||| u == 0x202f
    ||| u == 0x205f
    ||| u == 0x3000
}

/// `pat` occurs in `s` starting at index `i`.
pub open spec fn occurs_at(s: Seq<char>, pat: Seq<char>, i: int) -> bool {
    0 <= i && i + pat.len() <= s.len() && s.subrange(i, i + pat.len()) == pat
}

/// `pat` occurs somewhere in `s` as a contiguous run of characters.
pub open spec fn has_substring(s: Seq<char>, pat: Seq<char>) -> bool {
    exists|i: int| occurs_at(s, pat, i)
}

/// The whitespace characters.
pub open spec fn whitespace() -> spec_fn(char) -> bool {
    |c: char| white_space(c)
}

/// The characters that are not whitespace.
pub open spec fn non_whitespace() -> spec_fn(char) -> bool {
    |c: char| !white_space(c)
}

/// The characters other than `sep`.
pub open spec fn other_than(sep: char) -> spec_fn(char) -> bool {
    |c: char| c != sep
}

/// How many characters at the start of `s` satisfy `p`.
pub open spec fn leading(s: Seq<char>, p: spec_fn(char) -> bool) -> nat
    decreases s.len(),
{
    if s.len() > 0 && p(s[0]) {
        1 + leading(s.drop_first(), p)
    } else {
        0
    }
}

/// How many characters at the end of `s` satisfy `p`.
pub open spec fn trailing(s: Seq<char>, p: spec_fn(char) -> bool) -> nat
    decreases s.len(),
{
    if s.len() > 0 && p(s.last()) {
        1 + trailing(s.drop_last(), p)
    } else {
        0
    }
}

/// `s` without the whitespace at its start.
pub open spec fn trimmed_start(s: Seq<char>) -> Seq<char> {
    s.skip(leading(s, whitespace()) as int)
}

/// `s` without the whitespace at its end.
pub open spec fn trimmed_end(s: Seq<char>) -> Seq<char> {
    s.take(s.len() - trailing(s, whitespace()))
}

/// `s` without the whitespace at either end.
pub open spec fn trimmed(s: Seq<char>) -> Seq<char> {
    trimmed_end(trimmed_start(s))
}

/// The pieces of `s` between occurrences of `sep`. There is always at least
/// one piece; pieces may be empty.
pub open spec fn fields(s: Seq<char>, sep: char) -> Seq<Seq<char>>
    decreases s.len(),
{
    let n = leading(s, other_than(sep));
    if n >= s.len() {
        seq![s]
    } else {
        seq![s.take(n as int)] + fields(s.skip(n as int + 1), sep)
    }
}

/// `s` without a carriage return at its end.
pub open spec fn strip_cr(s: Seq<char>) -> Seq<char> {
    if s.len() > 0 && s.last() == '\r' {
        s.drop_last()
    } else {
        s
    }
}

/// The lines of a text. A line ends at a line feed; a carriage return just
/// before the line feed belongs to the line ending. What follows the last
/// line feed is a line only if it is not empty.
pub open spec fn lines(s: Seq<char>) -> Seq<Seq<char>> {
    let pieces = fields(s, '\n');
    let ended = pieces.drop_last().map_values(|l: Seq<char>| strip_cr(l));
    if pieces.last().len() == 0 {
        ended
    } else {
        ended.push(pieces.last())
    }
}

/// The maximal runs of non-whitespace characters of `s`, in order.
pub open spec fn words(s: Seq<char>) -> Seq<Seq<char>>
    decreases s.len(),
{
    let rest = trimmed_start(s);
    let n = leading(rest, non_whitespace());
    if n == 0 {
        Seq::empty()
    } else {
        proof {
            lemma_leading_stops(s, whitespace());
            lemma_leading_stops(rest, non_whitespace());
        }
        seq![rest.take(n as int)] + words(rest.skip(n as int))
    }
}

/// The texts that a vector of slices holds.
pub open spec fn views(v: Seq<&[char]>) -> Seq<Seq<char>> {
    v.map_values(|x: &[char]| x@)
}

/// Every text splits into at least one field.
pub proof fn lemma_fields_nonempty(s: Seq<char>, sep: char)
    ensures
        fields(s, sep).len() >= 1,
{
}

/// `leading` is the index of the first character that fails `p`.
pub proof fn lemma_leading_is(s: Seq<char>, p: spec_fn(char) -> bool, n: int)
    requires
        0 <= n <= s.len(),
        forall|i: int| 0 <= i < n ==> p(#[trigger] s[i]),
        n < s.len() ==> !p(s[n]),
    ensures
        leading(s, p) == n,
    decreases n,
{
    if n > 0 {
        let t = s.drop_first();
        assert forall|i: int| 0 <= i < n - 1 implies p(#[trigger] t[i]) by {
            assert(t[i] == s[i + 1]);
        }
        lemma_leading_is(t, p, n - 1);
    }
}

/// `trailing` counts back to the last character that fails `p`.
pub proof fn lemma_trailing_is(s: Seq<char>, p: spec_fn(char) -> bool, n: int)
    requires
        0 <= n <= s.len(),
        forall|i: int| s.len() - n <= i < s.len() ==> p(#[trigger] s[i]),
        n < s.len() ==> !p(s[s.len() - n - 1]),
    ensures
        trailing(s, p) == n,
    decreases n,
{
    if n > 0 {
        let t = s.drop_last();
        assert forall|i: int| t.len() - (n - 1) <= i < t.len() implies p(#[trigger] t[i]) by {
            assert(t[i] == s[i]);
        }
        lemma_trailing_is(t, p, n - 1);
    }
}

/// No word is empty.
pub proof fn lemma_words_nonempty(s: Seq<char>, i: int)
    requires
        0 <= i < words(s).len(),
    ensures
        words(s)[i].len() > 0,
    decreases s.len(),
{
    let rest = trimmed_start(s);
    let n = leading(rest, non_whitespace());
    lemma_leading_stops(s, whitespace());
    lemma_leading_stops(rest, non_whitespace());
    if i > 0 {
        lemma_words_nonempty(rest.skip(n as int), i - 1);
    }
}

/// The characters that `leading` counts satisfy `p`, and the one after them does not.
pub proof fn lemma_leading_stops(s: Seq<char>, p: spec_fn(char) -> bool)
    ensures
        leading(s, p) <= s.len(),
        forall|i: int| 0 <= i < leading(s, p) ==> p(#[trigger] s[i]),
        leading(s, p) < s.len() ==> !p(s[leading(s, p) as int]),
    decreases s.len(),
{
    if s.len() > 0 && p(s[0]) {
        let t = s.drop_first();
        lemma_leading_stops(t, p);
        assert forall|i: int| 0 <= i < leading(s, p) implies p(#[trigger] s[i]) by {
            if i > 0 {
                assert(s[i] == t[i - 1]);
            }
        }
    }
}

/// A text without `sep` is a single field.
pub proof fn lemma_fields_single(s: Seq<char>, sep: char)
    requires
        forall|i: int| 0 <= i < s.len() ==> #[trigger] s[i] != sep,
    ensures
        fields(s, sep) == seq![s],
{
    lemma_leading_is(s, other_than(sep), s.len() as int);
}

/// The fields of two texts put together with `sep` between them are the
/// fields of the first followed by the fields of the second.
pub proof fn lemma_fields_concat(x: Seq<char>, y: Seq<char>, sep: char)
    ensures
        fields(x + seq![sep] + y, sep) == fields(x, sep) + fields(y, sep),
    decreases x.len(),
{
    let whole = x + seq![sep] + y;
    let k = leading(x, other_than(sep));
    lemma_leading_stops(x, other_than(sep));
    assert forall|i: int| 0 <= i < k implies other_than(sep)(#[trigger] whole[i]) by {
        assert(whole[i] == x[i]);
    }
    if k < x.len() {
        assert(whole[k as int] == x[k as int]);
    } else {
        assert(whole[k as int] == sep);
    }
    lemma_leading_is(whole, other_than(sep), k as int);
    assert(whole.take(k as int) =~= x.take(k as int));
    if k < x.len() {
        assert(whole.skip(k as int + 1) =~= x.skip(k as int + 1) + seq![sep] + y);
        lemma_fields_concat(x.skip(k as int + 1), y, sep);
        assert(fields(whole, sep) =~= fields(x, sep) + fields(y, sep));
    } else {
        assert(x.take(k as int) =~= x);
        assert(whole.skip(k as int + 1) =~= y);
    }
}

} // verus!
