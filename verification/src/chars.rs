//! Executable text operations on `&[char]`, each stated over the model in
//! `text`.

use crate::text::{
    fields, has_substring, leading, lemma_fields_nonempty, lemma_leading_is, lemma_trailing_is,
    lines, non_whitespace, occurs_at, other_than, strip_cr, trimmed, trimmed_end,
    trimmed_start, views, white_space, whitespace, words,
};
use vstd::prelude::*;
use vstd::slice::slice_subrange;

verus! {

/// Assumed of `String::push`: afterwards the string is what it was before,
/// with `c` added at its end.
pub assume_specification[ String::push ](s: &mut String, c: char)
    ensures
        final(s)@ == old(s)@.push(c),
;

/// The lowercase form of a text, as `str::to_lowercase` computes it.
pub uninterp spec fn lowercase(s: Seq<char>) -> Seq<char>;

/// Calls `str::to_lowercase`. Assumed of it: the result depends on the
/// text alone. It goes by the name `lowercase`; nothing else is claimed.
#[verifier::external_body]
pub(crate) fn str_to_lowercase(s: &str) -> (r: String)
    ensures
        r@ == lowercase(s@),
{
    s.to_lowercase()
}

/// Whether `c` is white space.
pub fn is_whitespace(c: char) -> (r: bool)
    ensures
        r == white_space(c),
{
    let u = c as u32;
    (0x09 <= u && u <= 0x0d) || u == 0x20 || u == 0x85 || u == 0xa0 || u == 0x1680 || (0x2000 <= u
        && u <= 0x200a) || u == 0x2028 || u == 0x2029 || u == 0x202f || u == 0x205f || u == 0x3000
}

/// The characters of a string, in order.
pub fn to_chars(s: &str) -> (v: Vec<char>)
    ensures
        v@ == s@,
{
    let mut v: Vec<char> = Vec::new();
    for c in it: s.chars()
        invariant
            it.seq() == s@,
            v@ == s@.take(it.index()),
    {
        v.push(c);
    }
    v
}

/// The string made of the given characters.
pub fn to_string(s: &[char]) -> (r: String)
    ensures
        r@ == s@,
{
    let mut r = String::new();
    let mut i: usize = 0;
    while i < s.len()
        invariant
            i <= s.len(),
            r@ == s@.take(i as int),
        decreases s.len() - i,
    {
        r.push(s[i]);
        assert(s@.take(i + 1) =~= s@.take(i as int).push(s@[i as int]));
        i += 1;
    }
    assert(s@.take(s.len() as int) =~= s@);
    r
}

/// Whether `s` begins with `pat`.
pub fn starts_with(s: &[char], pat: &str) -> (r: bool)
    ensures
        r == pat@.is_prefix_of(s@),
{
    let mut i: usize = 0;
    for c in it: pat.chars()
        invariant
            it.seq() == pat@,
            i == it.index(),
            i <= s.len(),
            s@.take(i as int) =~= pat@.take(i as int),
    {
        if i >= s.len() || s[i] != c {
            assert(!pat@.is_prefix_of(s@)) by {
                if pat@.is_prefix_of(s@) {
                    assert(s@.subrange(0, pat@.len() as int)[i as int] == pat@[i as int]);
                }
            }
            return false;
        }
        assert(s@.take(i + 1) =~= s@.take(i as int).push(s@[i as int]));
        assert(pat@.take(i + 1) =~= pat@.take(i as int).push(pat@[i as int]));
        i += 1;
    }
    assert(pat@.take(pat@.len() as int) =~= pat@);
    true
}

/// Whether `s` ends with `pat`.
pub fn ends_with(s: &[char], pat: &str) -> (r: bool)
    ensures
        r == pat@.is_suffix_of(s@),
{
    let n = pat.unicode_len();
    if n > s.len() {
        return false;
    }
    let tail = slice_subrange(s, s.len() - n, s.len());
    let r = starts_with(tail, pat);
    assert(pat@.is_prefix_of(tail@) == pat@.is_suffix_of(s@)) by {
        assert(tail@.subrange(0, pat@.len() as int) =~= tail@);
    }
    r
}

/// Whether `pat` occurs in `s`. The empty pattern occurs in every text.
pub fn contains(s: &[char], pat: &str) -> (r: bool)
    ensures
        r == has_substring(s@, pat@),
{
    let mut i: usize = 0;
    while i <= s.len()
        invariant
            i <= s.len() + 1,
            forall|j: int| 0 <= j < i ==> !occurs_at(s@, pat@, j),
        decreases s.len() + 1 - i,
    {
        let rest = slice_subrange(s, i, s.len());
        proof {
            if i + pat@.len() <= s.len() {
                assert(rest@.subrange(0, pat@.len() as int) =~= s@.subrange(
                    i as int,
                    i + pat@.len(),
                ));
            }
        }
        if starts_with(rest, pat) {
            assert(occurs_at(s@, pat@, i as int));
            return true;
        }
        if i == s.len() {
            return false;
        }
        i += 1;
    }
    false
}

/// The index at which the whitespace that starts at `from` ends.
fn skip_whitespace(s: &[char], from: usize) -> (to: usize)
    requires
        from <= s.len(),
    ensures
        from <= to <= s.len(),
        to - from == leading(s@.skip(from as int), whitespace()),
{
    let mut i: usize = from;
    while i < s.len() && is_whitespace(s[i])
        invariant
            from <= i <= s.len(),
            forall|j: int| from <= j < i ==> white_space(#[trigger] s@[j]),
        decreases s.len() - i,
    {
        i += 1;
    }
    proof {
        lemma_leading_is(s@.skip(from as int), whitespace(), i - from);
    }
    i
}

/// The index at which the run of non-whitespace that starts at `from` ends.
fn skip_word(s: &[char], from: usize) -> (to: usize)
    requires
        from <= s.len(),
    ensures
        from <= to <= s.len(),
        to - from == leading(s@.skip(from as int), non_whitespace()),
{
    let mut i: usize = from;
    while i < s.len() && !is_whitespace(s[i])
        invariant
            from <= i <= s.len(),
            forall|j: int| from <= j < i ==> !white_space(#[trigger] s@[j]),
        decreases s.len() - i,
    {
        i += 1;
    }
    proof {
        lemma_leading_is(s@.skip(from as int), non_whitespace(), i - from);
    }
    i
}

/// The index of the first `sep` at or after `from`, or the length of `s`.
fn skip_until(s: &[char], from: usize, sep: char) -> (to: usize)
    requires
        from <= s.len(),
    ensures
        from <= to <= s.len(),
        to - from == leading(s@.skip(from as int), other_than(sep)),
        to < s.len() ==> s@[to as int] == sep,
{
    let mut i: usize = from;
    while i < s.len() && s[i] != sep
        invariant
            from <= i <= s.len(),
            forall|j: int| from <= j < i ==> #[trigger] s@[j] != sep,
        decreases s.len() - i,
    {
        i += 1;
    }
    proof {
        lemma_leading_is(s@.skip(from as int), other_than(sep), i - from);
    }
    i
}

/// `s` without the whitespace at either end.
pub fn trim(s: &[char]) -> (r: &[char])
    ensures
        r@ == trimmed(s@),
{
    let lo = skip_whitespace(s, 0);
    let mut hi: usize = s.len();
    while hi > lo && is_whitespace(s[hi - 1])
        invariant
            lo <= hi <= s.len(),
            forall|j: int| hi <= j < s.len() ==> white_space(#[trigger] s@[j]),
        decreases hi,
    {
        hi -= 1;
    }
    let r = slice_subrange(s, lo, hi);
    proof {
        assert(s@.skip(0) =~= s@);
        let t = s@.skip(lo as int);
        if hi == lo {
            assert forall|i: int| 0 <= i < t.len() implies whitespace()(#[trigger] t[i]) by {
                assert(t[i] == s@[lo + i]);
            }
        } else {
            assert(t[t.len() - (s.len() - hi) - 1] == s@[hi - 1]);
        }
        assert forall|i: int| t.len() - (s.len() - hi) <= i < t.len() implies whitespace()(
            #[trigger] t[i],
        ) by {
            assert(t[i] == s@[lo + i]);
        }
        lemma_trailing_is(t, whitespace(), s.len() - hi);
        assert(r@ =~= trimmed_end(t));
    }
    r
}

/// The pieces of `s` between occurrences of `sep`.
pub fn split<'a>(s: &'a [char], sep: char) -> (v: Vec<&'a [char]>)
    ensures
        views(v@) == fields(s@, sep),
{
    let mut v: Vec<&'a [char]> = Vec::new();
    let mut pos: usize = 0;
    proof {
        assert(s@.skip(0) =~= s@);
        assert(views(v@) + fields(s@, sep) =~= fields(s@, sep));
    }
    loop
        invariant_except_break
            pos <= s.len(),
            views(v@) + fields(s@.skip(pos as int), sep) == fields(s@, sep),
        ensures
            views(v@) == fields(s@, sep),
        decreases s.len() - pos,
    {
        let end = skip_until(s, pos, sep);
        let piece = slice_subrange(s, pos, end);
        let ghost before = views(v@);
        let ghost t = s@.skip(pos as int);
        v.push(piece);
        proof {
            assert(views(v@) =~= before.push(piece@));
            assert(piece@ =~= t.take(end - pos));
        }
        if end == s.len() {
            proof {
                assert(t.take(end - pos) =~= t);
                assert(before.push(t) =~= before + seq![t]);
            }
            break ;
        }
        proof {
            assert(t.skip(end - pos + 1) =~= s@.skip(end + 1));
            let rest = fields(s@.skip(end + 1), sep);
            assert(before.push(piece@) + rest =~= before + (seq![piece@] + rest));
        }
        pos = end + 1;
    }
    v
}

/// `s` without a carriage return at its end.
fn chomp(s: &[char]) -> (r: &[char])
    ensures
        r@ == strip_cr(s@),
{
    let n = s.len();
    if n > 0 && s[n - 1] == '\r' {
        slice_subrange(s, 0, n - 1)
    } else {
        s
    }
}

/// The lines of a text.
pub fn split_lines<'a>(s: &'a [char]) -> (v: Vec<&'a [char]>)
    ensures
        views(v@) == lines(s@),
{
    let pieces = split(s, '\n');
    proof {
        lemma_fields_nonempty(s@, '\n');
    }
    let mut v: Vec<&'a [char]> = Vec::new();
    let ended: usize = pieces.len() - 1;
    let ghost strip = |l: Seq<char>| strip_cr(l);
    let mut i: usize = 0;
    while i < ended
        invariant
            i <= ended == pieces.len() - 1,
            strip == |l: Seq<char>| strip_cr(l),
            views(v@) == views(pieces@).take(i as int).map_values(strip),
        decreases ended - i,
    {
        let line = chomp(pieces[i]);
        let ghost before = views(v@);
        v.push(line);
        proof {
            assert(views(v@) =~= before.push(line@));
            assert(views(pieces@)[i as int] == pieces@[i as int]@);
            assert(views(pieces@).take(i + 1) =~= views(pieces@).take(i as int).push(
                pieces@[i as int]@,
            ));
            assert(views(pieces@).take(i + 1).map_values(strip) =~= before.push(line@));
        }
        i += 1;
    }
    assert(views(pieces@).take(ended as int) =~= views(pieces@).drop_last());
    let last = pieces[ended];
    if last.len() > 0 {
        v.push(last);
        assert(views(v@) =~= views(pieces@).drop_last().map_values(strip).push(last@));
    }
    v
}

/// The maximal runs of non-whitespace characters of `s`, in order.
pub fn split_whitespace<'a>(s: &'a [char]) -> (v: Vec<&'a [char]>)
    ensures
        views(v@) == words(s@),
{
    let mut v: Vec<&'a [char]> = Vec::new();
    let mut pos: usize = 0;
    proof {
        assert(s@.skip(0) =~= s@);
        assert(views(v@) + words(s@) =~= words(s@));
    }
    loop
        invariant_except_break
            pos <= s.len(),
            views(v@) + words(s@.skip(pos as int)) == words(s@),
        ensures
            views(v@) == words(s@),
        decreases s.len() - pos,
    {
        let start = skip_whitespace(s, pos);
        let end = skip_word(s, start);
        let ghost t = s@.skip(pos as int);
        proof {
            assert(trimmed_start(t) =~= s@.skip(start as int));
        }
        if start == end {
            assert(views(v@) + Seq::<Seq<char>>::empty() =~= views(v@));
            break ;
        }
        let word = slice_subrange(s, start, end);
        let ghost before = views(v@);
        v.push(word);
        proof {
            let rest = s@.skip(start as int);
            assert(views(v@) =~= before.push(word@));
            assert(word@ =~= rest.take(end - start));
            assert(rest.skip(end - start) =~= s@.skip(end as int));
            let more = words(s@.skip(end as int));
            assert(before.push(word@) + more =~= before + (seq![word@] + more));
        }
        pos = end;
    }
    v
}

} // verus!
