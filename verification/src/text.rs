//! Operations on character sequences: the vocabulary in which the routing
//! rules are stated, each with the executable function that computes it.

use vstd::prelude::*;
use vstd::string::*;

verus! {

/// `s` without its leading run of `c`.
pub open spec fn trim_start(s: Seq<char>, c: char) -> Seq<char>
    decreases s.len(),
{
    if s.len() > 0 && s[0] == c {
        trim_start(s.drop_first(), c)
    } else {
        s
    }
}

/// `s` without its trailing run of `c`.
pub open spec fn trim_end(s: Seq<char>, c: char) -> Seq<char>
    decreases s.len(),
{
    if s.len() > 0 && s.last() == c {
        trim_end(s.drop_last(), c)
    } else {
        s
    }
}

/// `s` with every occurrence of `pat` taken out, scanning from the left; an
/// occurrence never overlaps the one before it. An empty `pat` removes nothing.
pub open spec fn remove_all(s: Seq<char>, pat: Seq<char>) -> Seq<char>
    decreases s.len(),
{
    if pat.len() == 0 || s.len() == 0 {
        s
    } else if pat.is_prefix_of(s) {
        remove_all(s.skip(pat.len() as int), pat)
    } else {
        seq![s[0]] + remove_all(s.skip(1), pat)
    }
}

/// The number of characters of `s` before its first `/`, or its length if it
/// has none.
pub open spec fn segment_len(s: Seq<char>) -> nat
    decreases s.len(),
{
    if s.len() == 0 || s[0] == '/' {
        0
    } else {
        1 + segment_len(s.drop_first())
    }
}

/// The segments of `s`: what stands between one `/` and the next, before the
/// first and after the last. A sequence without `/` is its own one segment.
pub open spec fn segments(s: Seq<char>) -> Seq<Seq<char>>
    decreases s.len(),
{
    let n = segment_len(s) as int;
    if n >= s.len() {
        seq![s]
    } else {
        seq![s.take(n)] + segments(s.skip(n + 1))
    }
}

/// The segments `parts` with a `/` between each and the next.
pub open spec fn joined(parts: Seq<Seq<char>>) -> Seq<char>
    decreases parts.len(),
{
    if parts.len() == 0 {
        Seq::empty()
    } else if parts.len() == 1 {
        parts[0]
    } else {
        parts[0] + seq!['/'] + joined(parts.drop_first())
    }
}

/// Whether `c` is one of the ten ASCII digits.
pub open spec fn is_digit(c: char) -> bool {
    '0' <= c <= '9'
}

/// Whether every character of `s` is an ASCII digit.
pub open spec fn all_digits(s: Seq<char>) -> bool {
    forall|i: int| 0 <= i < s.len() ==> is_digit(#[trigger] s[i])
}

/// Whether `s` is a number as a path has it: one or more ASCII digits and
/// nothing else, whatever their count.
pub open spec fn is_numeric(s: Seq<char>) -> bool {
    s.len() > 0 && all_digits(s)
}

/// Dropping the first `n` characters and then one more drops `n + 1`.
pub proof fn lemma_skip_step(s: Seq<char>, n: int)
    requires
        0 <= n < s.len(),
    ensures
        s.skip(n).drop_first() == s.skip(n + 1),
        s.skip(n)[0] == s[n],
{
    assert(s.skip(n).drop_first() =~= s.skip(n + 1));
}

/// A segment never runs past the end of its sequence, stops at a `/` if it
/// stops early, and holds no `/`.
pub proof fn lemma_segment_len(s: Seq<char>)
    ensures
        segment_len(s) <= s.len(),
        segment_len(s) < s.len() ==> s[segment_len(s) as int] == '/',
        forall|i: int| 0 <= i < segment_len(s) ==> s[i] != '/',
    decreases s.len(),
{
    if s.len() == 0 || s[0] == '/' {
    } else {
        let rest = s.drop_first();
        lemma_segment_len(rest);
        assert forall|i: int| 0 <= i < segment_len(s) implies s[i] != '/' by {
            if i > 0 {
                assert(s[i] == rest[i - 1]);
            }
        }
        if segment_len(s) < s.len() {
            assert(s[segment_len(s) as int] == rest[segment_len(rest) as int]);
        }
    }
}

/// Joining the segments of a sequence gives the sequence back.
pub proof fn lemma_joined_segments(s: Seq<char>)
    ensures
        segments(s).len() >= 1,
        joined(segments(s)) == s,
    decreases s.len(),
{
    let n = segment_len(s) as int;
    lemma_segment_len(s);
    if n < s.len() {
        let rest = segments(s.skip(n + 1));
        lemma_joined_segments(s.skip(n + 1));
        assert(segments(s).drop_first() =~= rest);
        assert(s =~= s.take(n) + seq!['/'] + s.skip(n + 1));
    }
}

/// A sequence without `/` before a `/`, or before nothing, is the whole first
/// segment.
pub proof fn lemma_segment_len_of_prefix(first: Seq<char>, rest: Seq<char>)
    requires
        !first.contains('/'),
        rest.len() == 0 || rest[0] == '/',
    ensures
        segment_len(first + rest) == first.len(),
    decreases first.len(),
{
    if first.len() == 0 {
        assert(first + rest =~= rest);
    } else {
        let shorter = first.drop_first();
        assert(first[0] != '/');
        assert(!shorter.contains('/')) by {
            if shorter.contains('/') {
                let i = choose|i: int| 0 <= i < shorter.len() && shorter[i] == '/';
                assert(first[i + 1] == '/');
            }
        }
        assert((first + rest).drop_first() =~= shorter + rest);
        lemma_segment_len_of_prefix(shorter, rest);
    }
}

/// No segment of a sequence holds a `/`.
pub proof fn lemma_segments_have_no_slash(s: Seq<char>)
    ensures
        forall|i: int| 0 <= i < segments(s).len() ==> !(#[trigger] segments(s)[i]).contains('/'),
    decreases s.len(),
{
    let n = segment_len(s) as int;
    lemma_segment_len(s);
    if n < s.len() {
        lemma_segments_have_no_slash(s.skip(n + 1));
        let rest = segments(s.skip(n + 1));
        assert forall|i: int| 0 <= i < segments(s).len() implies !(#[trigger] segments(s)[i]).contains(
            '/',
        ) by {
            if i > 0 {
                assert(segments(s)[i] == rest[i - 1]);
            }
        }
    }
}

/// Segments that hold no `/`, joined, are the segments of what they make.
pub proof fn lemma_segments_of_joined(parts: Seq<Seq<char>>)
    requires
        parts.len() >= 1,
        forall|i: int| 0 <= i < parts.len() ==> !(#[trigger] parts[i]).contains('/'),
    ensures
        segments(joined(parts)) == parts,
    decreases parts.len(),
{
    let first = parts[0];
    if parts.len() == 1 {
        lemma_segment_len_of_prefix(first, Seq::empty());
        assert(first + Seq::<char>::empty() =~= first);
        assert(segments(first) =~= parts);
    } else {
        let rest = parts.drop_first();
        let tail = seq!['/'] + joined(rest);
        let whole = joined(parts);
        assert(whole =~= first + tail);
        lemma_segment_len_of_prefix(first, tail);
        assert(whole.take(first.len() as int) =~= first);
        assert(whole.skip(first.len() as int + 1) =~= joined(rest));
        assert forall|i: int| 0 <= i < rest.len() implies !(#[trigger] rest[i]).contains('/') by {
            assert(rest[i] == parts[i + 1]);
        }
        lemma_segments_of_joined(rest);
        assert(segments(whole) =~= parts);
    }
}

/// `String::push`. Trusted: the string afterwards is the one before with `c`
/// at its end.
#[verifier::external_body]
fn push_char(s: &mut String, c: char)
    ensures
        final(s)@ == old(s)@.push(c),
{
    s.push(c);
}

/// The characters of `s`, in order.
pub fn chars_of(s: &str) -> (chars: Vec<char>)
    ensures
        chars@ == s@,
{
    broadcast use vstd::string::group_string_axioms;

    let mut chars: Vec<char> = Vec::new();
    for c in it: s.chars()
        invariant
            chars@ == it.seq().take(it.index() as int),
            it.seq() == s@,
    {
        chars.push(c);
    }
    chars
}

/// The string made of `chars`, in order.
pub fn string_of(chars: &Vec<char>) -> (s: String)
    ensures
        s@ == chars@,
{
    let mut s = String::new();
    let mut i: usize = 0;
    while i < chars.len()
        invariant
            i <= chars.len(),
            s@ == chars@.take(i as int),
        decreases chars.len() - i,
    {
        push_char(&mut s, chars[i]);
        assert(chars@.take(i as int).push(chars@[i as int]) =~= chars@.take(i + 1));
        i += 1;
    }
    assert(chars@.take(chars.len() as int) =~= chars@);
    s
}

/// Appends the characters `from[start..end]` to `out`.
pub fn push_range(out: &mut Vec<char>, from: &Vec<char>, start: usize, end: usize)
    requires
        start <= end <= from.len(),
    ensures
        final(out)@ == old(out)@ + from@.subrange(start as int, end as int),
{
    let mut i: usize = start;
    while i < end
        invariant
            start <= i <= end <= from.len(),
            out@ == old(out)@ + from@.subrange(start as int, i as int),
        decreases end - i,
    {
        out.push(from[i]);
        assert(from@.subrange(start as int, i as int).push(from@[i as int]) =~= from@.subrange(
            start as int,
            i + 1,
        ));
        i += 1;
    }
}

/// Appends the characters of `s` to `out`.
pub fn push_str(out: &mut Vec<char>, s: &str)
    ensures
        final(out)@ == old(out)@ + s@,
{
    let chars = chars_of(s);
    push_range(out, &chars, 0, chars.len());
    assert(chars@.subrange(0, chars.len() as int) =~= chars@);
}

/// Whether `c` occurs in `chars`.
pub fn has_char(chars: &Vec<char>, c: char) -> (found: bool)
    ensures
        found == chars@.contains(c),
{
    let mut i: usize = 0;
    while i < chars.len()
        invariant
            i <= chars.len(),
            forall|k: int| 0 <= k < i ==> chars@[k] != c,
        decreases chars.len() - i,
    {
        if chars[i] == c {
            return true;
        }
        i += 1;
    }
    false
}

/// Whether `pat` stands in `chars` at index `at`.
pub fn matches_at(chars: &Vec<char>, at: usize, pat: &Vec<char>) -> (found: bool)
    requires
        at <= chars.len(),
    ensures
        found == pat@.is_prefix_of(chars@.skip(at as int)),
{
    if pat.len() > chars.len() - at {
        return false;
    }
    let mut i: usize = 0;
    while i < pat.len()
        invariant
            at + pat.len() <= chars.len(),
            i <= pat.len(),
            forall|k: int| 0 <= k < i ==> chars@[at + k] == pat@[k],
        decreases pat.len() - i,
    {
        if chars[at + i] != pat[i] {
            assert(chars@.skip(at as int).subrange(0, pat.len() as int)[i as int] != pat@[i as int]);
            return false;
        }
        i += 1;
    }
    assert(pat@ =~= chars@.skip(at as int).subrange(0, pat.len() as int));
    true
}

/// Whether `chars` ends with `suffix`.
pub fn has_suffix(chars: &Vec<char>, suffix: &Vec<char>) -> (found: bool)
    ensures
        found == suffix@.is_suffix_of(chars@),
{
    if suffix.len() > chars.len() {
        return false;
    }
    let at: usize = chars.len() - suffix.len();
    let found = matches_at(chars, at, suffix);
    assert(chars@.skip(at as int).subrange(0, suffix.len() as int) =~= chars@.subrange(
        chars.len() - suffix.len(),
        chars.len() as int,
    ));
    found
}

/// `chars` with every occurrence of `pat` taken out.
pub fn without(chars: &Vec<char>, pat: &Vec<char>) -> (out: Vec<char>)
    ensures
        out@ == remove_all(chars@, pat@),
{
    let mut out: Vec<char> = Vec::new();
    if pat.len() == 0 {
        push_range(&mut out, chars, 0, chars.len());
        assert(chars@.subrange(0, chars.len() as int) =~= chars@);
        return out;
    }
    let mut i: usize = 0;
    assert(out@ + remove_all(chars@.skip(0), pat@) =~= remove_all(chars@, pat@)) by {
        assert(chars@.skip(0) =~= chars@);
    }
    while i < chars.len()
        invariant
            i <= chars.len(),
            pat.len() > 0,
            out@ + remove_all(chars@.skip(i as int), pat@) == remove_all(chars@, pat@),
        decreases chars.len() - i,
    {
        let ghost rest = chars@.skip(i as int);
        if matches_at(chars, i, pat) {
            assert(rest.skip(pat.len() as int) =~= chars@.skip(i + pat.len()));
            i += pat.len();
        } else {
            assert(rest.skip(1) =~= chars@.skip(i + 1));
            assert(out@.push(chars@[i as int]) + remove_all(rest.skip(1), pat@) =~= out@ + (
            seq![rest[0]] + remove_all(rest.skip(1), pat@)));
            out.push(chars[i]);
            i += 1;
        }
    }
    assert(out@ + remove_all(chars@.skip(i as int), pat@) =~= out@);
    out
}

/// The index at which `chars` stops starting with `c`.
pub fn leading_run(chars: &Vec<char>, c: char) -> (start: usize)
    ensures
        start <= chars.len(),
        chars@.skip(start as int) == trim_start(chars@, c),
{
    let mut i: usize = 0;
    assert(chars@.skip(0) =~= chars@);
    while i < chars.len() && chars[i] == c
        invariant
            i <= chars.len(),
            trim_start(chars@.skip(i as int), c) == trim_start(chars@, c),
        decreases chars.len() - i,
    {
        proof {
            lemma_skip_step(chars@, i as int);
        }
        i += 1;
    }
    i
}

/// The index, not before `start`, at which the trailing run of `c` in
/// `chars[start..]` begins.
pub fn trailing_run(chars: &Vec<char>, start: usize, c: char) -> (end: usize)
    requires
        start <= chars.len(),
    ensures
        start <= end <= chars.len(),
        chars@.subrange(start as int, end as int) == trim_end(chars@.skip(start as int), c),
{
    let mut j: usize = chars.len();
    assert(chars@.subrange(start as int, j as int) =~= chars@.skip(start as int));
    while j > start && chars[j - 1] == c
        invariant
            start <= j <= chars.len(),
            trim_end(chars@.subrange(start as int, j as int), c) == trim_end(
                chars@.skip(start as int),
                c,
            ),
        decreases j,
    {
        assert(chars@.subrange(start as int, j as int).drop_last() =~= chars@.subrange(
            start as int,
            j - 1,
        ));
        j -= 1;
    }
    j
}

/// The index at which the segment that starts at `start` ends: that of the
/// next `/`, or the length of `chars`.
pub fn segment_end(chars: &Vec<char>, start: usize) -> (end: usize)
    requires
        start <= chars.len(),
    ensures
        end == start + segment_len(chars@.skip(start as int)),
        start <= end <= chars.len(),
{
    let mut i: usize = start;
    while i < chars.len() && chars[i] != '/'
        invariant
            start <= i <= chars.len(),
            (i - start) + segment_len(chars@.skip(i as int)) == segment_len(
                chars@.skip(start as int),
            ),
        decreases chars.len() - i,
    {
        proof {
            lemma_skip_step(chars@, i as int);
        }
        i += 1;
    }
    i
}

/// Whether `chars[start..end]` is one or more ASCII digits and nothing else.
pub fn is_numeric_segment(chars: &Vec<char>, start: usize, end: usize) -> (yes: bool)
    requires
        start <= end <= chars.len(),
    ensures
        yes == is_numeric(chars@.subrange(start as int, end as int)),
{
    let ghost segment = chars@.subrange(start as int, end as int);
    if start == end {
        return false;
    }
    let mut i: usize = start;
    while i < end
        invariant
            start <= i <= end <= chars.len(),
            segment == chars@.subrange(start as int, end as int),
            forall|k: int| 0 <= k < i - start ==> is_digit(#[trigger] segment[k]),
        decreases end - i,
    {
        let c = chars[i];
        if c < '0' || c > '9' {
            assert(!is_digit(segment[i - start]));
            return false;
        }
        i += 1;
    }
    true
}

} // verus!
