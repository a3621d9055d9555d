//! Text primitives.

use crate::text;
use vstd::prelude::*;

verus! {

/// Whether a text consists of white space.
pub open spec fn all_white(t: Seq<char>) -> bool {
    forall|i: int| 0 <= i < t.len() ==> text::is_white(#[trigger] t[i])
}

/// Whether a text is empty or has no white space at either end.
pub open spec fn is_tight(t: Seq<char>) -> bool {
    t.len() > 0 ==> !text::is_white(t[0]) && !text::is_white(t.last())
}

/// White space in front of a text does not survive trimming.
pub proof fn law_trim_start_skips_white(white: Seq<char>, t: Seq<char>)
    requires
        all_white(white),
    ensures
        text::trim_start(white + t) == text::trim_start(t),
    decreases white.len(),
{
    if white.len() == 0 {
        assert(white + t =~= t);
    } else {
        assert(text::is_white(white[0]));
        let rest = white.drop_first();
        assert forall|i: int| 0 <= i < rest.len() implies text::is_white(#[trigger] rest[i]) by {
            assert(rest[i] == white[i + 1]);
        }
        law_trim_start_skips_white(rest, t);
        assert((white + t).drop_first() =~= rest + t);
    }
}

/// A text that starts with no white space loses nothing at its start.
pub proof fn law_trim_start_keeps_the_rest(t: Seq<char>)
    requires
        t.len() > 0 ==> !text::is_white(t[0]),
    ensures
        text::trim_start(t) == t,
{
}

proof fn lemma_trim_end_skips_white(t: Seq<char>, white: Seq<char>)
    requires
        all_white(white),
    ensures
        text::trim_end(t + white) == text::trim_end(t),
    decreases white.len(),
{
    if white.len() == 0 {
        assert(t + white =~= t);
    } else {
        assert(text::is_white(white[white.len() - 1]));
        let rest = white.drop_last();
        assert forall|i: int| 0 <= i < rest.len() implies text::is_white(#[trigger] rest[i]) by {
            assert(rest[i] == white[i]);
        }
        lemma_trim_end_skips_white(t, rest);
        assert((t + white).drop_last() =~= t + rest);
        assert((t + white).last() == white.last());
    }
}

/// Trimming takes the white space off both ends, and nothing else.
pub proof fn law_trim(a: Seq<char>, t: Seq<char>, b: Seq<char>)
    requires
        all_white(a),
        is_tight(t),
        all_white(b),
    ensures
        text::trim(a + t + b) == t,
{
    assert(a + t + b =~= a + (t + b));
    law_trim_start_skips_white(a, t + b);
    if t.len() == 0 {
        assert(t + b =~= b);
        assert(b =~= b + Seq::<char>::empty());
        law_trim_start_skips_white(b, Seq::empty());
    } else {
        assert((t + b)[0] == t[0]);
        lemma_trim_end_skips_white(t, b);
    }
}

/// A text begins with another exactly where it is that text and something more, and
/// what is left of it is that more.
pub proof fn law_prefix(t: Seq<char>, p: Seq<char>, rest: Seq<char>)
    ensures
        text::starts_with(p + rest, p),
        text::strip_prefix(p + rest, p) == Some(rest),
        text::starts_with(t, p) ==> (text::strip_prefix(t, p) matches Some(r) && t == p + r),
        !text::starts_with(t, p) ==> text::strip_prefix(t, p) is None,
{
    assert((p + rest).take(p.len() as int) =~= p);
    assert((p + rest).skip(p.len() as int) =~= rest);
    if text::starts_with(t, p) {
        assert(t =~= t.take(p.len() as int) + t.skip(p.len() as int));
    }
}

/// A text ends with another exactly where it is something and that text.
pub proof fn law_suffix(t: Seq<char>, head: Seq<char>, p: Seq<char>)
    ensures
        text::ends_with(head + p, p),
        text::ends_with(t, p) ==> t == t.take(t.len() - p.len()) + p,
{
    let whole = head + p;
    assert(whole.skip(whole.len() - p.len()) =~= p);
    if text::ends_with(t, p) {
        assert(t =~= t.take(t.len() - p.len()) + t.skip(t.len() - p.len()));
    }
}

/// The first line of a text runs up to its first line feed, without a carriage
/// return right before that; the other lines are those of what follows. A text
/// without a line feed is one line as it stands, and an empty one has none.
pub proof fn law_lines(line: Seq<char>, rest: Seq<char>)
    requires
        !line.contains('\n'),
    ensures
        line.len() == 0 ==> text::lines(line) == Seq::<Seq<char>>::empty(),
        line.len() > 0 ==> text::lines(line) == seq![line],
        text::lines(line + seq!['\n'] + rest) == seq![
            if line.len() > 0 && line[line.len() - 1] == '\r' {
                line.take(line.len() - 1)
            } else {
                line
            },
        ] + text::lines(rest),
{
    let t = line + seq!['\n'] + rest;
    let n = line.len() as int;
    assert forall|i: int| 0 <= i < n implies line[i] != '\n' by {
        assert(line.contains(line[i]));
    }
    assert forall|i: int| 0 <= i < n implies t[i] != '\n' by {
        assert(t[i] == line[i]);
    }
    assert(t[n] == '\n');
    text::lemma_span_from_first(t, '\n', n);
    text::lemma_span_from_first(line, '\n', n);
    assert(t.take(n) =~= line);
    assert(t.skip(n + 1) =~= rest);
    if n > 0 {
        assert(line.drop_last() =~= line.take(n - 1));
    }
}

/// The parts of two texts with a separator between them are those of the first and
/// then those of the second; a text without the separator is one part.
pub proof fn law_split(a: Seq<char>, b: Seq<char>, c: char)
    ensures
        text::split(a + seq![c] + b, c) == text::split(a, c) + text::split(b, c),
        !a.contains(c) ==> text::split(a, c) == seq![a],
    decreases a.len(),
{
    let whole = a + seq![c] + b;
    text::lemma_span_is_first(a, c);
    let n = text::span(a, c) as int;
    assert forall|i: int| 0 <= i < n implies whole[i] != c by {
        assert(whole[i] == a[i]);
    }
    assert(whole[n] == c);
    text::lemma_span_from_first(whole, c, n);
    assert(whole.take(n) =~= a.take(n));
    if n < a.len() {
        assert(a.contains(a[n]));
        law_split(a.skip(n + 1), b, c);
        assert(whole.skip(n + 1) =~= a.skip(n + 1) + seq![c] + b);
        assert(text::split(whole, c) =~= text::split(a, c) + text::split(b, c));
    } else {
        assert(a.take(n) =~= a);
        assert(whole.skip(n + 1) =~= b);
    }
}

/// Two texts are the same up to case exactly where they are equally long and differ
/// at most in that an ASCII letter stands small in one and large in the other.
pub proof fn law_same_up_to_case(a: Seq<char>, b: Seq<char>)
    ensures
        text::same_ignoring_ascii_case(a, b) <==> a.len() == b.len() && forall|i: int|
            #![trigger a[i], b[i]]
            0 <= i < a.len() ==> {
                ||| a[i] == b[i]
                ||| 'A' <= a[i] <= 'Z' && b[i] as u32 == a[i] as u32 + 32
                ||| 'A' <= b[i] <= 'Z' && a[i] as u32 == b[i] as u32 + 32
            },
{
    let la = a.map_values(|c: char| text::ascii_lower(c));
    let lb = b.map_values(|c: char| text::ascii_lower(c));
    if la == lb {
        assert(la.len() == lb.len());
        assert forall|i: int|
            #![trigger a[i], b[i]]
            0 <= i < a.len() implies a[i] == b[i] || ('A' <= a[i] <= 'Z' && b[i] as u32
            == a[i] as u32 + 32) || ('A' <= b[i] <= 'Z' && a[i] as u32 == b[i] as u32 + 32) by {
            assert(la[i] == lb[i]);
        }
    }
    if a.len() == b.len() && forall|i: int|
        #![trigger a[i], b[i]]
        0 <= i < a.len() ==> (a[i] == b[i] || ('A' <= a[i] <= 'Z' && b[i] as u32 == a[i] as u32
            + 32) || ('A' <= b[i] <= 'Z' && a[i] as u32 == b[i] as u32 + 32)) {
        assert forall|i: int| 0 <= i < la.len() implies la[i] == lb[i] by {
            assert(la[i] == text::ascii_lower(a[i]) && lb[i] == text::ascii_lower(b[i]));
        }
        assert(la =~= lb);
    }
}

/// Joined parts stand in their order, with the separator between each two of them.
pub proof fn law_joined(parts: Seq<Seq<char>>, part: Seq<char>, sep: Seq<char>)
    ensures
        text::joined(Seq::empty(), sep) == Seq::<char>::empty(),
        text::joined(seq![part], sep) == part,
        parts.len() > 0 ==> text::joined(parts.push(part), sep) == text::joined(parts, sep) + sep
            + part,
{
    assert(parts.push(part).drop_last() =~= parts);
}

/// The texts of strings are their contents, one for one.
pub proof fn law_texts(v: Seq<String>, w: Seq<&str>)
    ensures
        text::texts(v).len() == v.len(),
        forall|i: int| 0 <= i < v.len() ==> #[trigger] text::texts(v)[i] == v[i]@,
        text::words(w).len() == w.len(),
        forall|i: int| 0 <= i < w.len() ==> #[trigger] text::words(w)[i] == w[i]@,
{
}

} // verus!
