//! Text primitives: lines, trimming, searching and joining.
//!
//! Every function works on characters and is specified over `Seq<char>`.

use vstd::prelude::*;

verus! {

/// The characters with the Unicode property `White_Space`.
pub open spec fn is_white(c: char) -> bool {
    let n = c as u32;
    ||| 0x9 <= n <= 0xd
    ||| n == 0x20
    ||| n == 0x85
    ||| n == 0xa0
    ||| n == 0x1680
    ||| 0x2000 <= n <= 0x200a
    ||| n == 0x2028
    ||| n == 0x2029
    ||| n == 0x202f
    ||| n == 0x205f
    ||| n == 0x3000
}

/// ASCII hexadecimal digits, of either case.
pub open spec fn is_hex(c: char) -> bool {
    ||| '0' <= c <= '9'
    ||| 'a' <= c <= 'f'
    ||| 'A' <= c <= 'F'
}

/// `t` without its leading white space.
pub open spec fn trim_start(t: Seq<char>) -> Seq<char>
    decreases t.len(),
{
    if t.len() > 0 && is_white(t[0]) {
        trim_start(t.drop_first())
    } else {
        t
    }
}

/// `t` without its trailing white space.
pub open spec fn trim_end(t: Seq<char>) -> Seq<char>
    decreases t.len(),
{
    if t.len() > 0 && is_white(t.last()) {
        trim_end(t.drop_last())
    } else {
        t
    }
}

/// `t` without the white space around it.
pub open spec fn trim(t: Seq<char>) -> Seq<char> {
    trim_end(trim_start(t))
}

/// How many characters of `t` come before the first `c` (all, if there is none).
pub open spec fn span(t: Seq<char>, c: char) -> nat
    decreases t.len(),
{
    if t.len() == 0 || t[0] == c {
        0
    } else {
        1 + span(t.drop_first(), c)
    }
}

/// A line without the carriage return that belongs to its line ending.
pub open spec fn chomp(line: Seq<char>) -> Seq<char> {
    if line.len() > 0 && line.last() == '\r' {
        line.drop_last()
    } else {
        line
    }
}

/// The lines of `t`. A line ends with `\n` or `\r\n`; the last ending is optional.
pub open spec fn lines(t: Seq<char>) -> Seq<Seq<char>>
    decreases t.len(),
{
    if t.len() == 0 {
        Seq::empty()
    } else {
        let n = span(t, '\n');
        if n >= t.len() {
            seq![t]
        } else {
            seq![chomp(t.take(n as int))] + lines(t.skip(n as int + 1))
        }
    }
}

/// The parts of `t` between its `c`s. There is always one part more than there are
/// `c`s.
pub open spec fn split(t: Seq<char>, c: char) -> Seq<Seq<char>>
    decreases t.len(),
{
    let n = span(t, c);
    if n >= t.len() {
        seq![t]
    } else {
        seq![t.take(n as int)] + split(t.skip(n as int + 1), c)
    }
}

/// Whether `t` begins with `p`.
pub open spec fn starts_with(t: Seq<char>, p: Seq<char>) -> bool {
    p.len() <= t.len() && t.take(p.len() as int) == p
}

/// Whether `t` ends with `p`.
pub open spec fn ends_with(t: Seq<char>, p: Seq<char>) -> bool {
    p.len() <= t.len() && t.skip(t.len() - p.len()) == p
}

/// What follows the prefix `p` in `t`, if `t` begins with it.
pub open spec fn strip_prefix(t: Seq<char>, p: Seq<char>) -> Option<Seq<char>> {
    if starts_with(t, p) {
        Some(t.skip(p.len() as int))
    } else {
        None
    }
}

/// `c` in lower case, if it is an ASCII letter.
pub open spec fn ascii_lower(c: char) -> char {
    if 'A' <= c <= 'Z' {
        (c as u32 + 32) as char
    } else {
        c
    }
}

/// Whether `a` and `b` are the same up to the case of ASCII letters.
pub open spec fn same_ignoring_ascii_case(a: Seq<char>, b: Seq<char>) -> bool {
    a.map_values(|c: char| ascii_lower(c)) == b.map_values(|c: char| ascii_lower(c))
}

/// The texts of a sequence of strings.
pub open spec fn texts(v: Seq<String>) -> Seq<Seq<char>> {
    v.map_values(|s: String| s@)
}

/// The parts, with `sep` between each two of them.
pub open spec fn joined(parts: Seq<Seq<char>>, sep: Seq<char>) -> Seq<char>
    decreases parts.len(),
{
    if parts.len() == 0 {
        Seq::empty()
    } else if parts.len() == 1 {
        parts[0]
    } else {
        joined(parts.drop_last(), sep) + sep + parts.last()
    }
}

/// `span` is the position of the first `c`.
pub proof fn lemma_span_is_first(t: Seq<char>, c: char)
    ensures
        span(t, c) <= t.len(),
        forall|i: int| 0 <= i < span(t, c) ==> t[i] != c,
        span(t, c) < t.len() ==> t[span(t, c) as int] == c,
    decreases t.len(),
{
    if t.len() > 0 && t[0] != c {
        let rest = t.drop_first();
        lemma_span_is_first(rest, c);
        assert forall|i: int| 0 <= i < span(t, c) implies t[i] != c by {
            if i > 0 {
                assert(rest[i - 1] == t[i]);
            }
        }
        if span(t, c) < t.len() {
            assert(rest[span(rest, c) as int] == t[span(t, c) as int]);
        }
    }
}

/// The position of the first `c` is `span`.
pub proof fn lemma_span_from_first(t: Seq<char>, c: char, n: int)
    requires
        0 <= n <= t.len(),
        forall|i: int| 0 <= i < n ==> t[i] != c,
        n < t.len() ==> t[n] == c,
    ensures
        span(t, c) == n,
{
    lemma_span_is_first(t, c);
    let m = span(t, c) as int;
    if m < n {
        assert(t[m] == c);
    }
    if n < m {
        assert(t[n] != c);
    }
}

/// The characters of a text.
pub fn chars_of(s: &str) -> (v: Vec<char>)
    ensures
        v@ == s@,
{
    let mut v: Vec<char> = Vec::new();
    for c in it: s.chars()
        invariant
            v@ == s@.take(it.index() as int),
            it.seq() == s@,
    {
        v.push(c);
    }
    assert(s@.take(s@.len() as int) =~= s@);
    v
}

/// Whether `c` is white space.
pub fn is_whitespace(c: char) -> (b: bool)
    ensures
        b == is_white(c),
{
    let n: u32 = c as u32;
    (0x9 <= n && n <= 0xd) || n == 0x20 || n == 0x85 || n == 0xa0 || n == 0x1680 || (0x2000 <= n && n
        <= 0x200a) || n == 0x2028 || n == 0x2029 || n == 0x202f || n == 0x205f || n == 0x3000
}

/// Whether `c` is an ASCII hexadecimal digit.
pub fn is_hex_digit(c: char) -> (b: bool)
    ensures
        b == is_hex(c),
{
    ('0' <= c && c <= '9') || ('a' <= c && c <= 'f') || ('A' <= c && c <= 'F')
}

/// `s` without its leading white space.
pub fn trim_start_of(s: &str) -> (r: String)
    ensures
        r@ == trim_start(s@),
{
    let v = chars_of(s);
    let mut i: usize = 0;
    assert(s@.skip(0) =~= s@);
    while i < v.len() && is_whitespace(v[i])
        invariant
            v@ == s@,
            i <= v.len(),
            trim_start(s@) == trim_start(s@.skip(i as int)),
        decreases v.len() - i,
    {
        assert(s@.skip(i as int).drop_first() =~= s@.skip(i + 1));
        i = i + 1;
    }
    assert(s@.skip(i as int) =~= s@.subrange(i as int, s@.len() as int));
    s.substring_char(i, v.len()).to_string()
}

/// `s` without the white space around it.
pub fn trim_of(s: &str) -> (r: String)
    ensures
        r@ == trim(s@),
{
    let t = trim_start_of(s);
    let v = chars_of(&t);
    let mut j: usize = v.len();
    assert(t@.take(t@.len() as int) =~= t@);
    while j > 0 && is_whitespace(v[j - 1])
        invariant
            v@ == t@,
            j <= v.len(),
            trim_end(t@) == trim_end(t@.take(j as int)),
        decreases j,
    {
        assert(t@.take(j as int).drop_last() =~= t@.take(j - 1));
        j = j - 1;
    }
    assert(t@.take(j as int) =~= t@.subrange(0, j as int));
    t.as_str().substring_char(0, j).to_string()
}

/// The position, at or after `from`, of the first `c`; `v.len()` if there is none.
fn find_char(v: &Vec<char>, from: usize, c: char) -> (n: usize)
    requires
        from <= v.len(),
    ensures
        from <= n <= v.len(),
        n - from == span(v@.skip(from as int), c),
{
    let mut n = from;
    while n < v.len() && v[n] != c
        invariant
            from <= n <= v.len(),
            forall|i: int| from <= i < n ==> v@[i] != c,
        decreases v.len() - n,
    {
        n = n + 1;
    }
    proof {
        lemma_span_from_first(v@.skip(from as int), c, n - from);
    }
    n
}

/// Whether `c` occurs in `s`.
pub fn contains_char(s: &str, c: char) -> (b: bool)
    ensures
        b == s@.contains(c),
{
    let v = chars_of(s);
    let n = find_char(&v, 0, c);
    proof {
        assert(s@.skip(0) =~= s@);
        lemma_span_is_first(s@, c);
        if n < v.len() {
            assert(s@[n as int] == c);
        }
    }
    n < v.len()
}

/// The text on each side of the first `c` in `s`, if there is one.
pub fn split_once_of(s: &str, c: char) -> (r: Option<(String, String)>)
    ensures
        match r {
            Some((a, b)) => {
                &&& span(s@, c) < s@.len()
                &&& a@ == s@.take(span(s@, c) as int)
                &&& b@ == s@.skip(span(s@, c) as int + 1)
            },
            None => span(s@, c) == s@.len(),
        },
{
    let v = chars_of(s);
    let n = find_char(&v, 0, c);
    assert(s@.skip(0) =~= s@);
    if n < v.len() {
        assert(s@.take(n as int) =~= s@.subrange(0, n as int));
        assert(s@.skip(n as int + 1) =~= s@.subrange(n as int + 1, s@.len() as int));
        Some((s.substring_char(0, n).to_string(), s.substring_char(n + 1, v.len()).to_string()))
    } else {
        None
    }
}

/// The parts of `s` between its `c`s.
pub fn split_of(s: &str, c: char) -> (r: Vec<String>)
    ensures
        texts(r@) == split(s@, c),
{
    let v = chars_of(s);
    let mut r: Vec<String> = Vec::new();
    let mut start: usize = 0;
    assert(s@.skip(0) =~= s@);
    assert(split(s@, c) =~= texts(r@) + split(s@, c));
    loop
        invariant
            v@ == s@,
            start <= v.len(),
            split(s@, c) == texts(r@) + split(s@.skip(start as int), c),
        decreases v.len() - start,
    {
        let ghost rest = s@.skip(start as int);
        let ghost before = texts(r@);
        let n = find_char(&v, start, c);
        let ghost k = n - start;
        r.push(s.substring_char(start, n).to_string());
        if n == v.len() {
            proof {
                assert(rest =~= s@.subrange(start as int, n as int));
                assert(texts(r@) =~= before + seq![rest]);
            }
            return r;
        }
        start = n + 1;
        proof {
            assert(rest.take(k) =~= s@.subrange(n - k, n as int));
            assert(rest.skip(k + 1) =~= s@.skip(start as int));
            assert(texts(r@) =~= before.push(rest.take(k)));
            assert(before + (seq![rest.take(k)] + split(s@.skip(start as int), c)) =~= texts(r@)
                + split(s@.skip(start as int), c));
        }
    }
}

/// The lines of `s`.
pub fn lines_of(s: &str) -> (r: Vec<String>)
    ensures
        texts(r@) == lines(s@),
{
    let v = chars_of(s);
    let mut r: Vec<String> = Vec::new();
    let mut start: usize = 0;
    assert(s@.skip(0) =~= s@);
    assert(texts(r@) =~= Seq::<Seq<char>>::empty());
    assert(lines(s@) =~= texts(r@) + lines(s@));
    while start < v.len()
        invariant
            v@ == s@,
            start <= v.len(),
            lines(s@) == texts(r@) + lines(s@.skip(start as int)),
        decreases v.len() - start,
    {
        let ghost rest = s@.skip(start as int);
        let ghost before = texts(r@);
        let n = find_char(&v, start, '\n');
        if n == v.len() {
            assert(rest =~= s@.subrange(start as int, n as int));
            let line = s.substring_char(start, n).to_string();
            r.push(line);
            start = n;
            proof {
                assert(texts(r@) =~= before.push(rest));
                assert(s@.skip(start as int) =~= Seq::<char>::empty());
                assert(lines(rest) == seq![rest]);
                assert(before + seq![rest] =~= texts(r@) + lines(s@.skip(start as int)));
            }
        } else {
            let ghost k = n - start;
            assert(rest.take(k) =~= s@.subrange(start as int, n as int));
            let end = if n > start && v[n - 1] == '\r' { n - 1 } else { n };
            assert(chomp(rest.take(k)) =~= s@.subrange(start as int, end as int));
            let line = s.substring_char(start, end).to_string();
            r.push(line);
            start = n + 1;
            proof {
                assert(rest.skip(k + 1) =~= s@.skip(start as int));
                assert(texts(r@) =~= before.push(chomp(rest.take(k))));
                assert(before + (seq![chomp(rest.take(k))] + lines(s@.skip(start as int)))
                    =~= texts(r@) + lines(s@.skip(start as int)));
            }
        }
    }
    proof {
        assert(s@.skip(start as int) =~= Seq::<char>::empty());
        assert(texts(r@) + lines(s@.skip(start as int)) =~= texts(r@));
    }
    r
}

/// Whether `s` begins with `p`.
pub fn has_prefix(s: &str, p: &str) -> (b: bool)
    ensures
        b == starts_with(s@, p@),
{
    let v = chars_of(s);
    let w = chars_of(p);
    if w.len() > v.len() {
        return false;
    }
    let mut i: usize = 0;
    while i < w.len()
        invariant
            v@ == s@,
            w@ == p@,
            i <= w.len() <= v.len(),
            forall|j: int| 0 <= j < i ==> v@[j] == w@[j],
        decreases w.len() - i,
    {
        if v[i] != w[i] {
            assert(s@.take(p@.len() as int)[i as int] != p@[i as int]);
            return false;
        }
        i = i + 1;
    }
    assert(s@.take(p@.len() as int) =~= p@);
    true
}

/// Whether `s` ends with `p`.
pub fn has_suffix(s: &str, p: &str) -> (b: bool)
    ensures
        b == ends_with(s@, p@),
{
    let v = chars_of(s);
    let w = chars_of(p);
    if w.len() > v.len() {
        return false;
    }
    let d: usize = v.len() - w.len();
    let mut i: usize = 0;
    while i < w.len()
        invariant
            v@ == s@,
            w@ == p@,
            i <= w.len() <= v.len(),
            d == v.len() - w.len(),
            forall|j: int| 0 <= j < i ==> v@[d + j] == w@[j],
        decreases w.len() - i,
    {
        if v[d + i] != w[i] {
            assert(s@.skip(d as int)[i as int] != p@[i as int]);
            return false;
        }
        i = i + 1;
    }
    assert(s@.skip(d as int) =~= p@);
    true
}

/// What follows the prefix `p` in `s`, if `s` begins with it.
pub fn strip_prefix_of(s: &str, p: &str) -> (r: Option<String>)
    ensures
        match r {
            Some(rest) => strip_prefix(s@, p@) == Some(rest@),
            None => strip_prefix(s@, p@) is None,
        },
{
    if has_prefix(s, p) {
        let n = s.unicode_len();
        let k = p.unicode_len();
        assert(s@.skip(k as int) =~= s@.subrange(k as int, n as int));
        Some(s.substring_char(k, n).to_string())
    } else {
        None
    }
}

/// Whether `a` and `b` are the same text.
pub fn same(a: &str, b: &str) -> (r: bool)
    ensures
        r == (a@ == b@),
{
    a.to_string() == b.to_string()
}

/// `c` in lower case, if it is an ASCII letter.
fn ascii_lower_of(c: char) -> (r: char)
    ensures
        r == ascii_lower(c),
{
    if 'A' <= c && c <= 'Z' {
        let n: u8 = c as u8;
        (n + 32) as char
    } else {
        c
    }
}

/// Whether `a` and `b` are the same up to the case of ASCII letters.
pub fn same_ignoring_case(a: &str, b: &str) -> (r: bool)
    ensures
        r == same_ignoring_ascii_case(a@, b@),
{
    let v = chars_of(a);
    let w = chars_of(b);
    let ghost la = a@.map_values(|c: char| ascii_lower(c));
    let ghost lb = b@.map_values(|c: char| ascii_lower(c));
    if v.len() != w.len() {
        assert(la.len() != lb.len());
        return false;
    }
    let mut i: usize = 0;
    while i < v.len()
        invariant
            v@ == a@,
            w@ == b@,
            v.len() == w.len(),
            i <= v.len(),
            la == a@.map_values(|c: char| ascii_lower(c)),
            lb == b@.map_values(|c: char| ascii_lower(c)),
            forall|j: int| 0 <= j < i ==> la[j] == lb[j],
        decreases v.len() - i,
    {
        if ascii_lower_of(v[i]) != ascii_lower_of(w[i]) {
            assert(la[i as int] != lb[i as int]);
            return false;
        }
        i = i + 1;
    }
    assert(la =~= lb);
    true
}

/// `a` followed by `b`.
pub fn cat(a: &str, b: &str) -> (r: String)
    ensures
        r@ == a@ + b@,
{
    a.to_string().concat(b)
}

/// `a`, `b` and `c` in a row.
pub fn cat3(a: &str, b: &str, c: &str) -> (r: String)
    ensures
        r@ == a@ + b@ + c@,
{
    a.to_string().concat(b).concat(c)
}

/// The texts of a sequence of string slices.
pub open spec fn words(v: Seq<&str>) -> Seq<Seq<char>> {
    v.map_values(|s: &str| s@)
}

/// The words of a command line.
pub fn command(parts: &[&str]) -> (r: Vec<String>)
    ensures
        texts(r@) == words(parts@),
{
    let mut r: Vec<String> = Vec::new();
    let mut i: usize = 0;
    while i < parts.len()
        invariant
            i <= parts.len(),
            texts(r@) == words(parts@).take(i as int),
        decreases parts.len() - i,
    {
        let ghost before = texts(r@);
        r.push(parts[i].to_string());
        i = i + 1;
        assert(texts(r@) =~= before.push(parts@[i - 1]@));
        assert(texts(r@) =~= words(parts@).take(i as int));
    }
    assert(words(parts@).take(i as int) =~= words(parts@));
    r
}

/// The parts, with `sep` between each two of them.
pub fn join(parts: &[String], sep: &str) -> (r: String)
    ensures
        r@ == joined(texts(parts@), sep@),
{
    let mut r = String::new();
    let ghost all = texts(parts@);
    let mut i: usize = 0;
    assert(all.take(0) =~= Seq::<Seq<char>>::empty());
    while i < parts.len()
        invariant
            all == texts(parts@),
            i <= parts.len(),
            r@ == joined(all.take(i as int), sep@),
        decreases parts.len() - i,
    {
        if i > 0 {
            r.append(sep);
        }
        r.append(parts[i].as_str());
        proof {
            let now = all.take(i as int + 1);
            assert(now.drop_last() =~= all.take(i as int));
            assert(now.last() == parts@[i as int]@);
            if i == 0 {
                assert(r@ =~= now[0]);
            }
        }
        i = i + 1;
    }
    assert(all.take(parts.len() as int) =~= all);
    r
}

} // verus!
