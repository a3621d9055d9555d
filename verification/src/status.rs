//! Reading the output of `ostree admin status`.
//!
//! The output lists the deployments, one heading line each, in boot order. A
//! heading carries the deployment id, `<checksum>.<serial>`; the booted
//! deployment's heading is marked with `*`. The `Key: value` lines below a heading
//! describe that deployment.

use crate::text;
use crate::text::{
    chars_of, contains_char, is_hex_digit, is_whitespace, lines_of, strip_prefix_of, trim_of,
};
use vstd::prelude::*;

verus! {

/// The length of a commit checksum in hexadecimal digits.
pub const CHECKSUM_LEN: usize = 64;

/// What introduces the refspec that a deployment was created from.
pub const ORIGIN_KEY: &'static str = "origin refspec:";

/// A deployment, as far as its heading tells.
pub struct Deployment {
    /// The commit checksum.
    pub checksum: Seq<char>,
    /// Whether the heading is marked as the booted one.
    pub booted: bool,
}

/// Whether a checksum's length of hexadecimal digits starts at `i` in `line`.
pub open spec fn checksum_at(line: Seq<char>, i: int) -> bool {
    &&& 0 <= i
    &&& i + CHECKSUM_LEN <= line.len()
    &&& forall|j: int| i <= j < i + CHECKSUM_LEN ==> text::is_hex(#[trigger] line[j])
}

/// The first checksum of `line` that starts at `from` or later.
pub open spec fn checksum_from(line: Seq<char>, from: int) -> Option<Seq<char>>
    decreases line.len() - from,
{
    if from >= line.len() {
        None
    } else if checksum_at(line, from) {
        Some(line.subrange(from, from + CHECKSUM_LEN))
    } else {
        checksum_from(line, from + 1)
    }
}

/// The first checksum of `line`, if it has one.
pub open spec fn first_checksum(line: Seq<char>) -> Option<Seq<char>> {
    checksum_from(line, 0)
}

/// The refspec on an origin line.
pub open spec fn origin_value(line: Seq<char>) -> Option<Seq<char>> {
    match text::strip_prefix(text::trim(line), ORIGIN_KEY@) {
        Some(rest) => Some(text::trim(rest)),
        None => None,
    }
}

/// Whether a word of `line` starts at `i` with a checksum, as a deployment id does.
pub open spec fn id_at(line: Seq<char>, i: int) -> bool {
    checksum_at(line, i) && (i == 0 || text::is_white(line[i - 1]))
}

/// Whether the key of a `Key: value` line ends at `j`: a colon with white space
/// behind it.
pub open spec fn key_ends_at(line: Seq<char>, j: int) -> bool {
    0 <= j && j + 1 < line.len() && line[j] == ':' && text::is_white(line[j + 1])
}

/// The checksum of the first deployment id of `line` that starts at `from` or
/// later, if no key ends before it.
pub open spec fn id_from(line: Seq<char>, from: int) -> Option<Seq<char>>
    decreases line.len() - from,
{
    if from >= line.len() {
        None
    } else if id_at(line, from) {
        Some(line.subrange(from, from + CHECKSUM_LEN))
    } else if key_ends_at(line, from) {
        None
    } else {
        id_from(line, from + 1)
    }
}

/// The checksum of the deployment that a line is the heading of. A `Key: value` line
/// is no heading, whatever its value, and neither is a line that gives an origin.
pub open spec fn heading_checksum(line: Seq<char>) -> Option<Seq<char>> {
    if origin_value(line) is None {
        id_from(line, 0)
    } else {
        None
    }
}

/// Whether a line is the heading of a deployment.
pub open spec fn is_heading(line: Seq<char>) -> bool {
    heading_checksum(line) is Some
}

/// Whether a line is the heading of a booted deployment.
pub open spec fn is_booted_heading(line: Seq<char>) -> bool {
    is_heading(line) && line.contains('*')
}

/// The deployments that the lines list, in their order.
pub open spec fn deployments(ls: Seq<Seq<char>>) -> Seq<Deployment>
    decreases ls.len(),
{
    if ls.len() == 0 {
        Seq::empty()
    } else {
        let above = deployments(ls.drop_last());
        match heading_checksum(ls.last()) {
            Some(checksum) => above.push(
                (Deployment { checksum, booted: ls.last().contains('*') }),
            ),
            None => above,
        }
    }
}

/// The position of the first booted deployment.
pub open spec fn booted_index(ds: Seq<Deployment>) -> Option<int>
    decreases ds.len(),
{
    if ds.len() == 0 {
        None
    } else {
        match booted_index(ds.drop_last()) {
            Some(i) => Some(i),
            None => if ds.last().booted {
                Some(ds.len() - 1)
            } else {
                None
            },
        }
    }
}

/// The checksum of the booted deployment.
pub open spec fn booted_checksum(ds: Seq<Deployment>) -> Option<Seq<char>> {
    match booted_index(ds) {
        Some(i) => Some(ds[i].checksum),
        None => None,
    }
}

/// The checksum of the deployment listed immediately after the booted one.
pub open spec fn prior_checksum(ds: Seq<Deployment>) -> Option<Seq<char>> {
    match booted_index(ds) {
        Some(i) => if i + 1 < ds.len() {
            Some(ds[i + 1].checksum)
        } else {
            None
        },
        None => None,
    }
}

/// The position of the first booted heading; the length, if there is none.
pub open spec fn first_booted(ls: Seq<Seq<char>>) -> int
    decreases ls.len(),
{
    if ls.len() == 0 || is_booted_heading(ls[0]) {
        0
    } else {
        1 + first_booted(ls.drop_first())
    }
}

/// The position of the first marked line; the length, if there is none.
pub open spec fn first_mark(ls: Seq<Seq<char>>) -> int
    decreases ls.len(),
{
    if ls.len() == 0 || ls[0].contains('*') {
        0
    } else {
        1 + first_mark(ls.drop_first())
    }
}

/// Where the booted deployment starts: at its heading, or, where no heading is
/// marked, at the first marked line; the length, if there is no mark at all.
pub open spec fn booted_start(ls: Seq<Seq<char>>) -> int {
    if first_booted(ls) < ls.len() {
        first_booted(ls)
    } else {
        first_mark(ls)
    }
}

/// The origin that the lines below a heading give, up to the next heading.
pub open spec fn origin_below(ls: Seq<Seq<char>>) -> Option<Seq<char>>
    decreases ls.len(),
{
    if ls.len() == 0 || is_heading(ls[0]) {
        None
    } else {
        match origin_value(ls[0]) {
            Some(origin) => Some(origin),
            None => origin_below(ls.drop_first()),
        }
    }
}

/// The booted deployment's own origin.
pub open spec fn booted_origin(ls: Seq<Seq<char>>) -> Option<Seq<char>> {
    let b = booted_start(ls);
    if b >= ls.len() {
        None
    } else {
        match origin_value(ls[b]) {
            Some(origin) => Some(origin),
            None => origin_below(ls.skip(b + 1)),
        }
    }
}

/// The deployments that a status output lists.
pub open spec fn listed(status: Seq<char>) -> Seq<Deployment> {
    deployments(text::lines(status))
}

/// `booted_index` is the position of the first booted deployment, if there is one.
pub proof fn lemma_booted_index(ds: Seq<Deployment>)
    ensures
        match booted_index(ds) {
            Some(i) => {
                &&& 0 <= i < ds.len()
                &&& ds[i].booted
                &&& forall|j: int| 0 <= j < i ==> !(#[trigger] ds[j]).booted
            },
            None => forall|j: int| 0 <= j < ds.len() ==> !(#[trigger] ds[j]).booted,
        },
    decreases ds.len(),
{
    if ds.len() > 0 {
        let above = ds.drop_last();
        lemma_booted_index(above);
        match booted_index(above) {
            Some(i) => {
                assert forall|j: int| 0 <= j < i implies !(#[trigger] ds[j]).booted by {
                    assert(above[j] == ds[j]);
                }
                assert(above[i] == ds[i]);
            },
            None => {
                assert forall|j: int| 0 <= j < ds.len() - 1 implies !(#[trigger] ds[j]).booted by {
                    assert(above[j] == ds[j]);
                }
            },
        }
    }
}

/// The deployments above a line come first among all of them.
pub proof fn lemma_deployments_grow(ls: Seq<Seq<char>>, n: int)
    requires
        0 <= n <= ls.len(),
    ensures
        deployments(ls.take(n)).len() <= deployments(ls).len(),
        deployments(ls).take(deployments(ls.take(n)).len() as int) == deployments(ls.take(n)),
    decreases ls.len() - n,
{
    if n < ls.len() {
        lemma_deployments_grow(ls, n + 1);
        let now = ls.take(n + 1);
        assert(now.drop_last() =~= ls.take(n));
        let a = deployments(ls.take(n));
        let b = deployments(now);
        assert(b.take(a.len() as int) =~= a);
        assert(deployments(ls).take(a.len() as int) =~= deployments(ls).take(b.len() as int).take(
            a.len() as int,
        ));
    } else {
        assert(ls.take(n) =~= ls);
        assert(deployments(ls).take(deployments(ls).len() as int) =~= deployments(ls));
    }
}

/// The first booted deployment of a list stays the first when the list grows.
pub proof fn lemma_booted_index_stays(ds: Seq<Deployment>, n: int)
    requires
        0 <= n <= ds.len(),
        booted_index(ds.take(n)) is Some,
    ensures
        booted_index(ds) == booted_index(ds.take(n)),
{
    lemma_booted_index(ds);
    lemma_booted_index(ds.take(n));
    let i = booted_index(ds.take(n))->0;
    assert(ds.take(n)[i] == ds[i]);
    let k = booted_index(ds)->0;
    if k < i {
        assert(ds.take(n)[k] == ds[k]);
    }
}

/// `first_booted` is the position of the first booted heading.
pub proof fn lemma_first_booted(ls: Seq<Seq<char>>, n: int)
    requires
        0 <= n <= ls.len(),
        forall|i: int| 0 <= i < n ==> !is_booted_heading(#[trigger] ls[i]),
        n < ls.len() ==> is_booted_heading(ls[n]),
    ensures
        first_booted(ls) == n,
    decreases n,
{
    if n > 0 {
        assert(!is_booted_heading(ls[0]));
        let rest = ls.drop_first();
        assert forall|i: int| 0 <= i < n - 1 implies !is_booted_heading(#[trigger] rest[i]) by {
            assert(rest[i] == ls[i + 1]);
        }
        lemma_first_booted(rest, n - 1);
    }
}

/// `first_mark` is the position of the first marked line.
pub proof fn lemma_first_mark(ls: Seq<Seq<char>>, n: int)
    requires
        0 <= n <= ls.len(),
        forall|i: int| 0 <= i < n ==> !(#[trigger] ls[i]).contains('*'),
        n < ls.len() ==> ls[n].contains('*'),
    ensures
        first_mark(ls) == n,
    decreases n,
{
    if n > 0 {
        assert(!ls[0].contains('*'));
        let rest = ls.drop_first();
        assert forall|i: int| 0 <= i < n - 1 implies !(#[trigger] rest[i]).contains('*') by {
            assert(rest[i] == ls[i + 1]);
        }
        lemma_first_mark(rest, n - 1);
    }
}

/// Whether a checksum's length of hexadecimal digits starts at `i`.
fn is_checksum_at(v: &Vec<char>, i: usize) -> (b: bool)
    requires
        i < v.len(),
    ensures
        b == checksum_at(v@, i as int),
{
    if v.len() - i < CHECKSUM_LEN {
        return false;
    }
    let mut k: usize = 0;
    while k < CHECKSUM_LEN
        invariant
            k <= CHECKSUM_LEN,
            i + CHECKSUM_LEN <= v.len(),
            forall|j: int| i <= j < i + k ==> text::is_hex(#[trigger] v@[j]),
        decreases CHECKSUM_LEN - k,
    {
        if !is_hex_digit(v[i + k]) {
            assert(!text::is_hex(v@[i + k]));
            return false;
        }
        k = k + 1;
    }
    true
}

/// Extract the first 64-hex-character run from a line (an ostree commit
/// checksum, e.g. the `<checksum>.0` deployment id in `ostree admin status`).
pub fn first_hex64(line: &str) -> (r: Option<String>)
    ensures
        match r {
            Some(c) => first_checksum(line@) == Some(c@),
            None => first_checksum(line@) is None,
        },
{
    let v = chars_of(line);
    let mut i: usize = 0;
    while i < v.len()
        invariant
            v@ == line@,
            i <= v.len(),
            first_checksum(line@) == checksum_from(line@, i as int),
        decreases v.len() - i,
    {
        if is_checksum_at(&v, i) {
            return Some(line.substring_char(i, i + CHECKSUM_LEN).to_string());
        }
        i = i + 1;
    }
    None
}

/// The refspec on an origin line.
fn line_origin(line: &str) -> (r: Option<String>)
    ensures
        match r {
            Some(o) => origin_value(line@) == Some(o@),
            None => origin_value(line@) is None,
        },
{
    match strip_prefix_of(&trim_of(line), ORIGIN_KEY) {
        Some(rest) => Some(trim_of(&rest)),
        None => None,
    }
}

/// The checksum of the deployment that a line is the heading of.
fn line_heading(line: &str) -> (r: Option<String>)
    ensures
        match r {
            Some(c) => heading_checksum(line@) == Some(c@),
            None => heading_checksum(line@) is None,
        },
{
    if line_origin(line).is_some() {
        return None;
    }
    let v = chars_of(line);
    let mut i: usize = 0;
    while i < v.len()
        invariant
            v@ == line@,
            i <= v.len(),
            heading_checksum(line@) == id_from(line@, i as int),
        decreases v.len() - i,
    {
        if (i == 0 || is_whitespace(v[i - 1])) && is_checksum_at(&v, i) {
            return Some(line.substring_char(i, i + CHECKSUM_LEN).to_string());
        }
        if v[i] == ':' && v.len() - i > 1 && is_whitespace(v[i + 1]) {
            return None;
        }
        i = i + 1;
    }
    None
}

/// Checksums of every deployment, in listed order.
pub fn parse_deployment_checksums(status: &str) -> (r: Vec<String>)
    ensures
        text::texts(r@) == listed(status@).map_values(|d: Deployment| d.checksum),
{
    let ls = lines_of(status);
    let ghost all = text::lines(status@);
    let mut r: Vec<String> = Vec::new();
    let mut i: usize = 0;
    assert(all.take(0) =~= Seq::empty());
    assert(text::texts(r@) =~= deployments(all.take(0)).map_values(
        |d: Deployment| d.checksum,
    ));
    while i < ls.len()
        invariant
            all == text::texts(ls@),
            i <= ls.len(),
            text::texts(r@) == deployments(all.take(i as int)).map_values(
                |d: Deployment| d.checksum,
            ),
        decreases ls.len() - i,
    {
        let ghost before = text::texts(r@);
        proof {
            let now = all.take(i as int + 1);
            assert(now.drop_last() =~= all.take(i as int));
            assert(now.last() == ls@[i as int]@);
        }
        match line_heading(&ls[i]) {
            Some(c) => {
                r.push(c);
                assert(text::texts(r@) =~= before.push(c@));
            },
            None => {},
        }
        i = i + 1;
        assert(text::texts(r@) =~= deployments(all.take(i as int)).map_values(
            |d: Deployment| d.checksum,
        ));
    }
    assert(all.take(ls.len() as int) =~= all);
    r
}

/// Index (within the deployment list) of the booted deployment (marked `*`).
pub fn parse_booted_index(status: &str) -> (r: Option<usize>)
    ensures
        match r {
            Some(i) => booted_index(listed(status@)) == Some(i as int),
            None => booted_index(listed(status@)) is None,
        },
{
    let ls = lines_of(status);
    let ghost all = text::lines(status@);
    let mut idx: usize = 0;
    let mut i: usize = 0;
    assert(all.take(0) =~= Seq::empty());
    while i < ls.len()
        invariant
            all == text::texts(ls@),
            all == text::lines(status@),
            idx <= i <= ls.len(),
            idx == deployments(all.take(i as int)).len(),
            booted_index(deployments(all.take(i as int))) is None,
        decreases ls.len() - i,
    {
        proof {
            let now = all.take(i as int + 1);
            assert(now.drop_last() =~= all.take(i as int));
            assert(now.last() == ls@[i as int]@);
            let ds = deployments(now);
            if heading_checksum(now.last()) is Some {
                assert(ds.drop_last() =~= deployments(all.take(i as int)));
            }
        }
        if line_heading(&ls[i]).is_some() {
            if contains_char(&ls[i], '*') {
                proof {
                    let ds = deployments(all.take(i as int + 1));
                    lemma_deployments_grow(all, i as int + 1);
                    lemma_booted_index_stays(deployments(all), ds.len() as int);
                }
                return Some(idx);
            }
            idx = idx + 1;
        }
        i = i + 1;
    }
    assert(all.take(ls.len() as int) =~= all);
    None
}

/// Checksum of the booted deployment.
pub fn parse_booted_checksum(status: &str) -> (r: Option<String>)
    ensures
        match r {
            Some(c) => booted_checksum(listed(status@)) == Some(c@),
            None => booted_checksum(listed(status@)) is None,
        },
{
    let ls = lines_of(status);
    let ghost all = text::lines(status@);
    let mut i: usize = 0;
    assert(all.take(0) =~= Seq::empty());
    while i < ls.len()
        invariant
            all == text::texts(ls@),
            all == text::lines(status@),
            i <= ls.len(),
            booted_index(deployments(all.take(i as int))) is None,
        decreases ls.len() - i,
    {
        proof {
            let now = all.take(i as int + 1);
            assert(now.drop_last() =~= all.take(i as int));
            assert(now.last() == ls@[i as int]@);
            let ds = deployments(now);
            if heading_checksum(now.last()) is Some {
                assert(ds.drop_last() =~= deployments(all.take(i as int)));
            }
        }
        if contains_char(&ls[i], '*') {
            match line_heading(&ls[i]) {
                Some(c) => {
                    proof {
                        let ds = deployments(all.take(i as int + 1));
                        lemma_deployments_grow(all, i as int + 1);
                        lemma_booted_index_stays(deployments(all), ds.len() as int);
                        assert(deployments(all).take(ds.len() as int)[ds.len() - 1] == deployments(
                            all,
                        )[ds.len() - 1]);
                    }
                    return Some(c);
                },
                None => {},
            }
        }
        i = i + 1;
    }
    assert(all.take(ls.len() as int) =~= all);
    None
}

/// Checksum of the deployment the machine can roll back to (the one listed
/// immediately after the booted deployment).
pub fn parse_prior_checksum(status: &str) -> (r: Option<String>)
    ensures
        match r {
            Some(c) => prior_checksum(listed(status@)) == Some(c@),
            None => prior_checksum(listed(status@)) is None,
        },
{
    let checksums = parse_deployment_checksums(status);
    let n = checksums.len();
    let ghost ds = listed(status@);
    proof {
        lemma_booted_index(ds);
        assert(checksums@.len() == text::texts(checksums@).len());
        assert(n == ds.len());
    }
    match parse_booted_index(status) {
        Some(booted) => {
            if booted + 1 < n {
                assert(text::texts(checksums@)[booted + 1] == ds[booted + 1].checksum);
                Some(checksums[booted + 1].clone())
            } else {
                None
            }
        },
        None => None,
    }
}

/// The line at which the booted deployment starts; `ls.len()` if there is none.
fn find_booted(ls: &Vec<String>) -> (b: usize)
    ensures
        b == booted_start(text::texts(ls@)),
        b <= ls.len(),
{
    let ghost all = text::texts(ls@);
    let mut mark: usize = ls.len();
    let mut i: usize = 0;
    while i < ls.len()
        invariant
            all == text::texts(ls@),
            i <= ls.len(),
            mark < i || mark == ls.len(),
            forall|j: int| 0 <= j < i ==> !is_booted_heading(#[trigger] all[j]),
            forall|j: int| 0 <= j < i && j < mark ==> !(#[trigger] all[j]).contains('*'),
            mark < i ==> all[mark as int].contains('*'),
        decreases ls.len() - i,
    {
        assert(all[i as int] == ls@[i as int]@);
        if contains_char(&ls[i], '*') {
            if line_heading(&ls[i]).is_some() {
                proof {
                    lemma_first_booted(all, i as int);
                }
                return i;
            }
            if mark == ls.len() {
                mark = i;
            }
        }
        i = i + 1;
    }
    proof {
        lemma_first_booted(all, all.len() as int);
        lemma_first_mark(all, mark as int);
    }
    mark
}

/// The booted deployment's `origin refspec:` value.
pub fn parse_booted_origin(status: &str) -> (r: Option<String>)
    ensures
        match r {
            Some(o) => booted_origin(text::lines(status@)) == Some(o@),
            None => booted_origin(text::lines(status@)) is None,
        },
{
    let ls = lines_of(status);
    let ghost all = text::lines(status@);
    let b = find_booted(&ls);
    if b == ls.len() {
        return None;
    }
    assert(all[b as int] == ls@[b as int]@);
    match line_origin(&ls[b]) {
        Some(o) => return Some(o),
        None => {},
    }
    let mut i: usize = b + 1;
    while i < ls.len()
        invariant
            all == text::texts(ls@),
            all == text::lines(status@),
            i <= ls.len(),
            booted_origin(all) == origin_below(all.skip(i as int)),
        decreases ls.len() - i,
    {
        let ghost left = all.skip(i as int);
        assert(left[0] == ls@[i as int]@);
        if line_heading(&ls[i]).is_some() {
            return None;
        }
        match line_origin(&ls[i]) {
            Some(o) => return Some(o),
            None => {},
        }
        assert(left.drop_first() =~= all.skip(i as int + 1));
        i = i + 1;
    }
    None
}

} // verus!
