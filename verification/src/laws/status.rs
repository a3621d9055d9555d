//! What is read out of a status output.

use crate::laws;
use crate::status;
use crate::status::Deployment;
use crate::text;
use vstd::prelude::*;

verus! {

/// Whether a text has the form of a commit checksum: 64 hexadecimal digits.
pub open spec fn is_checksum(t: Seq<char>) -> bool {
    &&& t.len() == 64
    &&& forall|i: int| 0 <= i < t.len() ==> text::is_hex(#[trigger] t[i])
}

/// Whether 64 hexadecimal digits start at `i`.
pub open spec fn run_at(line: Seq<char>, i: int) -> bool {
    0 <= i && i + 64 <= line.len() && is_checksum(line.subrange(i, i + 64))
}

proof fn lemma_run(line: Seq<char>, i: int)
    ensures
        run_at(line, i) == status::checksum_at(line, i),
{
    if 0 <= i && i + 64 <= line.len() {
        let c = line.subrange(i, i + 64);
        if status::checksum_at(line, i) {
            assert forall|k: int| 0 <= k < c.len() implies text::is_hex(#[trigger] c[k]) by {
                assert(c[k] == line[i + k]);
            }
        }
        if is_checksum(c) {
            assert forall|j: int| i <= j < i + 64 implies text::is_hex(#[trigger] line[j]) by {
                assert(line[j] == c[j - i]);
            }
        }
    }
}

proof fn lemma_checksum_from(line: Seq<char>, from: int)
    requires
        0 <= from,
        forall|j: int| 0 <= j < from ==> !#[trigger] run_at(line, j),
    ensures
        match status::checksum_from(line, from) {
            Some(c) => exists|i: int| #[trigger]
                run_at(line, i) && c == line.subrange(i, i + 64) && forall|j: int|
                    0 <= j < i ==> !#[trigger] run_at(line, j),
            None => forall|i: int| !#[trigger] run_at(line, i),
        },
    decreases line.len() - from,
{
    if from < line.len() {
        lemma_run(line, from);
        if status::checksum_at(line, from) {
            assert(run_at(line, from));
        } else {
            lemma_checksum_from(line, from + 1);
        }
    }
}

/// What a line yields is its leftmost run of 64 hexadecimal digits; a line that
/// yields none has none.
pub proof fn law_first_checksum_is_leftmost(line: Seq<char>)
    ensures
        match status::first_checksum(line) {
            Some(c) => exists|i: int| #[trigger]
                run_at(line, i) && c == line.subrange(i, i + 64) && forall|j: int|
                    0 <= j < i ==> !#[trigger] run_at(line, j),
            None => forall|i: int| !#[trigger] run_at(line, i),
        },
{
    lemma_checksum_from(line, 0);
}

/// A line gives an origin exactly where, white space aside, it begins with
/// `origin refspec:`; the origin is what follows, without the white space around it.
pub proof fn law_origin_lines(line: Seq<char>, rest: Seq<char>)
    ensures
        text::trim(line) == "origin refspec:"@ + rest ==> status::origin_value(line) == Some(
            text::trim(rest),
        ),
        status::origin_value(line) is Some ==> exists|r: Seq<char>|
            text::trim(line) == #[trigger] ("origin refspec:"@ + r),
{
    laws::text::law_prefix(text::trim(line), "origin refspec:"@, rest);
}

/// Whether a word that begins with 64 hexadecimal digits starts at `i`.
pub open spec fn word_at(line: Seq<char>, i: int) -> bool {
    run_at(line, i) && (i == 0 || text::is_white(line[i - 1]))
}

/// Whether a colon with white space behind it stands at `j`.
pub open spec fn key_ends(line: Seq<char>, j: int) -> bool {
    0 <= j && j + 1 < line.len() && line[j] == ':' && text::is_white(line[j + 1])
}

/// Whether some key of `line` ends before `i`.
pub open spec fn keyed_before(line: Seq<char>, i: int) -> bool {
    exists|j: int| 0 <= j < i && #[trigger] key_ends(line, j)
}

/// Whether a heading's deployment id starts at `i`: it is the first of the line,
/// and no key ends before it.
pub open spec fn heads_at(line: Seq<char>, i: int) -> bool {
    &&& word_at(line, i)
    &&& !keyed_before(line, i)
    &&& forall|j: int| 0 <= j < i ==> !#[trigger] word_at(line, j)
}

proof fn lemma_id_from(line: Seq<char>, from: int)
    requires
        0 <= from,
        !keyed_before(line, from),
        forall|j: int| 0 <= j < from ==> !#[trigger] word_at(line, j),
    ensures
        match status::id_from(line, from) {
            Some(c) => exists|i: int| #[trigger]
                heads_at(line, i) && c == line.subrange(i, i + 64),
            None => forall|i: int| !#[trigger] heads_at(line, i),
        },
    decreases line.len() - from,
{
    lemma_run(line, from);
    if from >= line.len() {
    } else if word_at(line, from) {
        assert(heads_at(line, from));
    } else if key_ends(line, from) {
        assert forall|i: int| !#[trigger] heads_at(line, i) by {
            if i > from {
                assert(keyed_before(line, i));
            }
        }
    } else {
        lemma_id_from(line, from + 1);
    }
}

/// A line is a heading exactly where it gives no origin and has a word that begins
/// with 64 hexadecimal digits and that no key stands before; the first such digits
/// are the deployment's checksum, as they stand in the line.
pub proof fn law_headings(line: Seq<char>)
    ensures
        match status::heading_checksum(line) {
            Some(c) => {
                &&& is_checksum(c)
                &&& status::origin_value(line) is None
                &&& exists|i: int| #[trigger] heads_at(line, i) && c == line.subrange(i, i + 64)
            },
            None => status::origin_value(line) is Some || forall|i: int|
                !#[trigger] heads_at(line, i),
        },
        status::is_heading(line) == (status::heading_checksum(line) is Some),
        status::is_booted_heading(line) == (status::heading_checksum(line) is Some && line.contains(
            '*',
        )),
{
    if status::origin_value(line) is None {
        lemma_id_from(line, 0);
    }
}

/// A line that has a key in front, such as one for a version, is no deployment,
/// whatever stands behind the key.
pub proof fn law_described_value_is_no_deployment(ls: Seq<Seq<char>>, line: Seq<char>, j: int)
    requires
        key_ends(line, j),
        forall|i: int| 0 <= i < j ==> !#[trigger] word_at(line, i),
    ensures
        status::heading_checksum(line) is None,
        status::deployments(ls.push(line)) == status::deployments(ls),
{
    law_headings(line);
    if status::heading_checksum(line) is Some {
        let i = choose|i: int| #[trigger]
            heads_at(line, i) && status::heading_checksum(line) == Some(line.subrange(i, i + 64));
        if i == j {
            assert(line.subrange(j, j + 64)[0] == ':');
        } else {
            assert(keyed_before(line, i));
        }
    }
    assert(ls.push(line).drop_last() =~= ls);
}

/// Every deployment that is listed carries a checksum.
pub proof fn law_deployments_carry_checksums(ls: Seq<Seq<char>>)
    ensures
        forall|i: int|
            0 <= i < status::deployments(ls).len() ==> is_checksum(
                (#[trigger] status::deployments(ls)[i]).checksum,
            ),
    decreases ls.len(),
{
    if ls.len() > 0 {
        law_deployments_carry_checksums(ls.drop_last());
        let above = status::deployments(ls.drop_last());
        law_headings(ls.last());
        assert forall|i: int| 0 <= i < status::deployments(ls).len() implies is_checksum(
            (#[trigger] status::deployments(ls)[i]).checksum,
        ) by {
            if i < above.len() {
                assert(status::deployments(ls)[i] == above[i]);
            }
        }
    }
}

/// The deployments of a status are read line by line: a heading, marked or not, adds
/// the deployment with its checksum as it stands, booted where the heading is marked,
/// and any other line adds nothing.
pub proof fn law_deployments_line_by_line(ls: Seq<Seq<char>>, line: Seq<char>)
    ensures
        status::deployments(Seq::empty()) == Seq::<Deployment>::empty(),
        status::heading_checksum(line) matches Some(c) ==> status::deployments(ls.push(line))
            == status::deployments(ls).push(
            (Deployment { checksum: c, booted: line.contains('*') }),
        ),
        status::heading_checksum(line) is None ==> status::deployments(ls.push(line))
            == status::deployments(ls),
{
    assert(ls.push(line).drop_last() =~= ls);
}

/// What a status lists is what its lines list.
pub proof fn law_status_is_read_by_lines(status: Seq<char>)
    ensures
        status::listed(status) == status::deployments(text::lines(status)),
{
}

/// The booted deployment is the first one marked, its checksum is the booted one,
/// and the roll-back target is the one right after it.
pub proof fn law_booted_and_prior_agree_with_the_list(ds: Seq<Deployment>)
    ensures
        match status::booted_index(ds) {
            Some(i) => {
                &&& 0 <= i < ds.len()
                &&& ds[i].booted
                &&& forall|j: int| 0 <= j < i ==> !(#[trigger] ds[j]).booted
                &&& status::booted_checksum(ds) == Some(ds[i].checksum)
                &&& status::prior_checksum(ds) == (if i + 1 < ds.len() {
                    Some(ds[i + 1].checksum)
                } else {
                    None
                })
            },
            None => {
                &&& forall|j: int| 0 <= j < ds.len() ==> !(#[trigger] ds[j]).booted
                &&& status::booted_checksum(ds) is None
                &&& status::prior_checksum(ds) is None
            },
        },
{
    status::lemma_booted_index(ds);
}

/// Lines that are no headings add no deployment.
proof fn lemma_no_heading_no_deployment(ls: Seq<Seq<char>>, a: int, b: int)
    requires
        0 <= a <= b <= ls.len(),
        forall|i: int| a <= i < b ==> status::heading_checksum(#[trigger] ls[i]) is None,
    ensures
        status::deployments(ls.take(b)) == status::deployments(ls.take(a)),
    decreases b - a,
{
    if a < b {
        lemma_no_heading_no_deployment(ls, a, b - 1);
        assert(ls.take(b) =~= ls.take(b - 1).push(ls[b - 1]));
        law_deployments_line_by_line(ls.take(b - 1), ls[b - 1]);
    }
}

/// The booted checksum is that of the first marked heading `b`, and the machine rolls
/// back to the checksum of the next heading `e` below it, as both stand in the text.
pub proof fn law_rollback_target_is_the_next_heading(ls: Seq<Seq<char>>, b: int, e: int)
    requires
        0 <= b < e < ls.len(),
        status::heading_checksum(ls[b]) is Some && ls[b].contains('*'),
        forall|i: int|
            0 <= i < b ==> status::heading_checksum(#[trigger] ls[i]) is None || !ls[i].contains('*'),
        status::heading_checksum(ls[e]) is Some,
        forall|i: int| b < i < e ==> status::heading_checksum(#[trigger] ls[i]) is None,
    ensures
        status::booted_checksum(status::deployments(ls)) == status::heading_checksum(ls[b]),
        status::prior_checksum(status::deployments(ls)) == status::heading_checksum(ls[e]),
{
    assert forall|i: int| 0 <= i < b implies !status::is_booted_heading(#[trigger] ls[i]) by {
        assert(status::heading_checksum(ls[i]) is None || !ls[i].contains('*'));
    }
    law_origin_and_index_mean_one_deployment(ls, b);
    lemma_no_heading_no_deployment(ls, b + 1, e);
    assert(ls.take(b + 1) =~= ls.take(b).push(ls[b]));
    assert(ls.take(e + 1) =~= ls.take(e).push(ls[e]));
    law_deployments_line_by_line(ls.take(b), ls[b]);
    law_deployments_line_by_line(ls.take(e), ls[e]);
    status::lemma_deployments_grow(ls, e + 1);
    let n = status::deployments(ls.take(b)).len() as int;
    let ds = status::deployments(ls);
    assert(ds.take(n + 2)[n + 1] == ds[n + 1]);
}

/// Where no heading stands below the first marked one, or none is marked, there is
/// nothing to roll back to.
pub proof fn law_no_rollback_target_below_the_last(ls: Seq<Seq<char>>, b: int)
    requires
        0 <= b <= ls.len(),
        b < ls.len() ==> status::heading_checksum(ls[b]) is Some && ls[b].contains('*'),
        forall|i: int|
            0 <= i < b ==> status::heading_checksum(#[trigger] ls[i]) is None || !ls[i].contains('*'),
        forall|i: int| b < i < ls.len() ==> status::heading_checksum(#[trigger] ls[i]) is None,
    ensures
        status::prior_checksum(status::deployments(ls)) is None,
{
    assert forall|i: int| 0 <= i < b implies !status::is_booted_heading(#[trigger] ls[i]) by {
        assert(status::heading_checksum(ls[i]) is None || !ls[i].contains('*'));
    }
    if b < ls.len() {
        law_origin_and_index_mean_one_deployment(ls, b);
        lemma_no_heading_no_deployment(ls, b + 1, ls.len() as int);
        assert(ls.take(ls.len() as int) =~= ls);
        assert(ls.take(b + 1) =~= ls.take(b).push(ls[b]));
        law_deployments_line_by_line(ls.take(b), ls[b]);
    } else {
        lemma_no_booted(ls);
    }
}

/// Whether the booted deployment starts at `b`: at the first booted heading, or,
/// where no heading is marked, at the first marked line.
pub open spec fn starts_booted(ls: Seq<Seq<char>>, b: int) -> bool {
    &&& 0 <= b < ls.len()
    &&& {
        ||| status::is_booted_heading(ls[b]) && forall|i: int|
            0 <= i < b ==> !status::is_booted_heading(#[trigger] ls[i])
        ||| ls[b].contains('*') && (forall|i: int|
            0 <= i < b ==> !(#[trigger] ls[i]).contains('*')) && forall|i: int|
            0 <= i < ls.len() ==> !status::is_booted_heading(#[trigger] ls[i])
    }
}

proof fn lemma_start(ls: Seq<Seq<char>>, b: int)
    requires
        starts_booted(ls, b),
    ensures
        status::booted_start(ls) == b,
{
    if status::is_booted_heading(ls[b]) {
        status::lemma_first_booted(ls, b);
    } else {
        status::lemma_first_booted(ls, ls.len() as int);
        status::lemma_first_mark(ls, b);
    }
}

proof fn lemma_origin_at(ls: Seq<Seq<char>>, k: int)
    requires
        0 <= k < ls.len(),
        forall|i: int|
            0 <= i < k ==> !status::is_heading(#[trigger] ls[i]) && status::origin_value(
                ls[i],
            ) is None,
        status::origin_value(ls[k]) is Some,
    ensures
        status::origin_below(ls) == status::origin_value(ls[k]),
    decreases k,
{
    if k > 0 {
        assert(!status::is_heading(ls[0]));
        let rest = ls.drop_first();
        assert forall|i: int| 0 <= i < k - 1 implies !status::is_heading(#[trigger] rest[i])
            && status::origin_value(rest[i]) is None by {
            assert(rest[i] == ls[i + 1]);
        }
        lemma_origin_at(rest, k - 1);
    }
}

proof fn lemma_no_origin_before(ls: Seq<Seq<char>>, k: int)
    requires
        0 <= k <= ls.len(),
        forall|i: int| 0 <= i < k ==> status::origin_value(#[trigger] ls[i]) is None,
        k < ls.len() ==> status::is_heading(ls[k]),
    ensures
        status::origin_below(ls) is None,
    decreases k,
{
    if k > 0 && !status::is_heading(ls[0]) {
        assert(status::origin_value(ls[0]) is None);
        let rest = ls.drop_first();
        assert forall|i: int| 0 <= i < k - 1 implies status::origin_value(
            #[trigger] rest[i],
        ) is None by {
            assert(rest[i] == ls[i + 1]);
        }
        lemma_no_origin_before(rest, k - 1);
    }
}

/// The tracked origin is the booted deployment's own: that of the first origin line
/// `o` of the deployment that starts at `b`, where no heading stands between them.
pub proof fn law_origin_below_the_mark(ls: Seq<Seq<char>>, b: int, o: int)
    requires
        starts_booted(ls, b),
        b <= o < ls.len(),
        forall|i: int| b <= i < o ==> status::origin_value(#[trigger] ls[i]) is None,
        forall|i: int| b < i < o ==> !status::is_heading(#[trigger] ls[i]),
        status::origin_value(ls[o]) is Some,
    ensures
        status::booted_origin(ls) == status::origin_value(ls[o]),
{
    lemma_start(ls, b);
    if b < o {
        assert(status::origin_value(ls[b]) is None);
        let rest = ls.skip(b + 1);
        assert forall|i: int| 0 <= i < o - b - 1 implies !status::is_heading(#[trigger] rest[i])
            && status::origin_value(rest[i]) is None by {
            assert(rest[i] == ls[b + 1 + i]);
        }
        lemma_origin_at(rest, o - b - 1);
    }
}

/// A booted deployment that lists no origin has none: another deployment's origin
/// is never taken for it. The deployment starts at `b` and ends before `e`.
pub proof fn law_no_origin_but_its_own(ls: Seq<Seq<char>>, b: int, e: int)
    requires
        starts_booted(ls, b),
        b < e <= ls.len(),
        e < ls.len() ==> status::is_heading(ls[e]),
        forall|i: int| b <= i < e ==> status::origin_value(#[trigger] ls[i]) is None,
    ensures
        status::booted_origin(ls) is None,
{
    lemma_start(ls, b);
    assert(status::origin_value(ls[b]) is None);
    let rest = ls.skip(b + 1);
    assert forall|i: int| 0 <= i < e - b - 1 implies status::origin_value(
        #[trigger] rest[i],
    ) is None by {
        assert(rest[i] == ls[b + 1 + i]);
    }
    lemma_no_origin_before(rest, e - b - 1);
}

/// Without a mark there is no origin to track.
pub proof fn law_no_origin_without_mark(ls: Seq<Seq<char>>)
    requires
        forall|i: int| 0 <= i < ls.len() ==> !(#[trigger] ls[i]).contains('*'),
    ensures
        status::booted_origin(ls) is None,
{
    status::lemma_first_booted(ls, ls.len() as int);
    status::lemma_first_mark(ls, ls.len() as int);
}

/// A line that gives an origin is no deployment, though the origin may be a
/// checksum.
pub proof fn law_origin_line_is_no_deployment(ls: Seq<Seq<char>>, line: Seq<char>)
    requires
        status::origin_value(line) is Some,
    ensures
        status::deployments(ls.push(line)) == status::deployments(ls),
{
    assert(ls.push(line).drop_last() =~= ls);
}

proof fn lemma_no_booted(ls: Seq<Seq<char>>)
    requires
        forall|i: int| 0 <= i < ls.len() ==> !status::is_booted_heading(#[trigger] ls[i]),
    ensures
        status::booted_index(status::deployments(ls)) is None,
    decreases ls.len(),
{
    if ls.len() > 0 {
        let above = ls.drop_last();
        assert forall|i: int| 0 <= i < above.len() implies !status::is_booted_heading(
            #[trigger] above[i],
        ) by {
            assert(above[i] == ls[i]);
        }
        lemma_no_booted(above);
        assert(!status::is_booted_heading(ls[ls.len() - 1]));
        if status::is_heading(ls.last()) {
            assert(status::deployments(ls).drop_last() =~= status::deployments(above));
        }
    }
}

/// The heading from which the origin is looked for is the heading of the booted
/// deployment: as many deployments come before it as the booted index says.
pub proof fn law_origin_and_index_mean_one_deployment(ls: Seq<Seq<char>>, b: int)
    requires
        0 <= b < ls.len(),
        status::is_booted_heading(ls[b]),
        forall|i: int| 0 <= i < b ==> !status::is_booted_heading(#[trigger] ls[i]),
    ensures
        status::booted_start(ls) == b,
        status::booted_index(status::deployments(ls)) == Some(
            status::deployments(ls.take(b)).len() as int,
        ),
        status::booted_checksum(status::deployments(ls)) == status::heading_checksum(ls[b]),
{
    lemma_start(ls, b);
    let above = ls.take(b);
    assert forall|i: int| 0 <= i < above.len() implies !status::is_booted_heading(
        #[trigger] above[i],
    ) by {
        assert(above[i] == ls[i]);
    }
    lemma_no_booted(above);
    let now = ls.take(b + 1);
    assert(now.drop_last() =~= above);
    assert(now.last() == ls[b]);
    let ds = status::deployments(now);
    assert(ds.drop_last() =~= status::deployments(above));
    status::lemma_deployments_grow(ls, b + 1);
    status::lemma_booted_index_stays(status::deployments(ls), ds.len() as int);
    assert(status::deployments(ls).take(ds.len() as int)[ds.len() - 1] == status::deployments(
        ls,
    )[ds.len() - 1]);
}

} // verus!
