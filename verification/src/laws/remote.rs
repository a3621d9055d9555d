//! Refspecs and remote configurations.

use crate::laws;
use crate::remote;
use crate::text;
use vstd::prelude::*;

verus! {

/// A refspec put together from a remote without a colon and a ref splits back into
/// the two.
pub proof fn law_refspec_splits_back(r: Seq<char>, branch: Seq<char>)
    requires
        r.len() > 0,
        !r.contains(':'),
        branch.len() > 0,
    ensures
        remote::refspec_parts(r + ":"@ + branch) == Some((r, branch)),
{
    reveal_strlit(":");
    let whole = r + ":"@ + branch;
    let n = r.len() as int;
    assert forall|i: int| 0 <= i < n implies whole[i] != ':' by {
        assert(whole[i] == r[i]);
    }
    assert(whole[n] == ':');
    text::lemma_span_from_first(whole, ':', n);
    assert(whole.take(n) =~= r);
    assert(whole.skip(n + 1) =~= branch);
}

/// The two sides of a refspec put together again give the refspec, and the remote
/// holds no colon.
pub proof fn law_refspec_rejoins(refspec: Seq<char>)
    ensures
        remote::refspec_parts(refspec) matches Some((r, branch)) ==> {
            &&& refspec == r + ":"@ + branch
            &&& r.len() > 0
            &&& !r.contains(':')
            &&& branch.len() > 0
        },
{
    reveal_strlit(":");
    text::lemma_span_is_first(refspec, ':');
    if let Some((r, branch)) = remote::refspec_parts(refspec) {
        assert(refspec =~= r + ":"@ + branch);
        if r.contains(':') {
            let i = choose|i: int| 0 <= i < r.len() && r[i] == ':';
            assert(refspec[i] == ':');
        }
    }
}

/// A refspec is malformed exactly where it has no colon, starts with one, or ends
/// with its first one.
pub proof fn law_malformed_refspecs(refspec: Seq<char>)
    ensures
        remote::refspec_parts(refspec) is None <==> {
            ||| !refspec.contains(':')
            ||| refspec[0] == ':'
            ||| refspec.last() == ':' && !refspec.drop_last().contains(':')
        },
{
    text::lemma_span_is_first(refspec, ':');
    let n = text::span(refspec, ':') as int;
    if n == refspec.len() {
        assert(!refspec.contains(':'));
    } else {
        assert(refspec[n] == ':');
        assert(refspec.contains(':'));
        if n == refspec.len() - 1 {
            if refspec.drop_last().contains(':') {
                let i = choose|i: int|
                    0 <= i < refspec.drop_last().len() && refspec.drop_last()[i] == ':';
                assert(refspec[i] == ':');
            }
        } else {
            assert(refspec.drop_last()[n] == ':');
        }
    }
}

/// The remote that a well-formed refspec names is its first side.
pub proof fn law_source_is_the_first_side(refspec: Seq<char>)
    ensures
        remote::refspec_parts(refspec) matches Some((r, branch)) ==> remote::source_remote(refspec)
            == Some(r),
{
}

/// The remote that a refspec names holds no colon and is not empty, and a refspec
/// names none exactly where it has no colon or starts with one.
pub proof fn law_source_of_a_refspec(refspec: Seq<char>)
    ensures
        match remote::source_remote(refspec) {
            Some(r) => {
                &&& r.len() > 0
                &&& !r.contains(':')
                &&& r.len() < refspec.len()
                &&& refspec.take(r.len() as int) == r
                &&& refspec[r.len() as int] == ':'
            },
            None => !refspec.contains(':') || refspec[0] == ':',
        },
{
    text::lemma_span_is_first(refspec, ':');
    let n = text::span(refspec, ':') as int;
    if let Some(r) = remote::source_remote(refspec) {
        if r.contains(':') {
            let i = choose|i: int| 0 <= i < r.len() && r[i] == ':';
            assert(refspec[i] == ':');
        }
    }
}

/// No line of a text holds a line feed.
proof fn lemma_lines_hold_no_feed(t: Seq<char>)
    ensures
        forall|i: int| 0 <= i < text::lines(t).len() ==> !(#[trigger] text::lines(t)[i]).contains('\n'),
    decreases t.len(),
{
    if t.len() > 0 {
        text::lemma_span_is_first(t, '\n');
        let n = text::span(t, '\n') as int;
        if n < t.len() {
            let head = text::chomp(t.take(n));
            let rest = text::lines(t.skip(n + 1));
            lemma_lines_hold_no_feed(t.skip(n + 1));
            assert forall|i: int| 0 <= i < text::lines(t).len() implies !(#[trigger] text::lines(
                t,
            )[i]).contains('\n') by {
                if i == 0 {
                    assert(text::lines(t)[0] == head);
                    if head.contains('\n') {
                        let k = choose|k: int| 0 <= k < head.len() && head[k] == '\n';
                        assert(t[k] == '\n');
                    }
                } else {
                    assert(text::lines(t)[i] == rest[i - 1]);
                }
            }
        } else {
            assert(text::lines(t)[0] == t);
        }
    }
}

/// A first line in front of a text.
proof fn lemma_lines_of_line_and_rest(line: Seq<char>, rest: Seq<char>)
    requires
        !line.contains('\n'),
    ensures
        text::lines(line + "\n"@ + rest) == seq![text::chomp(line)] + text::lines(rest),
{
    reveal_strlit("\n");
    let t = line + "\n"@ + rest;
    let n = line.len() as int;
    assert forall|i: int| 0 <= i < n implies t[i] != '\n' by {
        assert(t[i] == line[i]);
    }
    assert(t[n] == '\n');
    text::lemma_span_from_first(t, '\n', n);
    assert(t.take(n) =~= line);
    assert(t.skip(n + 1) =~= rest);
}

/// Lines closed by a line feed, in front of a text.
proof fn lemma_lines_of_closed(ls: Seq<Seq<char>>, rest: Seq<char>)
    requires
        forall|i: int| 0 <= i < ls.len() ==> !(#[trigger] ls[i]).contains('\n'),
    ensures
        text::lines(remote::closed_lines(ls) + rest) == ls.map_values(
            |l: Seq<char>| text::chomp(l),
        ) + text::lines(rest),
    decreases ls.len(),
{
    let chomped = ls.map_values(|l: Seq<char>| text::chomp(l));
    if ls.len() == 0 {
        assert(remote::closed_lines(ls) + rest =~= rest);
        assert(chomped + text::lines(rest) =~= text::lines(rest));
    } else {
        let init = ls.drop_last();
        let tail = ls.last() + "\n"@ + rest;
        assert forall|i: int| 0 <= i < init.len() implies !(#[trigger] init[i]).contains('\n') by {
            assert(init[i] == ls[i]);
        }
        lemma_lines_of_closed(init, tail);
        lemma_lines_of_line_and_rest(ls.last(), rest);
        assert(remote::closed_lines(ls) + rest =~= remote::closed_lines(init) + tail);
        assert(chomped + text::lines(rest) =~= init.map_values(|l: Seq<char>| text::chomp(l))
            + text::lines(tail));
    }
}

/// The lines of a group are lines of the text.
proof fn lemma_group_lines_hold_no_feed(ls: Seq<Seq<char>>, header: Seq<char>)
    requires
        forall|i: int| 0 <= i < ls.len() ==> !(#[trigger] ls[i]).contains('\n'),
    ensures
        forall|i: int|
            0 <= i < remote::group_lines(ls, header).len() ==> !(#[trigger] remote::group_lines(
                ls,
                header,
            )[i]).contains('\n'),
    decreases ls.len(),
{
    if ls.len() > 0 {
        let init = ls.drop_last();
        assert forall|i: int| 0 <= i < init.len() implies !(#[trigger] init[i]).contains('\n') by {
            assert(init[i] == ls[i]);
        }
        lemma_group_lines_hold_no_feed(init, header);
        let above = remote::group_lines(init, header);
        let now = remote::group_lines(ls, header);
        assert forall|i: int| 0 <= i < now.len() implies !(#[trigger] now[i]).contains('\n') by {
            if i < above.len() {
                assert(now[i] == above[i]);
            } else {
                assert(now[i] == ls[ls.len() - 1]);
            }
        }
    }
}

/// White space at the end of a text does not survive trimming.
proof fn lemma_trim_drops_white_end(t: Seq<char>)
    requires
        t.len() > 0,
        text::is_white(t.last()),
    ensures
        text::trim(t) == text::trim(t.drop_last()),
    decreases t.len(),
{
    if t.len() == 1 {
        assert(t.drop_first() =~= Seq::empty());
        assert(t.drop_last() =~= Seq::empty());
        assert(text::trim_start(t) == text::trim_start(t.drop_first()));
    } else if text::is_white(t[0]) {
        lemma_trim_drops_white_end(t.drop_first());
        assert(t.drop_first().drop_last() =~= t.drop_last().drop_first());
    }
}

/// A remote is trusted exactly where one line of its own group demands signatures.
pub proof fn law_config_verifies_iff_a_line_does(config: Seq<char>, r: Seq<char>)
    ensures
        remote::config_verifies(config, r) <==> remote::lines_verify(
            remote::group_lines(text::lines(config), remote::remote_header(r)),
        ),
{
    let header = remote::remote_header(r);
    let ls = remote::group_lines(text::lines(config), header);
    lemma_lines_hold_no_feed(config);
    lemma_group_lines_hold_no_feed(text::lines(config), header);
    lemma_lines_of_closed(ls, Seq::empty());
    assert(remote::closed_lines(ls) + Seq::<char>::empty() =~= remote::closed_lines(ls));
    let again = text::lines(remote::closed_lines(ls));
    assert(again =~= ls.map_values(|l: Seq<char>| text::chomp(l)));
    assert forall|i: int| 0 <= i < ls.len() implies remote::line_verifies(#[trigger] again[i])
        == remote::line_verifies(ls[i]) by {
        let l = ls[i];
        assert(again[i] == text::chomp(l));
        if l.len() > 0 && l.last() == '\r' {
            lemma_trim_drops_white_end(l);
        }
    }
    if remote::lines_verify(ls) {
        let i = choose|i: int| 0 <= i < ls.len() && remote::line_verifies(#[trigger] ls[i]);
        assert(remote::line_verifies(again[i]));
    }
    if remote::lines_verify(again) {
        let i = choose|i: int| 0 <= i < again.len() && remote::line_verifies(#[trigger] again[i]);
        assert(remote::line_verifies(ls[i]));
    }
}

/// Whether a line is a header: white space aside, it begins with `[`.
pub open spec fn opens_group(line: Seq<char>) -> bool {
    text::trim(line).len() > 0 && text::trim(line)[0] == '['
}

/// Whether the line at `j` is the header `header`, and no other header stands below
/// it and above `k`.
pub open spec fn nearest_header(
    ls: Seq<Seq<char>>,
    header: Seq<char>,
    j: int,
    k: int,
) -> bool {
    &&& 0 <= j < k
    &&& opens_group(ls[j])
    &&& text::trim(ls[j]) == header
    &&& forall|i: int| j < i < k ==> !opens_group(#[trigger] ls[i])
}

/// Whether the line at `k` belongs to the group `header`: it is no header itself,
/// and the nearest header above it is that one.
pub open spec fn belongs(ls: Seq<Seq<char>>, header: Seq<char>, k: int) -> bool {
    &&& 0 <= k < ls.len()
    &&& !opens_group(ls[k])
    &&& exists|j: int| #[trigger] nearest_header(ls, header, j, k)
}

proof fn lemma_header(line: Seq<char>)
    ensures
        remote::is_header(line) == opens_group(line),
{
    reveal_strlit("[");
    let t = text::trim(line);
    if t.len() > 0 {
        assert(t.take(1)[0] == t[0]);
        if t[0] == '[' {
            assert(t.take(1) =~= "["@);
        }
    }
}

proof fn lemma_inside(ls: Seq<Seq<char>>, header: Seq<char>, k: int)
    requires
        0 <= k <= ls.len(),
    ensures
        remote::inside(ls.take(k), header) <==> exists|j: int| #[trigger]
            nearest_header(ls, header, j, k),
    decreases k,
{
    if k > 0 {
        lemma_header(ls[k - 1]);
        lemma_inside(ls, header, k - 1);
        assert(ls.take(k).drop_last() =~= ls.take(k - 1));
        assert(ls.take(k).last() == ls[k - 1]);
        if opens_group(ls[k - 1]) {
            if text::trim(ls[k - 1]) == header {
                assert(nearest_header(ls, header, k - 1, k));
            }
            assert forall|j: int| #[trigger] nearest_header(ls, header, j, k) implies j == k - 1 by {
                if j < k - 1 {
                    assert(!opens_group(ls[k - 1]));
                }
            }
        } else {
            if exists|j: int| #[trigger] nearest_header(ls, header, j, k - 1) {
                let j = choose|j: int| #[trigger] nearest_header(ls, header, j, k - 1);
                assert(nearest_header(ls, header, j, k));
            }
            if exists|j: int| #[trigger] nearest_header(ls, header, j, k) {
                let j = choose|j: int| #[trigger] nearest_header(ls, header, j, k);
                assert(nearest_header(ls, header, j, k - 1));
            }
        }
    }
}

/// The lines of a group are exactly those that belong to it, in their order: of a
/// text that grows by a line, the group grows by that line where the line is no
/// header and the nearest header above it is the group's, and stays otherwise. Lines
/// below another group's header never count.
pub proof fn law_group_ends_at_the_next_header(
    ls: Seq<Seq<char>>,
    header: Seq<char>,
    line: Seq<char>,
)
    ensures
        remote::group_lines(Seq::empty(), header) == Seq::<Seq<char>>::empty(),
        belongs(ls.push(line), header, ls.len() as int) ==> remote::group_lines(
            ls.push(line),
            header,
        ) == remote::group_lines(ls, header).push(line),
        !belongs(ls.push(line), header, ls.len() as int) ==> remote::group_lines(
            ls.push(line),
            header,
        ) == remote::group_lines(ls, header),
{
    let all = ls.push(line);
    assert(all.drop_last() =~= ls);
    assert(all.take(ls.len() as int) =~= ls);
    lemma_header(line);
    lemma_inside(all, header, ls.len() as int);
}

/// A line stands among those of a group exactly where some position at which it
/// stands belongs to the group.
pub proof fn law_group_members(ls: Seq<Seq<char>>, header: Seq<char>, line: Seq<char>)
    ensures
        remote::group_lines(ls, header).contains(line) <==> exists|k: int|
            ls[k] == line && #[trigger] belongs(ls, header, k),
    decreases ls.len(),
{
    if ls.len() > 0 {
        let init = ls.drop_last();
        let last = ls.last();
        let n = init.len() as int;
        assert(init.push(last) =~= ls);
        law_group_members(init, header, line);
        law_group_ends_at_the_next_header(init, header, last);
        assert forall|k: int| 0 <= k < n implies #[trigger] belongs(ls, header, k) == belongs(
            init,
            header,
            k,
        ) by {
            assert(ls[k] == init[k]);
            assert forall|j: int| nearest_header(ls, header, j, k) == #[trigger] nearest_header(
                init,
                header,
                j,
                k,
            ) by {
                assert forall|i: int| 0 <= i < k implies ls[i] == init[i] by {}
            }
            if belongs(ls, header, k) {
                let j = choose|j: int| #[trigger] nearest_header(ls, header, j, k);
                assert(nearest_header(init, header, j, k));
            }
            if belongs(init, header, k) {
                let j = choose|j: int| #[trigger] nearest_header(init, header, j, k);
                assert(nearest_header(ls, header, j, k));
            }
        }
        let above = remote::group_lines(init, header);
        if remote::group_lines(ls, header).contains(line) {
            if above.contains(line) {
                let k = choose|k: int| init[k] == line && #[trigger] belongs(init, header, k);
                assert(belongs(ls, header, k) && ls[k] == line);
            } else {
                assert(belongs(ls, header, n));
                let g = remote::group_lines(ls, header);
                let i = choose|i: int| 0 <= i < g.len() && g[i] == line;
                if i < above.len() {
                    assert(above[i] == line);
                }
                assert(ls[n] == line);
            }
        }
        if exists|k: int| ls[k] == line && #[trigger] belongs(ls, header, k) {
            let k = choose|k: int| ls[k] == line && #[trigger] belongs(ls, header, k);
            if k < n {
                assert(belongs(init, header, k) && init[k] == line);
                let i = choose|i: int| 0 <= i < above.len() && above[i] == line;
                assert(remote::group_lines(ls, header)[i] == line);
            } else {
                assert(above.push(last)[above.len() as int] == line);
            }
        }
    } else {
        assert(remote::group_lines(ls, header) =~= Seq::empty());
    }
}

/// The text of a group is its lines, each closed by a line feed; a group without
/// lines has none.
pub proof fn law_section_text(
    config: Seq<char>,
    header: Seq<char>,
    ls: Seq<Seq<char>>,
    line: Seq<char>,
)
    ensures
        remote::closed_lines(Seq::empty()) == Seq::<char>::empty(),
        remote::closed_lines(ls.push(line)) == remote::closed_lines(ls) + line + seq!['\n'],
        remote::section(config, header) == (if remote::group_lines(
            text::lines(config),
            header,
        ).len() == 0 {
            None
        } else {
            Some(remote::closed_lines(remote::group_lines(text::lines(config), header)))
        }),
{
    reveal_strlit("\n");
    assert(ls.push(line).drop_last() =~= ls);
    assert("\n"@ =~= seq!['\n']);
}

/// A configuration makes a remote trusted exactly where it has a line that demands
/// signatures, and the nearest header above that line is the remote's own,
/// `[remote "<name>"]`.
pub proof fn law_trusted_by_a_line_below_its_own_header(config: Seq<char>, r: Seq<char>)
    ensures
        remote::config_verifies(config, r) <==> exists|k: int|
            remote::line_verifies(text::lines(config)[k]) && #[trigger] belongs(
                text::lines(config),
                "[remote \""@ + r + "\"]"@,
                k,
            ),
{
    let ls = text::lines(config);
    let header = remote::remote_header(r);
    let g = remote::group_lines(ls, header);
    law_config_verifies_iff_a_line_does(config, r);
    if remote::config_verifies(config, r) {
        let i = choose|i: int| 0 <= i < g.len() && remote::line_verifies(#[trigger] g[i]);
        law_group_members(ls, header, g[i]);
        assert(g.contains(g[i]));
        let k = choose|k: int| ls[k] == g[i] && #[trigger] belongs(ls, header, k);
        assert(remote::line_verifies(ls[k]));
    }
    if exists|k: int| remote::line_verifies(ls[k]) && #[trigger] belongs(ls, header, k) {
        let k = choose|k: int| remote::line_verifies(ls[k]) && #[trigger] belongs(ls, header, k);
        law_group_members(ls, header, ls[k]);
        let i = choose|i: int| 0 <= i < g.len() && g[i] == ls[k];
        assert(remote::line_verifies(g[i]));
    }
}

/// A section demands signatures exactly where one of its lines does.
pub proof fn law_one_line_is_enough(ls: Seq<Seq<char>>)
    ensures
        remote::lines_verify(ls) <==> exists|i: int|
            0 <= i < ls.len() && remote::line_verifies(#[trigger] ls[i]),
{
}

/// Without the remote's own header no line counts for it.
proof fn lemma_no_header_no_lines(ls: Seq<Seq<char>>, header: Seq<char>)
    requires
        forall|i: int| 0 <= i < ls.len() ==> text::trim(#[trigger] ls[i]) != header,
    ensures
        !remote::inside(ls, header),
        remote::group_lines(ls, header).len() == 0,
    decreases ls.len(),
{
    if ls.len() > 0 {
        let init = ls.drop_last();
        assert forall|i: int| 0 <= i < init.len() implies text::trim(#[trigger] init[i])
            != header by {
            assert(init[i] == ls[i]);
        }
        lemma_no_header_no_lines(init, header);
        assert(text::trim(ls[ls.len() - 1]) != header);
    }
}

/// A configuration that does not name the remote is no reason to trust it.
pub proof fn law_unnamed_remote_is_not_verified(config: Seq<char>, r: Seq<char>)
    requires
        forall|i: int|
            0 <= i < text::lines(config).len() ==> text::trim(#[trigger] text::lines(config)[i])
                != remote::remote_header(r),
    ensures
        !remote::config_verifies(config, r),
{
    lemma_no_header_no_lines(text::lines(config), remote::remote_header(r));
}

/// The `sign-verify` key is not one of the `verification-` keys.
proof fn lemma_keys_differ(l: Seq<char>)
    requires
        text::starts_with(l, remote::SIGN_VERIFY@),
    ensures
        !text::starts_with(l, remote::VERIFICATION_PREFIX@),
{
    reveal_strlit("sign-verify");
    reveal_strlit("verification-");
    assert(l[0] == l.take(remote::SIGN_VERIFY@.len() as int)[0]);
    assert(l[0] == 's');
    if text::starts_with(l, remote::VERIFICATION_PREFIX@) {
        assert(l[0] == l.take(remote::VERIFICATION_PREFIX@.len() as int)[0]);
    }
}

/// `sign-verify = <value>`, with white space before the sign or without, demands
/// signatures exactly where the value is `true`, in any case.
pub proof fn law_sign_verify_value(line: Seq<char>, white: Seq<char>, value: Seq<char>)
    requires
        text::trim(line) == remote::SIGN_VERIFY@ + white + seq!['='] + value,
        forall|i: int| 0 <= i < white.len() ==> text::is_white(#[trigger] white[i]),
    ensures
        remote::line_verifies(line) <==> text::same_ignoring_ascii_case(text::trim(value), "true"@),
{
    let l = text::trim(line);
    let n = remote::SIGN_VERIFY@.len() as int;
    assert(l.take(n) =~= remote::SIGN_VERIFY@);
    lemma_keys_differ(l);
    let set = seq!['='] + value;
    assert(l.skip(n) =~= white + set);
    laws::text::law_trim_start_skips_white(white, set);
    assert(text::trim_start(set) == set);
    assert(set.skip(1) =~= value);
}

/// A remote whose group holds the line `sign-verify=true` is trusted.
pub proof fn law_sign_verify_true_is_trusted(config: Seq<char>, r: Seq<char>, i: int)
    requires
        0 <= i < remote::group_lines(text::lines(config), remote::remote_header(r)).len(),
        text::trim(remote::group_lines(text::lines(config), remote::remote_header(r))[i])
            == "sign-verify=true"@,
    ensures
        remote::config_verifies(config, r),
{
    let ls = remote::group_lines(text::lines(config), remote::remote_header(r));
    reveal_strlit("sign-verify");
    reveal_strlit("sign-verify=true");
    reveal_strlit("true");
    assert("sign-verify=true"@ =~= remote::SIGN_VERIFY@ + Seq::<char>::empty() + seq!['='] + "true"@);
    assert(text::trim("true"@) == "true"@);
    law_sign_verify_value(ls[i], Seq::empty(), "true"@);
    assert(remote::line_verifies(ls[i]));
    law_config_verifies_iff_a_line_does(config, r);
}

/// A line that merely starts like `sign-verify`, such as one for
/// `sign-verify-deltas` or one without an `=` sign, does not demand signatures.
pub proof fn law_lookalike_keys_do_not_verify(line: Seq<char>, rest: Seq<char>)
    requires
        text::trim(line) == remote::SIGN_VERIFY@ + rest,
        !text::starts_with(text::trim_start(rest), seq!['=']),
    ensures
        !remote::line_verifies(line),
{
    let l = text::trim(line);
    let n = remote::SIGN_VERIFY@.len() as int;
    assert(l.take(n) =~= remote::SIGN_VERIFY@);
    lemma_keys_differ(l);
    assert(l.skip(n) =~= rest);
    let r = text::trim_start(rest);
    if r.len() > 0 && r[0] == '=' {
        assert(r.take(1) =~= seq!['=']);
    }
}

/// Whether a text is `sign-verify`, then white space or none, `=`, and a value.
pub open spec fn sets_sign_verify(l: Seq<char>, white: Seq<char>, value: Seq<char>) -> bool {
    l == "sign-verify"@ + white + seq!['='] + value && laws::text::all_white(white)
}

/// A line demands signatures exactly where, white space aside, it sets `sign-verify`
/// to `true`, in any case, or begins with `verification-`.
pub proof fn law_lines_that_verify(line: Seq<char>)
    ensures
        remote::line_verifies(line) <==> {
            ||| exists|white: Seq<char>, value: Seq<char>| #[trigger]
                sets_sign_verify(text::trim(line), white, value) && text::same_ignoring_ascii_case(
                    text::trim(value),
                    "true"@,
                )
            ||| exists|rest: Seq<char>| text::trim(line) == #[trigger] ("verification-"@ + rest)
        },
{
    let l = text::trim(line);
    let key = "sign-verify"@;
    laws::text::law_prefix(l, "verification-"@, Seq::empty());
    if text::starts_with(l, key) {
        let rest = l.skip(key.len() as int);
        assert(l =~= key + rest);
        let r = text::trim_start(rest);
        lemma_trim_start_parts(rest);
        let white = rest.take(rest.len() - r.len());
        if r.len() > 0 && r[0] == '=' {
            let value = r.skip(1);
            assert(r =~= seq!['='] + value);
            assert(l =~= key + white + seq!['='] + value);
            assert(sets_sign_verify(l, white, value));
            law_sign_verify_value(line, white, value);
        } else {
            if text::starts_with(r, seq!['=']) {
                assert(r.take(1)[0] == r[0]);
            }
            law_lookalike_keys_do_not_verify(line, rest);
        }
    }
    if exists|white: Seq<char>, value: Seq<char>| #[trigger]
        sets_sign_verify(l, white, value) && text::same_ignoring_ascii_case(
            text::trim(value),
            "true"@,
        ) {
        let (white, value) = choose|white: Seq<char>, value: Seq<char>| #[trigger]
            sets_sign_verify(l, white, value) && text::same_ignoring_ascii_case(
                text::trim(value),
                "true"@,
            );
        law_sign_verify_value(line, white, value);
    }
    if exists|rest: Seq<char>| l == #[trigger] ("verification-"@ + rest) {
        let rest = choose|rest: Seq<char>| l == #[trigger] ("verification-"@ + rest);
        laws::text::law_prefix(l, "verification-"@, rest);
    }
}

/// What trimming takes off the start of a text is white space.
proof fn lemma_trim_start_parts(t: Seq<char>)
    ensures
        text::trim_start(t).len() <= t.len(),
        t == t.take(t.len() - text::trim_start(t).len()) + text::trim_start(t),
        laws::text::all_white(t.take(t.len() - text::trim_start(t).len())),
    decreases t.len(),
{
    if t.len() > 0 && text::is_white(t[0]) {
        let rest = t.drop_first();
        lemma_trim_start_parts(rest);
        let r = text::trim_start(t);
        let n = t.len() - r.len();
        assert forall|i: int| 0 <= i < n implies text::is_white(#[trigger] t.take(n)[i]) by {
            if i > 0 {
                assert(t.take(n)[i] == rest.take(n - 1)[i - 1]);
            }
        }
        assert(t =~= t.take(n) + r) by {
            assert forall|i: int| n <= i < t.len() implies t[i] == r[i - n] by {
                assert(t[i] == rest[i - 1]);
                assert(rest[i - 1] == (rest.take(n - 1) + r)[i - 1]);
            }
        }
    } else {
        assert(t.take(0) + t =~= t);
    }
}

/// A line with neither of the two keys does not demand signatures.
pub proof fn law_other_keys_do_not_verify(line: Seq<char>)
    requires
        !text::starts_with(text::trim(line), remote::SIGN_VERIFY@),
        !text::starts_with(text::trim(line), remote::VERIFICATION_PREFIX@),
    ensures
        !remote::line_verifies(line),
{
}

} // verus!
