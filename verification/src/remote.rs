//! Remotes: refspecs, and whether a remote's configuration demands signatures.

use crate::error::{ErrorView, UpdateError};
use crate::text;
use crate::text::{
    cat3, chars_of, has_prefix, lines_of, same, same_ignoring_case, split_once_of, strip_prefix_of,
    trim_of, trim_start_of,
};
use vstd::prelude::*;

verus! {

/// Remote-config key that turns on signature verification.
pub const SIGN_VERIFY: &'static str = "sign-verify";

/// What the remote-config keys that carry a verification key start with.
pub const VERIFICATION_PREFIX: &'static str = "verification-";

/// Whether a line is a `[group]` header.
pub open spec fn is_header(line: Seq<char>) -> bool {
    text::starts_with(text::trim(line), "["@)
}

/// Whether what follows the lines belongs to the group `header`: the last header
/// among them is `header`.
pub open spec fn inside(ls: Seq<Seq<char>>, header: Seq<char>) -> bool
    decreases ls.len(),
{
    if ls.len() == 0 {
        false
    } else if is_header(ls.last()) {
        text::trim(ls.last()) == header
    } else {
        inside(ls.drop_last(), header)
    }
}

/// The lines that belong to the group `header`, in their order.
pub open spec fn group_lines(ls: Seq<Seq<char>>, header: Seq<char>) -> Seq<Seq<char>>
    decreases ls.len(),
{
    if ls.len() == 0 {
        Seq::empty()
    } else {
        let above = group_lines(ls.drop_last(), header);
        if !is_header(ls.last()) && inside(ls.drop_last(), header) {
            above.push(ls.last())
        } else {
            above
        }
    }
}

/// The lines, each closed by a line feed.
pub open spec fn closed_lines(ls: Seq<Seq<char>>) -> Seq<char>
    decreases ls.len(),
{
    if ls.len() == 0 {
        Seq::empty()
    } else {
        closed_lines(ls.drop_last()) + ls.last() + "\n"@
    }
}

/// The text of the group `header`; none where no line belongs to it.
pub open spec fn section(config: Seq<char>, header: Seq<char>) -> Option<Seq<char>> {
    let ls = group_lines(text::lines(config), header);
    if ls.len() == 0 {
        None
    } else {
        Some(closed_lines(ls))
    }
}

/// The value that a key is set to, from what follows the key: an `=` sign, with
/// white space before it or not, and the value. Without the sign no key is set.
pub open spec fn value_of(rest: Seq<char>) -> Option<Seq<char>> {
    let r = text::trim_start(rest);
    if r.len() > 0 && r[0] == '=' {
        Some(text::trim(r.skip(1)))
    } else {
        None
    }
}

/// Whether a line of a remote's section demands signatures: it sets
/// `sign-verify` to true, or it names a verification key.
pub open spec fn line_verifies(line: Seq<char>) -> bool {
    let l = text::trim(line);
    ||| text::starts_with(l, SIGN_VERIFY@) && (value_of(l.skip(SIGN_VERIFY@.len() as int)) matches Some(
        value,
    ) && text::same_ignoring_ascii_case(value, "true"@))
    ||| text::starts_with(l, VERIFICATION_PREFIX@)
}

/// Whether one of the lines demands signatures.
pub open spec fn lines_verify(ls: Seq<Seq<char>>) -> bool {
    exists|i: int| 0 <= i < ls.len() && line_verifies(#[trigger] ls[i])
}

/// The header of a remote's group.
pub open spec fn remote_header(remote: Seq<char>) -> Seq<char> {
    "[remote \""@ + remote + "\"]"@
}

/// Whether a configuration text has a section for `remote` that demands
/// signatures.
pub open spec fn config_verifies(config: Seq<char>, remote: Seq<char>) -> bool {
    match section(config, remote_header(remote)) {
        Some(s) => lines_verify(text::lines(s)),
        None => false,
    }
}

/// The two sides of a `<remote>:<ref>` refspec, at its first colon. Neither may
/// be empty.
pub open spec fn refspec_parts(refspec: Seq<char>) -> Option<(Seq<char>, Seq<char>)> {
    let n = text::span(refspec, ':') as int;
    if 0 < n && n + 1 < refspec.len() {
        Some((refspec.take(n), refspec.skip(n + 1)))
    } else {
        None
    }
}

/// The remote that a refspec names: what comes before its first colon.
pub open spec fn source_remote(refspec: Seq<char>) -> Option<Seq<char>> {
    let n = text::span(refspec, ':') as int;
    if 0 < n < refspec.len() {
        Some(refspec.take(n))
    } else {
        None
    }
}

/// Return the lines under a `[group]` header (until the next `[`).
pub fn ini_section(config: &str, header: &str) -> (r: Option<String>)
    ensures
        match r {
            Some(s) => section(config@, header@) == Some(s@),
            None => section(config@, header@) is None,
        },
{
    let ls = lines_of(config);
    let ghost all = text::lines(config@);
    let mut out = String::new();
    let mut any = false;
    let mut in_section = false;
    let mut i: usize = 0;
    assert(all.take(0) =~= Seq::empty());
    while i < ls.len()
        invariant
            all == text::texts(ls@),
            i <= ls.len(),
            in_section == inside(all.take(i as int), header@),
            any == (group_lines(all.take(i as int), header@).len() > 0),
            out@ == closed_lines(group_lines(all.take(i as int), header@)),
        decreases ls.len() - i,
    {
        proof {
            let now = all.take(i as int + 1);
            let above = all.take(i as int);
            assert(now.drop_last() =~= above);
            assert(now.last() == ls@[i as int]@);
            let g = group_lines(above, header@);
            assert(g.push(now.last()).drop_last() =~= g);
        }
        let t = trim_of(&ls[i]);
        if has_prefix(&t, "[") {
            in_section = same(&t, header);
        } else if in_section {
            out.append(&ls[i]);
            out.append("\n");
            any = true;
        }
        i = i + 1;
    }
    assert(all.take(ls.len() as int) =~= all);
    if any {
        Some(out)
    } else {
        None
    }
}

/// The value that a key is set to, from what follows the key.
fn key_value(rest: &str) -> (r: Option<String>)
    ensures
        match r {
            Some(v) => value_of(rest@) == Some(v@),
            None => value_of(rest@) is None,
        },
{
    let t = trim_start_of(rest);
    let v = chars_of(&t);
    if v.len() > 0 && v[0] == '=' {
        assert(t@.skip(1) =~= t@.subrange(1, t@.len() as int));
        Some(trim_of(t.as_str().substring_char(1, v.len())))
    } else {
        None
    }
}

/// True if an ostree remote section enables signature verification.
pub fn section_verifies(section: &str) -> (b: bool)
    ensures
        b == lines_verify(text::lines(section@)),
{
    let ls = lines_of(section);
    let ghost all = text::lines(section@);
    let mut i: usize = 0;
    while i < ls.len()
        invariant
            all == text::texts(ls@),
            all == text::lines(section@),
            i <= ls.len(),
            forall|j: int| 0 <= j < i ==> !line_verifies(#[trigger] all[j]),
        decreases ls.len() - i,
    {
        assert(all[i as int] == ls@[i as int]@);
        let l = trim_of(&ls[i]);
        match strip_prefix_of(&l, SIGN_VERIFY) {
            Some(rest) => {
                match key_value(&rest) {
                    Some(v) => {
                        if same_ignoring_case(&v, "true") {
                            assert(line_verifies(all[i as int]));
                            return true;
                        }
                    },
                    None => {},
                }
            },
            None => {},
        }
        if has_prefix(&l, VERIFICATION_PREFIX) {
            assert(line_verifies(all[i as int]));
            return true;
        }
        i = i + 1;
    }
    false
}

/// Whether a configuration text has a section for `remote` that demands
/// signatures.
pub fn remote_config_verifies(config: &str, remote: &str) -> (b: bool)
    ensures
        b == config_verifies(config@, remote@),
{
    let header = cat3("[remote \"", remote, "\"]");
    match ini_section(config, &header) {
        Some(s) => section_verifies(&s),
        None => false,
    }
}

/// The remote that a refspec names, if it names one.
pub fn refspec_remote(refspec: &str) -> (r: Option<String>)
    ensures
        match r {
            Some(remote) => source_remote(refspec@) == Some(remote@),
            None => source_remote(refspec@) is None,
        },
{
    match split_once_of(refspec, ':') {
        Some((remote, _)) => {
            if remote.as_str().is_empty() {
                None
            } else {
                Some(remote)
            }
        },
        None => None,
    }
}

/// Split a `<remote>:<ref>` refspec.
pub fn split_refspec(refspec: &str) -> (r: Result<(String, String), UpdateError>)
    ensures
        match r {
            Ok((remote, branch)) => refspec_parts(refspec@) == Some((remote@, branch@)),
            Err(e) => refspec_parts(refspec@) is None && e@ == (ErrorView::MalformedRefspec {
                refspec: refspec@,
            }),
        },
{
    match split_once_of(refspec, ':') {
        Some((remote, branch)) => {
            if !remote.as_str().is_empty() && !branch.as_str().is_empty() {
                return Ok((remote, branch));
            }
        },
        None => {},
    }
    Err(UpdateError::MalformedRefspec { refspec: refspec.to_string() })
}

} // verus!
