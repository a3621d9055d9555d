//! Paths of the target system, as text.

use crate::text;
use crate::text::{cat, cat3, chars_of, has_prefix, same, split_of};
use vstd::prelude::*;

verus! {

/// `rest` adjoined to `base` with one separator between them. An absolute `rest`
/// replaces `base`.
pub open spec fn join(base: Seq<char>, rest: Seq<char>) -> Seq<char> {
    if text::starts_with(rest, "/"@) {
        rest
    } else if base.len() == 0 || base.last() == '/' {
        base + rest
    } else {
        base + "/"@ + rest
    }
}

/// Where a sysroot keeps its repository.
pub open spec fn repo(sysroot: Seq<char>) -> Seq<char> {
    join(sysroot, "ostree/repo"@)
}

/// The entries that an absolute path leads through, one below the other, from its
/// parts: an empty part and `.` stay where they are, `..` goes back up, and above
/// the root there is only the root. Links are not followed.
pub open spec fn walk(parts: Seq<Seq<char>>) -> Seq<Seq<char>>
    decreases parts.len(),
{
    if parts.len() == 0 {
        Seq::empty()
    } else {
        step(walk(parts.drop_last()), parts.last())
    }
}

/// One step of a [`walk`].
pub open spec fn step(above: Seq<Seq<char>>, part: Seq<char>) -> Seq<Seq<char>> {
    if part.len() == 0 || part == "."@ {
        above
    } else if part != ".."@ {
        above.push(part)
    } else if above.len() > 0 {
        above.drop_last()
    } else {
        above
    }
}

/// Where an absolute path leads.
pub open spec fn place(path: Seq<char>) -> Seq<Seq<char>> {
    walk(text::split(path, '/'))
}

/// Whether an absolute path leads to something within a directory, and not just to
/// the directory itself.
pub open spec fn is_within(dir: Seq<char>, path: Seq<char>) -> bool {
    place(dir).len() < place(path).len() && place(path).take(place(dir).len() as int) == place(dir)
}

/// Where an absolute path leads.
fn place_of(path: &str) -> (r: Vec<String>)
    ensures
        text::texts(r@) == place(path@),
{
    let parts = split_of(path, '/');
    let ghost all = text::split(path@, '/');
    let mut r: Vec<String> = Vec::new();
    let mut i: usize = 0;
    assert(text::texts(r@) =~= walk(all.take(0)));
    while i < parts.len()
        invariant
            all == text::texts(parts@),
            i <= parts.len(),
            text::texts(r@) == walk(all.take(i as int)),
        decreases parts.len() - i,
    {
        let ghost before = text::texts(r@);
        proof {
            let now = all.take(i as int + 1);
            assert(now.drop_last() =~= all.take(i as int));
            assert(now.last() == parts@[i as int]@);
        }
        let part = &parts[i];
        if part.as_str().is_empty() || same(part, ".") {
        } else if !same(part, "..") {
            r.push(part.clone());
            assert(text::texts(r@) =~= before.push(part@));
        } else if r.len() > 0 {
            r.pop();
            assert(text::texts(r@) =~= before.drop_last());
        }
        i = i + 1;
    }
    assert(all.take(parts.len() as int) =~= all);
    r
}

/// Whether an absolute path leads to something within a directory.
pub fn leads_within(dir: &str, path: &str) -> (b: bool)
    ensures
        b == is_within(dir@, path@),
{
    let d = place_of(dir);
    let p = place_of(path);
    let ghost ds = place(dir@);
    let ghost ps = place(path@);
    assert(d@.len() == text::texts(d@).len() && p@.len() == text::texts(p@).len());
    if p.len() <= d.len() {
        return false;
    }
    let mut i: usize = 0;
    while i < d.len()
        invariant
            ds == text::texts(d@),
            ps == text::texts(p@),
            ds == place(dir@),
            ps == place(path@),
            i <= d.len() < p.len(),
            forall|j: int| 0 <= j < i ==> #[trigger] ps[j] == ds[j],
        decreases d.len() - i,
    {
        assert(ds[i as int] == d@[i as int]@ && ps[i as int] == p@[i as int]@);
        if !same(&d[i], &p[i]) {
            assert(ps.take(ds.len() as int)[i as int] != ds[i as int]);
            return false;
        }
        i = i + 1;
    }
    assert(ps.take(ds.len() as int) =~= ds);
    true
}

/// `rest` adjoined to `base`.
pub fn join_path(base: &str, rest: &str) -> (r: String)
    ensures
        r@ == join(base@, rest@),
{
    if has_prefix(rest, "/") {
        return rest.to_string();
    }
    let v = chars_of(base);
    if v.len() == 0 || v[v.len() - 1] == '/' {
        cat(base, rest)
    } else {
        cat3(base, "/", rest)
    }
}

/// Where a sysroot keeps its repository.
pub fn repo_of(sysroot: &str) -> (r: String)
    ensures
        r@ == repo(sysroot@),
{
    join_path(sysroot, "ostree/repo")
}

} // verus!
