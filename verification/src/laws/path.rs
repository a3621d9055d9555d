//! Paths.

use crate::laws;
use crate::path;
use crate::text;
use vstd::prelude::*;

verus! {

/// A path below a directory follows it behind one slash, and an absolute one stands
/// for itself.
pub proof fn law_join(base: Seq<char>, rest: Seq<char>)
    ensures
        rest.len() > 0 && rest[0] == '/' ==> path::join(base, rest) == rest,
        !(rest.len() > 0 && rest[0] == '/') ==> path::join(base, rest) == (if base.len() == 0
            || base[base.len() - 1] == '/' {
            base + rest
        } else {
            base + seq!['/'] + rest
        }),
{
    reveal_strlit("/");
    assert("/"@ =~= seq!['/']);
    if rest.len() > 0 {
        assert(rest.take(1)[0] == rest[0]);
        if rest[0] == '/' {
            assert(rest.take(1) =~= "/"@);
        }
    }
}

/// The repository of a sysroot is `ostree/repo` below it.
pub proof fn law_repo(sysroot: Seq<char>)
    ensures
        sysroot.len() == 0 || sysroot[sysroot.len() - 1] == '/' ==> path::repo(sysroot) == sysroot
            + "ostree/repo"@,
        sysroot.len() > 0 && sysroot[sysroot.len() - 1] != '/' ==> path::repo(sysroot) == sysroot
            + "/ostree/repo"@,
{
    reveal_strlit("ostree/repo");
    reveal_strlit("/ostree/repo");
    law_join(sysroot, "ostree/repo"@);
    assert(seq!['/'] + "ostree/repo"@ =~= "/ostree/repo"@);
    assert(sysroot + seq!['/'] + "ostree/repo"@ =~= sysroot + (seq!['/'] + "ostree/repo"@));
}

/// One more part of a path leads to the entry of that name; an empty part and `.`
/// lead nowhere else, and `..` leads back up, as far as there is anything above.
pub proof fn law_place(dir: Seq<char>, part: Seq<char>)
    requires
        !part.contains('/'),
    ensures
        ({
            let d = path::place(dir);
            let p = path::place(dir + seq!['/'] + part);
            &&& part.len() == 0 || part == "."@ ==> p == d
            &&& part == ".."@ && d.len() > 0 ==> p == d.take(d.len() - 1)
            &&& part == ".."@ && d.len() == 0 ==> p == d
            &&& part.len() > 0 && part != "."@ && part != ".."@ ==> p == d.push(part)
        }),
        part.len() == 0 || part == "."@ || part == ".."@ ==> path::place(part) == Seq::<
            Seq<char>,
        >::empty(),
        part.len() > 0 && part != "."@ && part != ".."@ ==> path::place(part) == seq![part],
{
    reveal_strlit(".");
    reveal_strlit("..");
    laws::text::law_split(dir, part, '/');
    laws::text::law_split(part, part, '/');
    let parts = text::split(dir, '/');
    assert(parts + seq![part] =~= parts.push(part));
    assert(parts.push(part).drop_last() =~= parts);
    let one = seq![part];
    assert(one.drop_last() =~= Seq::<Seq<char>>::empty());
    assert(path::walk(one.drop_last()) =~= Seq::<Seq<char>>::empty());
    let d = path::place(dir);
    if d.len() > 0 {
        assert(d.drop_last() =~= d.take(d.len() - 1));
    }
    if part.len() > 0 && part != "."@ && part != ".."@ {
        assert(path::place(part) =~= seq![part]);
    }
}

/// A path leads within a directory exactly where it leads to the directory's own
/// place and at least one entry further.
pub proof fn law_within(dir: Seq<char>, path: Seq<char>)
    ensures
        path::is_within(dir, path) <==> exists|below: Seq<Seq<char>>|
            below.len() > 0 && path::place(path) == #[trigger] (path::place(dir) + below),
{
    let d = path::place(dir);
    let p = path::place(path);
    if path::is_within(dir, path) {
        let below = p.skip(d.len() as int);
        assert(p =~= d + below);
    }
    if exists|below: Seq<Seq<char>>| below.len() > 0 && p == #[trigger] (d + below) {
        let below = choose|below: Seq<Seq<char>>| below.len() > 0 && p == #[trigger] (d + below);
        assert((d + below).take(d.len() as int) =~= d);
    }
}

} // verus!
