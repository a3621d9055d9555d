//! The installer's display environment.

use crate::display;
use crate::display::{
    DisplayCheckView, FindingView, ProbeView, RepairView, SearchView, WaylandEnvView,
};
use crate::laws;
use crate::number;
use crate::path;
use crate::text;
use vstd::prelude::*;

verus! {

/// Nothing is changed, nor even looked up, for anyone but root, or where the
/// invoking user is unknown.
pub proof fn law_environment_is_left_alone(
    euid: u32,
    sudo_uid: Option<Seq<char>>,
    wayland_display: Option<Seq<char>>,
    f: Seq<FindingView>,
)
    requires
        euid != 0 || match sudo_uid {
            Some(s) => number::number(s) is None,
            None => true,
        },
    ensures
        display::repair(euid, sudo_uid, wayland_display, f) == RepairView::Done(None),
{
}

proof fn lemma_first_socket(names: Seq<Seq<char>>)
    ensures
        match display::first_socket(names) {
            Some(name) => {
                &&& display::is_socket_name(name)
                &&& exists|i: int|
                    0 <= i < names.len() && #[trigger] names[i] == name && forall|j: int|
                        0 <= j < i ==> !display::is_socket_name(#[trigger] names[j])
            },
            None => forall|i: int|
                0 <= i < names.len() ==> !display::is_socket_name(#[trigger] names[i]),
        },
    decreases names.len(),
{
    if names.len() > 0 && !display::is_socket_name(names[0]) {
        let rest = names.drop_first();
        lemma_first_socket(rest);
        match display::first_socket(rest) {
            Some(name) => {
                let i = choose|i: int|
                    0 <= i < rest.len() && #[trigger] rest[i] == name && forall|j: int|
                        0 <= j < i ==> !display::is_socket_name(#[trigger] rest[j]);
                assert(names[i + 1] == name);
                assert forall|j: int| 0 <= j < i + 1 implies !display::is_socket_name(
                    #[trigger] names[j],
                ) by {
                    if j > 0 {
                        assert(names[j] == rest[j - 1]);
                    }
                }
            },
            None => {
                assert forall|j: int| 0 <= j < names.len() implies !display::is_socket_name(
                    #[trigger] names[j],
                ) by {
                    if j > 0 {
                        assert(names[j] == rest[j - 1]);
                    }
                }
            },
        }
    }
}

/// What is picked from a listing is its first entry that is named `wayland-*` and
/// is no `.lock` file; where there is no such entry, nothing is.
pub proof fn law_listing_yields_the_first_socket(names: Seq<Seq<char>>)
    ensures
        match display::first_socket(names) {
            Some(name) => {
                &&& text::starts_with(name, "wayland-"@)
                &&& !text::ends_with(name, ".lock"@)
                &&& exists|i: int|
                    0 <= i < names.len() && #[trigger] names[i] == name && forall|j: int|
                        0 <= j < i ==> !display::is_socket_name(#[trigger] names[j])
            },
            None => forall|i: int|
                0 <= i < names.len() ==> !display::is_socket_name(#[trigger] names[i]),
        },
{
    lemma_first_socket(names);
}

/// Whether a name is one of a Wayland socket: it begins with `wayland-` and does not
/// end with `.lock`.
pub open spec fn names_socket(name: Seq<char>) -> bool {
    &&& exists|rest: Seq<char>| name == #[trigger] ("wayland-"@ + rest)
    &&& !exists|head: Seq<char>| name == #[trigger] (head + ".lock"@)
}

/// An entry counts as a socket by its name alone.
pub proof fn law_socket_names(name: Seq<char>)
    ensures
        display::is_socket_name(name) == names_socket(name),
{
    let p = "wayland-"@;
    let q = ".lock"@;
    laws::text::law_prefix(name, p, Seq::empty());
    laws::text::law_suffix(name, Seq::empty(), q);
    if text::starts_with(name, p) {
        assert(name == p + text::strip_prefix(name, p)->0);
    }
    if exists|rest: Seq<char>| name == #[trigger] (p + rest) {
        let rest = choose|rest: Seq<char>| name == #[trigger] (p + rest);
        laws::text::law_prefix(name, p, rest);
    }
    if text::ends_with(name, q) {
        assert(name == name.take(name.len() - q.len()) + q);
    }
    if exists|head: Seq<char>| name == #[trigger] (head + q) {
        let head = choose|head: Seq<char>| name == #[trigger] (head + q);
        laws::text::law_suffix(name, head, q);
    }
}

/// Whether the search for a socket in a directory ends with the socket `found`: the
/// first two findings, from `at` on, tell whether `wayland-0` and `wayland-1` are
/// there, and the third lists the directory.
pub open spec fn search_ends(
    f: Seq<FindingView>,
    at: int,
    found: Option<Seq<char>>,
) -> bool {
    ||| f.len() > at && f[at] is Yes && found == Some("wayland-0"@)
    ||| f.len() > at + 1 && !(f[at] is Yes) && f[at + 1] is Yes && found == Some("wayland-1"@)
    ||| f.len() > at + 2 && !(f[at] is Yes) && !(f[at + 1] is Yes) && match (found, f[at + 2]) {
        (Some(name), FindingView::Names { names }) => exists|i: int|
            0 <= i < names.len() && #[trigger] names[i] == name && names_socket(name) && forall|
                j: int,
            |
                0 <= j < i ==> !names_socket(#[trigger] names[j]),
        (Some(_), _) => false,
        (None, FindingView::Names { names }) => forall|i: int|
            0 <= i < names.len() ==> !names_socket(#[trigger] names[i]),
        (None, _) => true,
    }
}

/// Whether the search for a socket in a directory asks for `probe` next: whether
/// `wayland-0` is there, then `wayland-1`, then for the listing.
pub open spec fn search_asks(
    dir: Seq<char>,
    f: Seq<FindingView>,
    at: int,
    probe: ProbeView,
) -> bool {
    ||| f.len() <= at && probe == (ProbeView::Exists { path: path::join(dir, "wayland-0"@) })
    ||| f.len() == at + 1 && !(f[at] is Yes) && probe == (ProbeView::Exists {
        path: path::join(dir, "wayland-1"@),
    })
    ||| f.len() == at + 2 && !(f[at] is Yes) && !(f[at + 1] is Yes) && probe == (
    ProbeView::ListDirectory { path: dir })
}

/// The search goes through the two conventional names and the listing, in this order,
/// up to the first that yields a socket, and yields none only after all three.
pub proof fn law_search_finding_by_finding(dir: Seq<char>, f: Seq<FindingView>, at: int)
    requires
        0 <= at,
    ensures
        match display::search(dir, f, at) {
            SearchView::Look(probe) => search_asks(dir, f, at, probe),
            SearchView::Found(found) => search_ends(f, at, found),
        },
{
    assert forall|names: Seq<Seq<char>>| #[trigger] listing_yields(names) by {
        lemma_first_socket(names);
        assert forall|k: int| 0 <= k < names.len() implies display::is_socket_name(names[k])
            == #[trigger] names_socket(names[k]) by {
            law_socket_names(names[k]);
        }
        if let Some(name) = display::first_socket(names) {
            law_socket_names(name);
            let i = choose|i: int|
                0 <= i < names.len() && #[trigger] names[i] == name && forall|j: int|
                    0 <= j < i ==> !display::is_socket_name(#[trigger] names[j]);
            assert forall|j: int| 0 <= j < i implies !names_socket(#[trigger] names[j]) by {
                assert(!display::is_socket_name(names[j]));
            }
        } else {
            assert forall|j: int| 0 <= j < names.len() implies !names_socket(#[trigger] names[j]) by {
                assert(!display::is_socket_name(names[j]));
            }
        }
    }
    if f.len() > at + 2 {
        if let FindingView::Names { names } = f[at + 2] {
            assert(listing_yields(names));
        }
    }
}

spec fn listing_yields(names: Seq<Seq<char>>) -> bool {
    match display::first_socket(names) {
        Some(name) => exists|i: int|
            0 <= i < names.len() && #[trigger] names[i] == name && names_socket(name) && forall|
                j: int,
            |
                0 <= j < i ==> !names_socket(#[trigger] names[j]),
        None => forall|i: int| 0 <= i < names.len() ==> !names_socket(#[trigger] names[i]),
    }
}

/// The conventional names come first: `wayland-0` is taken wherever it exists, and
/// `wayland-1` wherever it exists and the other does not.
pub proof fn law_conventional_sockets_first(dir: Seq<char>, f: Seq<FindingView>, at: int)
    requires
        0 <= at < f.len(),
    ensures
        f[at] is Yes ==> display::search(dir, f, at) == SearchView::Found(Some("wayland-0"@)),
        !(f[at] is Yes) && at + 1 < f.len() && f[at + 1] is Yes ==> display::search(dir, f, at)
            == SearchView::Found(Some("wayland-1"@)),
{
}

/// The environment is only ever pointed at the invoking user's own runtime
/// directory, after that was found to be a directory, and at a socket that was
/// found: the inherited one, a conventional one, or one from the listing.
pub proof fn law_repair_points_at_what_was_found(
    euid: u32,
    sudo_uid: Option<Seq<char>>,
    wayland_display: Option<Seq<char>>,
    f: Seq<FindingView>,
)
    ensures
        display::repair(euid, sudo_uid, wayland_display, f) matches RepairView::Done(Some(env)) ==> {
            &&& euid == 0
            &&& sudo_uid matches Some(s) && number::number(s) matches Some(uid) && env.runtime_dir
                == "/run/user/"@ + number::decimal(uid)
            &&& f.len() > 1
            &&& f[0] is Yes
            &&& {
                let inherited = display::inherited(env.runtime_dir, wayland_display);
                let at = if inherited is Some {
                    2int
                } else {
                    1
                };
                ||| inherited == Some(env.socket) && f[1] is Yes
                ||| env.socket == "wayland-0"@ && f.len() > at && f[at] is Yes
                ||| env.socket == "wayland-1"@ && f.len() > at + 1 && f[at + 1] is Yes
                ||| display::is_socket_name(env.socket) && f.len() > at + 2 && (f[at
                    + 2] matches FindingView::Names { names } && names.contains(env.socket))
            }
        },
{
    assert forall|names: Seq<Seq<char>>| (#[trigger] display::first_socket(names)) is Some
        implies display::is_socket_name(display::first_socket(names)->0) && names.contains(
        display::first_socket(names)->0,
    ) by {
        lemma_first_socket(names);
    }
}

/// The first thing looked up is whether the runtime directory of the invoking user
/// exists. An inherited name that leads into that directory is looked up next: it is
/// kept as it stands if it exists, and the search begins only if it does not.
pub proof fn law_inherited_socket_must_exist(uid: u32, name: Seq<char>, f: Seq<FindingView>)
    requires
        display::names_entry("/run/user/"@ + number::decimal(uid as nat), name),
    ensures
        ({
            let dir = "/run/user/"@ + number::decimal(uid as nat);
            let repair = display::repair(0, Some(number::decimal(uid as nat)), Some(name), f);
            &&& f.len() == 0 ==> repair == RepairView::Look(ProbeView::IsDirectory { path: dir })
            &&& f.len() == 1 && f[0] is Yes ==> repair == RepairView::Look(
                ProbeView::Exists { path: path::join(dir, name) },
            )
            &&& f.len() >= 2 && f[0] is Yes && f[1] is Yes ==> repair == RepairView::Done(
                Some(WaylandEnvView { runtime_dir: dir, socket: name }),
            )
            &&& f.len() >= 2 && f[0] is Yes && !(f[1] is Yes) ==> repair == display::with_socket(
                dir,
                display::search(dir, f, 2),
            )
        }),
{
    number::law_decimal_reads_back(uid);
}

/// For root, where the invoking user is known, the repair looks first for that user's
/// runtime directory, and gives up without it. A name that leads into the directory is
/// looked up next, and set if it is there. Without such a name, or where it is not
/// there, the repair does what the search in that directory does: what the search asks
/// for, it asks for, and what the search yields, it sets.
pub proof fn law_repair_finding_by_finding(
    sudo_uid: Seq<char>,
    uid: nat,
    wayland_display: Option<Seq<char>>,
    f: Seq<FindingView>,
)
    requires
        number::number(sudo_uid) == Some(uid),
    ensures
        ({
            let dir = "/run/user/"@ + number::decimal(uid);
            let repair = display::repair(0, Some(sudo_uid), wayland_display, f);
            let counts = wayland_display matches Some(name) && path::is_within(
                dir,
                path::join(dir, name),
            );
            let at = if counts {
                2int
            } else {
                1
            };
            &&& f.len() == 0 ==> repair == RepairView::Look(ProbeView::IsDirectory { path: dir })
            &&& f.len() > 0 && !(f[0] is Yes) ==> repair == RepairView::Done(None)
            &&& f.len() == 1 && f[0] is Yes && counts ==> repair == RepairView::Look(
                ProbeView::Exists { path: path::join(dir, wayland_display->0) },
            )
            &&& f.len() > 1 && f[0] is Yes && counts && f[1] is Yes ==> repair == RepairView::Done(
                Some(WaylandEnvView { runtime_dir: dir, socket: wayland_display->0 }),
            )
            &&& f.len() >= at && f[0] is Yes && (counts ==> !(f[1] is Yes)) ==> match repair {
                RepairView::Look(probe) => search_asks(dir, f, at, probe),
                RepairView::Done(Some(env)) => {
                    &&& env.runtime_dir == dir
                    &&& search_ends(f, at, Some(env.socket))
                },
                RepairView::Done(None) => search_ends(f, at, None),
            }
        }),
{
    let dir = "/run/user/"@ + number::decimal(uid);
    law_search_finding_by_finding(dir, f, 1);
    law_search_finding_by_finding(dir, f, 2);
}

/// Whether a name is one of an entry of a directory: read from there, it leads within.
pub proof fn law_entries_by_name(dir: Seq<char>, name: Seq<char>)
    ensures
        display::names_entry(dir, name) == path::is_within(dir, path::join(dir, name)),
        display::inherited(dir, Some(name)) == (if path::is_within(dir, path::join(dir, name)) {
            Some(name)
        } else {
            None
        }),
        display::inherited(dir, None) is None,
{
}

/// An inherited name that does not lead into the runtime directory counts as none at
/// all.
pub proof fn law_foreign_name_counts_as_none(
    euid: u32,
    sudo_uid: Option<Seq<char>>,
    name: Seq<char>,
    f: Seq<FindingView>,
)
    requires
        sudo_uid matches Some(s) ==> number::number(s) matches Some(uid)
            ==> !display::names_entry(display::runtime_dir(uid), name),
    ensures
        display::repair(euid, sudo_uid, Some(name), f) == display::repair(euid, sudo_uid, None, f),
{
}

/// A name without a slash takes one step down, up, or none, from the directory.
proof fn lemma_place_of_plain(dir: Seq<char>, name: Seq<char>)
    requires
        dir.len() > 0,
        dir.last() != '/',
        !name.contains('/'),
    ensures
        path::place(path::join(dir, name)) == path::step(path::place(dir), name),
{
    reveal_strlit("/");
    if text::starts_with(name, "/"@) {
        assert(name[0] == name.take(1)[0]);
        assert(name.contains('/'));
    }
    laws::text::law_split(dir, name, '/');
    assert("/"@ =~= seq!['/']);
    text::lemma_span_is_first(name, '/');
    let parts = text::split(dir, '/');
    assert(text::split(dir + "/"@ + name, '/') =~= parts.push(name));
    assert(parts.push(name).drop_last() =~= parts);
}

/// A plain name, without a slash and other than `.` and `..`, is one of an entry of
/// the directory.
pub proof fn law_plain_names_are_entries(dir: Seq<char>, name: Seq<char>)
    requires
        dir.len() > 0,
        dir.last() != '/',
        name.len() > 0,
        !name.contains('/'),
        name != "."@,
        name != ".."@,
    ensures
        display::names_entry(dir, name),
{
    lemma_place_of_plain(dir, name);
    let d = path::place(dir);
    assert(d.push(name).take(d.len() as int) =~= d);
}

/// The empty name, `.` and `..` are none of an entry of the directory.
pub proof fn law_empty_and_dots_are_no_entries(dir: Seq<char>)
    requires
        dir.len() > 0,
        dir.last() != '/',
    ensures
        !display::names_entry(dir, Seq::empty()),
        !display::names_entry(dir, "."@),
        !display::names_entry(dir, ".."@),
{
    reveal_strlit(".");
    reveal_strlit("..");
    lemma_place_of_plain(dir, Seq::empty());
    lemma_place_of_plain(dir, "."@);
    lemma_place_of_plain(dir, ".."@);
}

/// A name may also give the way from the root: behind the directory's own path it is
/// an entry exactly where it is one by itself, and the same is looked up.
pub proof fn law_absolute_names_agree_with_relative_ones(dir: Seq<char>, name: Seq<char>)
    requires
        text::starts_with(dir, "/"@),
        dir.last() != '/',
        !text::starts_with(name, "/"@),
    ensures
        display::names_entry(dir, dir + "/"@ + name) == display::names_entry(dir, name),
        path::join(dir, dir + "/"@ + name) == path::join(dir, name),
{
    reveal_strlit("/");
    let full = dir + "/"@ + name;
    assert(full.take(1) =~= dir.take(1));
}

/// An inherited socket of the runtime directory, given by its plain name or by its
/// whole path, is looked up where it is, and kept as it was given if it exists.
pub proof fn law_present_socket_is_kept(uid: u32, name: Seq<char>, whole: bool, f: Seq<FindingView>)
    requires
        name.len() > 0,
        !name.contains('/'),
        name != "."@,
        name != ".."@,
        f.len() >= 1,
        f[0] is Yes,
    ensures
        ({
            let dir = "/run/user/"@ + number::decimal(uid as nat);
            let given = if whole {
                dir + "/"@ + name
            } else {
                name
            };
            let repair = display::repair(0, Some(number::decimal(uid as nat)), Some(given), f);
            &&& f.len() == 1 ==> repair == RepairView::Look(
                ProbeView::Exists { path: dir + "/"@ + name },
            )
            &&& f.len() >= 2 && f[1] is Yes ==> repair == RepairView::Done(
                Some(WaylandEnvView { runtime_dir: dir, socket: given }),
            )
        }),
{
    reveal_strlit("/");
    reveal_strlit("/run/user/");
    let n = uid as nat;
    let dir = "/run/user/"@ + number::decimal(n);
    assert(number::decimal(n).last() == number::digit(n % 10));
    assert(dir.last() == number::decimal(n).last());
    assert(dir.take(1) =~= "/"@);
    if text::starts_with(name, "/"@) {
        assert(name[0] == name.take(1)[0]);
        assert(name.contains('/'));
    }
    law_plain_names_are_entries(dir, name);
    law_absolute_names_agree_with_relative_ones(dir, name);
    if whole {
        law_inherited_socket_must_exist(uid, dir + "/"@ + name, f);
    } else {
        law_inherited_socket_must_exist(uid, name, f);
    }
}

/// Whether a name is one of an entry depends on where it leads alone, and not on the
/// way it takes.
pub proof fn law_where_a_name_leads_decides(dir: Seq<char>, a: Seq<char>, b: Seq<char>)
    requires
        path::place(path::join(dir, a)) == path::place(path::join(dir, b)),
    ensures
        display::names_entry(dir, a) == display::names_entry(dir, b),
{
}

/// The repair is over after at most five findings.
pub proof fn law_repair_ends(
    euid: u32,
    sudo_uid: Option<Seq<char>>,
    wayland_display: Option<Seq<char>>,
    f: Seq<FindingView>,
)
    requires
        f.len() >= 5,
    ensures
        display::repair(euid, sudo_uid, wayland_display, f) is Done,
{
}

/// The graphical mode is refused exactly where root has neither a Wayland nor an
/// X11 display; it is doubtful exactly where root has a Wayland display and no runtime
/// directory; and nothing stands against it otherwise.
pub proof fn law_refused_iff_no_display(
    euid: u32,
    has_wayland: bool,
    has_xdg_runtime: bool,
    has_display: bool,
)
    ensures
        match display::display_check(euid, has_wayland, has_xdg_runtime, has_display) {
            DisplayCheckView::Missing { notice, error } => {
                &&& euid == 0 && !has_wayland && !has_display
                &&& notice == display::missing_notice(has_xdg_runtime)
                &&& error
                    == "Cannot connect to display server. Please use one of the solutions above."@
            },
            DisplayCheckView::Doubtful { notice } => {
                &&& euid == 0 && has_wayland && !has_xdg_runtime
                &&& notice == runtime_notice()
            },
            DisplayCheckView::Ready => euid != 0 || if has_wayland {
                has_xdg_runtime
            } else {
                has_display
            },
        },
{
}

/// How the notice of a missing display server begins.
pub open spec fn notice_head() -> Seq<char> {
    "
╔════════════════════════════════════════════════════════════════════╗
║              ERROR: Display Server Connection Missing              ║
╚════════════════════════════════════════════════════════════════════╝

The installer is running as root but cannot connect to your display
server. This happens when environment variables are not preserved.

"@
}

/// What the notice of a missing display server advises.
pub open spec fn notice_advice() -> Seq<char> {
    "
📋 SOLUTIONS:

  1. Run with preserved environment variables:
     $ sudo -E ./target/release/buckos-installer

  2. For Wayland (recommended), explicitly preserve variables:
     $ sudo WAYLAND_DISPLAY=\"$WAYLAND_DISPLAY\" \\
            XDG_RUNTIME_DIR=\"$XDG_RUNTIME_DIR\" \\
            ./target/release/buckos-installer

  3. Use the text-mode installer (no GUI):
     $ sudo ./target/release/buckos-installer --text-mode

  4. Run without sudo and use polkit/pkexec for privilege escalation
     when needed (GUI will prompt for password):

     $ ./target/release/buckos-installer

"@
}

/// The notice of a missing runtime directory.
pub open spec fn runtime_notice() -> Seq<char> {
    "
⚠️  WARNING: XDG_RUNTIME_DIR is not set.
    The installer may have trouble connecting to Wayland.

    Consider running with:
    $ sudo -E ./target/release/buckos-installer

"@
}

/// The notice of a missing display server names each variable that is missing:
/// `WAYLAND_DISPLAY` and `DISPLAY` always, and `XDG_RUNTIME_DIR` between them where
/// that is missing too. Nothing else depends on the variables.
pub proof fn law_notice_names_what_is_missing()
    ensures
        display::missing_notice(true) == notice_head()
            + "Missing: WAYLAND_DISPLAY environment variable\n"@
            + "Missing: DISPLAY environment variable\n"@ + notice_advice(),
        display::missing_notice(false) == notice_head()
            + "Missing: WAYLAND_DISPLAY environment variable\n"@
            + "Missing: XDG_RUNTIME_DIR environment variable\n"@
            + "Missing: DISPLAY environment variable\n"@ + notice_advice(),
{
    let head = notice_head();
    let help = notice_advice();
    let w = "Missing: WAYLAND_DISPLAY environment variable\n"@;
    let x = "Missing: XDG_RUNTIME_DIR environment variable\n"@;
    let d = "Missing: DISPLAY environment variable\n"@;
    assert(display::missing_notice(true) =~= head + w + d + help);
    assert(display::missing_notice(false) =~= head + w + x + d + help);
}

} // verus!
