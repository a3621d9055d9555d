//! The installer's display environment.
//!
//! `sudo` mangles the Wayland environment in session-dependent ways: it may drop
//! `WAYLAND_DISPLAY`, and it commonly resets `XDG_RUNTIME_DIR` to root's directory
//! (or drops it) while leaving `DISPLAY` pointing at an Xwayland server that root
//! has no auth cookie for. The installer therefore rebuilds the invoking user's
//! Wayland environment, and tells the user what to do where that is impossible.

use crate::number;
use crate::number::{decimal_of, parse_number};
use crate::path;
use crate::path::{join_path, leads_within};
use crate::text;
use crate::text::{cat, has_prefix, has_suffix};
use vstd::prelude::*;

verus! {

/// How the notice of a missing display server starts.
pub const MISSING_HEAD: &'static str = "
╔════════════════════════════════════════════════════════════════════╗
║              ERROR: Display Server Connection Missing              ║
╚════════════════════════════════════════════════════════════════════╝

The installer is running as root but cannot connect to your display
server. This happens when environment variables are not preserved.

";

/// The line for a missing `WAYLAND_DISPLAY`.
pub const MISSING_WAYLAND: &'static str = "Missing: WAYLAND_DISPLAY environment variable
";

/// The line for a missing `XDG_RUNTIME_DIR`.
pub const MISSING_RUNTIME: &'static str = "Missing: XDG_RUNTIME_DIR environment variable
";

/// The line for a missing `DISPLAY`.
pub const MISSING_X11: &'static str = "Missing: DISPLAY environment variable
";

/// How the notice of a missing display server ends.
pub const MISSING_HELP: &'static str = "
📋 SOLUTIONS:

  1. Run with preserved environment variables:
     $ sudo -E ./target/release/buckos-installer

  2. For Wayland (recommended), explicitly preserve variables:
     $ sudo WAYLAND_DISPLAY=\"$WAYLAND_DISPLAY\" \\
            XDG_RUNTIME_DIR=\"$XDG_RUNTIME_DIR\" \\
            ./target/release/buckos-installer

  3. Use the text-mode installer (no GUI):
     $ sudo ./target/release/buckos-installer --text-mode

  4. Run without sudo and use polkit/pkexec for privilege escalation
     when needed (GUI will prompt for password):

     $ ./target/release/buckos-installer

";

/// The notice of a missing runtime directory.
pub const RUNTIME_WARNING: &'static str = "
⚠️  WARNING: XDG_RUNTIME_DIR is not set.
    The installer may have trouble connecting to Wayland.

    Consider running with:
    $ sudo -E ./target/release/buckos-installer

";

/// The error for a missing display server.
pub const NO_DISPLAY: &'static str = "Cannot connect to display server. Please use one of the solutions above.";

/// Something to look up on the file system.
#[derive(Debug, PartialEq, Eq)]
pub enum Probe {
    /// Is there a directory at this path?
    IsDirectory { path: String },
    /// Is there anything at this path?
    Exists { path: String },
    /// What are the names of this directory's entries?
    ListDirectory { path: String },
}

/// What a look-up found. A finding that does not fit its probe counts as `No`.
#[derive(Debug, PartialEq, Eq)]
pub enum Finding {
    Yes,
    /// It is not so, or the directory cannot be read.
    No,
    /// The names of the entries, in the order in which the system gives them.
    Names { names: Vec<String> },
}

/// The environment that is to be set: `XDG_RUNTIME_DIR` and `WAYLAND_DISPLAY`.
/// `DISPLAY` is to be removed with it.
#[derive(Debug, PartialEq, Eq)]
pub struct WaylandEnv {
    pub runtime_dir: String,
    pub socket: String,
}

/// Where the repair of the display environment stands.
#[derive(Debug, PartialEq, Eq)]
pub enum Repair {
    /// This is to be looked up.
    Look(Probe),
    /// It is over: this is to be set, or nothing.
    Done(Option<WaylandEnv>),
}

/// Where the search for a Wayland socket stands.
#[derive(Debug, PartialEq, Eq)]
pub enum Search {
    /// This is to be looked up.
    Look(Probe),
    /// It is over: this is the socket, or there is none.
    Found(Option<String>),
}

/// A [`Probe`] over texts.
pub enum ProbeView {
    IsDirectory { path: Seq<char> },
    Exists { path: Seq<char> },
    ListDirectory { path: Seq<char> },
}

/// A [`Finding`] over texts.
pub enum FindingView {
    Yes,
    No,
    Names { names: Seq<Seq<char>> },
}

/// A [`WaylandEnv`] over texts.
pub struct WaylandEnvView {
    pub runtime_dir: Seq<char>,
    pub socket: Seq<char>,
}

/// A [`Repair`] over texts.
pub enum RepairView {
    Look(ProbeView),
    Done(Option<WaylandEnvView>),
}

/// A [`Search`] over texts.
pub enum SearchView {
    Look(ProbeView),
    Found(Option<Seq<char>>),
}

impl View for Probe {
    type V = ProbeView;

    open spec fn view(&self) -> ProbeView {
        match *self {
            Probe::IsDirectory { path } => ProbeView::IsDirectory { path: path@ },
            Probe::Exists { path } => ProbeView::Exists { path: path@ },
            Probe::ListDirectory { path } => ProbeView::ListDirectory { path: path@ },
        }
    }
}

impl View for Finding {
    type V = FindingView;

    open spec fn view(&self) -> FindingView {
        match *self {
            Finding::Yes => FindingView::Yes,
            Finding::No => FindingView::No,
            Finding::Names { names } => FindingView::Names { names: text::texts(names@) },
        }
    }
}

impl View for WaylandEnv {
    type V = WaylandEnvView;

    open spec fn view(&self) -> WaylandEnvView {
        WaylandEnvView { runtime_dir: self.runtime_dir@, socket: self.socket@ }
    }
}

impl View for Repair {
    type V = RepairView;

    open spec fn view(&self) -> RepairView {
        match *self {
            Repair::Look(p) => RepairView::Look(p@),
            Repair::Done(Some(env)) => RepairView::Done(Some(env@)),
            Repair::Done(None) => RepairView::Done(None),
        }
    }
}

impl View for Search {
    type V = SearchView;

    open spec fn view(&self) -> SearchView {
        match *self {
            Search::Look(p) => SearchView::Look(p@),
            Search::Found(Some(name)) => SearchView::Found(Some(name@)),
            Search::Found(None) => SearchView::Found(None),
        }
    }
}

/// The findings over texts.
pub open spec fn findings_of(v: Seq<Finding>) -> Seq<FindingView> {
    v.map_values(|f: Finding| f@)
}

/// Whether an entry is named like a Wayland socket, and not like its lock file.
pub open spec fn is_socket_name(name: Seq<char>) -> bool {
    text::starts_with(name, "wayland-"@) && !text::ends_with(name, ".lock"@)
}

/// The first entry that is named like a Wayland socket.
pub open spec fn first_socket(names: Seq<Seq<char>>) -> Option<Seq<char>>
    decreases names.len(),
{
    if names.len() == 0 {
        None
    } else if is_socket_name(names[0]) {
        Some(names[0])
    } else {
        first_socket(names.drop_first())
    }
}

/// The search for a Wayland socket in a runtime directory, with the findings from
/// position `at` on: the conventional names first, then any entry.
pub open spec fn search(dir: Seq<char>, f: Seq<FindingView>, at: int) -> SearchView {
    if at >= f.len() {
        SearchView::Look(ProbeView::Exists { path: path::join(dir, "wayland-0"@) })
    } else if f[at] is Yes {
        SearchView::Found(Some("wayland-0"@))
    } else if at + 1 >= f.len() {
        SearchView::Look(ProbeView::Exists { path: path::join(dir, "wayland-1"@) })
    } else if f[at + 1] is Yes {
        SearchView::Found(Some("wayland-1"@))
    } else if at + 2 >= f.len() {
        SearchView::Look(ProbeView::ListDirectory { path: dir })
    } else {
        SearchView::Found(
            match f[at + 2] {
                FindingView::Names { names } => first_socket(names),
                _ => None,
            },
        )
    }
}

/// The runtime directory of a user.
pub open spec fn runtime_dir(uid: nat) -> Seq<char> {
    "/run/user/"@ + number::decimal(uid)
}

/// What is set once the search is over.
pub open spec fn with_socket(dir: Seq<char>, s: SearchView) -> RepairView {
    match s {
        SearchView::Look(p) => RepairView::Look(p),
        SearchView::Found(Some(socket)) => RepairView::Done(
            Some(WaylandEnvView { runtime_dir: dir, socket }),
        ),
        SearchView::Found(None) => RepairView::Done(None),
    }
}

/// Whether a name, read from a directory, leads to something within that directory:
/// not to the directory itself, and not out of it.
pub open spec fn names_entry(dir: Seq<char>, name: Seq<char>) -> bool {
    path::is_within(dir, path::join(dir, name))
}

/// The inherited name of a socket, if it can be one in the runtime directory.
pub open spec fn inherited(dir: Seq<char>, wayland_display: Option<Seq<char>>) -> Option<
    Seq<char>,
> {
    match wayland_display {
        Some(name) => if names_entry(dir, name) {
            Some(name)
        } else {
            None
        },
        None => None,
    }
}

/// The repair of the display environment in a runtime directory. An inherited
/// socket counts only if it is one in that directory.
pub open spec fn repair_in(
    dir: Seq<char>,
    wayland_display: Option<Seq<char>>,
    f: Seq<FindingView>,
) -> RepairView {
    if f.len() == 0 {
        RepairView::Look(ProbeView::IsDirectory { path: dir })
    } else if !(f[0] is Yes) {
        RepairView::Done(None)
    } else {
        match inherited(dir, wayland_display) {
            Some(name) => if f.len() == 1 {
                RepairView::Look(ProbeView::Exists { path: path::join(dir, name) })
            } else if f[1] is Yes {
                RepairView::Done(Some(WaylandEnvView { runtime_dir: dir, socket: name }))
            } else {
                with_socket(dir, search(dir, f, 2))
            },
            None => with_socket(dir, search(dir, f, 1)),
        }
    }
}

/// The repair of the display environment: only for root, and only where the
/// invoking user is known.
pub open spec fn repair(
    euid: u32,
    sudo_uid: Option<Seq<char>>,
    wayland_display: Option<Seq<char>>,
    f: Seq<FindingView>,
) -> RepairView {
    if euid != 0 {
        RepairView::Done(None)
    } else {
        match sudo_uid {
            Some(s) => match number::number(s) {
                Some(uid) => repair_in(runtime_dir(uid), wayland_display, f),
                None => RepairView::Done(None),
            },
            None => RepairView::Done(None),
        }
    }
}

/// The text of an optional string.
pub open spec fn opt_text(s: Option<String>) -> Option<Seq<char>> {
    match s {
        Some(t) => Some(t@),
        None => None,
    }
}

/// Whether the installer can start its graphical mode.
#[derive(Debug, PartialEq, Eq)]
pub enum DisplayCheck {
    /// Nothing stands against it.
    Ready,
    /// It may have trouble; this notice is to be shown.
    Doubtful { notice: String },
    /// It cannot; this notice is to be shown, and this is the error.
    Missing { notice: String, error: String },
}

/// A [`DisplayCheck`] over texts.
pub enum DisplayCheckView {
    Ready,
    Doubtful { notice: Seq<char> },
    Missing { notice: Seq<char>, error: Seq<char> },
}

impl View for DisplayCheck {
    type V = DisplayCheckView;

    open spec fn view(&self) -> DisplayCheckView {
        match *self {
            DisplayCheck::Ready => DisplayCheckView::Ready,
            DisplayCheck::Doubtful { notice } => DisplayCheckView::Doubtful { notice: notice@ },
            DisplayCheck::Missing { notice, error } => DisplayCheckView::Missing {
                notice: notice@,
                error: error@,
            },
        }
    }
}

/// The notice of a missing display server.
pub open spec fn missing_notice(has_xdg_runtime: bool) -> Seq<char> {
    let runtime = if has_xdg_runtime {
        Seq::empty()
    } else {
        MISSING_RUNTIME@
    };
    MISSING_HEAD@ + MISSING_WAYLAND@ + runtime + MISSING_X11@ + MISSING_HELP@
}

/// What the variables that are set mean for the graphical mode.
pub open spec fn display_check(
    euid: u32,
    has_wayland: bool,
    has_xdg_runtime: bool,
    has_display: bool,
) -> DisplayCheckView {
    if euid != 0 {
        DisplayCheckView::Ready
    } else if !has_wayland && !has_display {
        DisplayCheckView::Missing { notice: missing_notice(has_xdg_runtime), error: NO_DISPLAY@ }
    } else if has_wayland && !has_xdg_runtime {
        DisplayCheckView::Doubtful { notice: RUNTIME_WARNING@ }
    } else {
        DisplayCheckView::Ready
    }
}

/// Whether the finding at `i` is `Yes`.
fn found_yes(findings: &[Finding], i: usize) -> (b: bool)
    requires
        i < findings.len(),
    ensures
        b == (findings_of(findings@)[i as int] is Yes),
{
    assert(findings_of(findings@)[i as int] == findings@[i as int]@);
    matches!(findings[i], Finding::Yes)
}

/// The first entry that is named like a Wayland socket.
pub fn pick_socket(names: &Vec<String>) -> (r: Option<String>)
    ensures
        match r {
            Some(name) => first_socket(text::texts(names@)) == Some(name@),
            None => first_socket(text::texts(names@)) is None,
        },
{
    let ghost all = text::texts(names@);
    let mut i: usize = 0;
    assert(all.skip(0) =~= all);
    while i < names.len()
        invariant
            all == text::texts(names@),
            i <= names.len(),
            first_socket(all) == first_socket(all.skip(i as int)),
        decreases names.len() - i,
    {
        assert(all.skip(i as int)[0] == names@[i as int]@);
        if has_prefix(&names[i], "wayland-") && !has_suffix(&names[i], ".lock") {
            return Some(names[i].clone());
        }
        assert(all.skip(i as int).drop_first() =~= all.skip(i as int + 1));
        i = i + 1;
    }
    None
}

/// Locate a Wayland display socket inside the given runtime directory.
///
/// Prefers the conventional `wayland-0`/`wayland-1` names, then falls back to
/// scanning for any `wayland-*` socket (ignoring `.lock` files and compositor
/// helper sockets such as Alacritty's). `findings` answers the probes from
/// position `at` on.
pub fn find_wayland_socket(runtime_dir: &str, findings: &[Finding], at: usize) -> (s: Search)
    ensures
        s@ == search(runtime_dir@, findings_of(findings@), at as int),
{
    if at >= findings.len() {
        return Search::Look(Probe::Exists { path: join_path(runtime_dir, "wayland-0") });
    }
    if found_yes(findings, at) {
        return Search::Found(Some("wayland-0".to_string()));
    }
    if findings.len() - at <= 1 {
        return Search::Look(Probe::Exists { path: join_path(runtime_dir, "wayland-1") });
    }
    if found_yes(findings, at + 1) {
        return Search::Found(Some("wayland-1".to_string()));
    }
    if findings.len() - at <= 2 {
        return Search::Look(Probe::ListDirectory { path: runtime_dir.to_string() });
    }
    assert(findings_of(findings@)[at + 2] == findings@[at + 2]@);
    match &findings[at + 2] {
        Finding::Names { names } => Search::Found(pick_socket(names)),
        _ => Search::Found(None),
    }
}

/// Repair the display environment when running under `sudo`.
///
/// To make `sudo ./buckos-installer` work on a Wayland session, the invoking
/// user's Wayland environment is rebuilt from `SUDO_UID`: `XDG_RUNTIME_DIR` is
/// pointed at `/run/user/<uid>`, the real compositor socket is located there, and
/// `DISPLAY` is dropped. An inherited `WAYLAND_DISPLAY` is trusted only if its
/// socket exists in that directory, whether it is named from there or from the root;
/// an empty name, or one that leads elsewhere, is none. `findings` answers the probes
/// made so far.
pub fn repair_display_environment(
    euid: u32,
    sudo_uid: &Option<String>,
    wayland_display: &Option<String>,
    findings: &[Finding],
) -> (r: Repair)
    ensures
        r@ == repair(
            euid,
            opt_text(*sudo_uid),
            opt_text(*wayland_display),
            findings_of(findings@),
        ),
{
    if euid != 0 {
        return Repair::Done(None);
    }
    let uid = match sudo_uid {
        Some(s) => match parse_number(s) {
            Some(uid) => uid,
            None => return Repair::Done(None),
        },
        None => return Repair::Done(None),
    };
    let dir = cat("/run/user/", &decimal_of(uid));
    if findings.len() == 0 {
        return Repair::Look(Probe::IsDirectory { path: dir });
    }
    if !found_yes(findings, 0) {
        return Repair::Done(None);
    }
    let name = match wayland_display {
        Some(name) => if leads_within(&dir, &join_path(&dir, name)) {
            Some(name)
        } else {
            None
        },
        None => None,
    };
    let at: usize = match name {
        Some(name) => {
            if findings.len() == 1 {
                return Repair::Look(Probe::Exists { path: join_path(&dir, name) });
            }
            if found_yes(findings, 1) {
                return Repair::Done(Some(WaylandEnv { runtime_dir: dir, socket: name.clone() }));
            }
            2
        },
        None => 1,
    };
    match find_wayland_socket(&dir, findings, at) {
        Search::Look(p) => Repair::Look(p),
        Search::Found(Some(socket)) => Repair::Done(Some(WaylandEnv { runtime_dir: dir, socket })),
        Search::Found(None) => Repair::Done(None),
    }
}

/// Check that the necessary environment variables to connect to a display server
/// are set. This is especially important when running with sudo.
pub fn check_display_environment(
    euid: u32,
    has_wayland: bool,
    has_xdg_runtime: bool,
    has_display: bool,
) -> (r: DisplayCheck)
    ensures
        r@ == display_check(euid, has_wayland, has_xdg_runtime, has_display),
{
    if euid != 0 {
        return DisplayCheck::Ready;
    }
    if !has_wayland && !has_display {
        let mut notice = cat(MISSING_HEAD, MISSING_WAYLAND);
        if !has_xdg_runtime {
            notice.append(MISSING_RUNTIME);
        }
        notice.append(MISSING_X11);
        notice.append(MISSING_HELP);
        assert(notice@ =~= missing_notice(has_xdg_runtime));
        return DisplayCheck::Missing { notice, error: NO_DISPLAY.to_string() };
    }
    if has_wayland && !has_xdg_runtime {
        return DisplayCheck::Doubtful { notice: RUNTIME_WARNING.to_string() };
    }
    DisplayCheck::Ready
}

} // verus!
