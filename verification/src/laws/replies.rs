//! The operations of the agent, reply by reply.

use crate::agent;
use crate::agent::{CheckView, ConfigView};
use crate::error::ErrorView;
use crate::exchange;
use crate::exchange::{PhaseView, ReplyView, RequestView, StepView};
use crate::laws;
use crate::path;
use crate::remote;
use crate::status;
use crate::text;
use vstd::prelude::*;

verus! {

/// The command lines of the agent, word for word, and the files that may configure a
/// remote.
pub proof fn law_command_lines(
    c: ConfigView,
    remote: Seq<char>,
    branch: Seq<char>,
    refspec: Seq<char>,
    sub: Seq<char>,
    rest: Seq<Seq<char>>,
)
    ensures
        agent::admin_args(c, Seq::empty()) == seq!["admin"@, "--sysroot="@ + c.sysroot],
        agent::admin_args(c, seq![sub] + rest) == seq!["admin"@, sub, "--sysroot="@ + c.sysroot]
            + rest,
        agent::metadata_args(c, remote, branch) == seq![
            "--repo="@ + path::repo(c.sysroot),
            "pull"@,
            "--commit-metadata-only"@,
            remote,
            branch,
        ],
        agent::rev_parse_args(c, refspec) == seq![
            "--repo="@ + path::repo(c.sysroot),
            "rev-parse"@,
            refspec,
        ],
        agent::pull_args(c, remote, branch) == seq![
            "--repo="@ + path::repo(c.sysroot),
            "pull"@,
            remote,
            branch,
        ],
        agent::deploy_args(c, refspec) == seq![
            "admin"@,
            "deploy"@,
            "--sysroot="@ + c.sysroot,
            "--os="@ + c.os,
            refspec,
        ],
        agent::reboot_request() == (RequestView::Inherit {
            program: "systemctl"@,
            args: seq!["reboot"@],
        }),
        agent::config_paths(c, remote) == seq![
            path::join(path::repo(c.sysroot), "config"@),
            path::join(c.sysroot, "etc/ostree/remotes.d"@) + "/"@ + remote + ".conf"@,
        ],
{
    assert((seq![sub] + rest).skip(1) =~= rest);
    assert(agent::admin_args(c, seq![sub] + rest) =~= seq![
        "admin"@,
        sub,
        "--sysroot="@ + c.sysroot,
    ] + rest);
    assert(agent::deploy_args(c, refspec) =~= seq![
        "admin"@,
        "deploy"@,
        "--sysroot="@ + c.sysroot,
        "--os="@ + c.os,
        refspec,
    ]);
}

/// A reply is a reason to trust a remote exactly where it is the text of a file that
/// demands signatures for that remote.
pub proof fn law_trusted_by_a_file(r: Seq<char>, reply: ReplyView)
    ensures
        agent::reply_verifies(r, reply) <==> (reply matches ReplyView::Text { text }
            && remote::config_verifies(text, r)),
{
}

/// Whether `t` answers the reading of a remote's files, up to the first that demands
/// signatures for it: the one or the other does.
pub open spec fn clears(r: Seq<char>, t: Seq<ReplyView>) -> bool {
    ||| t.len() == 1 && agent::reply_verifies(r, t[0])
    ||| t.len() == 2 && !agent::reply_verifies(r, t[0]) && agent::reply_verifies(r, t[1])
}

/// Whether `t` is all it takes to trust the configured remote.
pub open spec fn trusts(c: ConfigView, t: Seq<ReplyView>) -> bool {
    if c.allow_insecure {
        t.len() == 0
    } else {
        clears(c.remote, t)
    }
}

/// Whether `s` is all it takes to know the tracked refspec: nothing where a branch is
/// configured, and otherwise a status with the booted deployment's origin.
pub open spec fn tracks(c: ConfigView, s: Seq<ReplyView>, refspec: Seq<char>) -> bool {
    match c.branch {
        Some(b) => s.len() == 0 && refspec == c.remote + ":"@ + b,
        None => s.len() == 1 && (s[0] matches ReplyView::Exited { success, stdout, .. } && success
            && status::booted_origin(text::lines(stdout)) == Some(refspec)),
    }
}

/// Whether the tracked refspec names a remote that has yet to be trusted.
pub open spec fn is_foreign(c: ConfigView, refspec: Seq<char>, r: Seq<char>) -> bool {
    !c.allow_insecure && remote::source_remote(refspec) == Some(r) && r != c.remote
}

/// Whether `u` is all it takes to trust the remote that the tracked refspec names.
pub open spec fn trusts_source(c: ConfigView, refspec: Seq<char>, u: Seq<ReplyView>) -> bool {
    &&& forall|r: Seq<char>| #[trigger] is_foreign(c, refspec, r) ==> clears(r, u)
    &&& (forall|r: Seq<char>| !#[trigger] is_foreign(c, refspec, r)) ==> u.len() == 0
}

/// The request for the status.
pub open spec fn status_request(c: ConfigView) -> RequestView {
    RequestView::Capture {
        program: c.ostree_bin,
        args: seq!["admin"@, "status"@, "--sysroot="@ + c.sysroot],
    }
}

proof fn lemma_status_request(c: ConfigView)
    ensures
        agent::admin_args(c, seq!["status"@]) == seq![
            "admin"@,
            "status"@,
            "--sysroot="@ + c.sysroot,
        ],
{
    assert(agent::admin_args(c, seq!["status"@]) =~= seq![
        "admin"@,
        "status"@,
        "--sysroot="@ + c.sysroot,
    ]);
}

proof fn lemma_trusted(c: ConfigView, t: Seq<ReplyView>, rest: Seq<ReplyView>)
    requires
        trusts(c, t),
    ensures
        agent::trust_phase(c, t + rest) == (PhaseView::Pass { value: (), next: t.len() as int }),
{
    let h = t + rest;
    laws::trust::law_remote_check(c, c.remote, h, 0);
    if !c.allow_insecure {
        assert(h[0] == t[0]);
        if t.len() == 2 {
            assert(h[1] == t[1]);
        }
    }
}

proof fn lemma_tracked(
    c: ConfigView,
    t: Seq<ReplyView>,
    s: Seq<ReplyView>,
    refspec: Seq<char>,
    rest: Seq<ReplyView>,
)
    requires
        trusts(c, t),
        tracks(c, s, refspec),
    ensures
        agent::trust_phase(c, t + s + rest) == (PhaseView::Pass {
            value: (),
            next: t.len() as int,
        }),
        agent::refspec_phase(c, t + s + rest, t.len() as int) == (PhaseView::Pass {
            value: refspec,
            next: (t.len() + s.len()) as int,
        }),
{
    lemma_trusted(c, t, s + rest);
    assert(t + s + rest =~= t + (s + rest));
    if c.branch is None {
        assert((t + s + rest)[t.len() as int] == s[0]);
    }
}

proof fn lemma_opened(
    c: ConfigView,
    t: Seq<ReplyView>,
    s: Seq<ReplyView>,
    u: Seq<ReplyView>,
    refspec: Seq<char>,
    rest: Seq<ReplyView>,
)
    requires
        trusts(c, t),
        tracks(c, s, refspec),
        trusts_source(c, refspec, u),
    ensures
        ({
            let h = t + s + u + rest;
            let n = (t.len() + s.len() + u.len()) as int;
            &&& h.len() == n + rest.len()
            &&& forall|k: int| 0 <= k < rest.len() ==> #[trigger] rest[k] == h[n + k]
            &&& agent::trust_phase(c, h) == (PhaseView::Pass { value: (), next: t.len() as int })
            &&& agent::refspec_phase(c, h, t.len() as int) == (PhaseView::Pass {
                value: refspec,
                next: (t.len() + s.len()) as int,
            })
            &&& agent::source_phase(c, refspec, h, (t.len() + s.len()) as int) == (
            PhaseView::Pass { value: (), next: n })
        }),
{
    let h = t + s + u + rest;
    let n = (t.len() + s.len()) as int;
    assert(h =~= t + s + (u + rest));
    lemma_tracked(c, t, s, refspec, u + rest);
    match remote::source_remote(refspec) {
        Some(r) => {
            laws::trust::law_remote_check(c, r, h, n);
            if is_foreign(c, refspec, r) {
                assert(h[n] == u[0]);
                if u.len() == 2 {
                    assert(h[n + 1] == u[1]);
                }
            } else {
                assert forall|q: Seq<char>| !#[trigger] is_foreign(c, refspec, q) by {}
            }
        },
        None => {
            assert forall|q: Seq<char>| !#[trigger] is_foreign(c, refspec, q) by {}
        },
    }
}

/// `ensure_trusted` reads the repository's configuration and then the remote's own
/// file, ends with success at the first that demands signatures for the remote, and
/// refuses the remote where neither does. Where insecure operation is allowed it ends
/// with success at once.
pub proof fn law_trust_reply_by_reply(
    c: ConfigView,
    t: Seq<ReplyView>,
    x: ReplyView,
    y: ReplyView,
    more: Seq<ReplyView>,
)
    ensures
        ({
            let step = |h: Seq<ReplyView>| agent::finish(agent::trust_phase(c, h));
            let paths = agent::config_paths(c, c.remote);
            &&& trusts(c, t) ==> step(t + more) == StepView::<()>::Done(Ok(()))
            &&& !c.allow_insecure ==> {
                &&& step(Seq::empty()) == StepView::<()>::Ask(
                    RequestView::ReadFile { path: paths[0] },
                )
                &&& !agent::reply_verifies(c.remote, x) ==> {
                    &&& step(seq![x]) == StepView::<()>::Ask(
                        RequestView::ReadFile { path: paths[1] },
                    )
                    &&& !agent::reply_verifies(c.remote, y) ==> step(seq![x, y] + more)
                        == StepView::<()>::Done(
                        Err(ErrorView::UnverifiedRemote { remote: c.remote }),
                    )
                }
            }
        }),
{
    if trusts(c, t) {
        lemma_trusted(c, t, more);
    }
    laws::trust::law_remote_check(c, c.remote, Seq::empty(), 0);
    laws::trust::law_remote_check(c, c.remote, seq![x], 0);
    laws::trust::law_remote_check(c, c.remote, seq![x, y] + more, 0);
    assert((seq![x, y] + more)[0] == x && (seq![x, y] + more)[1] == y);
}

/// `check` begins by trusting the configured remote: it reads the repository's
/// configuration, then the remote's own file, and refuses the remote where neither
/// demands signatures for it.
pub proof fn law_check_trusts_first(
    c: ConfigView,
    x: ReplyView,
    y: ReplyView,
    more: Seq<ReplyView>,
)
    requires
        !c.allow_insecure,
    ensures
        agent::check_step(c, Seq::empty()) == StepView::<CheckView>::Ask(
            RequestView::ReadFile { path: agent::config_paths(c, c.remote)[0] },
        ),
        !agent::reply_verifies(c.remote, x) ==> agent::check_step(c, seq![x]) == StepView::<CheckView>::Ask(
            RequestView::ReadFile { path: agent::config_paths(c, c.remote)[1] },
        ),
        !agent::reply_verifies(c.remote, x) && !agent::reply_verifies(c.remote, y)
            ==> agent::check_step(c, seq![x, y] + more) == StepView::<CheckView>::Done(
            Err(ErrorView::UnverifiedRemote { remote: c.remote }),
        ),
{
    laws::trust::law_remote_check(c, c.remote, Seq::empty(), 0);
    laws::trust::law_remote_check(c, c.remote, seq![x], 0);
    laws::trust::law_remote_check(c, c.remote, seq![x, y] + more, 0);
    assert((seq![x, y] + more)[0] == x && (seq![x, y] + more)[1] == y);
}

/// Without a configured branch, `check` then asks for the status, and ends where that
/// cannot be had or shows no origin of the booted deployment.
pub proof fn law_check_asks_what_is_tracked(
    c: ConfigView,
    t: Seq<ReplyView>,
    x: ReplyView,
)
    requires
        trusts(c, t),
        c.branch is None,
    ensures
        agent::check_step(c, t) == StepView::<CheckView>::Ask(status_request(c)),
        match exchange::captured(
            c.ostree_bin,
            seq!["admin"@, "status"@, "--sysroot="@ + c.sysroot],
            x,
        ) {
            Ok(out) => status::booted_origin(text::lines(out)) is None ==> agent::check_step(c, t.push(x))
                == StepView::<CheckView>::Done(Err(ErrorView::UnknownRefspec)),
            Err(e) => agent::check_step(c, t.push(x)) == StepView::<CheckView>::Done(Err(e)),
        },
{
    lemma_status_request(c);
    assert(t + Seq::<ReplyView>::empty() =~= t);
    assert(t + seq![x] =~= t.push(x));
    lemma_trusted(c, t, Seq::empty());
    lemma_trusted(c, t, seq![x]);
}

/// `check` ends on a tracked refspec that is not of the form `<remote>:<ref>`.
pub proof fn law_check_ends_on_a_malformed_refspec(
    c: ConfigView,
    t: Seq<ReplyView>,
    s: Seq<ReplyView>,
    refspec: Seq<char>,
)
    requires
        trusts(c, t),
        tracks(c, s, refspec),
        remote::refspec_parts(refspec) is None,
    ensures
        agent::check_step(c, t + s) == StepView::<CheckView>::Done(Err(ErrorView::MalformedRefspec { refspec })),
{
    assert(t + s + Seq::<ReplyView>::empty() =~= t + s);
    lemma_tracked(c, t, s, refspec, Seq::empty());
}

/// Where the tracked refspec names another remote, `check` goes on by trusting that one
/// in the same way.
pub proof fn law_check_trusts_the_source(
    c: ConfigView,
    t: Seq<ReplyView>,
    s: Seq<ReplyView>,
    refspec: Seq<char>,
    r: Seq<char>,
    x: ReplyView,
    y: ReplyView,
)
    requires
        trusts(c, t),
        tracks(c, s, refspec),
        remote::refspec_parts(refspec) is Some,
        is_foreign(c, refspec, r),
    ensures
        agent::check_step(c, t + s) == StepView::<CheckView>::Ask(
            RequestView::ReadFile { path: agent::config_paths(c, r)[0] },
        ),
        !agent::reply_verifies(r, x) ==> agent::check_step(c, t + s + seq![x]) == StepView::<CheckView>::Ask(
            RequestView::ReadFile { path: agent::config_paths(c, r)[1] },
        ),
        !agent::reply_verifies(r, x) && !agent::reply_verifies(r, y)
            ==> agent::check_step(c, t + s + seq![x, y]) == StepView::<CheckView>::Done(
            Err(ErrorView::UnverifiedRemote { remote: r }),
        ),
{
    let n = (t.len() + s.len()) as int;
    let one = t + s + seq![x];
    let two = t + s + seq![x, y];
    assert(t + s + Seq::<ReplyView>::empty() =~= t + s);
    lemma_tracked(c, t, s, refspec, Seq::empty());
    lemma_tracked(c, t, s, refspec, seq![x]);
    lemma_tracked(c, t, s, refspec, seq![x, y]);
    assert(one[n] == x && two[n] == x && two[n + 1] == y);
    laws::trust::law_remote_check(c, r, t + s, n);
    laws::trust::law_remote_check(c, r, one, n);
    laws::trust::law_remote_check(c, r, two, n);
}

/// `pull` begins by trusting the configured remote: it reads the repository's
/// configuration, then the remote's own file, and refuses the remote where neither
/// demands signatures for it.
pub proof fn law_pull_trusts_first(
    c: ConfigView,
    x: ReplyView,
    y: ReplyView,
    more: Seq<ReplyView>,
)
    requires
        !c.allow_insecure,
    ensures
        agent::pull_step(c, Seq::empty()) == StepView::<()>::Ask(
            RequestView::ReadFile { path: agent::config_paths(c, c.remote)[0] },
        ),
        !agent::reply_verifies(c.remote, x) ==> agent::pull_step(c, seq![x]) == StepView::<()>::Ask(
            RequestView::ReadFile { path: agent::config_paths(c, c.remote)[1] },
        ),
        !agent::reply_verifies(c.remote, x) && !agent::reply_verifies(c.remote, y)
            ==> agent::pull_step(c, seq![x, y] + more) == StepView::<()>::Done(
            Err(ErrorView::UnverifiedRemote { remote: c.remote }),
        ),
{
    laws::trust::law_remote_check(c, c.remote, Seq::empty(), 0);
    laws::trust::law_remote_check(c, c.remote, seq![x], 0);
    laws::trust::law_remote_check(c, c.remote, seq![x, y] + more, 0);
    assert((seq![x, y] + more)[0] == x && (seq![x, y] + more)[1] == y);
}

/// Without a configured branch, `pull` then asks for the status, and ends where that
/// cannot be had or shows no origin of the booted deployment.
pub proof fn law_pull_asks_what_is_tracked(
    c: ConfigView,
    t: Seq<ReplyView>,
    x: ReplyView,
)
    requires
        trusts(c, t),
        c.branch is None,
    ensures
        agent::pull_step(c, t) == StepView::<()>::Ask(status_request(c)),
        match exchange::captured(
            c.ostree_bin,
            seq!["admin"@, "status"@, "--sysroot="@ + c.sysroot],
            x,
        ) {
            Ok(out) => status::booted_origin(text::lines(out)) is None ==> agent::pull_step(c, t.push(x))
                == StepView::<()>::Done(Err(ErrorView::UnknownRefspec)),
            Err(e) => agent::pull_step(c, t.push(x)) == StepView::<()>::Done(Err(e)),
        },
{
    lemma_status_request(c);
    assert(t + Seq::<ReplyView>::empty() =~= t);
    assert(t + seq![x] =~= t.push(x));
    lemma_trusted(c, t, Seq::empty());
    lemma_trusted(c, t, seq![x]);
}

/// `pull` ends on a tracked refspec that is not of the form `<remote>:<ref>`.
pub proof fn law_pull_ends_on_a_malformed_refspec(
    c: ConfigView,
    t: Seq<ReplyView>,
    s: Seq<ReplyView>,
    refspec: Seq<char>,
)
    requires
        trusts(c, t),
        tracks(c, s, refspec),
        remote::refspec_parts(refspec) is None,
    ensures
        agent::pull_step(c, t + s) == StepView::<()>::Done(Err(ErrorView::MalformedRefspec { refspec })),
{
    assert(t + s + Seq::<ReplyView>::empty() =~= t + s);
    lemma_tracked(c, t, s, refspec, Seq::empty());
}

/// Where the tracked refspec names another remote, `pull` goes on by trusting that one
/// in the same way.
pub proof fn law_pull_trusts_the_source(
    c: ConfigView,
    t: Seq<ReplyView>,
    s: Seq<ReplyView>,
    refspec: Seq<char>,
    r: Seq<char>,
    x: ReplyView,
    y: ReplyView,
)
    requires
        trusts(c, t),
        tracks(c, s, refspec),
        remote::refspec_parts(refspec) is Some,
        is_foreign(c, refspec, r),
    ensures
        agent::pull_step(c, t + s) == StepView::<()>::Ask(
            RequestView::ReadFile { path: agent::config_paths(c, r)[0] },
        ),
        !agent::reply_verifies(r, x) ==> agent::pull_step(c, t + s + seq![x]) == StepView::<()>::Ask(
            RequestView::ReadFile { path: agent::config_paths(c, r)[1] },
        ),
        !agent::reply_verifies(r, x) && !agent::reply_verifies(r, y)
            ==> agent::pull_step(c, t + s + seq![x, y]) == StepView::<()>::Done(
            Err(ErrorView::UnverifiedRemote { remote: r }),
        ),
{
    let n = (t.len() + s.len()) as int;
    let one = t + s + seq![x];
    let two = t + s + seq![x, y];
    assert(t + s + Seq::<ReplyView>::empty() =~= t + s);
    lemma_tracked(c, t, s, refspec, Seq::empty());
    lemma_tracked(c, t, s, refspec, seq![x]);
    lemma_tracked(c, t, s, refspec, seq![x, y]);
    assert(one[n] == x && two[n] == x && two[n + 1] == y);
    laws::trust::law_remote_check(c, r, t + s, n);
    laws::trust::law_remote_check(c, r, one, n);
    laws::trust::law_remote_check(c, r, two, n);
}

/// `deploy` begins by trusting the configured remote: it reads the repository's
/// configuration, then the remote's own file, and refuses the remote where neither
/// demands signatures for it.
pub proof fn law_deploy_trusts_first(
    c: ConfigView,
    reboot: bool,
    x: ReplyView,
    y: ReplyView,
    more: Seq<ReplyView>,
)
    requires
        !c.allow_insecure,
    ensures
        agent::deploy_step(c, reboot, Seq::empty()) == StepView::<()>::Ask(
            RequestView::ReadFile { path: agent::config_paths(c, c.remote)[0] },
        ),
        !agent::reply_verifies(c.remote, x) ==> agent::deploy_step(c, reboot, seq![x]) == StepView::<()>::Ask(
            RequestView::ReadFile { path: agent::config_paths(c, c.remote)[1] },
        ),
        !agent::reply_verifies(c.remote, x) && !agent::reply_verifies(c.remote, y)
            ==> agent::deploy_step(c, reboot, seq![x, y] + more) == StepView::<()>::Done(
            Err(ErrorView::UnverifiedRemote { remote: c.remote }),
        ),
{
    laws::trust::law_remote_check(c, c.remote, Seq::empty(), 0);
    laws::trust::law_remote_check(c, c.remote, seq![x], 0);
    laws::trust::law_remote_check(c, c.remote, seq![x, y] + more, 0);
    assert((seq![x, y] + more)[0] == x && (seq![x, y] + more)[1] == y);
}

/// Without a configured branch, `deploy` then asks for the status, and ends where that
/// cannot be had or shows no origin of the booted deployment.
pub proof fn law_deploy_asks_what_is_tracked(
    c: ConfigView,
    reboot: bool,
    t: Seq<ReplyView>,
    x: ReplyView,
)
    requires
        trusts(c, t),
        c.branch is None,
    ensures
        agent::deploy_step(c, reboot, t) == StepView::<()>::Ask(status_request(c)),
        match exchange::captured(
            c.ostree_bin,
            seq!["admin"@, "status"@, "--sysroot="@ + c.sysroot],
            x,
        ) {
            Ok(out) => status::booted_origin(text::lines(out)) is None ==> agent::deploy_step(c, reboot, t.push(x))
                == StepView::<()>::Done(Err(ErrorView::UnknownRefspec)),
            Err(e) => agent::deploy_step(c, reboot, t.push(x)) == StepView::<()>::Done(Err(e)),
        },
{
    lemma_status_request(c);
    assert(t + Seq::<ReplyView>::empty() =~= t);
    assert(t + seq![x] =~= t.push(x));
    lemma_trusted(c, t, Seq::empty());
    lemma_trusted(c, t, seq![x]);
}

/// Where the tracked refspec names another remote, `deploy` goes on by trusting that one
/// in the same way.
pub proof fn law_deploy_trusts_the_source(
    c: ConfigView,
    reboot: bool,
    t: Seq<ReplyView>,
    s: Seq<ReplyView>,
    refspec: Seq<char>,
    r: Seq<char>,
    x: ReplyView,
    y: ReplyView,
)
    requires
        trusts(c, t),
        tracks(c, s, refspec),
        is_foreign(c, refspec, r),
    ensures
        agent::deploy_step(c, reboot, t + s) == StepView::<()>::Ask(
            RequestView::ReadFile { path: agent::config_paths(c, r)[0] },
        ),
        !agent::reply_verifies(r, x) ==> agent::deploy_step(c, reboot, t + s + seq![x]) == StepView::<()>::Ask(
            RequestView::ReadFile { path: agent::config_paths(c, r)[1] },
        ),
        !agent::reply_verifies(r, x) && !agent::reply_verifies(r, y)
            ==> agent::deploy_step(c, reboot, t + s + seq![x, y]) == StepView::<()>::Done(
            Err(ErrorView::UnverifiedRemote { remote: r }),
        ),
{
    let n = (t.len() + s.len()) as int;
    let one = t + s + seq![x];
    let two = t + s + seq![x, y];
    assert(t + s + Seq::<ReplyView>::empty() =~= t + s);
    lemma_tracked(c, t, s, refspec, Seq::empty());
    lemma_tracked(c, t, s, refspec, seq![x]);
    lemma_tracked(c, t, s, refspec, seq![x, y]);
    assert(one[n] == x && two[n] == x && two[n + 1] == y);
    laws::trust::law_remote_check(c, r, t + s, n);
    laws::trust::law_remote_check(c, r, one, n);
    laws::trust::law_remote_check(c, r, two, n);
}

/// Once all is trusted, `check` fetches the metadata of the tracked commit, resolves
/// the refspec, and asks for the status, each after the one before succeeded. It is up
/// to date exactly where the resolved commit is the booted one, and otherwise reports
/// these two as they are.
pub proof fn law_check_reply_by_reply(
    c: ConfigView,
    t: Seq<ReplyView>,
    s: Seq<ReplyView>,
    u: Seq<ReplyView>,
    refspec: Seq<char>,
    m: ReplyView,
    v: ReplyView,
    b: ReplyView,
)
    requires
        trusts(c, t),
        tracks(c, s, refspec),
        trusts_source(c, refspec, u),
        remote::refspec_parts(refspec) is Some,
    ensures
        ({
            let p = t + s + u;
            let parts = remote::refspec_parts(refspec)->0;
            let fetch = agent::metadata_args(c, parts.0, parts.1);
            let resolve = agent::rev_parse_args(c, refspec);
            let look = seq!["admin"@, "status"@, "--sysroot="@ + c.sysroot];
            &&& agent::check_step(c, p) == StepView::<CheckView>::Ask(
                RequestView::Capture { program: c.ostree_bin, args: fetch },
            )
            &&& match exchange::captured(c.ostree_bin, fetch, m) {
                Err(e) => agent::check_step(c, p + seq![m]) == StepView::<CheckView>::Done(Err(e)),
                Ok(_) => {
                    &&& agent::check_step(c, p + seq![m]) == StepView::<CheckView>::Ask(
                        RequestView::Capture { program: c.ostree_bin, args: resolve },
                    )
                    &&& match exchange::captured(c.ostree_bin, resolve, v) {
                        Err(e) => agent::check_step(c, p + seq![m, v])
                            == StepView::<CheckView>::Done(Err(e)),
                        Ok(tip) => {
                            &&& agent::check_step(c, p + seq![m, v]) == StepView::<CheckView>::Ask(
                                status_request(c),
                            )
                            &&& agent::check_step(c, p + seq![m, v, b])
                                == StepView::<CheckView>::Done(
                                match exchange::captured(c.ostree_bin, look, b) {
                                    Err(e) => Err(e),
                                    Ok(out) => match status::booted_checksum(status::listed(out)) {
                                        None => Err(ErrorView::UnknownBootedCommit),
                                        Some(current) => if text::trim(tip) == current {
                                            Ok(CheckView::UpToDate { commit: current })
                                        } else {
                                            Ok(
                                                CheckView::UpdateAvailable {
                                                    current,
                                                    candidate: text::trim(tip),
                                                },
                                            )
                                        },
                                    },
                                },
                            )
                        },
                    }
                },
            }
        }),
{
    lemma_status_request(c);
    let p = t + s + u;
    assert(p + Seq::<ReplyView>::empty() =~= p);
    lemma_opened(c, t, s, u, refspec, Seq::empty());
    lemma_opened(c, t, s, u, refspec, seq![m]);
    lemma_opened(c, t, s, u, refspec, seq![m, v]);
    lemma_opened(c, t, s, u, refspec, seq![m, v, b]);
    let n = p.len() as int;
    assert(seq![m][0] == (p + seq![m])[n]);
    assert(seq![m, v][0] == (p + seq![m, v])[n]);
    assert(seq![m, v][1] == (p + seq![m, v])[n + 1]);
    assert(seq![m, v, b][0] == (p + seq![m, v, b])[n]);
    assert(seq![m, v, b][1] == (p + seq![m, v, b])[n + 1]);
    assert(seq![m, v, b][2] == (p + seq![m, v, b])[n + 2]);
}

/// Whether `check` asked at `n` what the tracked refspec resolves to and then for the
/// status, and was told `tip` and that `current` is the booted commit.
pub open spec fn was_told(
    c: ConfigView,
    h: Seq<ReplyView>,
    n: int,
    tip: Seq<char>,
    current: Seq<char>,
) -> bool {
    &&& 0 <= n && n + 1 < h.len()
    &&& exists|refspec: Seq<char>|
        agent::check_step(c, h.take(n)) == StepView::<CheckView>::Ask(
            RequestView::Capture {
                program: c.ostree_bin,
                args: #[trigger] agent::rev_parse_args(c, refspec),
            },
        )
    &&& agent::check_step(c, h.take(n + 1)) == StepView::<CheckView>::Ask(status_request(c))
    &&& h[n] matches ReplyView::Exited { success, stdout, .. } && success && tip == stdout
    &&& h[n + 1] matches ReplyView::Exited { success, stdout, .. } && success
        && status::booted_checksum(status::listed(stdout)) == Some(current)
}

/// What `check` reports is what it was told: up to date means that the refspec
/// resolved to the booted commit itself, and an update that it resolved to another,
/// and both commits are reported as they are.
#[verifier::rlimit(30)]
pub proof fn law_check_reports_what_it_was_told(c: ConfigView, h: Seq<ReplyView>, r: CheckView)
    requires
        agent::check_step(c, h) == StepView::<CheckView>::Done(Ok(r)),
    ensures
        exists|n: int, tip: Seq<char>, current: Seq<char>| #[trigger]
            was_told(c, h, n, tip, current) && match r {
                CheckView::UpToDate { commit } => commit == current && text::trim(tip) == current,
                CheckView::UpdateAvailable { current: booted, candidate } => {
                    &&& booted == current
                    &&& candidate == text::trim(tip)
                    &&& candidate != current
                },
            },
{
    lemma_status_request(c);
    laws::trust::law_remote_check(c, c.remote, h, 0);
    let at = agent::trust_phase(c, h)->next;
    let refspec = agent::refspec_phase(c, h, at)->Pass_value;
    let next = agent::refspec_phase(c, h, at)->next;
    assert(0 <= at <= next);
    if let Some(source) = remote::source_remote(refspec) {
        laws::trust::law_remote_check(c, source, h, next);
    }
    let first = agent::source_phase(c, refspec, h, next)->next;
    assert(next <= first);
    let n = first + 1;
    let tip = h[n]->stdout;
    let current = status::booted_checksum(status::listed(h[n + 1]->stdout))->0;
    let one = h.take(n);
    let two = h.take(n + 1);
    laws::trust::law_remote_check(c, c.remote, one, 0);
    laws::trust::law_remote_check(c, c.remote, two, 0);
    if let Some(source) = remote::source_remote(refspec) {
        laws::trust::law_remote_check(c, source, one, next);
        laws::trust::law_remote_check(c, source, two, next);
    }
    assert(agent::check_step(c, one) == StepView::<CheckView>::Ask(
        RequestView::Capture {
            program: c.ostree_bin,
            args: agent::rev_parse_args(c, refspec),
        },
    ));
    assert(agent::check_step(c, two) == StepView::<CheckView>::Ask(status_request(c)));
    assert(was_told(c, h, n, tip, current));
}

/// Once all is trusted, `pull` pulls the two sides of the tracked refspec, and ends as
/// that ends.
pub proof fn law_pull_reply_by_reply(
    c: ConfigView,
    t: Seq<ReplyView>,
    s: Seq<ReplyView>,
    u: Seq<ReplyView>,
    refspec: Seq<char>,
    x: ReplyView,
)
    requires
        trusts(c, t),
        tracks(c, s, refspec),
        trusts_source(c, refspec, u),
        remote::refspec_parts(refspec) is Some,
    ensures
        ({
            let p = t + s + u;
            let parts = remote::refspec_parts(refspec)->0;
            let args = agent::pull_args(c, parts.0, parts.1);
            &&& agent::pull_step(c, p) == StepView::<()>::Ask(
                RequestView::Inherit { program: c.ostree_bin, args },
            )
            &&& agent::pull_step(c, p + seq![x]) == StepView::<()>::Done(
                exchange::inherited(c.ostree_bin, args, x),
            )
        }),
{
    let p = t + s + u;
    assert(p + Seq::<ReplyView>::empty() =~= p);
    lemma_opened(c, t, s, u, refspec, Seq::empty());
    lemma_opened(c, t, s, u, refspec, seq![x]);
    assert(seq![x][0] == (p + seq![x])[p.len() as int]);
}

/// Once all is trusted, `deploy` deploys the tracked refspec onto the stateroot. Where
/// that succeeded and a reboot is asked for, it reboots, and ends as that ends.
pub proof fn law_deploy_reply_by_reply(
    c: ConfigView,
    reboot: bool,
    t: Seq<ReplyView>,
    s: Seq<ReplyView>,
    u: Seq<ReplyView>,
    refspec: Seq<char>,
    x: ReplyView,
    y: ReplyView,
)
    requires
        trusts(c, t),
        tracks(c, s, refspec),
        trusts_source(c, refspec, u),
    ensures
        ({
            let p = t + s + u;
            let args = agent::deploy_args(c, refspec);
            &&& agent::deploy_step(c, reboot, p) == StepView::<()>::Ask(
                RequestView::Inherit { program: c.ostree_bin, args },
            )
            &&& match exchange::inherited(c.ostree_bin, args, x) {
                Err(e) => agent::deploy_step(c, reboot, p + seq![x]) == StepView::<()>::Done(Err(e)),
                Ok(_) => if !reboot {
                    agent::deploy_step(c, reboot, p + seq![x]) == StepView::<()>::Done(Ok(()))
                } else {
                    &&& agent::deploy_step(c, reboot, p + seq![x]) == StepView::<()>::Ask(
                        RequestView::Inherit { program: "systemctl"@, args: seq!["reboot"@] },
                    )
                    &&& agent::deploy_step(c, reboot, p + seq![x, y]) == StepView::<()>::Done(
                        match y {
                            ReplyView::Exited { success, status, .. } => if success {
                                Ok(())
                            } else {
                                Err(ErrorView::RebootFailed { status })
                            },
                            ReplyView::Failed { error } => Err(
                                ErrorView::RebootNotInvoked { reason: error },
                            ),
                            _ => Err(ErrorView::RebootNotInvoked { reason: "unexpected reply"@ }),
                        },
                    )
                },
            }
        }),
{
    let p = t + s + u;
    let n = p.len() as int;
    assert(p + Seq::<ReplyView>::empty() =~= p);
    lemma_opened(c, t, s, u, refspec, Seq::empty());
    lemma_opened(c, t, s, u, refspec, seq![x]);
    lemma_opened(c, t, s, u, refspec, seq![x, y]);
    assert(seq![x][0] == (p + seq![x])[n]);
    assert(seq![x, y][0] == (p + seq![x, y])[n]);
    assert(seq![x, y][1] == (p + seq![x, y])[n + 1]);
}

/// `rollback` asks for the status, deploys the commit listed right after the booted
/// one, and ends as that ends. Where there is no such commit it says so.
pub proof fn law_rollback_reply_by_reply(
    c: ConfigView,
    x: ReplyView,
    y: ReplyView,
)
    ensures
        agent::rollback_step(c, Seq::empty()) == StepView::<()>::Ask(status_request(c)),
        match exchange::captured(
            c.ostree_bin,
            seq!["admin"@, "status"@, "--sysroot="@ + c.sysroot],
            x,
        ) {
            Err(e) => agent::rollback_step(c, seq![x]) == StepView::<()>::Done(Err(e)),
            Ok(out) => match status::prior_checksum(status::listed(out)) {
                None => agent::rollback_step(c, seq![x]) == StepView::<()>::Done(
                    Err(ErrorView::NoPreviousDeployment),
                ),
                Some(prior) => {
                    &&& agent::rollback_step(c, seq![x]) == StepView::<()>::Ask(
                        RequestView::Inherit {
                            program: c.ostree_bin,
                            args: agent::deploy_args(c, prior),
                        },
                    )
                    &&& agent::rollback_step(c, seq![x, y]) == StepView::<()>::Done(
                        exchange::inherited(c.ostree_bin, agent::deploy_args(c, prior), y),
                    )
                },
            },
        },
{
    lemma_status_request(c);
}

/// `status` and `cleanup` run their one command, and end as that ends.
pub proof fn law_single_commands_reply_by_reply(c: ConfigView, x: ReplyView)
    ensures
        agent::status_step(c, Seq::empty()) == StepView::<()>::Ask(
            RequestView::Inherit {
                program: c.ostree_bin,
                args: seq!["admin"@, "status"@, "--sysroot="@ + c.sysroot],
            },
        ),
        agent::status_step(c, seq![x]) == StepView::<()>::Done(
            exchange::inherited(
                c.ostree_bin,
                seq!["admin"@, "status"@, "--sysroot="@ + c.sysroot],
                x,
            ),
        ),
        agent::cleanup_step(c, Seq::empty()) == StepView::<()>::Ask(
            RequestView::Inherit {
                program: c.ostree_bin,
                args: seq!["admin"@, "cleanup"@, "--sysroot="@ + c.sysroot],
            },
        ),
        agent::cleanup_step(c, seq![x]) == StepView::<()>::Done(
            exchange::inherited(
                c.ostree_bin,
                seq!["admin"@, "cleanup"@, "--sysroot="@ + c.sysroot],
                x,
            ),
        ),
{
    lemma_status_request(c);
    assert(agent::admin_args(c, seq!["cleanup"@]) =~= seq![
        "admin"@,
        "cleanup"@,
        "--sysroot="@ + c.sysroot,
    ]);
}

} // verus!
