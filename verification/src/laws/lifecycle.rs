//! The operations of the agent, from their first step to their last.

use crate::agent;
use crate::agent::{CheckView, ConfigView};
use crate::error::ErrorView;
use crate::exchange::{ReplyView, RequestView, StepView};
use crate::laws;
use crate::remote;
use crate::status;
use crate::text;
use vstd::prelude::*;

verus! {

/// Every operation comes to its end after a bounded number of replies.
pub proof fn law_operations_end(c: ConfigView, reboot: bool, h: Seq<ReplyView>)
    ensures
        h.len() >= 1 ==> agent::status_step(c, h) is Done,
        h.len() >= 1 ==> agent::cleanup_step(c, h) is Done,
        h.len() >= 2 ==> agent::rollback_step(c, h) is Done,
        h.len() >= 2 ==> agent::finish(agent::trust_phase(c, h)) is Done,
        h.len() >= 6 ==> agent::pull_step(c, h) is Done,
        h.len() >= 7 ==> agent::deploy_step(c, reboot, h) is Done,
        h.len() >= 8 ==> agent::check_step(c, h) is Done,
{
    laws::trust::lemma_remote_checks(c, h);
}

#[verifier::rlimit(30)]
proof fn lemma_check_is_final(
    c: ConfigView,
    h: Seq<ReplyView>,
    more: Seq<ReplyView>,
)
    requires
        agent::check_step(c, h) is Done,
    ensures
        agent::check_step(c, h + more) == agent::check_step(c, h),
{
    laws::trust::lemma_remote_checks(c, h);
    laws::trust::lemma_remote_checks(c, h + more);
    assert(forall|i: int| 0 <= i < h.len() ==> (h + more)[i] == h[i]);
}

proof fn lemma_pull_is_final(
    c: ConfigView,
    h: Seq<ReplyView>,
    more: Seq<ReplyView>,
)
    requires
        agent::pull_step(c, h) is Done,
    ensures
        agent::pull_step(c, h + more) == agent::pull_step(c, h),
{
    laws::trust::lemma_remote_checks(c, h);
    laws::trust::lemma_remote_checks(c, h + more);
    assert(forall|i: int| 0 <= i < h.len() ==> (h + more)[i] == h[i]);
}

#[verifier::rlimit(30)]
proof fn lemma_deploy_is_final(
    c: ConfigView,
    reboot: bool,
    h: Seq<ReplyView>,
    more: Seq<ReplyView>,
)
    requires
        agent::deploy_step(c, reboot, h) is Done,
    ensures
        agent::deploy_step(c, reboot, h + more) == agent::deploy_step(c, reboot, h),
{
    laws::trust::lemma_remote_checks(c, h);
    laws::trust::lemma_remote_checks(c, h + more);
    assert(forall|i: int| 0 <= i < h.len() ==> (h + more)[i] == h[i]);
}

/// A result is final: replies that come after it change nothing.
pub proof fn law_results_are_final(
    c: ConfigView,
    reboot: bool,
    h: Seq<ReplyView>,
    more: Seq<ReplyView>,
)
    ensures
        agent::status_step(c, h) is Done ==> agent::status_step(c, h + more) == agent::status_step(
            c,
            h,
        ),
        agent::cleanup_step(c, h) is Done ==> agent::cleanup_step(c, h + more)
            == agent::cleanup_step(c, h),
        agent::rollback_step(c, h) is Done ==> agent::rollback_step(c, h + more)
            == agent::rollback_step(c, h),
        agent::finish(agent::trust_phase(c, h)) is Done ==> agent::finish(
            agent::trust_phase(c, h + more),
        ) == agent::finish(agent::trust_phase(c, h)),
        agent::pull_step(c, h) is Done ==> agent::pull_step(c, h + more) == agent::pull_step(c, h),
        agent::deploy_step(c, reboot, h) is Done ==> agent::deploy_step(c, reboot, h + more)
            == agent::deploy_step(c, reboot, h),
        agent::check_step(c, h) is Done ==> agent::check_step(c, h + more) == agent::check_step(
            c,
            h,
        ),
{
    if agent::check_step(c, h) is Done {
        lemma_check_is_final(c, h, more);
    }
    if agent::pull_step(c, h) is Done {
        lemma_pull_is_final(c, h, more);
    }
    if agent::deploy_step(c, reboot, h) is Done {
        lemma_deploy_is_final(c, reboot, h, more);
    }
    laws::trust::law_remote_check(c, c.remote, h, 0);
    laws::trust::law_remote_check(c, c.remote, h + more, 0);
    assert(forall|i: int| 0 <= i < h.len() ==> (h + more)[i] == h[i]);
}

/// `check` deploys nothing: all it runs are `ostree admin status`, a pull of
/// commit metadata, and the resolution of a ref.
#[verifier::rlimit(30)]
pub proof fn law_check_only_looks(c: ConfigView, h: Seq<ReplyView>)
    ensures
        match agent::check_step(c, h) {
            StepView::Ask(RequestView::ReadFile { path }) => {
                &&& !c.allow_insecure
                &&& exists|r: Seq<char>| (#[trigger] agent::config_paths(c, r)).contains(path)
            },
            StepView::Ask(RequestView::Capture { program, args }) => {
                &&& program == c.ostree_bin
                &&& {
                    ||| args == agent::admin_args(c, seq!["status"@])
                    ||| exists|r: Seq<char>, b: Seq<char>|
                        args == #[trigger] agent::metadata_args(c, r, b)
                    ||| exists|r: Seq<char>| args == #[trigger] agent::rev_parse_args(c, r)
                }
            },
            StepView::Ask(_) => false,
            StepView::Done(_) => true,
        },
{
    laws::trust::lemma_remote_checks(c, h);
    assert forall|r: Seq<char>|
        (#[trigger] agent::config_paths(c, r)).contains(agent::config_paths(c, r)[0])
            && agent::config_paths(c, r).contains(agent::config_paths(c, r)[1]) by {
        assert(agent::config_paths(c, r).len() == 2);
    }
}

/// What `check` reports as current is a checksum, and what it reports as an update
/// is another commit.
pub proof fn law_check_reports(c: ConfigView, h: Seq<ReplyView>)
    ensures
        match agent::check_step(c, h) {
            StepView::Done(Ok(CheckView::UpToDate { commit })) => laws::status::is_checksum(commit),
            StepView::Done(Ok(CheckView::UpdateAvailable { current, candidate })) => {
                &&& laws::status::is_checksum(current)
                &&& candidate != current
            },
            _ => true,
        },
{
    laws::trust::lemma_remote_checks(c, h);
    assert forall|t: Seq<char>| status::booted_checksum(#[trigger] status::listed(t)) is Some
        implies laws::status::is_checksum(status::booted_checksum(status::listed(t))->0) by {
        laws::status::law_deployments_carry_checksums(text::lines(t));
        status::lemma_booted_index(status::listed(t));
    }
}

/// `rollback` deploys the commit that the status lists immediately after the
/// booted deployment, and nothing else.
pub proof fn law_rollback_deploys_the_next(c: ConfigView, h: Seq<ReplyView>, args: Seq<Seq<char>>)
    requires
        agent::rollback_step(c, h) == StepView::<()>::Ask(
            RequestView::Inherit { program: c.ostree_bin, args },
        ),
    ensures
        h.len() == 1,
        h[0] matches ReplyView::Exited { success, stdout, .. } && success && {
            let ds = status::listed(stdout);
            status::booted_index(ds) matches Some(i) && 0 <= i && i + 1 < ds.len() && args
                == agent::deploy_args(c, ds[i + 1].checksum)
        },
{
    if h[0] is Exited {
        status::lemma_booted_index(status::listed(h[0]->stdout));
    }
}

/// Where the status lists nothing after the booted deployment, or no booted one,
/// `rollback` deploys nothing and says so.
pub proof fn law_no_rollback_without_previous(c: ConfigView, h: Seq<ReplyView>)
    requires
        h.len() >= 1,
        h[0] matches ReplyView::Exited { success, stdout, .. } && success
            && match status::booted_index(status::listed(stdout)) {
            Some(i) => i + 1 == status::listed(stdout).len(),
            None => true,
        },
    ensures
        agent::rollback_step(c, h) == StepView::<()>::Done(Err(ErrorView::NoPreviousDeployment)),
{
}

/// `rollback` needs no remote: it never reads a remote's configuration and never
/// pulls.
pub proof fn law_rollback_is_local(c: ConfigView, h: Seq<ReplyView>)
    ensures
        match agent::rollback_step(c, h) {
            StepView::Ask(RequestView::Capture { program, args }) => {
                &&& program == c.ostree_bin
                &&& args == agent::admin_args(c, seq!["status"@])
            },
            StepView::Ask(RequestView::Inherit { program, args }) => {
                &&& program == c.ostree_bin
                &&& exists|t: Seq<char>| args == #[trigger] agent::deploy_args(c, t)
            },
            StepView::Ask(_) => false,
            StepView::Done(_) => true,
        },
{
}

/// With a configured branch, `pull` pulls that branch from the configured remote,
/// if the remote's name is not empty and holds no colon.
pub proof fn law_pull_takes_the_configured_branch(
    c: ConfigView,
    h: Seq<ReplyView>,
    branch: Seq<char>,
    program: Seq<char>,
    args: Seq<Seq<char>>,
)
    requires
        c.branch == Some(branch),
        c.remote.len() > 0,
        !c.remote.contains(':'),
        branch.len() > 0,
        agent::pull_step(c, h) == StepView::<()>::Ask(RequestView::Inherit { program, args }),
    ensures
        program == c.ostree_bin,
        args == agent::pull_args(c, c.remote, branch),
{
    laws::trust::lemma_remote_checks(c, h);
    laws::remote::law_refspec_splits_back(c.remote, branch);
}

/// With a configured branch, `deploy` deploys `<remote>:<branch>` onto the
/// configured stateroot, and asks for no status first.
pub proof fn law_deploy_takes_the_configured_branch(
    c: ConfigView,
    reboot: bool,
    h: Seq<ReplyView>,
    branch: Seq<char>,
)
    requires
        c.branch == Some(branch),
    ensures
        match agent::deploy_step(c, reboot, h) {
            StepView::Ask(RequestView::Inherit { program, args }) => {
                ||| program == c.ostree_bin && args == agent::deploy_args(
                    c,
                    c.remote + ":"@ + branch,
                )
                ||| reboot && RequestView::Inherit { program, args } == agent::reboot_request()
            },
            StepView::Ask(r) => r is ReadFile,
            StepView::Done(_) => true,
        },
{
    laws::trust::lemma_remote_checks(c, h);
}

/// Without a configured branch, `deploy` deploys the refspec that a status it read
/// gives as the booted deployment's origin.
pub proof fn law_deploy_tracks_the_booted_origin(
    c: ConfigView,
    reboot: bool,
    h: Seq<ReplyView>,
    program: Seq<char>,
    args: Seq<Seq<char>>,
)
    requires
        c.branch is None,
        agent::deploy_step(c, reboot, h) == StepView::<()>::Ask(
            RequestView::Inherit { program, args },
        ),
        (RequestView::Inherit { program, args }) != agent::reboot_request(),
    ensures
        program == c.ostree_bin,
        exists|i: int|
            0 <= i < h.len() && (#[trigger] h[i] matches ReplyView::Exited { success, stdout, .. }
                && success && (status::booted_origin(text::lines(stdout)) matches Some(origin)
                && args == agent::deploy_args(c, origin))),
{
    laws::trust::lemma_remote_checks(c, h);
}

/// Without a configured branch, `pull` pulls the two sides of the refspec that a
/// status it read gives as the booted deployment's origin.
pub proof fn law_pull_tracks_the_booted_origin(
    c: ConfigView,
    h: Seq<ReplyView>,
    program: Seq<char>,
    args: Seq<Seq<char>>,
)
    requires
        c.branch is None,
        agent::pull_step(c, h) == StepView::<()>::Ask(RequestView::Inherit { program, args }),
    ensures
        program == c.ostree_bin,
        exists|i: int|
            0 <= i < h.len() && (#[trigger] h[i] matches ReplyView::Exited { success, stdout, .. }
                && success && (status::booted_origin(text::lines(stdout)) matches Some(origin) && (
            remote::refspec_parts(origin) matches Some((r, b)) && args == agent::pull_args(
                c,
                r,
                b,
            )))),
{
    laws::trust::lemma_remote_checks(c, h);
}

/// `deploy` reboots only where it was asked to, and only right after the
/// deployment succeeded.
pub proof fn law_reboot_only_asked_and_deployed(c: ConfigView, reboot: bool, h: Seq<ReplyView>)
    requires
        agent::deploy_step(c, reboot, h) == StepView::<()>::Ask(agent::reboot_request()),
    ensures
        reboot,
        h.len() > 0,
        h.last() matches ReplyView::Exited { success, .. } && success,
{
    laws::trust::lemma_remote_checks(c, h);
    assert forall|t: Seq<char>| (#[trigger] agent::deploy_args(c, t)).len() == 5 by {}
    assert(seq!["reboot"@].len() == 1);
}

/// `status` and `cleanup` run their one command, whatever the remote.
pub proof fn law_status_and_cleanup_ask_at_once(c: ConfigView, h: Seq<ReplyView>)
    requires
        h.len() == 0,
    ensures
        agent::status_step(c, h) == StepView::<()>::Ask(
            RequestView::Inherit {
                program: c.ostree_bin,
                args: seq!["admin"@, "status"@, "--sysroot="@ + c.sysroot],
            },
        ),
        agent::cleanup_step(c, h) == StepView::<()>::Ask(
            RequestView::Inherit {
                program: c.ostree_bin,
                args: seq!["admin"@, "cleanup"@, "--sysroot="@ + c.sysroot],
            },
        ),
{
    assert(agent::admin_args(c, seq!["status"@]) =~= seq![
        "admin"@,
        "status"@,
        "--sysroot="@ + c.sysroot,
    ]);
    assert(agent::admin_args(c, seq!["cleanup"@]) =~= seq![
        "admin"@,
        "cleanup"@,
        "--sysroot="@ + c.sysroot,
    ]);
}

} // verus!
