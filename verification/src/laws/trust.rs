//! Trust: nothing unverified is brought in.

use crate::agent;
use crate::agent::ConfigView;
use crate::error::ErrorView;
use crate::exchange;
use crate::exchange::{PhaseView, ReplyView, RequestView, StepView};
use crate::remote;
use vstd::prelude::*;

verus! {

/// Whether one of the two configuration files was answered with a text that
/// demands signatures for the remote.
pub open spec fn verified(c: ConfigView, h: Seq<ReplyView>) -> bool {
    ||| h.len() > 0 && agent::reply_verifies(c.remote, h[0])
    ||| h.len() > 1 && agent::reply_verifies(c.remote, h[1])
}

/// The trust requirement for a remote, spelled out for the replies from position
/// `at` on: the repository's configuration decides first, the remote's own file
/// second, and where neither demands signatures the remote is refused.
pub open spec fn decided(
    c: ConfigView,
    r: Seq<char>,
    h: Seq<ReplyView>,
    at: int,
) -> PhaseView<()> {
    if at >= h.len() {
        PhaseView::Ask(RequestView::ReadFile { path: agent::config_paths(c, r)[0] })
    } else if agent::reply_verifies(r, h[at]) {
        PhaseView::Pass { value: (), next: at + 1 }
    } else if at + 1 >= h.len() {
        PhaseView::Ask(RequestView::ReadFile { path: agent::config_paths(c, r)[1] })
    } else if agent::reply_verifies(r, h[at + 1]) {
        PhaseView::Pass { value: (), next: at + 2 }
    } else {
        PhaseView::Fail(ErrorView::UnverifiedRemote { remote: r })
    }
}

/// The trust requirement is decided in that way for any remote.
pub proof fn law_remote_check(c: ConfigView, r: Seq<char>, h: Seq<ReplyView>, at: int)
    ensures
        agent::remote_phase(c, r, h, at) == decided(c, r, h, at),
{
    reveal_with_fuel(agent::verifies_phase, 3);
    let paths = agent::config_paths(c, r);
    assert(paths.drop_first()[0] == paths[1]);
    assert(paths.drop_first().drop_first().len() == 0);
}

/// For the configured remote it is decided first of all.
pub proof fn law_trust_check(c: ConfigView, h: Seq<ReplyView>)
    requires
        !c.allow_insecure,
    ensures
        agent::trust_phase(c, h) == decided(c, c.remote, h, 0),
{
    law_remote_check(c, c.remote, h, 0);
}

/// How it is decided, for all remotes and positions at once.
pub proof fn lemma_remote_checks(c: ConfigView, h: Seq<ReplyView>)
    ensures
        forall|r: Seq<char>, at: int| #[trigger]
            agent::remote_phase(c, r, h, at) == decided(c, r, h, at),
{
    assert forall|r: Seq<char>, at: int| #[trigger]
        agent::remote_phase(c, r, h, at) == decided(c, r, h, at) by {
        law_remote_check(c, r, h, at);
    }
}

/// Fail closed: no operation that brings in content runs any program before a
/// configuration file was seen that demands signatures for the remote.
pub proof fn law_no_program_runs_unverified(c: ConfigView, reboot: bool, h: Seq<ReplyView>)
    requires
        !c.allow_insecure,
        !verified(c, h),
    ensures
        agent::check_step(c, h) matches StepView::Ask(r) ==> !exchange::runs_program(r),
        agent::pull_step(c, h) matches StepView::Ask(r) ==> !exchange::runs_program(r),
        agent::deploy_step(c, reboot, h) matches StepView::Ask(r) ==> !exchange::runs_program(r),
{
    law_trust_check(c, h);
}

/// None of them succeeds either.
pub proof fn law_nothing_succeeds_unverified(c: ConfigView, reboot: bool, h: Seq<ReplyView>)
    requires
        !c.allow_insecure,
        !verified(c, h),
    ensures
        !(agent::check_step(c, h) matches StepView::Done(Ok(_))),
        !(agent::pull_step(c, h) matches StepView::Done(Ok(_))),
        !(agent::deploy_step(c, reboot, h) matches StepView::Done(Ok(_))),
{
    law_trust_check(c, h);
}

/// Whether a step asks for one of the files that may configure the remote `r`.
pub open spec fn asks_for_config<T>(c: ConfigView, r: Seq<char>, step: StepView<T>) -> bool {
    step matches StepView::Ask(RequestView::ReadFile { path }) && agent::config_paths(
        c,
        r,
    ).contains(path)
}

/// Whether an operation, the steps of which `steps` gives, asked for one of the
/// files that may configure the remote `r` and was answered with a text that
/// demands signatures for it.
pub open spec fn seen_to_verify<T>(
    c: ConfigView,
    r: Seq<char>,
    steps: spec_fn(Seq<ReplyView>) -> StepView<T>,
    h: Seq<ReplyView>,
) -> bool {
    exists|i: int|
        0 <= i < h.len() && agent::reply_verifies(r, #[trigger] h[i]) && asks_for_config(
            c,
            r,
            steps(h.take(i)),
        )
}

/// Fail closed, whichever remote the content comes from: `pull` asks for a pull
/// from a remote only after it read a configuration file of that very remote that
/// demands signatures for it.
pub proof fn law_pull_only_from_verified_remotes(
    c: ConfigView,
    h: Seq<ReplyView>,
    program: Seq<char>,
    r: Seq<char>,
    branch: Seq<char>,
)
    requires
        !c.allow_insecure,
        agent::pull_step(c, h) == StepView::<()>::Ask(
            RequestView::Inherit { program, args: agent::pull_args(c, r, branch) },
        ),
    ensures
        seen_to_verify(c, r, |s: Seq<ReplyView>| agent::pull_step(c, s), h),
{
    let steps = |s: Seq<ReplyView>| agent::pull_step(c, s);
    law_remote_check(c, c.remote, h, 0);
    let at = agent::trust_phase(c, h)->next;
    let refspec = agent::refspec_phase(c, h, at)->Pass_value;
    let next = agent::refspec_phase(c, h, at)->next;
    assert(at <= next <= at + 1);
    if let Some(source) = remote::source_remote(refspec) {
        law_remote_check(c, source, h, next);
    }
    let parts = remote::refspec_parts(refspec)->0;
    assert(agent::pull_args(c, r, branch)[2] == r);
    assert(agent::pull_args(c, parts.0, parts.1)[2] == parts.0);
    let i = if r == c.remote {
        at - 1
    } else if agent::reply_verifies(r, h[next]) {
        next
    } else {
        next + 1
    };
    law_remote_check(c, c.remote, h.take(i), 0);
    law_remote_check(c, r, h.take(i), next);
    let paths = agent::config_paths(c, r);
    assert(paths.contains(paths[0]) && paths.contains(paths[1]));
    assert(asks_for_config(c, r, steps(h.take(i))));
    assert(agent::reply_verifies(r, h[i]));
}

/// Likewise, `check` asks for the metadata of a remote's commit only after it read a
/// configuration file of that very remote that demands signatures for it.
#[verifier::rlimit(30)]
pub proof fn law_check_only_with_verified_remotes(
    c: ConfigView,
    h: Seq<ReplyView>,
    program: Seq<char>,
    r: Seq<char>,
    branch: Seq<char>,
)
    requires
        !c.allow_insecure,
        agent::check_step(c, h) == StepView::<agent::CheckView>::Ask(
            RequestView::Capture { program, args: agent::metadata_args(c, r, branch) },
        ),
    ensures
        seen_to_verify(c, r, |s: Seq<ReplyView>| agent::check_step(c, s), h),
{
    let steps = |s: Seq<ReplyView>| agent::check_step(c, s);
    law_remote_check(c, c.remote, h, 0);
    let at = agent::trust_phase(c, h)->next;
    let refspec = agent::refspec_phase(c, h, at)->Pass_value;
    let next = agent::refspec_phase(c, h, at)->next;
    assert(at <= next <= at + 1);
    if let Some(source) = remote::source_remote(refspec) {
        law_remote_check(c, source, h, next);
    }
    let parts = remote::refspec_parts(refspec)->0;
    assert(agent::metadata_args(c, r, branch).len() == 5);
    assert(agent::admin_args(c, seq!["status"@]).len() == 3);
    assert(agent::rev_parse_args(c, refspec).len() == 3);
    assert(agent::metadata_args(c, r, branch)[3] == r);
    assert(agent::metadata_args(c, parts.0, parts.1)[3] == parts.0);
    let i = if r == c.remote {
        at - 1
    } else if agent::reply_verifies(r, h[next]) {
        next
    } else {
        next + 1
    };
    law_remote_check(c, c.remote, h.take(i), 0);
    law_remote_check(c, r, h.take(i), next);
    let paths = agent::config_paths(c, r);
    assert(paths.contains(paths[0]) && paths.contains(paths[1]));
    assert(asks_for_config(c, r, steps(h.take(i))));
    assert(agent::reply_verifies(r, h[i]));
}

/// Likewise, `deploy` asks for the deployment of a refspec that names a remote only
/// after it read a configuration file of that very remote that demands signatures
/// for it.
#[verifier::rlimit(30)]
pub proof fn law_deploy_only_from_verified_remotes(
    c: ConfigView,
    reboot: bool,
    h: Seq<ReplyView>,
    program: Seq<char>,
    target: Seq<char>,
    r: Seq<char>,
)
    requires
        !c.allow_insecure,
        remote::source_remote(target) == Some(r),
        agent::deploy_step(c, reboot, h) == StepView::<()>::Ask(
            RequestView::Inherit { program, args: agent::deploy_args(c, target) },
        ),
    ensures
        seen_to_verify(c, r, |s: Seq<ReplyView>| agent::deploy_step(c, reboot, s), h),
{
    let steps = |s: Seq<ReplyView>| agent::deploy_step(c, reboot, s);
    law_remote_check(c, c.remote, h, 0);
    let at = agent::trust_phase(c, h)->next;
    let refspec = agent::refspec_phase(c, h, at)->Pass_value;
    let next = agent::refspec_phase(c, h, at)->next;
    assert(at <= next <= at + 1);
    if let Some(source) = remote::source_remote(refspec) {
        law_remote_check(c, source, h, next);
    }
    assert(agent::deploy_args(c, target).len() == 5);
    assert(seq!["reboot"@].len() == 1);
    assert(agent::deploy_args(c, target)[4] == target);
    assert(agent::deploy_args(c, refspec)[4] == refspec);
    let i = if r == c.remote {
        at - 1
    } else if agent::reply_verifies(r, h[next]) {
        next
    } else {
        next + 1
    };
    law_remote_check(c, c.remote, h.take(i), 0);
    law_remote_check(c, r, h.take(i), next);
    let paths = agent::config_paths(c, r);
    assert(paths.contains(paths[0]) && paths.contains(paths[1]));
    assert(asks_for_config(c, r, steps(h.take(i))));
    assert(agent::reply_verifies(r, h[i]));
}

/// A tracked refspec whose remote is not the configured one, and for which neither
/// file demands signatures, is refused by that remote's name, whatever else was
/// answered.
pub proof fn law_unverified_source_is_refused(
    c: ConfigView,
    reboot: bool,
    h: Seq<ReplyView>,
    at: int,
    refspec: Seq<char>,
    next: int,
    r: Seq<char>,
)
    requires
        !c.allow_insecure,
        agent::trust_phase(c, h) == (PhaseView::Pass { value: (), next: at }),
        agent::refspec_phase(c, h, at) == (PhaseView::Pass { value: refspec, next }),
        remote::source_remote(refspec) == Some(r),
        r != c.remote,
        next + 2 <= h.len(),
        !agent::reply_verifies(r, h[next]),
        !agent::reply_verifies(r, h[next + 1]),
    ensures
        agent::deploy_step(c, reboot, h) == StepView::<()>::Done(
            Err(ErrorView::UnverifiedRemote { remote: r }),
        ),
        remote::refspec_parts(refspec) is Some ==> {
            &&& agent::check_step(c, h) == StepView::<agent::CheckView>::Done(
                Err(ErrorView::UnverifiedRemote { remote: r }),
            )
            &&& agent::pull_step(c, h) == StepView::<()>::Done(
                Err(ErrorView::UnverifiedRemote { remote: r }),
            )
        },
{
    law_remote_check(c, r, h, next);
}

/// A remote for which neither file demands signatures is refused by every
/// operation that brings in content, whatever else was answered.
pub proof fn law_unverified_remote_is_refused(c: ConfigView, reboot: bool, h: Seq<ReplyView>)
    requires
        !c.allow_insecure,
        h.len() >= 2,
        !verified(c, h),
    ensures
        agent::finish(agent::trust_phase(c, h)) == StepView::<()>::Done(
            Err(ErrorView::UnverifiedRemote { remote: c.remote }),
        ),
        agent::check_step(c, h) == StepView::<agent::CheckView>::Done(
            Err(ErrorView::UnverifiedRemote { remote: c.remote }),
        ),
        agent::pull_step(c, h) == StepView::<()>::Done(
            Err(ErrorView::UnverifiedRemote { remote: c.remote }),
        ),
        agent::deploy_step(c, reboot, h) == StepView::<()>::Done(
            Err(ErrorView::UnverifiedRemote { remote: c.remote }),
        ),
{
    law_trust_check(c, h);
}

/// A remote for which a file demands signatures is let through, and only then:
/// the requirement is met as soon as such a file was seen.
pub proof fn law_trusted_iff_verified(c: ConfigView, h: Seq<ReplyView>)
    requires
        !c.allow_insecure,
    ensures
        agent::finish(agent::trust_phase(c, h)) == StepView::<()>::Done(Ok(())) <==> verified(c, h),
{
    law_trust_check(c, h);
}

/// A file that cannot be read is no reason for trust.
pub proof fn law_unreadable_file_is_no_trust(remote: Seq<char>, reply: ReplyView)
    requires
        !(reply is Text),
    ensures
        !agent::reply_verifies(remote, reply),
{
}

/// Where insecure operation is allowed, no configuration file is asked for and the
/// requirement is met at once.
pub proof fn law_insecure_skips_the_check(c: ConfigView, reboot: bool, h: Seq<ReplyView>)
    requires
        c.allow_insecure,
    ensures
        agent::finish(agent::trust_phase(c, h)) == StepView::<()>::Done(Ok(())),
        agent::check_step(c, h) matches StepView::Ask(r) ==> exchange::runs_program(r),
        agent::pull_step(c, h) matches StepView::Ask(r) ==> exchange::runs_program(r),
        agent::deploy_step(c, reboot, h) matches StepView::Ask(r) ==> exchange::runs_program(r),
{
}

} // verus!
