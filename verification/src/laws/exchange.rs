//! Requests, replies and what they mean.

use crate::agent;
use crate::agent::{CheckResult, CheckView, UpdateConfig};
use crate::display;
use crate::display::{
    DisplayCheck, DisplayCheckView, Finding, FindingView, Probe, ProbeView, Repair, RepairView,
    Search, SearchView, WaylandEnv,
};
use crate::error::{ErrorView, UpdateError};
use crate::exchange;
use crate::exchange::{Phase, PhaseView, Reply, ReplyView, Request, RequestView, Step, StepView};
use crate::install;
use crate::install::ImageInstall;
use crate::text;
use vstd::prelude::*;

verus! {

/// A captured run yields what the program wrote where it succeeded. Where it failed,
/// the error carries the arguments, the status, and what it complained about without
/// the white space around it. Where it was not run, the error names the program and
/// the reason.
pub proof fn law_captured_runs(
    program: Seq<char>,
    args: Seq<Seq<char>>,
    success: bool,
    status: Seq<char>,
    stdout: Seq<char>,
    stderr: Seq<char>,
    reason: Seq<char>,
)
    ensures
        exchange::captured(program, args, ReplyView::Exited { success, status, stdout, stderr })
            == (if success {
            Ok::<Seq<char>, ErrorView>(stdout)
        } else {
            Err(ErrorView::CommandFailed { args, status, stderr: Some(text::trim(stderr)) })
        }),
        exchange::captured(program, args, ReplyView::Failed { error: reason }) == Err::<
            Seq<char>,
            ErrorView,
        >(ErrorView::NotExecuted { program, reason }),
        exchange::captured(program, args, ReplyView::Text { text: stdout }) == Err::<
            Seq<char>,
            ErrorView,
        >(ErrorView::NotExecuted { program, reason: "unexpected reply"@ }),
        exchange::captured(program, args, ReplyView::Logged) == Err::<Seq<char>, ErrorView>(
            ErrorView::NotExecuted { program, reason: "unexpected reply"@ },
        ),
{
}

/// A live run yields nothing but its success; its errors are those of a captured one,
/// without what the program complained about.
pub proof fn law_live_runs(
    program: Seq<char>,
    args: Seq<Seq<char>>,
    success: bool,
    status: Seq<char>,
    stdout: Seq<char>,
    stderr: Seq<char>,
    reason: Seq<char>,
)
    ensures
        exchange::inherited(program, args, ReplyView::Exited { success, status, stdout, stderr })
            == (if success {
            Ok::<(), ErrorView>(())
        } else {
            Err(ErrorView::CommandFailed { args, status, stderr: None })
        }),
        exchange::inherited(program, args, ReplyView::Failed { error: reason }) == Err::<
            (),
            ErrorView,
        >(ErrorView::NotExecuted { program, reason }),
        exchange::inherited(program, args, ReplyView::Text { text: stdout }) == Err::<
            (),
            ErrorView,
        >(ErrorView::NotExecuted { program, reason: "unexpected reply"@ }),
        exchange::inherited(program, args, ReplyView::Logged) == Err::<(), ErrorView>(
            ErrorView::NotExecuted { program, reason: "unexpected reply"@ },
        ),
{
}

/// Only a file that was read has a text, and that text as it stands; only what could
/// not be carried out has a reason of its own; and only two requests run a program.
pub proof fn law_what_replies_hold(reply: ReplyView, request: RequestView)
    ensures
        exchange::file_text(reply) == (match reply {
            ReplyView::Text { text } => Some(text),
            _ => None,
        }),
        exchange::failure_reason(reply) == (match reply {
            ReplyView::Failed { error } => error,
            _ => "unexpected reply"@,
        }),
        exchange::runs_program(request) == (request is Capture || request is Inherit),
{
}

/// What is said of a reply is said of all it holds.
pub proof fn law_replies_are_seen_whole(reply: Reply, replies: Seq<Reply>)
    ensures
        match reply {
            Reply::Failed { error } => reply@ == (ReplyView::Failed { error: error@ }),
            Reply::Text { text } => reply@ == (ReplyView::Text { text: text@ }),
            Reply::Exited { success, status, stdout, stderr } => reply@ == (ReplyView::Exited {
                success,
                status: status@,
                stdout: stdout@,
                stderr: stderr@,
            }),
            Reply::Logged => reply@ is Logged,
        },
        exchange::history(replies).len() == replies.len(),
        forall|i: int|
            0 <= i < replies.len() ==> #[trigger] exchange::history(replies)[i] == replies[i]@,
{
}

/// What is said of a request is said of all it holds.
pub proof fn law_requests_are_seen_whole(request: Request, requests: Seq<Request>)
    ensures
        match request {
            Request::ReadFile { path } => request@ == (RequestView::ReadFile { path: path@ }),
            Request::Capture { program, args } => request@ == (RequestView::Capture {
                program: program@,
                args: text::texts(args@),
            }),
            Request::Inherit { program, args } => request@ == (RequestView::Inherit {
                program: program@,
                args: text::texts(args@),
            }),
            Request::Log { line } => request@ == (RequestView::Log { line: line@ }),
        },
        install::requests_of(requests).len() == requests.len(),
        forall|i: int|
            0 <= i < requests.len() ==> #[trigger] install::requests_of(requests)[i]
                == requests[i]@,
{
}

/// What is said of a step, or of a part of an operation, is said of all it holds.
pub proof fn law_steps_are_seen_whole(step: Step<CheckResult>, bare: Step<()>, phase: Phase<String>)
    ensures
        match step {
            Step::Ask(r) => step@ == StepView::<CheckView>::Ask(r@),
            Step::Done(Ok(v)) => step@ == StepView::<CheckView>::Done(Ok(v@)),
            Step::Done(Err(e)) => step@ == StepView::<CheckView>::Done(Err(e@)),
        },
        match bare {
            Step::Ask(r) => bare@ == StepView::<()>::Ask(r@),
            Step::Done(Ok(_)) => bare@ == StepView::<()>::Done(Ok(())),
            Step::Done(Err(e)) => bare@ == StepView::<()>::Done(Err(e@)),
        },
        match phase {
            Phase::Ask(r) => phase@ == PhaseView::<Seq<char>>::Ask(r@),
            Phase::Fail(e) => phase@ == PhaseView::<Seq<char>>::Fail(e@),
            Phase::Pass { value, next } => phase@ == (PhaseView::Pass {
                value: value@,
                next: next as int,
            }),
        },
{
}

/// What is said of the outcome of a `check` is said of the commits it holds.
pub proof fn law_outcomes_are_seen_whole(r: CheckResult)
    ensures
        match r {
            CheckResult::UpToDate { commit } => r@ == (CheckView::UpToDate { commit: commit@ }),
            CheckResult::UpdateAvailable { current, candidate } => r@
                == (CheckView::UpdateAvailable { current: current@, candidate: candidate@ }),
        },
{
}

/// What is said of an error is said of all it holds.
pub proof fn law_errors_are_seen_whole(e: UpdateError)
    ensures
        match e {
            UpdateError::NotExecuted { program, reason } => e@ == (ErrorView::NotExecuted {
                program: program@,
                reason: reason@,
            }),
            UpdateError::CommandFailed { args, status, stderr } => {
                &&& e@ is CommandFailed
                &&& e@->args == text::texts(args@)
                &&& e@->CommandFailed_status == status@
                &&& match stderr {
                    Some(s) => e@->stderr == Some(s@),
                    None => e@->stderr is None,
                }
            },
            UpdateError::UnknownRefspec => e@ is UnknownRefspec,
            UpdateError::UnknownBootedCommit => e@ is UnknownBootedCommit,
            UpdateError::UnverifiedRemote { remote } => e@ == (ErrorView::UnverifiedRemote {
                remote: remote@,
            }),
            UpdateError::MalformedRefspec { refspec } => e@ == (ErrorView::MalformedRefspec {
                refspec: refspec@,
            }),
            UpdateError::NoPreviousDeployment => e@ is NoPreviousDeployment,
            UpdateError::RebootNotInvoked { reason } => e@ == (ErrorView::RebootNotInvoked {
                reason: reason@,
            }),
            UpdateError::RebootFailed { status } => e@ == (ErrorView::RebootFailed {
                status: status@,
            }),
        },
{
}

/// What is said of a configuration is said of each of its settings, and the `ostree`
/// of the environment is taken where there is one.
pub proof fn law_configurations_are_seen_whole(c: UpdateConfig, env: String)
    ensures
        c@.sysroot == c.sysroot@,
        c@.os == c.os@,
        c@.remote == c.remote@,
        match c.branch {
            Some(b) => c@.branch == Some(b@),
            None => c@.branch is None,
        },
        c@.ostree_bin == c.ostree_bin@,
        c@.allow_insecure == c.allow_insecure,
        agent::chosen_bin(Some(env)) == env@,
        agent::chosen_bin(None) == "ostree"@,
{
}

/// What is said of an installation is said of each of its parameters.
pub proof fn law_installations_are_seen_whole(i: ImageInstall)
    ensures
        i@.target == i.target@,
        i@.os == i.os@,
        i@.remote == i.remote@,
        i@.url == i.url@,
        i@.branch == i.branch@,
        match i.pubkey {
            Some(key) => i@.pubkey == Some(key@),
            None => i@.pubkey is None,
        },
        i@.kargs == text::texts(i.kargs@),
        i@.ostree_bin == i.ostree_bin@,
{
}

/// What is said of the display environment is said of all that is looked up, found
/// and set.
pub proof fn law_display_is_seen_whole(
    probe: Probe,
    finding: Finding,
    findings: Seq<Finding>,
    env: WaylandEnv,
    repair: Repair,
    search: Search,
    checked: DisplayCheck,
    name: String,
)
    ensures
        match probe {
            Probe::IsDirectory { path } => probe@ == (ProbeView::IsDirectory { path: path@ }),
            Probe::Exists { path } => probe@ == (ProbeView::Exists { path: path@ }),
            Probe::ListDirectory { path } => probe@ == (ProbeView::ListDirectory { path: path@ }),
        },
        match finding {
            Finding::Yes => finding@ is Yes,
            Finding::No => finding@ is No,
            Finding::Names { names } => finding@ == (FindingView::Names {
                names: text::texts(names@),
            }),
        },
        display::findings_of(findings).len() == findings.len(),
        forall|i: int|
            0 <= i < findings.len() ==> #[trigger] display::findings_of(findings)[i]
                == findings[i]@,
        env@.runtime_dir == env.runtime_dir@,
        env@.socket == env.socket@,
        match repair {
            Repair::Look(p) => repair@ == RepairView::Look(p@),
            Repair::Done(Some(e)) => repair@ == RepairView::Done(Some(e@)),
            Repair::Done(None) => repair@ == RepairView::Done(None),
        },
        match search {
            Search::Look(p) => search@ == SearchView::Look(p@),
            Search::Found(Some(n)) => search@ == SearchView::Found(Some(n@)),
            Search::Found(None) => search@ == SearchView::Found(None),
        },
        match checked {
            DisplayCheck::Ready => checked@ is Ready,
            DisplayCheck::Doubtful { notice } => checked@ == (DisplayCheckView::Doubtful {
                notice: notice@,
            }),
            DisplayCheck::Missing { notice, error } => checked@ == (DisplayCheckView::Missing {
                notice: notice@,
                error: error@,
            }),
        },
        display::opt_text(Some(name)) == Some(name@),
        display::opt_text(None) is None,
{
}

} // verus!
