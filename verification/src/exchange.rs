//! The exchange between an operation and whoever carries out its requests.
//!
//! An operation is a function of the replies received so far. It answers with a
//! [`Step`]: one more request, or its result. The caller carries the request out,
//! appends the reply, and asks again. A reply that does not fit its request
//! counts as the request not having been carried out.

use crate::error::{ErrorView, UpdateError};
use crate::text;
use crate::text::trim_of;
use vstd::prelude::*;

verus! {

/// Something to be done outside.
#[derive(Debug, PartialEq, Eq)]
pub enum Request {
    /// Read a text file.
    ReadFile { path: String },
    /// Run a program and collect what it writes.
    Capture { program: String, args: Vec<String> },
    /// Run a program on the caller's own standard streams (live progress).
    Inherit { program: String, args: Vec<String> },
    /// Show a human-readable progress line.
    Log { line: String },
}

/// What became of a request.
#[derive(Debug, PartialEq, Eq)]
pub enum Reply {
    /// It could not be carried out: the file could not be read, or the program
    /// could not be started.
    Failed { error: String },
    /// The text of the file.
    Text { text: String },
    /// The program ended, with a status in words and what was collected.
    Exited { success: bool, status: String, stdout: String, stderr: String },
    /// The progress line was shown.
    Logged,
}

/// What an operation wants next.
#[derive(Debug, PartialEq, Eq)]
pub enum Step<T> {
    /// This request is to be carried out.
    Ask(Request),
    /// The operation is over.
    Done(Result<T, UpdateError>),
}

/// How far a part of an operation has come.
pub enum Phase<T> {
    /// It waits for this request.
    Ask(Request),
    /// It failed, and the operation with it.
    Fail(UpdateError),
    /// It yielded `value`; `next` is the position of the first reply that is left.
    Pass { value: T, next: usize },
}

/// A [`Request`] over texts.
pub enum RequestView {
    ReadFile { path: Seq<char> },
    Capture { program: Seq<char>, args: Seq<Seq<char>> },
    Inherit { program: Seq<char>, args: Seq<Seq<char>> },
    Log { line: Seq<char> },
}

/// A [`Reply`] over texts.
pub enum ReplyView {
    Failed { error: Seq<char> },
    Text { text: Seq<char> },
    Exited { success: bool, status: Seq<char>, stdout: Seq<char>, stderr: Seq<char> },
    Logged,
}

/// A [`Step`] over texts.
pub enum StepView<T> {
    Ask(RequestView),
    Done(Result<T, ErrorView>),
}

/// A [`Phase`] over texts.
pub enum PhaseView<T> {
    Ask(RequestView),
    Fail(ErrorView),
    Pass { value: T, next: int },
}

impl View for Request {
    type V = RequestView;

    open spec fn view(&self) -> RequestView {
        match *self {
            Request::ReadFile { path } => RequestView::ReadFile { path: path@ },
            Request::Capture { program, args } => RequestView::Capture {
                program: program@,
                args: text::texts(args@),
            },
            Request::Inherit { program, args } => RequestView::Inherit {
                program: program@,
                args: text::texts(args@),
            },
            Request::Log { line } => RequestView::Log { line: line@ },
        }
    }
}

impl View for Reply {
    type V = ReplyView;

    open spec fn view(&self) -> ReplyView {
        match *self {
            Reply::Failed { error } => ReplyView::Failed { error: error@ },
            Reply::Text { text } => ReplyView::Text { text: text@ },
            Reply::Exited { success, status, stdout, stderr } => ReplyView::Exited {
                success,
                status: status@,
                stdout: stdout@,
                stderr: stderr@,
            },
            Reply::Logged => ReplyView::Logged,
        }
    }
}

impl<T: View> View for Step<T> {
    type V = StepView<T::V>;

    open spec fn view(&self) -> StepView<T::V> {
        match *self {
            Step::Ask(r) => StepView::Ask(r@),
            Step::Done(Ok(v)) => StepView::Done(Ok(v@)),
            Step::Done(Err(e)) => StepView::Done(Err(e@)),
        }
    }
}

impl<T: View> View for Phase<T> {
    type V = PhaseView<T::V>;

    open spec fn view(&self) -> PhaseView<T::V> {
        match *self {
            Phase::Ask(r) => PhaseView::Ask(r@),
            Phase::Fail(e) => PhaseView::Fail(e@),
            Phase::Pass { value, next } => PhaseView::Pass { value: value@, next: next as int },
        }
    }
}

/// The replies over texts.
pub open spec fn history(replies: Seq<Reply>) -> Seq<ReplyView> {
    replies.map_values(|r: Reply| r@)
}

/// Whether a request runs a program.
pub open spec fn runs_program(r: RequestView) -> bool {
    r is Capture || r is Inherit
}

/// Why a request was not carried out.
pub open spec fn failure_reason(reply: ReplyView) -> Seq<char> {
    match reply {
        ReplyView::Failed { error } => error,
        _ => "unexpected reply"@,
    }
}

/// The text of a file that was read.
pub open spec fn file_text(reply: ReplyView) -> Option<Seq<char>> {
    match reply {
        ReplyView::Text { text } => Some(text),
        _ => None,
    }
}

/// What a captured `ostree` run yields: its output, or why there is none.
pub open spec fn captured(
    program: Seq<char>,
    args: Seq<Seq<char>>,
    reply: ReplyView,
) -> Result<Seq<char>, ErrorView> {
    match reply {
        ReplyView::Exited { success, status, stdout, stderr } => if success {
            Ok(stdout)
        } else {
            Err(ErrorView::CommandFailed { args, status, stderr: Some(text::trim(stderr)) })
        },
        _ => Err(ErrorView::NotExecuted { program, reason: failure_reason(reply) }),
    }
}

/// What a live `ostree` run yields: nothing, or why it failed.
pub open spec fn inherited(
    program: Seq<char>,
    args: Seq<Seq<char>>,
    reply: ReplyView,
) -> Result<(), ErrorView> {
    match reply {
        ReplyView::Exited { success, status, .. } => if success {
            Ok(())
        } else {
            Err(ErrorView::CommandFailed { args, status, stderr: None })
        },
        _ => Err(ErrorView::NotExecuted { program, reason: failure_reason(reply) }),
    }
}

/// The text that stands for possibly malformed UTF-8.
pub uninterp spec fn utf8_lossy(bytes: Seq<u8>) -> Seq<char>;

/// Calls `String::from_utf8_lossy` of the standard library. It is trusted that the
/// result depends on the bytes alone, and that bytes which are valid UTF-8 are
/// decoded as they stand; what replaces malformed sequences is left to the name.
#[verifier::external_body]
fn decode_lossy(bytes: &[u8]) -> (text: String)
    ensures
        text@ == utf8_lossy(bytes@),
        vstd::utf8::valid_utf8(bytes@) ==> text@ == vstd::utf8::decode_utf8(bytes@),
{
    String::from_utf8_lossy(bytes).into_owned()
}

impl Reply {
    /// The reply for a program that ended, from the raw bytes that it wrote.
    pub fn exited(success: bool, status: String, stdout: &[u8], stderr: &[u8]) -> (reply: Reply)
        ensures
            reply@ == (ReplyView::Exited {
                success,
                status: status@,
                stdout: utf8_lossy(stdout@),
                stderr: utf8_lossy(stderr@),
            }),
            vstd::utf8::valid_utf8(stdout@) ==> utf8_lossy(stdout@) == vstd::utf8::decode_utf8(
                stdout@,
            ),
            vstd::utf8::valid_utf8(stderr@) ==> utf8_lossy(stderr@) == vstd::utf8::decode_utf8(
                stderr@,
            ),
    {
        Reply::Exited { success, status, stdout: decode_lossy(stdout), stderr: decode_lossy(stderr) }
    }

    /// Why the request was not carried out.
    pub fn failure_reason(&self) -> (r: String)
        ensures
            r@ == failure_reason(self@),
    {
        match self {
            Reply::Failed { error } => error.clone(),
            _ => "unexpected reply".to_string(),
        }
    }

    /// What this means for a captured `ostree` run.
    pub fn captured(&self, program: &str, args: Vec<String>) -> (r: Result<String, UpdateError>)
        ensures
            match r {
                Ok(out) => captured(program@, text::texts(args@), self@) == Ok::<
                    Seq<char>,
                    ErrorView,
                >(out@),
                Err(e) => captured(program@, text::texts(args@), self@) == Err::<
                    Seq<char>,
                    ErrorView,
                >(e@),
            },
    {
        match self {
            Reply::Exited { success, status, stdout, stderr } => {
                if *success {
                    Ok(stdout.clone())
                } else {
                    Err(
                        UpdateError::CommandFailed {
                            args,
                            status: status.clone(),
                            stderr: Some(trim_of(stderr)),
                        },
                    )
                }
            },
            _ => Err(
                UpdateError::NotExecuted {
                    program: program.to_string(),
                    reason: self.failure_reason(),
                },
            ),
        }
    }

    /// What this means for a live `ostree` run.
    pub fn inherited(&self, program: &str, args: Vec<String>) -> (r: Result<(), UpdateError>)
        ensures
            match r {
                Ok(()) => inherited(program@, text::texts(args@), self@) == Ok::<(), ErrorView>(()),
                Err(e) => inherited(program@, text::texts(args@), self@) == Err::<(), ErrorView>(e@),
            },
    {
        match self {
            Reply::Exited { success, status, .. } => {
                if *success {
                    Ok(())
                } else {
                    Err(UpdateError::CommandFailed { args, status: status.clone(), stderr: None })
                }
            },
            _ => Err(
                UpdateError::NotExecuted {
                    program: program.to_string(),
                    reason: self.failure_reason(),
                },
            ),
        }
    }
}

} // verus!
