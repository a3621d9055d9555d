//! What can go wrong in an operation, and the words for it.

use crate::text;
use crate::text::{cat, cat3, join};
use vstd::prelude::*;

verus! {

/// Why an operation ended without a result.
#[derive(Debug, PartialEq, Eq)]
pub enum UpdateError {
    /// A program could not be started; `reason` is the system's explanation.
    NotExecuted { program: String, reason: String },
    /// `ostree` ran and reported failure. `stderr` is what it wrote, if that was
    /// collected.
    CommandFailed { args: Vec<String>, status: String, stderr: Option<String> },
    /// There is no branch in the configuration and none in the booted deployment.
    UnknownRefspec,
    /// The status output shows no booted deployment.
    UnknownBootedCommit,
    /// The remote is not configured to verify signatures.
    UnverifiedRemote { remote: String },
    /// A refspec is not of the form `<remote>:<ref>`.
    MalformedRefspec { refspec: String },
    /// No deployment is listed after the booted one.
    NoPreviousDeployment,
    /// The reboot command could not be started.
    RebootNotInvoked { reason: String },
    /// The reboot command reported failure.
    RebootFailed { status: String },
}

/// An [`UpdateError`] over texts.
pub enum ErrorView {
    NotExecuted { program: Seq<char>, reason: Seq<char> },
    CommandFailed { args: Seq<Seq<char>>, status: Seq<char>, stderr: Option<Seq<char>> },
    UnknownRefspec,
    UnknownBootedCommit,
    UnverifiedRemote { remote: Seq<char> },
    MalformedRefspec { refspec: Seq<char> },
    NoPreviousDeployment,
    RebootNotInvoked { reason: Seq<char> },
    RebootFailed { status: Seq<char> },
}

impl View for UpdateError {
    type V = ErrorView;

    open spec fn view(&self) -> ErrorView {
        match *self {
            UpdateError::NotExecuted { program, reason } => ErrorView::NotExecuted {
                program: program@,
                reason: reason@,
            },
            UpdateError::CommandFailed { args, status, stderr } => ErrorView::CommandFailed {
                args: text::texts(args@),
                status: status@,
                stderr: match stderr {
                    Some(s) => Some(s@),
                    None => None,
                },
            },
            UpdateError::UnknownRefspec => ErrorView::UnknownRefspec,
            UpdateError::UnknownBootedCommit => ErrorView::UnknownBootedCommit,
            UpdateError::UnverifiedRemote { remote } => ErrorView::UnverifiedRemote {
                remote: remote@,
            },
            UpdateError::MalformedRefspec { refspec } => ErrorView::MalformedRefspec {
                refspec: refspec@,
            },
            UpdateError::NoPreviousDeployment => ErrorView::NoPreviousDeployment,
            UpdateError::RebootNotInvoked { reason } => ErrorView::RebootNotInvoked {
                reason: reason@,
            },
            UpdateError::RebootFailed { status } => ErrorView::RebootFailed { status: status@ },
        }
    }
}

/// `ostree <args> failed (<status>)`.
pub open spec fn failed_text(args: Seq<Seq<char>>, status: Seq<char>) -> Seq<char> {
    "ostree "@ + text::joined(args, " "@) + " failed ("@ + status + ")"@
}

/// The words for an error.
pub open spec fn message_text(e: ErrorView) -> Seq<char> {
    match e {
        ErrorView::NotExecuted { program, .. } => "failed to execute "@ + program,
        ErrorView::CommandFailed { args, status, stderr } => match stderr {
            Some(s) => failed_text(args, status) + ":\n"@ + s,
            None => failed_text(args, status),
        },
        ErrorView::UnknownRefspec => "could not determine the tracked refspec; pass --branch"@,
        ErrorView::UnknownBootedCommit => "could not determine the booted commit"@,
        ErrorView::UnverifiedRemote { remote } => "remote '"@ + remote
            + "' is not configured to verify signatures (sign-verify); refusing to pull/deploy unverified content (SPEC-007). Re-run with --insecure to override (not recommended)."@,
        ErrorView::MalformedRefspec { refspec } => "malformed refspec '"@ + refspec
            + "', expected '<remote>:<ref>'"@,
        ErrorView::NoPreviousDeployment => "no previous deployment to roll back to"@,
        ErrorView::RebootNotInvoked { .. } => "failed to invoke `systemctl reboot`"@,
        ErrorView::RebootFailed { status } => "`systemctl reboot` failed ("@ + status + ")"@,
    }
}

/// The underlying reason of an error, where the message does not hold it.
pub open spec fn cause_text(e: ErrorView) -> Option<Seq<char>> {
    match e {
        ErrorView::NotExecuted { reason, .. } => Some(reason),
        ErrorView::RebootNotInvoked { reason } => Some(reason),
        _ => None,
    }
}

impl UpdateError {
    /// The words for this error.
    pub fn message(&self) -> (m: String)
        ensures
            m@ == message_text(self@),
    {
        match self {
            UpdateError::NotExecuted { program, .. } => cat("failed to execute ", program),
            UpdateError::CommandFailed { args, status, stderr } => {
                let mut m = cat3("ostree ", &join(args.as_slice(), " "), " failed (");
                m.append(status);
                m.append(")");
                match stderr {
                    Some(s) => {
                        m.append(":\n");
                        m.append(s);
                    },
                    None => {},
                }
                m
            },
            UpdateError::UnknownRefspec =>
                "could not determine the tracked refspec; pass --branch".to_string(),
            UpdateError::UnknownBootedCommit => "could not determine the booted commit".to_string(),
            UpdateError::UnverifiedRemote { remote } => cat3(
                "remote '",
                remote,
                "' is not configured to verify signatures (sign-verify); refusing to pull/deploy unverified content (SPEC-007). Re-run with --insecure to override (not recommended).",
            ),
            UpdateError::MalformedRefspec { refspec } => cat3(
                "malformed refspec '",
                refspec,
                "', expected '<remote>:<ref>'",
            ),
            UpdateError::NoPreviousDeployment => "no previous deployment to roll back to".to_string(),
            UpdateError::RebootNotInvoked { .. } => "failed to invoke `systemctl reboot`".to_string(),
            UpdateError::RebootFailed { status } => cat3("`systemctl reboot` failed (", status, ")"),
        }
    }

    /// The underlying reason, where the message does not hold it.
    pub fn cause(&self) -> (c: Option<String>)
        ensures
            match c {
                Some(s) => cause_text(self@) == Some(s@),
                None => cause_text(self@) is None,
            },
    {
        match self {
            UpdateError::NotExecuted { reason, .. } => Some(reason.clone()),
            UpdateError::RebootNotInvoked { reason } => Some(reason.clone()),
            _ => None,
        }
    }
}

} // verus!
