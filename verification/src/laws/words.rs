//! What the user is told.

use crate::agent::CheckView;
use crate::error;
use crate::error::ErrorView;
use crate::laws;
use crate::report;
use crate::text;
use vstd::prelude::*;
use vstd::utf8;

verus! {

/// A text is shown by its first twelve bytes, or all of it where there are fewer,
/// and can be shown where they hold whole characters.
pub proof fn law_shown_by_twelve_bytes(t: Seq<char>)
    ensures
        ({
            let bytes = utf8::encode_utf8(t);
            let n = if bytes.len() < 12 {
                bytes.len() as int
            } else {
                12
            };
            &&& report::can_shorten(t) == utf8::is_char_boundary(bytes, n)
            &&& report::short_text(t) == utf8::decode_utf8(bytes.take(n))
        }),
        utf8::is_ascii_chars(t) ==> report::can_shorten(t) && report::short_text(t) == t.take(
            if t.len() < 12 {
                t.len() as int
            } else {
                12
            },
        ),
{
    if utf8::is_ascii_chars(t) {
        report::law_short_of_ascii(t);
    }
}

/// The outcome of a `check` is told with the first twelve digits of each commit it
/// names: the booted one alone where it is the newest, and otherwise from the booted
/// one to the candidate.
pub proof fn law_outcomes_are_told(commit: Seq<char>, candidate: Seq<char>)
    requires
        laws::status::is_checksum(commit),
        laws::status::is_checksum(candidate),
    ensures
        report::can_report(CheckView::UpToDate { commit }),
        report::report_text(CheckView::UpToDate { commit }) == "up to date ("@ + commit.take(12)
            + ")"@,
        report::can_report(CheckView::UpdateAvailable { current: commit, candidate }),
        report::report_text(CheckView::UpdateAvailable { current: commit, candidate })
            == "update available: "@ + commit.take(12) + " -> "@ + candidate.take(12),
{
    lemma_checksum_is_ascii(commit);
    lemma_checksum_is_ascii(candidate);
    law_shown_by_twelve_bytes(commit);
    law_shown_by_twelve_bytes(candidate);
}

/// The same of any commits that can be shown, and only of those.
pub proof fn law_told_by_what_is_shown(commit: Seq<char>, candidate: Seq<char>)
    ensures
        report::can_report(CheckView::UpToDate { commit }) == report::can_shorten(commit),
        report::report_text(CheckView::UpToDate { commit }) == "up to date ("@ + report::short_text(
            commit,
        ) + ")"@,
        report::can_report(CheckView::UpdateAvailable { current: commit, candidate }) == (
        report::can_shorten(commit) && report::can_shorten(candidate)),
        report::report_text(CheckView::UpdateAvailable { current: commit, candidate })
            == "update available: "@ + report::short_text(commit) + " -> "@ + report::short_text(
            candidate,
        ),
{
}

proof fn lemma_checksum_is_ascii(t: Seq<char>)
    requires
        laws::status::is_checksum(t),
    ensures
        utf8::is_ascii_chars(t),
{
    assert forall|i: int| 0 <= i < t.len() implies (#[trigger] t[i] as u32) < 128 by {
        assert(text::is_hex(t[i]));
    }
}

/// A failed command is named with its arguments, a space between each two, and its
/// status; what it complained about follows on a line of its own.
pub proof fn law_failed_commands_are_told(
    args: Seq<Seq<char>>,
    status: Seq<char>,
    complaint: Seq<char>,
)
    ensures
        error::message_text(ErrorView::CommandFailed { args, status, stderr: None }) == "ostree "@
            + text::joined(args, " "@) + " failed ("@ + status + ")"@,
        error::message_text(ErrorView::CommandFailed { args, status, stderr: Some(complaint) })
            == error::message_text(ErrorView::CommandFailed { args, status, stderr: None }) + ":\n"@
            + complaint,
        error::cause_text(ErrorView::CommandFailed { args, status, stderr: None }) is None,
        error::cause_text(
            ErrorView::CommandFailed { args, status, stderr: Some(complaint) },
        ) is None,
{
}

/// A program that could not be run is named, and the reason is given apart.
pub proof fn law_unstarted_programs_are_told(program: Seq<char>, reason: Seq<char>)
    ensures
        error::message_text(ErrorView::NotExecuted { program, reason }) == "failed to execute "@
            + program,
        error::cause_text(ErrorView::NotExecuted { program, reason }) == Some(reason),
        error::message_text(ErrorView::RebootNotInvoked { reason })
            == "failed to invoke `systemctl reboot`"@,
        error::cause_text(ErrorView::RebootNotInvoked { reason }) == Some(reason),
{
}

/// A refusal names the remote or the refspec that it refuses.
pub proof fn law_refusals_are_told(name: Seq<char>)
    ensures
        error::message_text(ErrorView::UnverifiedRemote { remote: name }) == "remote '"@ + name
            + "' is not configured to verify signatures (sign-verify); refusing to pull/deploy unverified content (SPEC-007). Re-run with --insecure to override (not recommended)."@,
        error::cause_text(ErrorView::UnverifiedRemote { remote: name }) is None,
        error::message_text(ErrorView::MalformedRefspec { refspec: name }) == "malformed refspec '"@
            + name + "', expected '<remote>:<ref>'"@,
        error::cause_text(ErrorView::MalformedRefspec { refspec: name }) is None,
{
}

/// The other errors say what is missing or what failed.
pub proof fn law_other_errors_are_told(status: Seq<char>)
    ensures
        error::message_text(ErrorView::UnknownRefspec)
            == "could not determine the tracked refspec; pass --branch"@,
        error::message_text(ErrorView::UnknownBootedCommit)
            == "could not determine the booted commit"@,
        error::message_text(ErrorView::NoPreviousDeployment)
            == "no previous deployment to roll back to"@,
        error::message_text(ErrorView::RebootFailed { status }) == "`systemctl reboot` failed ("@
            + status + ")"@,
        error::cause_text(ErrorView::UnknownRefspec) is None,
        error::cause_text(ErrorView::UnknownBootedCommit) is None,
        error::cause_text(ErrorView::NoPreviousDeployment) is None,
        error::cause_text(ErrorView::RebootFailed { status }) is None,
{
}

} // verus!
