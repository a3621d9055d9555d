//! What the agent tells the user.

use crate::agent::{CheckResult, CheckView};
use crate::text::cat3;
use vstd::prelude::*;
use vstd::utf8;

verus! {

/// How many bytes of a checksum are shown.
pub const SHORT_LEN: usize = 12;

/// How many bytes of a text are shown: twelve, or all if there are fewer.
pub open spec fn short_bytes(t: Seq<char>) -> int {
    let n = utf8::encode_utf8(t).len() as int;
    if n < SHORT_LEN {
        n
    } else {
        SHORT_LEN as int
    }
}

/// Whether a text can be cut there: not in the middle of a character.
pub open spec fn can_shorten(t: Seq<char>) -> bool {
    utf8::is_char_boundary(utf8::encode_utf8(t), short_bytes(t))
}

/// The text that is shown for a checksum.
pub open spec fn short_text(t: Seq<char>) -> Seq<char> {
    utf8::decode_utf8(utf8::encode_utf8(t).take(short_bytes(t)))
}

/// Whether the checksums of an outcome can be shown.
pub open spec fn can_report(r: CheckView) -> bool {
    match r {
        CheckView::UpToDate { commit } => can_shorten(commit),
        CheckView::UpdateAvailable { current, candidate } => can_shorten(current) && can_shorten(
            candidate,
        ),
    }
}

/// The line that tells the outcome of a `check`.
pub open spec fn report_text(r: CheckView) -> Seq<char> {
    match r {
        CheckView::UpToDate { commit } => "up to date ("@ + short_text(commit) + ")"@,
        CheckView::UpdateAvailable { current, candidate } => "update available: "@ + short_text(
            current,
        ) + " -> "@ + short_text(candidate),
    }
}

/// The first twelve bytes of a checksum.
pub fn short(csum: &str) -> (r: &str)
    requires
        can_shorten(csum@),
    ensures
        r@ == short_text(csum@),
{
    let n = csum.as_bytes().len();
    let k = if n < SHORT_LEN {
        n
    } else {
        SHORT_LEN
    };
    let (head, _) = csum.split_at(k);
    proof {
        utf8::encode_utf8_decode_utf8(head@);
        assert(utf8::encode_utf8(head@) =~= utf8::encode_utf8(csum@).take(k as int));
    }
    head
}

/// Whether a checksum can be cut to its first twelve bytes.
pub fn shortens(csum: &str) -> (b: bool)
    ensures
        b == can_shorten(csum@),
{
    let n = csum.as_bytes().len();
    let k = if n < SHORT_LEN {
        n
    } else {
        SHORT_LEN
    };
    csum.is_char_boundary(k)
}

impl CheckResult {
    /// Whether the checksums of this outcome can be shown.
    pub fn reportable(&self) -> (r: bool)
        ensures
            r == can_report(self@),
    {
        match self {
            CheckResult::UpToDate { commit } => shortens(commit),
            CheckResult::UpdateAvailable { current, candidate } => shortens(current) && shortens(
                candidate,
            ),
        }
    }

    /// The line that tells this outcome.
    pub fn report(&self) -> (line: String)
        requires
            can_report(self@),
        ensures
            line@ == report_text(self@),
    {
        match self {
            CheckResult::UpToDate { commit } => cat3("up to date (", short(commit), ")"),
            CheckResult::UpdateAvailable { current, candidate } => cat3(
                "update available: ",
                short(current),
                " -> ",
            ).concat(short(candidate)),
        }
    }
}

/// Of an ASCII text, such as a checksum, the first twelve characters are shown.
pub proof fn law_short_of_ascii(t: Seq<char>)
    requires
        utf8::is_ascii_chars(t),
    ensures
        can_shorten(t),
        short_text(t) == t.take(
            if t.len() < SHORT_LEN {
                t.len() as int
            } else {
                SHORT_LEN as int
            },
        ),
{
    utf8::is_ascii_chars_encode_utf8(t);
    let k = short_bytes(t);
    let bytes = utf8::encode_utf8(t);
    utf8::encode_utf8_valid_utf8(t);
    utf8::is_char_boundary_start_end_of_seq(bytes);
    if k < bytes.len() {
        assert(t[k] as u8 == bytes[k]);
        utf8::is_char_boundary_iff_not_is_continuation_byte(bytes, k);
    }
    let head = t.take(k);
    assert(utf8::is_ascii_chars(head));
    utf8::is_ascii_chars_encode_utf8(head);
    assert(utf8::encode_utf8(head) =~= bytes.take(k)) by {
        assert forall|i: int| 0 <= i < k implies utf8::encode_utf8(head)[i] == bytes[i] by {
            assert(head[i] as u8 == utf8::encode_utf8(head)[i]);
            assert(t[i] as u8 == bytes[i]);
        }
    }
    utf8::encode_utf8_decode_utf8(head);
}

} // verus!
