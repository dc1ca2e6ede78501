//! Decisions of the transfer layer: resuming a partial download, reading a
//! reported size, and retrying a clone over a stale checkout.
use vstd::prelude::*;
use crate::text::{decimal, decimal_string, parse_decimal, parse_u64};

verus! {

/// The bytes a ranged request from `offset` returns of `remote`.
pub open spec fn range_response(remote: Seq<u8>, offset: nat) -> Seq<u8> {
    if offset <= remote.len() { remote.subrange(offset as int, remote.len() as int) } else { Seq::empty() }
}

/// The header of a request resumed at `offset`: `bytes=<offset>-`.
pub open spec fn range_header_of(offset: nat) -> Seq<char> {
    "bytes="@ + decimal(offset) + "-"@
}

/// The `Range` header that resumes a partial file of `len` bytes: the
/// request starts at the partial file's current length.
pub fn range_header(len: u64) -> (r: String)
    ensures
        r@ == range_header_of(len as nat),
{
    let mut h = String::from_str("bytes=");
    let d = decimal_string(len);
    h.append(d.as_str());
    h.append("-");
    h
}

/// Appending what a ranged request from the partial file's length returns
/// to that partial file gives the whole resource, byte for byte, when the
/// partial file is a prefix of the unchanged resource.
pub proof fn lemma_resume_complete(remote: Seq<u8>, partial: Seq<u8>)
    requires
        partial.len() <= remote.len(),
        partial == remote.subrange(0, partial.len() as int),
    ensures
        partial + range_response(remote, partial.len()) == remote,
{
    assert(partial + range_response(remote, partial.len()) =~= remote);
}

/// What to do with the body of a download response.
#[derive(Clone, Copy, Debug, PartialEq, Eq, Structural)]
pub enum ResponseUse {
    /// Append it to the partial file: the server sent the missing range.
    Append,
    /// Write it in place of any partial file: the server sent everything.
    Replace,
    /// Keep the file: it already holds the whole resource.
    AlreadyComplete,
    /// The transfer failed.
    Fail,
}

/// How a response with HTTP status `status` is used, where `resumed` says
/// whether the request asked for a range. Only a partial-content answer to
/// a ranged request is appended; a range past the end means the file is
/// complete; any other success is the whole resource.
pub fn response_use(resumed: bool, status: u16) -> (r: ResponseUse)
    ensures
        r == if resumed && status == 206 {
            ResponseUse::Append
        } else if resumed && status == 416 {
            ResponseUse::AlreadyComplete
        } else if 200 <= status < 300 {
            ResponseUse::Replace
        } else {
            ResponseUse::Fail
        },
{
    if resumed && status == 206 {
        ResponseUse::Append
    } else if resumed && status == 416 {
        ResponseUse::AlreadyComplete
    } else if 200 <= status && status < 300 {
        ResponseUse::Replace
    } else {
        ResponseUse::Fail
    }
}

/// The size a server reported: its `Content-Length`, or 0 where it sent
/// none or one that is not a number.
pub fn reported_size(content_length: Option<&str>) -> (r: u64)
    ensures
        r == match content_length {
            Some(h) => match parse_u64(h@) {
                Some(n) => n,
                None => 0,
            },
            None => 0,
        },
{
    match content_length {
        Some(h) => match parse_decimal(h) {
            Some(n) => n,
            None => 0,
        },
        None => 0,
    }
}

/// How a clone attempt ended.
#[derive(Clone, Copy, Debug, PartialEq, Eq, Structural)]
pub enum CloneOutcome {
    Cloned,
    /// The destination already exists: a stale checkout.
    Exists,
    Failed,
}

/// What to do after a clone attempt.
#[derive(Clone, Copy, Debug, PartialEq, Eq, Structural)]
pub enum CloneAction {
    Done,
    /// Remove the stale checkout and clone once more.
    RemoveAndRetry,
    Fail,
}

/// After attempt `attempt` (0 for the first): a stale checkout is removed
/// and the clone retried once; any other failure is fatal.
pub fn clone_action(attempt: u32, outcome: CloneOutcome) -> (r: CloneAction)
    ensures
        outcome == CloneOutcome::Cloned ==> r == CloneAction::Done,
        outcome == CloneOutcome::Exists ==> r == if attempt == 0 { CloneAction::RemoveAndRetry } else { CloneAction::Fail },
        outcome == CloneOutcome::Failed ==> r == CloneAction::Fail,
{
    match outcome {
        CloneOutcome::Cloned => CloneAction::Done,
        CloneOutcome::Exists => if attempt == 0 { CloneAction::RemoveAndRetry } else { CloneAction::Fail },
        CloneOutcome::Failed => CloneAction::Fail,
    }
}

} // verus!
