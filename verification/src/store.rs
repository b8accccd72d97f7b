//! The client side of the baseline store: where a baseline lives, and what
//! the store's answers mean.

use vstd::prelude::*;
use vstd::string::*;
use crate::model::{Baseline, ErrorView, IntegrityError};

verus! {

/// The answer of the store to a request, as far as the client reads it.
#[derive(Debug, PartialEq, Eq)]
pub enum StoreReply<T> {
    /// The request did not get through; the cause is kept.
    Unreachable(String),
    /// The store reported success. The body was read, or it was malformed and
    /// the cause is kept.
    Success(Result<T, String>),
    /// The store reported a failure: its status, and its text if that could
    /// be read.
    Failure { status: u16, text: Option<String> },
}

/// The status by which the store says that it holds no such baseline.
pub const NOT_FOUND: u16 = 404;

/// The text of a failure reply, or a stand-in where it could not be read.
pub open spec fn failure_text(text: Option<String>) -> Seq<char> {
    match text {
        Some(t) => t@,
        None => "Unknown error"@,
    }
}

/// Where the baselines of a store live.
pub fn baselines_url(metadata_url: &str) -> (r: String)
    ensures
        r@ == metadata_url@ + "/baselines"@,
{
    String::from_str(metadata_url).concat("/baselines")
}

/// Where the baseline of one image lives.
pub fn baseline_url(metadata_url: &str, image_id: &str) -> (r: String)
    ensures
        r@ == metadata_url@ + "/baselines/"@ + image_id@,
{
    String::from_str(metadata_url).concat("/baselines/").concat(image_id)
}

/// What a failure reply says, behind a prefix that names the request.
fn failure_message(prefix: &str, text: Option<String>) -> (r: String)
    ensures
        r@ == prefix@ + failure_text(text),
{
    match text {
        Some(t) => String::from_str(prefix).concat(t.as_str()),
        None => String::from_str(prefix).concat("Unknown error"),
    }
}

/// Reads the store's answer to a request for a baseline.
///
/// A success with a readable body gives the baseline; a malformed body is a
/// serialization error. The status `NOT_FOUND` means that the store holds no
/// such baseline. Every other failure, and a request that did not get
/// through, is a storage error that keeps the cause.
pub fn fetch_baseline(reply: StoreReply<Baseline>) -> (r: Result<Baseline, IntegrityError>)
    ensures
        match reply {
            StoreReply::Success(Ok(b)) => r == Ok::<Baseline, IntegrityError>(b),
            StoreReply::Success(Err(cause)) => r is Err && r->Err_0@ == ErrorView::Serde(cause@),
            StoreReply::Unreachable(cause) => r is Err && r->Err_0@ == ErrorView::Storage(cause@),
            StoreReply::Failure { status, text } => r is Err && r->Err_0@ == (if status
                == NOT_FOUND {
                ErrorView::BaselineNotFound("Fetch failed: "@ + failure_text(text))
            } else {
                ErrorView::Storage("Fetch failed: "@ + failure_text(text))
            }),
        },
{
    match reply {
        StoreReply::Success(Ok(b)) => Ok(b),
        StoreReply::Success(Err(cause)) => Err(IntegrityError::Serde(cause)),
        StoreReply::Unreachable(cause) => Err(IntegrityError::Storage(cause)),
        StoreReply::Failure { status, text } => {
            let message = failure_message("Fetch failed: ", text);
            if status == NOT_FOUND {
                Err(IntegrityError::BaselineNotFound(message))
            } else {
                Err(IntegrityError::Storage(message))
            }
        },
    }
}

/// Reads the store's answer to the upload of a baseline: anything but a
/// success is a storage error.
pub fn upload_baseline(reply: StoreReply<()>) -> (r: Result<(), IntegrityError>)
    ensures
        match reply {
            StoreReply::Success(_) => r is Ok,
            StoreReply::Unreachable(cause) => r is Err && r->Err_0@ == ErrorView::Storage(cause@),
            StoreReply::Failure { text, .. } => r is Err && r->Err_0@ == ErrorView::Storage(
                "Upload failed: "@ + failure_text(text),
            ),
        },
{
    match reply {
        StoreReply::Success(_) => Ok(()),
        StoreReply::Unreachable(cause) => Err(IntegrityError::Storage(cause)),
        StoreReply::Failure { text, .. } => Err(
            IntegrityError::Storage(failure_message("Upload failed: ", text)),
        ),
    }
}

} // verus!
