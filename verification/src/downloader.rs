//! From the response to a download request to the bytes that may be kept.

pub mod checksum;

pub use self::checksum::verify_checksum;

use self::checksum::checksum_verifies;
use crate::http::{is_success, outcome_view, HttpResponse, HttpResponseView};
use vstd::prelude::*;

verus! {

/// Why a download gave no archive.
#[derive(Debug, Clone, Copy, PartialEq, Eq, Structural)]
pub enum DownloadError {
    /// The request failed in transport.
    Transport,
    /// The response's status is no success.
    Status,
    /// The body's checksum is not the one that was expected.
    ChecksumMismatch,
    /// The verified bytes could not be written.
    Io,
}

/// What to do once a download request has ended.
#[derive(Debug, Clone, PartialEq, Eq)]
pub enum DownloadStep {
    /// Write exactly these bytes to exactly this path.
    Persist { path: String, bytes: Vec<u8> },
    /// Write nothing.
    Failed(DownloadError),
}

/// A download step, as plain values.
pub enum DownloadStepView {
    Persist { path: Seq<char>, bytes: Seq<u8> },
    Failed(DownloadError),
}

impl View for DownloadStep {
    type V = DownloadStepView;

    open spec fn view(&self) -> DownloadStepView {
        match self {
            DownloadStep::Persist { path, bytes } => DownloadStepView::Persist {
                path: path@,
                bytes: bytes@,
            },
            DownloadStep::Failed(error) => DownloadStepView::Failed(*error),
        }
    }
}

/// The step that a download's outcome calls for: the body is kept, at the
/// target path, where the request succeeded and the body has the expected
/// checksum, and nothing is kept otherwise.
pub open spec fn download_step(
    outcome: Option<HttpResponseView>,
    target_path: Seq<char>,
    checksum: Seq<char>,
) -> DownloadStepView {
    match outcome {
        None => DownloadStepView::Failed(DownloadError::Transport),
        Some(response) => if !is_success(response.status) {
            DownloadStepView::Failed(DownloadError::Status)
        } else if !checksum_verifies(response.body, checksum) {
            DownloadStepView::Failed(DownloadError::ChecksumMismatch)
        } else {
            DownloadStepView::Persist { path: target_path, bytes: response.body }
        },
    }
}

/// Decides what becomes of a download, given how the request for it ended.
pub fn checked_download(
    outcome: Option<HttpResponse>,
    target_path: &str,
    checksum: &str,
) -> (step: DownloadStep)
    ensures
        step@ == download_step(outcome_view(outcome), target_path@, checksum@),
{
    match outcome {
        None => DownloadStep::Failed(DownloadError::Transport),
        Some(response) => {
            if response.status < 200 || response.status >= 300 {
                DownloadStep::Failed(DownloadError::Status)
            } else if !verify_checksum(response.body.as_slice(), checksum) {
                DownloadStep::Failed(DownloadError::ChecksumMismatch)
            } else {
                DownloadStep::Persist { path: target_path.to_owned(), bytes: response.body }
            }
        },
    }
}

/// How a download ends once its bytes were handed over for writing.
pub fn persisted(written: bool) -> (end: Result<(), DownloadError>)
    ensures
        end == if written {
            Ok::<(), DownloadError>(())
        } else {
            Err::<(), DownloadError>(DownloadError::Io)
        },
{
    if written {
        Ok(())
    } else {
        Err(DownloadError::Io)
    }
}

/// Bytes are kept only where they have the expected checksum, and then they
/// are the response's body, whole and unchanged, kept at the target path.
/// A mismatch keeps nothing.
pub proof fn lemma_only_verified_bytes_are_kept(
    outcome: Option<HttpResponseView>,
    target_path: Seq<char>,
    checksum: Seq<char>,
)
    ensures
        match download_step(outcome, target_path, checksum) {
            DownloadStepView::Persist { path, bytes } => {
                &&& outcome is Some
                &&& bytes == outcome->0.body
                &&& path == target_path
                &&& checksum_verifies(bytes, checksum)
            },
            DownloadStepView::Failed(_) => true,
        },
        outcome is Some && is_success(outcome->0.status) && !checksum_verifies(
            outcome->0.body,
            checksum,
        ) ==> download_step(outcome, target_path, checksum) == DownloadStepView::Failed(
            DownloadError::ChecksumMismatch,
        ),
        outcome is Some && is_success(outcome->0.status) && checksum_verifies(
            outcome->0.body,
            checksum,
        ) ==> download_step(outcome, target_path, checksum) == (DownloadStepView::Persist {
            path: target_path,
            bytes: outcome->0.body,
        }),
{
}

} // verus!
