//! How one image is loaded: its size is asked for first, and it is taken
//! only where it is not too large.

use vstd::prelude::*;
use crate::cache::bytes_of;

verus! {

/// The largest image that is taken, in bytes: two mebibytes.
pub const MAX_IMAGE_SIZE: u64 = 2 * 1024 * 1024;

/// After how many seconds a request for an image is given up.
pub const IMAGE_TIMEOUT_SECS: u64 = 5;

/// How asking for an image's size has ended.
#[derive(Clone, Copy, Debug, PartialEq, Eq, Structural)]
pub enum Probe {
    /// The request has failed.
    Failed,
    /// The request has been answered, with the size that the answer declares
    /// or with none.
    Answered(Option<u64>),
}

/// What to do once an image's size has been asked for.
#[derive(Clone, Copy, Debug, PartialEq, Eq, Structural)]
pub enum Step {
    /// Download the image.
    Download,
    /// Do not download the image: it is not to be had.
    GiveUp,
}

/// Whether the image is downloaded after `probe`: the request for its size
/// has been answered, and with no size above the largest.
pub open spec fn allows_download(probe: Probe) -> bool {
    match probe {
        Probe::Failed => false,
        Probe::Answered(Some(size)) => size <= MAX_IMAGE_SIZE,
        Probe::Answered(None) => true,
    }
}

/// Decides whether the image is downloaded.
pub fn after_probe(probe: Probe) -> (step: Step)
    ensures
        step == if allows_download(probe) {
            Step::Download
        } else {
            Step::GiveUp
        },
{
    match probe {
        Probe::Failed => Step::GiveUp,
        Probe::Answered(Some(size)) => {
            if size > MAX_IMAGE_SIZE {
                Step::GiveUp
            } else {
                Step::Download
            }
        },
        Probe::Answered(None) => Step::Download,
    }
}

/// What counts as the body of an answer to the request for an image: what
/// the answer brought, where its status reports success, and nothing
/// otherwise.
pub fn body_of_answer(success: bool, body: Option<Vec<u8>>) -> (kept: Option<Vec<u8>>)
    ensures
        bytes_of(kept) == if success {
            bytes_of(body)
        } else {
            None
        },
{
    if success {
        body
    } else {
        None
    }
}

/// The image that a download yields: the bytes of `body`, where the download
/// has brought any and they are not more than the largest image.
pub open spec fn accepted(body: Option<Seq<u8>>) -> Option<Seq<u8>> {
    match body {
        Some(bytes) => if bytes.len() <= MAX_IMAGE_SIZE {
            Some(bytes)
        } else {
            None
        },
        None => None,
    }
}

/// Decides whether what a download has brought is taken as the image. `body`
/// is nothing where the download has failed.
pub fn after_download(body: Option<Vec<u8>>) -> (image: Option<Vec<u8>>)
    ensures
        bytes_of(image) == accepted(bytes_of(body)),
{
    match body {
        Some(bytes) => {
            if bytes.len() as u64 > MAX_IMAGE_SIZE {
                None
            } else {
                Some(bytes)
            }
        },
        None => None,
    }
}

} // verus!
