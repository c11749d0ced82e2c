//! Errors the patch synthesizer reports when a hunk or line selection cannot be expressed as a
//! hunk patch.
use vstd::prelude::*;

use crate::model::FileStatus;

verus! {

/// Why a hunk patch could not be synthesized for a file.
#[derive(Debug, Clone, PartialEq, Eq)]
pub enum SynthesisError {
    /// The file is binary: it has no hunks to synthesize from.
    BinaryFile { path: String },
    /// The file's status cannot be expressed by a hunk patch; the whole-file operation applies.
    LineSelectionUnsupported { path: String, status: FileStatus },
    /// The requested hunk index is past the file's last hunk.
    HunkOutOfRange { path: String, index: usize },
    /// The selection names no addition and no deletion of the hunk.
    EmptySelection { path: String, hunk: usize },
}

} // verus!
