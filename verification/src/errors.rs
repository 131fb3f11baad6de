//! Error taxonomy of the pipeline.

use vstd::prelude::*;

verus! {

/// Everything that can go wrong while resolving, segmenting or transcribing
/// one item.
#[derive(Debug, Clone, PartialEq, Eq)]
pub enum PipelineError {
    /// The asset is unreadable or not a decodable audio stream.
    Probe { message: String },
    /// Extracting a chunk failed; no partial chunk set is handed on.
    Segmentation { message: String },
    /// A transcription call failed; `chunk_index` names the failed chunk
    /// when the asset was transcribed in chunks.
    Backend { chunk_index: Option<usize>, message: String },
    /// The source's metadata or audio could not be obtained.
    Resolution { message: String },
    /// A directory or file write failed.
    Filesystem { message: String },
}

} // verus!
