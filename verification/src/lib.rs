//! A chunked transcription pipeline for podcasts, videos and local audio
//! files.
//!
//! The library holds the pipeline's logic: sanitizing titles into
//! filesystem-safe names, deciding between single-shot and chunked
//! transcription by file size, planning time-contiguous chunks,
//! reassembling chunk texts deterministically by position, ordering and
//! limiting batches, and containing failures at the smallest unit - a
//! chunk, an episode, a video - without aborting the run. Fetching,
//! probing, segmenting and the speech-to-text calls themselves are
//! outside work: the caller performs them and feeds every outcome back
//! through the orchestrator's and the batch's step functions.

pub mod backend;
pub mod batch;
pub mod config;
pub mod envfile;
pub mod errors;
pub mod feed;
pub mod ident;
pub mod local;
pub mod orchestrator;
pub mod segmenter;
pub mod text;
pub mod urls;
pub mod video;
