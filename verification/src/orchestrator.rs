//! The chunked transcription orchestrator: decides single-shot vs. chunked
//! strategy by file size, drives the segmenter and the backend adapter
//! through an explicit state machine, reassembles ordered text, and contains
//! a chunk failure without emitting a partial transcript.
//!
//! The outside work (segmenting, backend calls, the final file write) is
//! performed by the caller, which feeds each outcome back into
//! [`orchestrator_step`] as an event and performs the action the step
//! returns.

use vstd::prelude::*;

use crate::errors::PipelineError;
use crate::text::{chars_of_str, push_all, string_of_chars, trim_chars, trim_spec};

verus! {

/// Largest audio file, in bytes, that the transcription backend accepts in
/// one upload; larger assets are split into chunks first.
pub const MAX_SINGLE_SHOT_BYTES: u64 = 25 * 1024 * 1024;

/// Strategy for transcribing one audio asset, selected by file size.
#[derive(Clone, Copy, PartialEq, Eq, Structural, Debug)]
pub enum Mode {
    /// The whole asset is sent to the backend in one call.
    Direct,
    /// The asset is segmented and each chunk is transcribed separately.
    Chunked,
}

/// Picks the transcription strategy for an asset of the given size.
pub fn select_mode(size_bytes: u64) -> (m: Mode)
    ensures
        m == Mode::Direct <==> size_bytes <= MAX_SINGLE_SHOT_BYTES,
{
    if size_bytes <= MAX_SINGLE_SHOT_BYTES {
        Mode::Direct
    } else {
        Mode::Chunked
    }
}

/// The transcription of one chunk, tagged with the chunk's position.
#[derive(Debug, Clone)]
pub struct ChunkTranscript {
    /// 0-based, contiguous position of the chunk within its asset.
    pub sequence_index: usize,
    /// The text the backend returned for this chunk.
    pub text: String,
}

/// The blank-line separator placed between chunk texts.
pub open spec fn blank_line() -> Seq<char> {
    seq!['\n', '\n']
}

/// The texts joined in order, each separated from the next by a blank line.
pub open spec fn sep_join(ts: Seq<Seq<char>>) -> Seq<char>
    decreases ts.len(),
{
    if ts.len() == 0 {
        Seq::empty()
    } else if ts.len() == 1 {
        ts[0]
    } else {
        sep_join(ts.drop_last()) + blank_line() + ts.last()
    }
}

/// The final transcript text for the given chunk texts: joined in order with
/// blank-line separators, then trimmed of leading and trailing whitespace.
pub open spec fn assembled(ts: Seq<Seq<char>>) -> Seq<char> {
    trim_spec(sep_join(ts))
}

/// The views of a sequence of owned strings.
pub open spec fn texts_of(ss: Seq<String>) -> Seq<Seq<char>> {
    ss.map_values(|p: String| p@)
}

/// Joins chunk texts in the order given, separated by blank lines, and trims
/// the result.
pub fn assemble_transcript(parts: &Vec<String>) -> (r: String)
    ensures
        r@ == assembled(texts_of(parts@)),
{
    let ghost texts = texts_of(parts@);
    let mut buf: Vec<char> = Vec::new();
    let mut i: usize = 0;
    proof {
        assert(texts.take(0) =~= Seq::<Seq<char>>::empty());
    }
    while i < parts.len()
        invariant
            i <= parts@.len(),
            texts == texts_of(parts@),
            texts.len() == parts@.len(),
            buf@ == sep_join(texts.take(i as int)),
        decreases parts@.len() - i,
    {
        if i > 0 {
            buf.push('\n');
            buf.push('\n');
        }
        let cs = chars_of_str(parts[i].as_str());
        push_all(&mut buf, &cs);
        i = i + 1;
        proof {
            assert(texts.take(i as int).drop_last() =~= texts.take(i - 1));
            assert(texts.take(i as int).last() == parts@[i - 1]@);
            if i == 1 {
                assert(buf@ =~= sep_join(texts.take(1)));
            } else {
                assert(buf@ =~= sep_join(texts.take(i - 1)) + blank_line() + parts@[i - 1]@);
            }
        }
    }
    proof {
        assert(texts.take(i as int) =~= texts);
    }
    let trimmed = trim_chars(&buf);
    string_of_chars(&trimmed)
}

/// Some transcript among `ps` claims position `i`.
pub open spec fn covers_index(ps: Seq<ChunkTranscript>, i: int) -> bool {
    exists|k: int| 0 <= k < ps.len() && (#[trigger] ps[k].sequence_index) == i
}

/// A set of chunk transcripts is complete and unambiguous: every position
/// lies in `0 .. n`, every position in `0 .. n` is claimed, and no two
/// transcripts claim the same position.
pub open spec fn chunk_set_valid(ps: Seq<ChunkTranscript>) -> bool {
    &&& forall|k: int| 0 <= k < ps.len() ==> (#[trigger] ps[k].sequence_index) < ps.len()
    &&& forall|i: int| 0 <= i < ps.len() ==> #[trigger] covers_index(ps, i)
    &&& forall|k1: int, k2: int|
        0 <= k1 < k2 < ps.len() ==> (#[trigger] ps[k1].sequence_index) != (
        #[trigger] ps[k2].sequence_index)
}

/// The text recorded for position `i` among the chunk transcripts.
pub open spec fn text_at(ps: Seq<ChunkTranscript>, i: int) -> Seq<char> {
    if covers_index(ps, i) {
        let k = choose|k: int| 0 <= k < ps.len() && (#[trigger] ps[k].sequence_index) == i;
        ps[k].text@
    } else {
        Seq::empty()
    }
}

/// The chunk texts arranged by ascending position.
pub open spec fn ordered_texts(ps: Seq<ChunkTranscript>) -> Seq<Seq<char>> {
    Seq::new(ps.len(), |i: int| text_at(ps, i))
}

/// Reassembles chunk transcriptions delivered in any completion order.
/// Returns the transcript assembled strictly by ascending `sequence_index`,
/// or `None` when the set has a gap, a duplicate position, or a position
/// outside `0 .. n`.
pub fn reassemble(parts: &Vec<ChunkTranscript>) -> (r: Option<String>)
    ensures
        match r {
            Some(t) => chunk_set_valid(parts@) && t@ == assembled(ordered_texts(parts@)),
            None => !chunk_set_valid(parts@),
        },
{
    let n = parts.len();
    let mut pre: usize = 0;
    while pre < n
        invariant
            n == parts@.len(),
            pre <= n,
            forall|k: int| 0 <= k < pre ==> (#[trigger] parts@[k].sequence_index) < n,
        decreases n - pre,
    {
        if parts[pre].sequence_index >= n {
            // A position outside `0 .. n` cannot belong to a complete set.
            proof {
                assert(!chunk_set_valid(parts@));
            }
            return None;
        }
        pre = pre + 1;
    }
    let mut texts: Vec<String> = Vec::new();
    let mut i: usize = 0;
    while i < n
        invariant
            n == parts@.len(),
            i <= n,
            texts@.len() == i,
            forall|k: int| 0 <= k < parts@.len() ==> (#[trigger] parts@[k].sequence_index) < n,
            forall|j: int| 0 <= j < i ==> #[trigger] covers_index(parts@, j),
            forall|j: int| 0 <= j < i ==> (#[trigger] texts@[j])@ == text_at(parts@, j),
            forall|k1: int, k2: int|
                0 <= k1 < k2 < parts@.len() && (#[trigger] parts@[k1].sequence_index) == (
                #[trigger] parts@[k2].sequence_index) ==> parts@[k1].sequence_index >= i,
        decreases n - i,
    {
        let mut found: Option<usize> = None;
        let mut k: usize = 0;
        while k < n
            invariant
                n == parts@.len(),
                i < n,
                k <= n,
                match found {
                    Some(f) => f < k && parts@[f as int].sequence_index == i as int && forall|
                        j: int,
                    |
                        0 <= j < k && j != f ==> (#[trigger] parts@[j].sequence_index) != i as int,
                    None => forall|j: int|
                        0 <= j < k ==> (#[trigger] parts@[j].sequence_index) != i as int,
                },
            decreases n - k,
        {
            if parts[k].sequence_index == i {
                match found {
                    Some(_) => {
                        // Two transcripts claim the same position.
                        proof {
                            assert(!chunk_set_valid(parts@));
                        }
                        return None;
                    },
                    None => {
                        found = Some(k);
                    },
                }
            }
            k = k + 1;
        }
        match found {
            None => {
                // No transcript covers position `i`.
                proof {
                    assert(!covers_index(parts@, i as int));
                    assert(!chunk_set_valid(parts@));
                }
                return None;
            },
            Some(f) => {
                texts.push(parts[f].text.clone());
                proof {
                    let kk = choose|kk: int|
                        0 <= kk < parts@.len() && (#[trigger] parts@[kk].sequence_index)
                            == i as int;
                    assert(kk == f as int);
                    assert(texts@[i as int]@ == text_at(parts@, i as int));
                }
            },
        }
        i = i + 1;
    }
    proof {
        assert(chunk_set_valid(parts@));
        assert(texts_of(texts@) =~= ordered_texts(parts@));
    }
    Some(assemble_transcript(&texts))
}

/// Where the orchestrator stands while transcribing one asset.
pub enum OrchestratorState {
    /// The asset's size is known; no outside call has been made yet.
    SizeCheck { size_bytes: u64 },
    /// The whole asset was handed to the backend; its answer is pending.
    AwaitDirect,
    /// The segmenter was invoked; its outcome is pending.
    AwaitSegments,
    /// Chunks exist; the backend's answer for chunk `collected.len()` is
    /// pending, and earlier chunks' texts are buffered in order.
    AwaitChunk { chunk_count: usize, collected: Vec<String> },
    /// The transcript is complete; it is committed in one write.
    Done { transcript: String },
    /// Transcription of this asset failed; no transcript is ever written.
    Failed { error: PipelineError },
}

/// What the caller reports back into the orchestrator.
pub enum OrchestratorEvent {
    /// Begin processing the asset.
    Start,
    /// The backend transcribed the whole asset.
    DirectText { text: String },
    /// The backend failed on the whole asset.
    DirectFailed { message: String },
    /// The segmenter produced this many chunks.
    Segmented { chunk_count: usize },
    /// The segmenter failed; no partial chunk set exists.
    SegmentFailed { message: String },
    /// The backend transcribed the pending chunk.
    ChunkText { text: String },
    /// The backend failed on the pending chunk.
    ChunkFailed { message: String },
}

/// The outside work the caller must perform after a step.
pub enum OrchestratorAction {
    /// Invoke the backend on the whole asset.
    CallBackendWhole,
    /// Invoke the segmenter on the asset.
    CallSegmenter,
    /// Invoke the backend on the chunk with this 0-based index.
    CallBackendChunk { index: usize },
    /// Write the transcript held in the `Done` state, in one write.
    CommitTranscript,
    /// Surface the error held in the `Failed` state; write nothing.
    ReportFailure,
    /// Nothing to do.
    Idle,
}

/// A state the orchestrator can actually be in: while chunks are pending,
/// fewer texts are buffered than chunks exist.
pub open spec fn orchestrator_state_wf(s: OrchestratorState) -> bool {
    s matches OrchestratorState::AwaitChunk { chunk_count, collected } ==> collected@.len()
        < chunk_count
}

/// The full transition relation of the orchestrator, one clause per state
/// and event. Events that cannot belong to the current state leave it
/// unchanged.
pub open spec fn orchestrator_step_post(
    state: OrchestratorState,
    event: OrchestratorEvent,
    s2: OrchestratorState,
    a: OrchestratorAction,
) -> bool {
    match state {
        OrchestratorState::SizeCheck { size_bytes } => match event {
            OrchestratorEvent::Start => {
                if size_bytes <= MAX_SINGLE_SHOT_BYTES {
                    s2 is AwaitDirect && a is CallBackendWhole
                } else {
                    s2 is AwaitSegments && a is CallSegmenter
                }
            },
            _ => s2 == state && a is Idle,
        },
        OrchestratorState::AwaitDirect => match event {
            OrchestratorEvent::DirectText { text } => {
                // DirectMode commits the backend's text verbatim.
                &&& s2 matches OrchestratorState::Done { transcript } && transcript@ == text@
                &&& a is CommitTranscript
            },
            OrchestratorEvent::DirectFailed { message } => {
                &&& s2 matches OrchestratorState::Failed {
                    error: PipelineError::Backend { chunk_index, message: m },
                } && chunk_index is None && m@ == message@
                &&& a is ReportFailure
            },
            _ => s2 == state && a is Idle,
        },
        OrchestratorState::AwaitSegments => match event {
            OrchestratorEvent::Segmented { chunk_count } => {
                if chunk_count == 0 {
                    &&& s2 matches OrchestratorState::Done { transcript } && transcript@
                        == assembled(Seq::empty())
                    &&& a is CommitTranscript
                } else {
                    &&& s2 matches OrchestratorState::AwaitChunk {
                        chunk_count: n,
                        collected,
                    } && n == chunk_count && collected@ =~= Seq::<String>::empty()
                    &&& a matches OrchestratorAction::CallBackendChunk { index } && index == 0
                }
            },
            OrchestratorEvent::SegmentFailed { message } => {
                &&& s2 matches OrchestratorState::Failed {
                    error: PipelineError::Segmentation { message: m },
                } && m@ == message@
                &&& a is ReportFailure
            },
            _ => s2 == state && a is Idle,
        },
        OrchestratorState::AwaitChunk { chunk_count, collected } => match event {
            OrchestratorEvent::ChunkText { text } => {
                if collected@.len() + 1 == chunk_count {
                    // The last chunk arrived: reassemble in index order.
                    &&& s2 matches OrchestratorState::Done { transcript } && transcript@
                        == assembled(texts_of(collected@.push(text)))
                    &&& a is CommitTranscript
                } else {
                    &&& s2 matches OrchestratorState::AwaitChunk {
                        chunk_count: n,
                        collected: c2,
                    } && n == chunk_count && c2@ == collected@.push(text)
                    &&& a matches OrchestratorAction::CallBackendChunk { index } && index
                        == collected@.len() + 1
                }
            },
            OrchestratorEvent::ChunkFailed { message } => {
                // The failed chunk's 0-based index is the number of texts
                // collected so far; it is attached for diagnosis.
                &&& s2 matches OrchestratorState::Failed {
                    error: PipelineError::Backend { chunk_index, message: m },
                } && chunk_index matches Some(ci) && ci == collected@.len() && m@ == message@
                &&& a is ReportFailure
            },
            _ => s2 == state && a is Idle,
        },
        OrchestratorState::Done { .. } => s2 == state && a is Idle,
        OrchestratorState::Failed { .. } => s2 == state && a is Idle,
    }
}

/// The segmenter is invoked by exactly one transition: leaving the size
/// check with an asset over the single-shot threshold.
pub open spec fn segmenter_trigger(state: OrchestratorState, event: OrchestratorEvent) -> bool {
    state matches OrchestratorState::SizeCheck { size_bytes } && size_bytes
        > MAX_SINGLE_SHOT_BYTES && event is Start
}

/// Advances the orchestrator by one event and says what outside work to do
/// next.
///
/// The contract carries the orchestrator's guarantees:
/// - an asset at or under the threshold goes to DirectMode and the segmenter
///   is never invoked for it;
/// - the segmenter is invoked only on the single transition out of the size
///   check, and the size check is never re-entered, so it runs at most once
///   per asset;
/// - chunks are handed to the backend one at a time in ascending index
///   order;
/// - a transcript is committed only from the `Done` state, and a failed
///   state never leaves: after a chunk failure no transcript is written and
///   the error carries the failed chunk's index.
pub fn orchestrator_step(state: OrchestratorState, event: OrchestratorEvent) -> (r: (
    OrchestratorState,
    OrchestratorAction,
))
    requires
        orchestrator_state_wf(state),
    ensures
        orchestrator_state_wf(r.0),
        orchestrator_step_post(state, event, r.0, r.1),
        r.1 is CallSegmenter <==> segmenter_trigger(state, event),
        r.0 is SizeCheck ==> state is SizeCheck,
        r.1 is CommitTranscript ==> r.0 is Done,
        r.1 is ReportFailure ==> r.0 is Failed,
        r.1 matches OrchestratorAction::CallBackendChunk { index } ==> (
        r.0 matches OrchestratorState::AwaitChunk { chunk_count, collected } && index
            == collected@.len() && index < chunk_count),
{
    match state {
        OrchestratorState::SizeCheck { size_bytes } => match event {
            OrchestratorEvent::Start => {
                if size_bytes <= MAX_SINGLE_SHOT_BYTES {
                    (OrchestratorState::AwaitDirect, OrchestratorAction::CallBackendWhole)
                } else {
                    (OrchestratorState::AwaitSegments, OrchestratorAction::CallSegmenter)
                }
            },
            _ => (OrchestratorState::SizeCheck { size_bytes }, OrchestratorAction::Idle),
        },
        OrchestratorState::AwaitDirect => match event {
            OrchestratorEvent::DirectText { text } => {
                (OrchestratorState::Done { transcript: text }, OrchestratorAction::CommitTranscript)
            },
            OrchestratorEvent::DirectFailed { message } => {
                (
                    OrchestratorState::Failed {
                        error: PipelineError::Backend { chunk_index: None, message },
                    },
                    OrchestratorAction::ReportFailure,
                )
            },
            _ => (OrchestratorState::AwaitDirect, OrchestratorAction::Idle),
        },
        OrchestratorState::AwaitSegments => match event {
            OrchestratorEvent::Segmented { chunk_count } => {
                if chunk_count == 0 {
                    let empty: Vec<String> = Vec::new();
                    let transcript = assemble_transcript(&empty);
                    proof {
                        assert(texts_of(empty@) =~= Seq::<Seq<char>>::empty());
                    }
                    (
                        OrchestratorState::Done { transcript },
                        OrchestratorAction::CommitTranscript,
                    )
                } else {
                    (
                        OrchestratorState::AwaitChunk { chunk_count, collected: Vec::new() },
                        OrchestratorAction::CallBackendChunk { index: 0 },
                    )
                }
            },
            OrchestratorEvent::SegmentFailed { message } => {
                (
                    OrchestratorState::Failed { error: PipelineError::Segmentation { message } },
                    OrchestratorAction::ReportFailure,
                )
            },
            _ => (OrchestratorState::AwaitSegments, OrchestratorAction::Idle),
        },
        OrchestratorState::AwaitChunk { chunk_count, collected } => match event {
            OrchestratorEvent::ChunkText { text } => {
                let mut c2 = collected;
                c2.push(text);
                if c2.len() == chunk_count {
                    let transcript = assemble_transcript(&c2);
                    (
                        OrchestratorState::Done { transcript },
                        OrchestratorAction::CommitTranscript,
                    )
                } else {
                    let index = c2.len();
                    (
                        OrchestratorState::AwaitChunk { chunk_count, collected: c2 },
                        OrchestratorAction::CallBackendChunk { index },
                    )
                }
            },
            OrchestratorEvent::ChunkFailed { message } => {
                (
                    OrchestratorState::Failed {
                        error: PipelineError::Backend {
                            chunk_index: Some(collected.len()),
                            message,
                        },
                    },
                    OrchestratorAction::ReportFailure,
                )
            },
            _ => (
                OrchestratorState::AwaitChunk { chunk_count, collected },
                OrchestratorAction::Idle,
            ),
        },
        OrchestratorState::Done { transcript } => {
            (OrchestratorState::Done { transcript }, OrchestratorAction::Idle)
        },
        OrchestratorState::Failed { error } => {
            (OrchestratorState::Failed { error }, OrchestratorAction::Idle)
        },
    }
}

/// Reassembly is invariant to completion order: two complete chunk transcript
/// sets holding the same transcripts - in any order - assemble to the same
/// final text.
pub proof fn lemma_reassembly_order_invariant(a: Seq<ChunkTranscript>, b: Seq<ChunkTranscript>)
    requires
        chunk_set_valid(a),
        chunk_set_valid(b),
        a.to_multiset() == b.to_multiset(),
    ensures
        assembled(ordered_texts(a)) == assembled(ordered_texts(b)),
{
    broadcast use vstd::seq_lib::group_to_multiset_ensures;

    assert(a.len() == b.len()) by {
        assert(a.to_multiset().len() == a.len());
        assert(b.to_multiset().len() == b.len());
    }
    assert forall|i: int| 0 <= i < a.len() implies text_at(a, i) == text_at(b, i) by {
        assert(covers_index(a, i));
        assert(covers_index(b, i));
        let ka = choose|k: int| 0 <= k < a.len() && (#[trigger] a[k].sequence_index) == i;
        assert(0 <= ka < a.len() && a[ka].sequence_index == i);
        let e = a[ka];
        assert(a.contains(e));
        assert(a.to_multiset().count(e) > 0);
        assert(b.to_multiset().count(e) > 0);
        assert(b.contains(e));
        let kb0 = choose|k: int| 0 <= k < b.len() && b[k] == e;
        assert(b[kb0].sequence_index == i);
        let kb = choose|k: int| 0 <= k < b.len() && (#[trigger] b[k].sequence_index) == i;
        assert(0 <= kb < b.len() && b[kb].sequence_index == i);
        assert(kb == kb0);
        assert(text_at(a, i) == e.text@);
        assert(text_at(b, i) == e.text@);
    }
    assert(ordered_texts(a) =~= ordered_texts(b));
}

} // verus!
