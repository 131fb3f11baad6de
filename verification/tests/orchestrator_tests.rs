use media_transcriber::errors::PipelineError;
use media_transcriber::orchestrator::{
    assemble_transcript, orchestrator_step, reassemble, select_mode, ChunkTranscript, Mode,
    OrchestratorAction, OrchestratorEvent, OrchestratorState, MAX_SINGLE_SHOT_BYTES,
};

fn ct(i: usize, text: &str) -> ChunkTranscript {
    ChunkTranscript {
        sequence_index: i,
        text: text.to_string(),
    }
}

#[test]
fn threshold_selects_mode() {
    assert_eq!(MAX_SINGLE_SHOT_BYTES, 25 * 1024 * 1024);
    assert_eq!(select_mode(0), Mode::Direct);
    assert_eq!(select_mode(MAX_SINGLE_SHOT_BYTES), Mode::Direct);
    assert_eq!(select_mode(MAX_SINGLE_SHOT_BYTES + 1), Mode::Chunked);
}

#[test]
fn assemble_joins_with_blank_lines_and_trims() {
    assert_eq!(assemble_transcript(&vec![]), "");
    assert_eq!(assemble_transcript(&vec!["a".to_string()]), "a");
    assert_eq!(
        assemble_transcript(&vec!["a".to_string(), "b".to_string()]),
        "a\n\nb"
    );
    assert_eq!(
        assemble_transcript(&vec![" a ".to_string(), "b\n".to_string()]),
        "a \n\nb"
    );
}

#[test]
fn reassembly_is_completion_order_invariant() {
    let in_order = vec![ct(0, "first"), ct(1, "second"), ct(2, "third")];
    let shuffled = vec![ct(2, "third"), ct(0, "first"), ct(1, "second")];
    let a = reassemble(&in_order).unwrap();
    let b = reassemble(&shuffled).unwrap();
    assert_eq!(a, b);
    assert_eq!(a, "first\n\nsecond\n\nthird");
}

#[test]
fn reassembly_rejects_duplicates_and_gaps() {
    assert!(reassemble(&vec![ct(0, "a"), ct(0, "b")]).is_none());
    assert!(reassemble(&vec![ct(0, "a"), ct(2, "b")]).is_none());
    assert!(reassemble(&vec![ct(5, "a")]).is_none());
}

#[test]
fn small_asset_never_reaches_the_segmenter() {
    let s0 = OrchestratorState::SizeCheck { size_bytes: 1024 };
    let (s1, a1) = orchestrator_step(s0, OrchestratorEvent::Start);
    assert!(matches!(a1, OrchestratorAction::CallBackendWhole));
    assert!(matches!(s1, OrchestratorState::AwaitDirect));
    let (s2, a2) = orchestrator_step(
        s1,
        OrchestratorEvent::DirectText {
            text: "hello".to_string(),
        },
    );
    assert!(matches!(a2, OrchestratorAction::CommitTranscript));
    match s2 {
        OrchestratorState::Done { transcript } => assert_eq!(transcript, "hello"),
        _ => panic!("expected Done"),
    }
}

#[test]
fn large_asset_segments_once_then_chunks_ascend() {
    let s0 = OrchestratorState::SizeCheck {
        size_bytes: MAX_SINGLE_SHOT_BYTES + 1,
    };
    let (s1, a1) = orchestrator_step(s0, OrchestratorEvent::Start);
    assert!(matches!(a1, OrchestratorAction::CallSegmenter));
    let (s2, a2) = orchestrator_step(s1, OrchestratorEvent::Segmented { chunk_count: 3 });
    assert!(matches!(a2, OrchestratorAction::CallBackendChunk { index: 0 }));
    let (s3, a3) = orchestrator_step(
        s2,
        OrchestratorEvent::ChunkText {
            text: "one".to_string(),
        },
    );
    assert!(matches!(a3, OrchestratorAction::CallBackendChunk { index: 1 }));
    let (s4, a4) = orchestrator_step(
        s3,
        OrchestratorEvent::ChunkText {
            text: "two".to_string(),
        },
    );
    assert!(matches!(a4, OrchestratorAction::CallBackendChunk { index: 2 }));
    let (s5, a5) = orchestrator_step(
        s4,
        OrchestratorEvent::ChunkText {
            text: "three".to_string(),
        },
    );
    assert!(matches!(a5, OrchestratorAction::CommitTranscript));
    match s5 {
        OrchestratorState::Done { transcript } => {
            assert_eq!(transcript, "one\n\ntwo\n\nthree")
        }
        _ => panic!("expected Done"),
    }
}

#[test]
fn chunk_failure_reports_its_index_and_writes_nothing() {
    let s0 = OrchestratorState::SizeCheck {
        size_bytes: MAX_SINGLE_SHOT_BYTES + 1,
    };
    let (s1, _) = orchestrator_step(s0, OrchestratorEvent::Start);
    let (mut state, _) = orchestrator_step(s1, OrchestratorEvent::Segmented { chunk_count: 5 });
    // chunks 0 and 1 come back
    for text in ["zero", "one"] {
        let (next, _) = orchestrator_step(
            state,
            OrchestratorEvent::ChunkText {
                text: text.to_string(),
            },
        );
        state = next;
    }
    // chunk 2 of 5 fails
    let (failed, action) = orchestrator_step(
        state,
        OrchestratorEvent::ChunkFailed {
            message: "backend went away".to_string(),
        },
    );
    assert!(matches!(action, OrchestratorAction::ReportFailure));
    match &failed {
        OrchestratorState::Failed {
            error:
                PipelineError::Backend {
                    chunk_index,
                    message,
                },
        } => {
            assert_eq!(*chunk_index, Some(2));
            assert_eq!(message, "backend went away");
        }
        _ => panic!("expected a backend failure with the chunk index"),
    }
    // the failed state is terminal: no later event commits a transcript
    let (after, idle) = orchestrator_step(
        failed,
        OrchestratorEvent::ChunkText {
            text: "late".to_string(),
        },
    );
    assert!(matches!(idle, OrchestratorAction::Idle));
    assert!(matches!(after, OrchestratorState::Failed { .. }));
}

#[test]
fn empty_segmentation_commits_empty_transcript() {
    let s0 = OrchestratorState::AwaitSegments;
    let (s1, a1) = orchestrator_step(s0, OrchestratorEvent::Segmented { chunk_count: 0 });
    assert!(matches!(a1, OrchestratorAction::CommitTranscript));
    match s1 {
        OrchestratorState::Done { transcript } => assert_eq!(transcript, ""),
        _ => panic!("expected Done"),
    }
}

#[test]
fn segmentation_failure_aborts_the_asset() {
    let s0 = OrchestratorState::AwaitSegments;
    let (s1, a1) = orchestrator_step(
        s0,
        OrchestratorEvent::SegmentFailed {
            message: "no keyframes".to_string(),
        },
    );
    assert!(matches!(a1, OrchestratorAction::ReportFailure));
    match s1 {
        OrchestratorState::Failed {
            error: PipelineError::Segmentation { message },
        } => assert_eq!(message, "no keyframes"),
        _ => panic!("expected a segmentation failure"),
    }
}
