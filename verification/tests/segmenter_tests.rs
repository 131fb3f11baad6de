use media_transcriber::segmenter::{
    chunk_file_name, extract_args, parse_duration_ms, plan_chunks, probe_args,
    transcript_file_name, ChunkSpec,
};

#[test]
fn plan_counts_ceil_of_duration_over_target() {
    // 3500 s at 1000 s per chunk: four chunks, the last one short
    let plan = plan_chunks(3_500_000, 1000);
    assert_eq!(plan.len(), 4);
    for (i, c) in plan.iter().enumerate() {
        assert_eq!(c.index as usize, i);
        assert_eq!(c.start_seconds, i as u64 * 1000);
        assert_eq!(c.limited, i + 1 < 4);
    }
}

#[test]
fn plan_exact_division_has_no_extra_chunk() {
    let plan = plan_chunks(2_000_000, 1000);
    assert_eq!(plan.len(), 2);
    assert!(plan[0].limited);
    assert!(!plan[1].limited);
}

#[test]
fn plan_short_asset_is_one_chunk() {
    let plan = plan_chunks(1, 1000);
    assert_eq!(plan.len(), 1);
    assert_eq!(plan[0].start_seconds, 0);
    assert!(!plan[0].limited);
}

#[test]
fn plan_zero_duration_is_empty() {
    let plan = plan_chunks(0, 1000);
    assert_eq!(plan.len(), 0);
}

#[test]
fn duration_parses_probe_output() {
    assert_eq!(parse_duration_ms("123.456000\n"), Some(123_456));
    assert_eq!(parse_duration_ms("59.9"), Some(59_900));
    assert_eq!(parse_duration_ms("0.5"), Some(500));
    assert_eq!(parse_duration_ms("10"), Some(10_000));
    assert_eq!(parse_duration_ms(" 42.25 "), Some(42_250));
    assert_eq!(parse_duration_ms("7."), Some(7_000));
    assert_eq!(parse_duration_ms("3.1419"), Some(3_141));
}

#[test]
fn duration_rejects_other_shapes() {
    assert_eq!(parse_duration_ms(""), None);
    assert_eq!(parse_duration_ms("abc"), None);
    assert_eq!(parse_duration_ms("1.2.3"), None);
    assert_eq!(parse_duration_ms(".5"), None);
    assert_eq!(parse_duration_ms("-1"), None);
    assert_eq!(parse_duration_ms("1e3"), None);
}

#[test]
fn chunk_and_transcript_names_count_from_one() {
    assert_eq!(chunk_file_name(0), "chunk_1.mp3");
    assert_eq!(chunk_file_name(11), "chunk_12.mp3");
    assert_eq!(transcript_file_name(0), "transcript_1.txt");
    assert_eq!(transcript_file_name(9), "transcript_10.txt");
}

#[test]
fn probe_args_exact() {
    let args = probe_args("in.mp3");
    assert_eq!(
        args,
        vec![
            "-v",
            "error",
            "-show_entries",
            "format=duration",
            "-of",
            "default=noprint_wrappers=1:nokey=1",
            "in.mp3"
        ]
    );
}

#[test]
fn extract_args_bound_every_chunk_but_the_last() {
    let middle = ChunkSpec {
        index: 1,
        start_seconds: 1000,
        limited: true,
    };
    let args = extract_args("in.mp3", &middle, 1000, "out/chunk_2.mp3");
    assert_eq!(
        args,
        vec![
            "-nostdin",
            "-v",
            "quiet",
            "-y",
            "-i",
            "in.mp3",
            "-ss",
            "1000",
            "-t",
            "1000",
            "-acodec",
            "libmp3lame",
            "-b:a",
            "128k",
            "out/chunk_2.mp3"
        ]
    );
    let last = ChunkSpec {
        index: 2,
        start_seconds: 2000,
        limited: false,
    };
    let args = extract_args("in.mp3", &last, 1000, "out/chunk_3.mp3");
    assert_eq!(
        args,
        vec![
            "-nostdin",
            "-v",
            "quiet",
            "-y",
            "-i",
            "in.mp3",
            "-ss",
            "2000",
            "-acodec",
            "libmp3lame",
            "-b:a",
            "128k",
            "out/chunk_3.mp3"
        ]
    );
}
