use media_transcriber::backend::{command_outcome, TranscriptionService};
use media_transcriber::config::Config;
use media_transcriber::errors::PipelineError;
use media_transcriber::local::LocalFileProcessor;

fn config_with(language: Option<&str>, prompt: Option<&str>) -> Config {
    Config::new(
        Some("sk-test".to_string()),
        None,
        None,
        language.map(|s| s.to_string()),
        prompt.map(|s| s.to_string()),
        None,
        "out".to_string(),
    )
    .unwrap()
}

#[test]
fn urls_are_not_local_files() {
    assert!(!LocalFileProcessor::is_local_file_path(
        "http://example.org/a.mp3",
        true
    ));
    assert!(!LocalFileProcessor::is_local_file_path(
        "https://example.org/a.mp3",
        true
    ));
    assert!(LocalFileProcessor::is_local_file_path("music/a.mp3", true));
    assert!(!LocalFileProcessor::is_local_file_path("music/a.mp3", false));
}

#[test]
fn missing_file_is_reported() {
    let config = config_with(None, None);
    let processor = LocalFileProcessor::new(&config);
    match processor.prepare("music/gone.mp3", false) {
        Err(PipelineError::Resolution { message }) => {
            assert_eq!(message, "File does not exist: music/gone.mp3")
        }
        other => panic!("expected a resolution error, got {:?}", other),
    }
}

#[test]
fn only_mp3_files_are_accepted() {
    let config = config_with(None, None);
    let processor = LocalFileProcessor::new(&config);
    match processor.prepare("music/talk.wav", true) {
        Err(PipelineError::Resolution { message }) => {
            assert_eq!(message, "Unsupported file format: wav")
        }
        other => panic!("expected a resolution error, got {:?}", other),
    }
    match processor.prepare("music/noext", true) {
        Err(PipelineError::Resolution { message }) => {
            assert_eq!(message, "Unsupported file format: ")
        }
        other => panic!("expected a resolution error, got {:?}", other),
    }
}

#[test]
fn accepted_file_gets_its_output_directory() {
    let config = config_with(None, None);
    let processor = LocalFileProcessor::new(&config);
    let dir = processor.prepare("music/My Great Talk.MP3", true).unwrap();
    assert_eq!(dir, "out/local_files/My_Great_Talk");
}

#[test]
fn file_sidecar_text_is_exact() {
    let config = config_with(None, None);
    let processor = LocalFileProcessor::new(&config);
    let info = processor.file_info_text("music/a.mp3", 4096, "2024-01-01T00:00:00+00:00");
    assert_eq!(
        info,
        "File: music/a.mp3\nSize: 4096 bytes\nTranscribed: 2024-01-01T00:00:00+00:00"
    );
}

#[test]
fn backend_invocation_carries_the_hints() {
    let config = config_with(Some("en"), Some("product names"));
    let service = TranscriptionService::new(&config);
    let args = service.backend_args("audio.mp3", "transcript.txt");
    assert_eq!(
        args,
        vec![
            "open-ai-whisper",
            "audio.mp3",
            "--output",
            "transcript.txt",
            "--language",
            "en",
            "--prompt",
            "product names"
        ]
    );
    let bare = config_with(None, None);
    let service = TranscriptionService::new(&bare);
    let args = service.backend_args("a.mp3", "t.txt");
    assert_eq!(args, vec!["open-ai-whisper", "a.mp3", "--output", "t.txt"]);
}

#[test]
fn command_outcomes_are_interpreted() {
    assert_eq!(
        command_outcome(true, "listing".to_string(), Some(0), ""),
        Ok("listing".to_string())
    );
    assert_eq!(
        command_outcome(false, String::new(), Some(2), "boom"),
        Err("Command failed with exit code 2: boom".to_string())
    );
    assert_eq!(
        command_outcome(false, String::new(), None, "killed"),
        Err("Command failed with exit code -1: killed".to_string())
    );
    assert_eq!(
        command_outcome(false, String::new(), Some(-9), "signal"),
        Err("Command failed with exit code -9: signal".to_string())
    );
}
