//! The transcription backend adapter: builds the exact invocation for the
//! outside speech-to-text tool and interprets a finished command.

use vstd::prelude::*;
use vstd::string::StringExecFns;

use crate::config::Config;
use crate::text::{dec_str, push_dec, string_of_chars};

verus! {

/// Transcription service for audio files; wraps the run configuration.
pub struct TranscriptionService<'a> {
    /// The run configuration: key, language, prompt, limits.
    pub config: &'a Config,
}

/// The argument list of one backend invocation: the subcommand, the audio
/// file, the output file, then the optional language and prompt hints.
pub open spec fn backend_args_spec(
    language: Option<String>,
    prompt: Option<String>,
    audio_file: Seq<char>,
    output_file: Seq<char>,
) -> Seq<Seq<char>> {
    let base = seq!["open-ai-whisper"@, audio_file, "--output"@, output_file];
    let with_language = match language {
        Some(l) => base + seq!["--language"@, l@],
        None => base,
    };
    match prompt {
        Some(p) => with_language + seq!["--prompt"@, p@],
        None => with_language,
    }
}

impl<'a> TranscriptionService<'a> {
    /// Creates a new transcription service over the given configuration.
    pub fn new(config: &'a Config) -> (s: Self)
        ensures
            s.config == config,
    {
        TranscriptionService { config }
    }

    /// Builds the backend's argument list for one audio file.
    pub fn backend_args(&self, audio_file: &str, output_file: &str) -> (r: Vec<String>)
        ensures
            r@.len() == backend_args_spec(
                self.config.language,
                self.config.prompt,
                audio_file@,
                output_file@,
            ).len(),
            forall|j: int|
                0 <= j < r@.len() ==> (#[trigger] r@[j])@ == backend_args_spec(
                    self.config.language,
                    self.config.prompt,
                    audio_file@,
                    output_file@,
                )[j],
    {
        let ghost expected = backend_args_spec(
            self.config.language,
            self.config.prompt,
            audio_file@,
            output_file@,
        );
        let mut r: Vec<String> = Vec::new();
        r.push(String::from_str("open-ai-whisper"));
        r.push(String::from_str(audio_file));
        r.push(String::from_str("--output"));
        r.push(String::from_str(output_file));
        match &self.config.language {
            Some(l) => {
                r.push(String::from_str("--language"));
                r.push(l.clone());
            },
            None => {},
        }
        match &self.config.prompt {
            Some(p) => {
                r.push(String::from_str("--prompt"));
                r.push(p.clone());
            },
            None => {},
        }
        proof {
            assert(r@.len() == expected.len());
            assert(forall|j: int| 0 <= j < r@.len() ==> (#[trigger] r@[j])@ == expected[j]);
        }
        r
    }
}

/// The rendering of a command exit code: the code's decimal value, or `-1`
/// when the process ended without one.
pub open spec fn exit_code_str(code: Option<i32>) -> Seq<char> {
    match code {
        Some(c) => if c >= 0 {
            dec_str(c as nat)
        } else {
            seq!['-'] + dec_str((-(c as int)) as nat)
        },
        None => seq!['-', '1'],
    }
}

/// The diagnostic line reported for a failed command.
pub open spec fn command_failure_message(code: Option<i32>, stderr: Seq<char>) -> Seq<char> {
    "Command failed with exit code "@ + exit_code_str(code) + ": "@ + stderr
}

fn exit_code_string(code: Option<i32>) -> (r: String)
    ensures
        r@ == exit_code_str(code),
{
    match code {
        Some(c) => {
            let mut v: Vec<char> = Vec::new();
            if c >= 0 {
                push_dec(c as u64, &mut v);
            } else {
                v.push('-');
                let mag: u64 = if c == i32::MIN {
                    2147483648u64
                } else {
                    (-c) as u64
                };
                proof {
                    assert(mag as int == -(c as int));
                }
                push_dec(mag, &mut v);
                proof {
                    assert(v@ =~= seq!['-'] + dec_str(mag as nat));
                }
            }
            string_of_chars(&v)
        },
        None => {
            let mut v: Vec<char> = Vec::new();
            v.push('-');
            v.push('1');
            proof {
                assert(v@ =~= seq!['-', '1']);
            }
            string_of_chars(&v)
        },
    }
}

/// Interprets a finished outside command: its standard output on success,
/// else a diagnostic naming the exit code and carrying the command's own
/// error output.
pub fn command_outcome(success: bool, stdout: String, code: Option<i32>, stderr: &str) -> (r:
    Result<String, String>)
    ensures
        match r {
            Ok(s) => success && s@ == stdout@,
            Err(m) => !success && m@ == command_failure_message(code, stderr@),
        },
{
    if success {
        Ok(stdout)
    } else {
        let mut m = String::from_str("Command failed with exit code ");
        let code_s = exit_code_string(code);
        m.append(code_s.as_str());
        m.append(": ");
        m.append(stderr);
        Err(m)
    }
}

} // verus!
