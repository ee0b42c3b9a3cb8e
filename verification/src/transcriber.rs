//! Local transcription with whisper.cpp models: the model catalogue, the
//! model file checks and the shaping of the audio, prompt and output.

use vstd::prelude::*;
use crate::text::{concat, decimal, decimal_spec, owned, push_char, str_eq, trim, trim_spec};

verus! {

/// Sample rate of the audio that whisper takes, in Hz.
pub const SAMPLE_RATE: usize = 16000;

/// The longest audio sent to the local model, in seconds.
pub const MAX_LOCAL_AUDIO_SECONDS: usize = 30;

/// The longest audio sent to the local model, in samples.
pub const MAX_LOCAL_AUDIO_SAMPLES: usize = SAMPLE_RATE * MAX_LOCAL_AUDIO_SECONDS;

/// How long a local transcription may take, in seconds.
pub const LOCAL_TRANSCRIBE_TIMEOUT_SECONDS: u64 = 120;

/// The models that can be downloaded, smallest first.
pub open spec fn known_model_names() -> Seq<Seq<char>> {
    seq!["tiny"@, "base"@, "small"@, "medium"@]
}

/// The download URL of a known model.
pub open spec fn model_url_spec(model: Seq<char>) -> Option<Seq<char>> {
    if model == "tiny"@ {
        Some("https://huggingface.co/ggerganov/whisper.cpp/resolve/main/ggml-tiny.bin"@)
    } else if model == "base"@ {
        Some("https://huggingface.co/ggerganov/whisper.cpp/resolve/main/ggml-base.bin"@)
    } else if model == "small"@ {
        Some("https://huggingface.co/ggerganov/whisper.cpp/resolve/main/ggml-small.bin"@)
    } else if model == "medium"@ {
        Some("https://huggingface.co/ggerganov/whisper.cpp/resolve/main/ggml-medium.bin"@)
    } else {
        None
    }
}

/// The names of the models that can be downloaded, smallest first.
pub fn known_models() -> (r: Vec<String>)
    ensures
        crate::text::views(r@) == known_model_names(),
{
    let mut r: Vec<String> = Vec::new();
    r.push(owned("tiny"));
    r.push(owned("base"));
    r.push(owned("small"));
    r.push(owned("medium"));
    assert(crate::text::views(r@) =~= known_model_names());
    r
}

/// The download URL of a model, or `Unknown model: <model>`.
pub fn model_url(model: &str) -> (r: Result<&'static str, String>)
    ensures
        match model_url_spec(model@) {
            Some(u) => r matches Ok(v) && v@ == u,
            None => r matches Err(e) && e@ == "Unknown model: "@ + model@,
        },
{
    proof {
        reveal_strlit("tiny");
        reveal_strlit("base");
        reveal_strlit("small");
        reveal_strlit("medium");
    }
    if str_eq(model, "tiny") {
        Ok("https://huggingface.co/ggerganov/whisper.cpp/resolve/main/ggml-tiny.bin")
    } else if str_eq(model, "base") {
        Ok("https://huggingface.co/ggerganov/whisper.cpp/resolve/main/ggml-base.bin")
    } else if str_eq(model, "small") {
        Ok("https://huggingface.co/ggerganov/whisper.cpp/resolve/main/ggml-small.bin")
    } else if str_eq(model, "medium") {
        Ok("https://huggingface.co/ggerganov/whisper.cpp/resolve/main/ggml-medium.bin")
    } else {
        Err(concat("Unknown model: ", model))
    }
}

/// The file name of a model in the models directory: `ggml-<model>.bin`.
pub fn model_file_name(model: &str) -> (r: String)
    ensures
        r@ == "ggml-"@ + model@ + ".bin"@,
{
    let a = concat("ggml-", model);
    concat(a.as_str(), ".bin")
}

/// The size below which a downloaded model file is taken as incomplete.
pub open spec fn minimum_model_size_spec(model: Seq<char>) -> nat {
    if model == "tiny"@ {
        30 * 1_048_576
    } else if model == "base"@ {
        60 * 1_048_576
    } else if model == "small"@ {
        200 * 1_048_576
    } else if model == "medium"@ {
        650 * 1_048_576
    } else {
        1
    }
}

/// The size below which a downloaded model file is taken as incomplete:
/// a bound under each known model's real size, one byte for other names.
pub fn minimum_model_size_bytes(model: &str) -> (r: u64)
    ensures
        r == minimum_model_size_spec(model@),
{
    proof {
        reveal_strlit("tiny");
        reveal_strlit("base");
        reveal_strlit("small");
        reveal_strlit("medium");
    }
    if str_eq(model, "tiny") {
        30 * 1_048_576
    } else if str_eq(model, "base") {
        60 * 1_048_576
    } else if str_eq(model, "small") {
        200 * 1_048_576
    } else if str_eq(model, "medium") {
        650 * 1_048_576
    } else {
        1
    }
}

/// Whether a model file of `size` bytes is complete enough to load.
pub fn is_model_file_complete(model: &str, size: u64) -> (r: bool)
    ensures
        r == (size >= minimum_model_size_spec(model@)),
{
    size >= minimum_model_size_bytes(model)
}

/// `Model '<model>' not found. Download it from settings first.`
pub fn model_not_found_message(model: &str) -> (r: String)
    ensures
        r@ == "Model '"@ + model@ + "' not found. Download it from settings first."@,
{
    let a = concat("Model '", model);
    concat(a.as_str(), "' not found. Download it from settings first.")
}

/// `Model '<model>' looks incomplete (<size> MB). Delete it and download
/// it again.`, with the size already written in megabytes.
pub fn model_incomplete_message(model: &str, size_mb: &str) -> (r: String)
    ensures
        r@ == "Model '"@ + model@ + "' looks incomplete ("@ + size_mb@
            + " MB). Delete it and download it again."@,
{
    let a = concat("Model '", model);
    let b = concat(a.as_str(), "' looks incomplete (");
    let c = concat(b.as_str(), size_mb);
    concat(c.as_str(), " MB). Delete it and download it again.")
}

/// The audio that the local model gets: its last 30 seconds, and an error
/// where there is none.
pub fn local_audio_window<T>(audio: Vec<T>) -> (r: Result<Vec<T>, String>)
    ensures
        audio@.len() == 0 ==> (r matches Err(e) && e@
            == "No audio samples captured for local transcription."@),
        audio@.len() != 0 ==> (r matches Ok(a) && a@ == (if audio@.len()
            > MAX_LOCAL_AUDIO_SAMPLES {
            audio@.subrange(audio@.len() - MAX_LOCAL_AUDIO_SAMPLES, audio@.len() as int)
        } else {
            audio@
        })),
{
    let mut audio = audio;
    let n = audio.len();
    if n > MAX_LOCAL_AUDIO_SAMPLES {
        let tail = audio.split_off(n - MAX_LOCAL_AUDIO_SAMPLES);
        return Ok(tail);
    }
    if n == 0 {
        return Err(owned("No audio samples captured for local transcription."));
    }
    Ok(audio)
}

/// The initial prompt for the local model: the prompt setting trimmed,
/// unless nothing is left.
pub fn initial_prompt(prompt: &str) -> (r: Option<String>)
    ensures
        trim_spec(prompt@).len() != 0 ==> (r matches Some(p) && p@ == trim_spec(prompt@)),
        trim_spec(prompt@).len() == 0 ==> r is None,
{
    let t = trim(prompt);
    if t.as_str().is_empty() {
        None
    } else {
        Some(t)
    }
}

/// The segments that were read, each trimmed and followed by a space.
pub open spec fn segments_text(segments: Seq<Option<String>>) -> Seq<char>
    decreases segments.len(),
{
    if segments.len() == 0 {
        Seq::empty()
    } else {
        segments_text(segments.drop_last()) + match segments.last() {
            Some(s) => trim_spec(s@).push(' '),
            None => Seq::empty(),
        }
    }
}

/// The transcript of the local model from its segments (`None` for a
/// segment whose text could not be read): the trimmed segments joined by
/// spaces, with no space at either end.
pub fn join_segments(segments: &[Option<String>]) -> (r: String)
    ensures
        r@ == trim_spec(segments_text(segments@)),
{
    let mut text = String::new();
    let mut i: usize = 0;
    while i < segments.len()
        invariant
            i <= segments@.len(),
            text@ == segments_text(segments@.take(i as int)),
        decreases segments@.len() - i,
    {
        assert(segments@.take((i + 1) as int).drop_last() =~= segments@.take(i as int));
        match &segments[i] {
            Some(s) => {
                let t = trim(s.as_str());
                let mut piece = t;
                push_char(&mut piece, ' ');
                text = concat(text.as_str(), piece.as_str());
            },
            None => {
                assert(text@ =~= text@ + Seq::<char>::empty());
            },
        }
        i = i + 1;
    }
    assert(segments@.take(segments@.len() as int) =~= segments@);
    trim(text.as_str())
}

/// The error when the local transcription runs past its time limit.
pub fn local_timeout_message() -> (r: String)
    ensures
        r@ == "Local whisper timed out after "@ + decimal_spec(
            LOCAL_TRANSCRIBE_TIMEOUT_SECONDS as nat,
        ) + " seconds. Try the tiny/base model or record a shorter phrase."@,
{
    let n = decimal(LOCAL_TRANSCRIBE_TIMEOUT_SECONDS);
    let a = concat("Local whisper timed out after ", n.as_str());
    concat(a.as_str(), " seconds. Try the tiny/base model or record a shorter phrase.")
}

} // verus!
