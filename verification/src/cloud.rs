//! Transcription by a cloud provider (OpenAI, Groq, Deepgram): the choice
//! of provider, the requests' parameters, the audio bytes and the replies.

use vstd::prelude::*;
use crate::base64::{
    all_digits, base64_decode, base64_decode_defined, base64_decode_digits, strip_padding,
};
use crate::text::{concat, owned, str_eq};

verus! {

/// A transcription request as the front end sends it.
pub struct CloudTranscribeRequest {
    pub provider: String,
    /// Raw 32-bit float PCM at 16 kHz mono, little-endian, in base64.
    pub audio_b64: String,
    pub language: String,
}

/// A cloud transcription provider.
#[derive(PartialEq, Eq, Structural, Clone, Copy, Debug)]
pub enum CloudProvider {
    OpenAi,
    Groq,
    Deepgram,
}

/// The provider that a provider name selects, or the error for an unknown
/// name.
pub open spec fn cloud_provider_spec(name: Seq<char>) -> Result<CloudProvider, Seq<char>> {
    if name == "openai"@ {
        Ok(CloudProvider::OpenAi)
    } else if name == "groq"@ {
        Ok(CloudProvider::Groq)
    } else if name == "deepgram"@ {
        Ok(CloudProvider::Deepgram)
    } else {
        Err("Unknown cloud provider: "@ + name)
    }
}

/// Selects the provider by its name.
pub fn cloud_provider(name: &str) -> (r: Result<CloudProvider, String>)
    ensures
        match r {
            Ok(p) => cloud_provider_spec(name@) == Ok::<CloudProvider, Seq<char>>(p),
            Err(e) => cloud_provider_spec(name@) == Err::<CloudProvider, Seq<char>>(e@),
        },
{
    proof {
        reveal_strlit("openai");
        reveal_strlit("groq");
        reveal_strlit("deepgram");
    }
    if str_eq(name, "openai") {
        Ok(CloudProvider::OpenAi)
    } else if str_eq(name, "groq") {
        Ok(CloudProvider::Groq)
    } else if str_eq(name, "deepgram") {
        Ok(CloudProvider::Deepgram)
    } else {
        Err(concat("Unknown cloud provider: ", name))
    }
}

/// Whether a language setting asks for a language: anything but empty or
/// `auto` (which leaves detection to the engine).
pub open spec fn language_is_set(language: Seq<char>) -> bool {
    language != "auto"@ && language.len() != 0
}

/// The language to pass to the engine, if the setting names one.
pub fn requested_language(language: &str) -> (r: Option<String>)
    ensures
        language_is_set(language@) ==> (r matches Some(l) && l@ == language@),
        !language_is_set(language@) ==> r is None,
{
    if !str_eq(language, "auto") && !language.is_empty() {
        Some(owned(language))
    } else {
        None
    }
}

/// The name used in a provider's error messages.
pub open spec fn provider_display_name(p: CloudProvider) -> Seq<char> {
    match p {
        CloudProvider::OpenAi => "OpenAI"@,
        CloudProvider::Groq => "Groq"@,
        CloudProvider::Deepgram => "Deepgram"@,
    }
}

/// The model that each provider is asked for.
pub open spec fn provider_model(p: CloudProvider) -> Seq<char> {
    match p {
        CloudProvider::OpenAi => "whisper-1"@,
        CloudProvider::Groq => "whisper-large-v3-turbo"@,
        CloudProvider::Deepgram => "nova-2"@,
    }
}

/// The endpoint of each provider (Deepgram's takes its parameters in the
/// query, see `deepgram_url`).
pub open spec fn provider_url(p: CloudProvider) -> Seq<char> {
    match p {
        CloudProvider::OpenAi => "https://api.openai.com/v1/audio/transcriptions"@,
        CloudProvider::Groq => "https://api.groq.com/openai/v1/audio/transcriptions"@,
        CloudProvider::Deepgram => "https://api.deepgram.com/v1/listen"@,
    }
}

impl CloudProvider {
    /// The provider's transcription endpoint.
    pub fn transcription_url(self) -> (r: &'static str)
        ensures
            r@ == provider_url(self),
    {
        match self {
            CloudProvider::OpenAi => "https://api.openai.com/v1/audio/transcriptions",
            CloudProvider::Groq => "https://api.groq.com/openai/v1/audio/transcriptions",
            CloudProvider::Deepgram => "https://api.deepgram.com/v1/listen",
        }
    }

    /// The model that the provider is asked for.
    pub fn model(self) -> (r: &'static str)
        ensures
            r@ == provider_model(self),
    {
        match self {
            CloudProvider::OpenAi => "whisper-1",
            CloudProvider::Groq => "whisper-large-v3-turbo",
            CloudProvider::Deepgram => "nova-2",
        }
    }

    /// The name used in the provider's error messages.
    pub fn display_name(self) -> (r: &'static str)
        ensures
            r@ == provider_display_name(self),
    {
        match self {
            CloudProvider::OpenAi => "OpenAI",
            CloudProvider::Groq => "Groq",
            CloudProvider::Deepgram => "Deepgram",
        }
    }
}

/// The Deepgram listen URL, with the language when the setting names one.
pub fn deepgram_url(language: &str) -> (r: String)
    ensures
        r@ == "https://api.deepgram.com/v1/listen?model=nova-2&smart_format=true"@ + (
        if language_is_set(language@) {
            "&language="@ + language@
        } else {
            Seq::<char>::empty()
        }),
{
    let base = "https://api.deepgram.com/v1/listen?model=nova-2&smart_format=true";
    match requested_language(language) {
        Some(l) => {
            let p = concat("&language=", l.as_str());
            concat(base, p.as_str())
        },
        None => {
            let r = owned(base);
            assert(r@ =~= base@ + Seq::<char>::empty());
            r
        },
    }
}

/// The `Authorization` header value for Deepgram: `Token <key>`.
pub fn deepgram_authorization(key: &str) -> (r: String)
    ensures
        r@ == "Token "@ + key@,
{
    concat("Token ", key)
}

/// The four-byte little-endian words of raw sample bytes: one per four
/// bytes, the last completed with zero bytes.
pub open spec fn sample_words_spec(bytes: Seq<u8>) -> Seq<Seq<u8>> {
    Seq::new(
        ((bytes.len() + 3) / 4) as nat,
        |i: int| Seq::new(4, |j: int| if 4 * i + j < bytes.len() { bytes[4 * i + j] } else { 0u8 }),
    )
}

/// Splits raw sample bytes into four-byte words, the last one completed
/// with zeros.
pub fn sample_words(bytes: &[u8]) -> (r: Vec<[u8; 4]>)
    ensures
        r@.len() == sample_words_spec(bytes@).len(),
        forall|i: int| 0 <= i < r@.len() ==> (#[trigger] r@[i])@ == sample_words_spec(bytes@)[i],
{
    let n = bytes.len();
    let words = n / 4 + if n % 4 != 0 { 1 } else { 0 };
    assert(words == (n + 3) / 4);
    let mut r: Vec<[u8; 4]> = Vec::new();
    let mut w: usize = 0;
    while w < words
        invariant
            n == bytes@.len(),
            words == (n + 3) / 4,
            w <= words,
            r@.len() == w,
            forall|k: int| 0 <= k < r@.len() ==> (#[trigger] r@[k])@ == sample_words_spec(bytes@)[k],
        decreases words - w,
    {
        let i = 4 * w;
        let rem = n - i;
        let b0 = bytes[i];
        let b1 = if rem > 1 { bytes[i + 1] } else { 0u8 };
        let b2 = if rem > 2 { bytes[i + 2] } else { 0u8 };
        let b3 = if rem > 3 { bytes[i + 3] } else { 0u8 };
        let word = [b0, b1, b2, b3];
        assert(word@ =~= sample_words_spec(bytes@)[w as int]);
        r.push(word);
        w = w + 1;
    }
    r
}

/// The message for a provider that has no key stored.
pub fn missing_key_message(provider: &str) -> (r: String)
    ensures
        r@ == "No API key configured for provider: "@ + provider@,
{
    concat("No API key configured for provider: ", provider)
}

/// The first steps of a cloud transcription: a stored key is required,
/// then the audio text is decoded and cut into sample words.
pub fn prepare_cloud_audio(provider: &str, api_key: &str, audio_b64: &str) -> (r: Result<
    Vec<[u8; 4]>,
    String,
>)
    requires
        api_key@.len() != 0 ==> base64_decode_defined(audio_b64@),
    ensures
        api_key@.len() == 0 ==> (r matches Err(e) && e@ == "No API key configured for provider: "@
            + provider@),
        api_key@.len() != 0 && !all_digits(strip_padding(audio_b64@)) ==> (r matches Err(e) && e@
            == "invalid base64"@),
        api_key@.len() != 0 && all_digits(strip_padding(audio_b64@)) ==> (r matches Ok(w)
            && w@.len() == sample_words_spec(base64_decode_digits(strip_padding(audio_b64@))).len()
            && forall|i: int|
            0 <= i < w@.len() ==> (#[trigger] w@[i])@ == sample_words_spec(
                base64_decode_digits(strip_padding(audio_b64@)),
            )[i]),
{
    if api_key.is_empty() {
        return Err(missing_key_message(provider));
    }
    match base64_decode(audio_b64) {
        Ok(raw) => Ok(sample_words(raw.as_slice())),
        Err(e) => Err(owned(e)),
    }
}

/// The result of a transcription from the reply's transcript field (`None`
/// where the reply has no such string): the transcript as it is, or
/// `<Provider> error: <reply JSON>`.
pub fn transcript_reply(provider: CloudProvider, transcript: Option<&str>, reply_json: &str) -> (r:
    Result<String, String>)
    ensures
        match transcript {
            Some(t) => r matches Ok(s) && s@ == t@,
            None => r matches Err(e) && e@ == provider_display_name(provider) + " error: "@ + reply_json@,
        },
{
    match transcript {
        Some(t) => Ok(owned(t)),
        None => {
            let a = concat(provider.display_name(), " error: ");
            Err(concat(a.as_str(), reply_json))
        },
    }
}

} // verus!
