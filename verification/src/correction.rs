//! Correction of transcribed text by a local Ollama server or an
//! OpenAI-compatible API: the routing, the requests' text and the handling
//! of the replies.

use vstd::prelude::*;
use crate::text::{
    concat, join, join_spec, owned, str_eq, trim, trim_end_char, trim_end_matches_char,
    trim_spec, views,
};

verus! {

/// The instruction that precedes the text sent for correction.
pub const CORRECTION_PROMPT: &'static str = "You are a transcription corrector. Fix grammar, punctuation, and spelling errors in the following transcribed text. Return only the corrected text, no explanations. Preserve the original language. Text: ";

/// A request to correct a transcription.
pub struct CorrectionRequest {
    pub text: String,
    /// `off`, `ollama` or `api`.
    pub mode: String,
    /// For Ollama its base URL; for `api` an OpenAI-compatible base URL.
    pub endpoint: String,
    pub model: String,
    /// Bearer token for `api` mode; empty for none.
    pub api_key: String,
}

/// Whether an Ollama server has the requested model.
pub struct OllamaModelStatus {
    pub endpoint: String,
    pub requested_model: String,
    pub installed_models: Vec<String>,
    pub available: bool,
}

/// Where a correction request goes.
#[derive(PartialEq, Eq, Structural, Clone, Copy, Debug)]
pub enum CorrectionMode {
    /// The text comes back as it is.
    Off,
    /// A local Ollama server.
    Ollama,
    /// An OpenAI-compatible chat completions API.
    Api,
}

/// The mode that a mode name selects, or the error for an unknown name.
pub open spec fn correction_mode_spec(mode: Seq<char>) -> Result<CorrectionMode, Seq<char>> {
    if mode == "off"@ {
        Ok(CorrectionMode::Off)
    } else if mode == "ollama"@ {
        Ok(CorrectionMode::Ollama)
    } else if mode == "api"@ {
        Ok(CorrectionMode::Api)
    } else {
        Err("Unknown correction mode: "@ + mode)
    }
}

/// Selects the correction mode by its name.
pub fn correction_mode(mode: &str) -> (r: Result<CorrectionMode, String>)
    ensures
        match r {
            Ok(m) => correction_mode_spec(mode@) == Ok::<CorrectionMode, Seq<char>>(m),
            Err(e) => correction_mode_spec(mode@) == Err::<CorrectionMode, Seq<char>>(e@),
        },
{
    proof {
        reveal_strlit("off");
        reveal_strlit("ollama");
        reveal_strlit("api");
    }
    if str_eq(mode, "off") {
        Ok(CorrectionMode::Off)
    } else if str_eq(mode, "ollama") {
        Ok(CorrectionMode::Ollama)
    } else if str_eq(mode, "api") {
        Ok(CorrectionMode::Api)
    } else {
        Err(concat("Unknown correction mode: ", mode))
    }
}

/// Some name in the list is exactly `model`.
pub open spec fn has_model(installed: Seq<Seq<char>>, model: Seq<char>) -> bool {
    exists|i: int| 0 <= i < installed.len() && installed[i] == model
}

/// Whether `model` is among the installed names.
pub fn is_model_installed(installed: &[String], model: &str) -> (r: bool)
    ensures
        r == has_model(views(installed@), model@),
{
    let mut i: usize = 0;
    while i < installed.len()
        invariant
            i <= installed@.len(),
            forall|k: int| 0 <= k < i ==> views(installed@)[k] != model@,
        decreases installed@.len() - i,
    {
        if str_eq(installed[i].as_str(), model) {
            assert(views(installed@)[i as int] == model@);
            return true;
        }
        i = i + 1;
    }
    false
}

/// The status that `check_ollama_model` reports for a model, given the
/// names that the server lists.
pub fn ollama_model_status(endpoint: String, model: String, installed_models: Vec<String>) -> (r:
    OllamaModelStatus)
    ensures
        r.endpoint == endpoint,
        r.requested_model == model,
        r.installed_models == installed_models,
        r.available == has_model(views(installed_models@), model@),
{
    let available = is_model_installed(installed_models.as_slice(), model.as_str());
    OllamaModelStatus { endpoint, requested_model: model, installed_models, available }
}

/// The message for a model that the Ollama server does not have.
pub open spec fn model_missing_spec(model: Seq<char>, installed: Seq<Seq<char>>) -> Seq<char> {
    if installed.len() == 0 {
        "Ollama model '"@ + model + "' is not installed. Run `ollama pull "@ + model
            + "` or choose a model from `ollama list`."@
    } else {
        "Ollama model '"@ + model + "' is not installed. Installed models: "@ + join_spec(
            installed,
            ", "@,
        ) + ". Run `ollama pull "@ + model + "` or choose an installed model."@
    }
}

/// The message for a model that the Ollama server does not have: it names
/// the model, the installed ones, and the pull command.
pub fn ollama_model_missing_message(model: &str, installed_models: &[String]) -> (r: String)
    ensures
        r@ == model_missing_spec(model@, views(installed_models@)),
{
    if installed_models.len() == 0 {
        let a = concat("Ollama model '", model);
        let b = concat(a.as_str(), "' is not installed. Run `ollama pull ");
        let c = concat(b.as_str(), model);
        return concat(c.as_str(), "` or choose a model from `ollama list`.");
    }
    let list = join(installed_models, ", ");
    let a = concat("Ollama model '", model);
    let b = concat(a.as_str(), "' is not installed. Installed models: ");
    let c = concat(b.as_str(), list.as_str());
    let d = concat(c.as_str(), ". Run `ollama pull ");
    let e = concat(d.as_str(), model);
    concat(e.as_str(), "` or choose an installed model.")
}

/// Checks that the model is installed before a request to Ollama.
pub fn require_installed_model(model: &str, installed_models: &[String]) -> (r: Result<(), String>)
    ensures
        r is Ok <==> has_model(views(installed_models@), model@),
        r matches Err(e) ==> e@ == model_missing_spec(model@, views(installed_models@)),
{
    if is_model_installed(installed_models, model) {
        Ok(())
    } else {
        Err(ollama_model_missing_message(model, installed_models))
    }
}

/// The names of the models in an Ollama model list: `models` holds, where
/// the reply has a `models` array, the `name` of each entry that has a
/// string one.
pub open spec fn model_names_spec(models: Option<Seq<Option<String>>>) -> Seq<Seq<char>> {
    match models {
        None => Seq::empty(),
        Some(entries) => entries.filter(|e: Option<String>| e is Some).map_values(
            |e: Option<String>| e->0@,
        ),
    }
}

/// Collects the model names out of an Ollama model list, skipping entries
/// without a string name; no list gives no names.
pub fn parse_ollama_model_names(models: Option<Vec<Option<String>>>) -> (r: Vec<String>)
    ensures
        views(r@) == model_names_spec(
            match models {
                Some(v) => Some(v@),
                None => None,
            },
        ),
{
    match models {
        None => {
            let r: Vec<String> = Vec::new();
            assert(views(r@) =~= Seq::<Seq<char>>::empty());
            r
        },
        Some(entries) => {
            let mut r: Vec<String> = Vec::new();
            let mut i: usize = 0;
            let ghost pred = |e: Option<String>| e is Some;
            let ghost f = |e: Option<String>| e->0@;
            while i < entries.len()
                invariant
                    i <= entries@.len(),
                    pred == (|e: Option<String>| e is Some),
                    f == (|e: Option<String>| e->0@),
                    views(r@) == entries@.take(i as int).filter(pred).map_values(f),
                decreases entries@.len() - i,
            {
                proof {
                    reveal(Seq::filter);
                    assert(entries@.take((i + 1) as int).drop_last() =~= entries@.take(i as int));
                }
                match &entries[i] {
                    Some(name) => {
                        let ghost before = r@;
                        r.push(name.clone());
                        assert(views(r@) =~= views(before).push(name@));
                    },
                    None => {},
                }
                i = i + 1;
            }
            assert(entries@.take(entries@.len() as int) =~= entries@);
            r
        },
    }
}

/// `<endpoint>/api/tags`, the endpoint's trailing slashes removed.
pub fn ollama_tags_url(endpoint: &str) -> (r: String)
    ensures
        r@ == trim_end_char(endpoint@, '/') + "/api/tags"@,
{
    let base = trim_end_matches_char(endpoint, '/');
    concat(base.as_str(), "/api/tags")
}

/// `<endpoint>/api/generate`, the endpoint's trailing slashes removed.
pub fn ollama_generate_url(endpoint: &str) -> (r: String)
    ensures
        r@ == trim_end_char(endpoint@, '/') + "/api/generate"@,
{
    let base = trim_end_matches_char(endpoint, '/');
    concat(base.as_str(), "/api/generate")
}

/// `<endpoint>/chat/completions`, the endpoint's trailing slashes removed.
pub fn chat_completions_url(endpoint: &str) -> (r: String)
    ensures
        r@ == trim_end_char(endpoint@, '/') + "/chat/completions"@,
{
    let base = trim_end_matches_char(endpoint, '/');
    concat(base.as_str(), "/chat/completions")
}

/// The prompt sent for correction: the instruction, then the text.
pub fn correction_prompt(text: &str) -> (r: String)
    ensures
        r@ == CORRECTION_PROMPT@ + text@,
{
    concat(CORRECTION_PROMPT, text)
}

/// The result of a correction from the reply's text field (`None` where the
/// reply has no such string): the text trimmed, or `error_prefix` followed
/// by the reply's JSON.
pub fn correction_reply(reply_text: Option<&str>, error_prefix: &str, reply_json: &str) -> (r: Result<
    String,
    String,
>)
    ensures
        match reply_text {
            Some(t) => r matches Ok(c) && c@ == trim_spec(t@),
            None => r matches Err(e) && e@ == error_prefix@ + reply_json@,
        },
{
    match reply_text {
        Some(t) => Ok(trim(t)),
        None => Err(concat(error_prefix, reply_json)),
    }
}

/// `Ollama is not reachable at <endpoint>: <error>. Is Ollama running?`
pub fn ollama_unreachable_message(endpoint: &str, error: &str) -> (r: String)
    ensures
        r@ == "Ollama is not reachable at "@ + endpoint@ + ": "@ + error@
            + ". Is Ollama running?"@,
{
    let a = concat("Ollama is not reachable at ", endpoint);
    let b = concat(a.as_str(), ": ");
    let c = concat(b.as_str(), error);
    concat(c.as_str(), ". Is Ollama running?")
}

/// `Ollama request failed: <error>. Is Ollama running?`
pub fn ollama_request_failed_message(error: &str) -> (r: String)
    ensures
        r@ == "Ollama request failed: "@ + error@ + ". Is Ollama running?"@,
{
    let a = concat("Ollama request failed: ", error);
    concat(a.as_str(), ". Is Ollama running?")
}

/// `<lead> <status>: <body>` for an HTTP status that is not a success.
pub fn http_status_message(lead: &str, status: &str, body: &str) -> (r: String)
    ensures
        r@ == lead@ + " "@ + status@ + ": "@ + body@,
{
    let a = concat(lead, " ");
    let b = concat(a.as_str(), status);
    let c = concat(b.as_str(), ": ");
    concat(c.as_str(), body)
}

} // verus!
