//! What the chat and translation clients decide and read: where a chat
//! request goes, the text carried by each streamed chunk, the model names a
//! local server lists, and a translation service's answer. The HTTP
//! transport itself is not here.
use crate::domain::{TranslationRequest, TranslationResult};
use crate::json::{
    element, json_element, json_items, json_member, json_str, json_value_of, member,
    member_str, parse_json_value, str_member, value_items, value_str,
};
use crate::text::{
    chars_of, concat, decode_lossy, has_prefix, lines, lines_of, lossy_text, string_of,
    strings_view, trim, trimmed,
};
use vstd::prelude::*;

verus! {

/// A service that translates text.
pub trait TranslationService {
    fn translate(&self, request: TranslationRequest) -> Result<TranslationResult, String>;
}

/// Where a chat request goes.
pub enum ChatRoute {
    /// A local Ollama server: the chat endpoint and the model.
    Ollama { url: String, model: String },
    /// The OpenAI API: the chat endpoint and the key.
    OpenAi { url: String, key: String },
}

pub open spec fn or_default(o: Option<&str>, d: Seq<char>) -> Seq<char> {
    match o {
        Some(s) => s@,
        None => d,
    }
}

fn str_or<'a>(o: Option<&'a str>, d: &'a str) -> (r: &'a str)
    ensures
        r@ == or_default(o, d@),
{
    match o {
        Some(s) => s,
        None => d,
    }
}

/// Routes a chat request: to the local server where the preferred model is
/// `local`, else to OpenAI where a key is configured, else an error.
pub fn chat_route(
    preferred_model: &str,
    local_model_url: Option<&str>,
    ollama_model: Option<&str>,
    openai_api_key: Option<&str>,
    openai_base_url: &str,
) -> (r: Result<ChatRoute, String>)
    ensures
        preferred_model@ == "local"@ ==> (r matches Ok(ChatRoute::Ollama { url, model }) && url@
            == or_default(local_model_url, "http://127.0.0.1:11434"@) + "/api/chat"@ && model@
            == or_default(ollama_model, "llama3"@)),
        preferred_model@ != "local"@ && openai_api_key is Some ==> (r matches Ok(
            ChatRoute::OpenAi { url, key },
        ) && url@ == openai_base_url@ + "/chat/completions"@ && key@ == openai_api_key->Some_0@),
        preferred_model@ != "local"@ && openai_api_key is None ==> (r matches Err(e) && e@
            == "No OpenAI API Key configured"@),
{
    if preferred_model.to_string() == "local".to_string() {
        let base = str_or(local_model_url, "http://127.0.0.1:11434");
        let url = concat(base, "/api/chat");
        let model = str_or(ollama_model, "llama3").to_string();
        Ok(ChatRoute::Ollama { url, model })
    } else {
        match openai_api_key {
            Some(key) => {
                let url = concat(openai_base_url, "/chat/completions");
                Ok(ChatRoute::OpenAi { url, key: key.to_string() })
            },
            None => Err("No OpenAI API Key configured".to_string()),
        }
    }
}

/// The text of one line of an Ollama stream: the message content of its
/// JSON object; nothing for a blank line or one without that string.
pub open spec fn ollama_line_text(line: Seq<char>) -> Seq<char> {
    if trim(line).len() == 0 {
        seq![]
    } else {
        match json_value_of(line) {
            Some(v) => match str_member(json_member(v, "message"@), "content"@) {
                Some(c) => c,
                None => seq![],
            },
            None => seq![],
        }
    }
}

pub open spec fn ollama_text(ls: Seq<Seq<char>>) -> Seq<char>
    decreases ls.len(),
{
    if ls.len() == 0 {
        seq![]
    } else {
        ollama_text(ls.drop_last()) + ollama_line_text(ls.last())
    }
}

fn ollama_line(line: &str) -> (r: String)
    ensures
        r@ == ollama_line_text(line@),
{
    let cs = chars_of(line);
    let t = trimmed(&cs, 0, cs.len());
    assert(cs@.subrange(0, cs@.len() as int) == cs@);
    if t.as_str().unicode_len() == 0 {
        return String::new();
    }
    match parse_json_value(line) {
        Some(v) => {
            let message = member(&v, "message");
            match member_str(&message, "content") {
                Some(c) => c,
                None => String::new(),
            }
        },
        None => String::new(),
    }
}

/// The text carried by one chunk of an Ollama chat stream.
pub fn ollama_chunk_text(chunk: &[u8]) -> (r: String)
    ensures
        r@ == ollama_text(lines(lossy_text(chunk@))),
{
    let text = decode_lossy(chunk);
    let ls = lines_of(text.as_str());
    let ghost lv = strings_view(ls@);
    let mut out = String::new();
    let mut i: usize = 0;
    while i < ls.len()
        invariant
            i <= ls@.len(),
            lv == strings_view(ls@),
            out@ == ollama_text(lv.subrange(0, i as int)),
        decreases ls@.len() - i,
    {
        assert(lv.subrange(0, i + 1).drop_last() == lv.subrange(0, i as int));
        let piece = ollama_line(ls[i].as_str());
        out.append(piece.as_str());
        i += 1;
    }
    assert(lv.subrange(0, ls@.len() as int) == lv);
    out
}

/// The content delta of one OpenAI stream event's JSON data.
pub open spec fn openai_delta(data: Seq<char>) -> Seq<char> {
    match json_value_of(data) {
        Some(v) => match str_member(
            json_member(json_element(json_member(v, "choices"@), 0), "delta"@),
            "content"@,
        ) {
            Some(c) => c,
            None => seq![],
        },
        None => seq![],
    }
}

/// The text of an OpenAI stream chunk's lines so far, and whether the
/// `[DONE]` event ended it.
pub open spec fn openai_scan(ls: Seq<Seq<char>>) -> (Seq<char>, bool)
    decreases ls.len(),
{
    if ls.len() == 0 {
        (seq![], false)
    } else {
        let (acc, done) = openai_scan(ls.drop_last());
        let line = trim(ls.last());
        if done {
            (acc, true)
        } else if has_prefix(line, "data: "@) {
            let data = line.subrange("data: "@.len() as int, line.len() as int);
            if data == "[DONE]"@ {
                (acc, true)
            } else {
                (acc + openai_delta(data), false)
            }
        } else {
            (acc, false)
        }
    }
}

/// The text carried by one chunk of an OpenAI chat stream: the deltas of its
/// `data:` events, up to `[DONE]`.
pub fn openai_chunk_text(chunk: &[u8]) -> (r: String)
    ensures
        r@ == openai_scan(lines(lossy_text(chunk@))).0,
{
    let text = decode_lossy(chunk);
    let ls = lines_of(text.as_str());
    let ghost lv = strings_view(ls@);
    let mut out = String::new();
    let mut done = false;
    let mut i: usize = 0;
    while i < ls.len()
        invariant
            i <= ls@.len(),
            lv == strings_view(ls@),
            (out@, done) == openai_scan(lv.subrange(0, i as int)),
        decreases ls@.len() - i,
    {
        assert(lv.subrange(0, i + 1).drop_last() == lv.subrange(0, i as int));
        if !done {
            let cs = chars_of(ls[i].as_str());
            let line = trimmed(&cs, 0, cs.len());
            assert(cs@.subrange(0, cs@.len() as int) == cs@);
            if crate::text::starts_with(line.as_str(), "data: ") {
                let lc = chars_of(line.as_str());
                let k = "data: ".unicode_len();
                let data = string_of(&lc, k, lc.len());
                if data == "[DONE]".to_string() {
                    done = true;
                } else {
                    let delta = match parse_json_value(data.as_str()) {
                        Some(v) => {
                            let choices = member(&v, "choices");
                            let first = element(&choices, 0);
                            let d = member(&first, "delta");
                            match member_str(&d, "content") {
                                Some(c) => c,
                                None => String::new(),
                            }
                        },
                        None => String::new(),
                    };
                    out.append(delta.as_str());
                }
            }
        }
        i += 1;
    }
    assert(lv.subrange(0, ls@.len() as int) == lv);
    out
}

/// The names of the models in a list of model objects, skipping those
/// without a string name.
pub open spec fn names_of(ms: Seq<serde_json::Value>) -> Seq<Seq<char>>
    decreases ms.len(),
{
    if ms.len() == 0 {
        seq![]
    } else {
        match str_member(ms.last(), "name"@) {
            Some(n) => names_of(ms.drop_last()).push(n),
            None => names_of(ms.drop_last()),
        }
    }
}

/// The model names in a `/api/tags` answer: none where it lists no models.
pub open spec fn model_names(body: serde_json::Value) -> Seq<Seq<char>> {
    match json_items(json_member(body, "models"@)) {
        Some(ms) => names_of(ms),
        None => seq![],
    }
}

/// The model names that a local server's `/api/tags` answer lists.
pub fn list_model_names(body: &serde_json::Value) -> (r: Vec<String>)
    ensures
        strings_view(r@) == model_names(*body),
{
    let models = member(body, "models");
    let mut out: Vec<String> = Vec::new();
    match value_items(&models) {
        Some(ms) => {
            let mut i: usize = 0;
            while i < ms.len()
                invariant
                    i <= ms@.len(),
                    strings_view(out@) == names_of(ms@.subrange(0, i as int)),
                decreases ms@.len() - i,
            {
                assert(ms@.subrange(0, i + 1).drop_last() == ms@.subrange(0, i as int));
                match member_str(&ms[i], "name") {
                    Some(n) => {
                        out.push(n);
                        assert(strings_view(out@) == strings_view(out@.drop_last()).push(
                            out@.last()@,
                        ));
                    },
                    None => {},
                }
                i += 1;
            }
            assert(ms@.subrange(0, ms@.len() as int) == ms@);
        },
        None => {},
    }
    out
}

/// The translated text of a translation answer's segments: the first
/// string of each, joined.
pub open spec fn segments_text(segs: Seq<serde_json::Value>) -> Seq<char>
    decreases segs.len(),
{
    if segs.len() == 0 {
        seq![]
    } else {
        segments_text(segs.drop_last()) + match json_str(json_element(segs.last(), 0)) {
            Some(s) => s,
            None => seq![],
        }
    }
}

/// The translated text of an answer `[[segments...], _, detected, ...]`;
/// `None` where there are no segments or they hold no text.
pub open spec fn translated_text(body: serde_json::Value) -> Option<Seq<char>> {
    match json_items(json_element(body, 0)) {
        Some(segs) => if segments_text(segs).len() == 0 {
            None
        } else {
            Some(segments_text(segs))
        },
        None => None,
    }
}

/// The language the service detected, else the requested one, else `auto`.
pub open spec fn detected_language(body: serde_json::Value, source: Option<String>) -> Seq<char> {
    match json_str(json_element(body, 2)) {
        Some(s) => s,
        None => match source {
            Some(s) => s@,
            None => "auto"@,
        },
    }
}

/// Reads a translation service's answer to `request`.
pub fn translation_from_answer(body: &serde_json::Value, request: TranslationRequest) -> (r:
    Result<TranslationResult, String>)
    ensures
        translated_text(*body) is None ==> (r matches Err(e) && e@
            == "No translated text in the response"@),
        translated_text(*body) matches Some(t) ==> (r matches Ok(res) && res.translated_text@ == t
            && res.original_text@ == request.text@ && res.source_language@ == detected_language(
            *body,
            request.source_lang,
        ) && res.target_language@ == request.target_lang@),
{
    let first = element(body, 0);
    let translated = match value_items(&first) {
        Some(segs) => {
            let mut text = String::new();
            let mut i: usize = 0;
            while i < segs.len()
                invariant
                    i <= segs@.len(),
                    text@ == segments_text(segs@.subrange(0, i as int)),
                decreases segs@.len() - i,
            {
                assert(segs@.subrange(0, i + 1).drop_last() == segs@.subrange(0, i as int));
                let head = element(&segs[i], 0);
                match value_str(&head) {
                    Some(s) => text.append(s.as_str()),
                    None => {
                        assert(text@ + Seq::<char>::empty() =~= text@);
                    },
                }
                i += 1;
            }
            assert(segs@.subrange(0, segs@.len() as int) == segs@);
            if text.as_str().unicode_len() == 0 {
                None
            } else {
                Some(text)
            }
        },
        None => None,
    };
    match translated {
        None => Err("No translated text in the response".to_string()),
        Some(translated_text) => {
            let detected = element(body, 2);
            let source_language = match value_str(&detected) {
                Some(s) => s,
                None => match request.source_lang {
                    Some(s) => s,
                    None => "auto".to_string(),
                },
            };
            Ok(
                TranslationResult {
                    original_text: request.text,
                    translated_text,
                    source_language,
                    target_language: request.target_lang,
                },
            )
        },
    }
}

/// Decodes a JSON answer body.
pub fn answer_value(body: &str) -> (r: Option<serde_json::Value>)
    ensures
        r == json_value_of(body@),
{
    parse_json_value(body)
}

} // verus!
