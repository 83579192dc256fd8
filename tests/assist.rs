use stratos_core::assist::{
    answer_value, chat_route, list_model_names, ollama_chunk_text, openai_chunk_text,
    translation_from_answer, ChatRoute,
};
use stratos_core::domain::TranslationRequest;

#[test]
fn local_model_routes_to_ollama() {
    match chat_route("local", None, None, None, "https://api.openai.com/v1") {
        Ok(ChatRoute::Ollama { url, model }) => {
            assert_eq!(url, "http://127.0.0.1:11434/api/chat");
            assert_eq!(model, "llama3");
        }
        _ => panic!("expected the local route"),
    }
    match chat_route("local", Some("http://box:1"), Some("mistral"), Some("k"), "x") {
        Ok(ChatRoute::Ollama { url, model }) => {
            assert_eq!(url, "http://box:1/api/chat");
            assert_eq!(model, "mistral");
        }
        _ => panic!("expected the local route"),
    }
}

#[test]
fn cloud_model_needs_a_key() {
    match chat_route("cloud", None, None, Some("test-key"), "http://mock") {
        Ok(ChatRoute::OpenAi { url, key }) => {
            assert_eq!(url, "http://mock/chat/completions");
            assert_eq!(key, "test-key");
        }
        _ => panic!("expected the cloud route"),
    }
    match chat_route("cloud", None, None, None, "http://mock") {
        Err(e) => assert_eq!(e, "No OpenAI API Key configured"),
        Ok(_) => panic!("expected an error"),
    }
}

#[test]
fn ollama_chunk_joins_message_contents() {
    let chunk = b"{\"message\":{\"content\":\"Hello\"},\"done\":false}\n\n{\"message\":{\"content\":\" world\"},\"done\":true}\nnot json\n";
    assert_eq!(ollama_chunk_text(chunk), "Hello world");
}

#[test]
fn openai_chunk_stops_at_done() {
    let chunk = b"data: {\"choices\":[{\"delta\":{\"content\":\"Hello OpenAI\"}}]}\n\ndata: [DONE]\ndata: {\"choices\":[{\"delta\":{\"content\":\"late\"}}]}\n";
    assert_eq!(openai_chunk_text(chunk), "Hello OpenAI");
    assert_eq!(openai_chunk_text(b"data: {}\n\ndata: [DONE]"), "");
    assert_eq!(openai_chunk_text(b": keep-alive\n"), "");
}

#[test]
fn model_names_from_tags() {
    let body = answer_value(r#"{"models":[{"name":"llama3"},{"size":1},{"name":"qwen"}]}"#).unwrap();
    assert_eq!(list_model_names(&body), vec!["llama3", "qwen"]);
    let none = answer_value(r#"{"other":[]}"#).unwrap();
    assert!(list_model_names(&none).is_empty());
    assert!(answer_value("{oops").is_none());
}

#[test]
fn translation_answer_is_read() {
    let body = answer_value(r#"[[["Hello ","Hallo ",null],["world","Welt",null]],null,"de"]"#).unwrap();
    let request = TranslationRequest { text: "Hallo Welt".to_string(), source_lang: None, target_lang: "en".to_string() };
    let result = translation_from_answer(&body, request).ok().unwrap();
    assert_eq!(result.translated_text, "Hello world");
    assert_eq!(result.original_text, "Hallo Welt");
    assert_eq!(result.source_language, "de");
    assert_eq!(result.target_language, "en");
}

#[test]
fn translation_without_segments_fails() {
    let body = answer_value(r#"[[], null, null]"#).unwrap();
    let request = TranslationRequest { text: "x".to_string(), source_lang: Some("fr".to_string()), target_lang: "en".to_string() };
    match translation_from_answer(&body, request) {
        Err(e) => assert_eq!(e, "No translated text in the response"),
        Ok(_) => panic!("expected an error"),
    }
    let body = answer_value(r#"[[["Bonjour",null]], null, 5]"#).unwrap();
    let request = TranslationRequest { text: "Hello".to_string(), source_lang: None, target_lang: "fr".to_string() };
    assert_eq!(translation_from_answer(&body, request).ok().unwrap().source_language, "auto");
}
