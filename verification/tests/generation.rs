use gameassistant::ai_client::{AiClient, AiGenerateOptions, ChatMessage};
use gameassistant::generation::{
    gemini_request_body, read_gemini_answer, read_llama_answer, read_llama_response, GeminiReply,
    GeminiStep,
    DEFAULT_TEMPERATURE,
};
use gameassistant::json::{parse_json, Json};

fn user_message(content: &str) -> Vec<ChatMessage> {
    vec![ChatMessage {
        role: "user".to_string(),
        content: content.to_string(),
    }]
}

fn options() -> AiGenerateOptions {
    AiGenerateOptions {
        system_instruction: None,
        temperature: None,
        max_output_tokens: None,
        image_base64: None,
        thinking_budget: Some(0),
    }
}

fn shown(value: &Json) -> serde_json::Value {
    match value {
        Json::Null => serde_json::Value::Null,
        Json::Bool(flag) => serde_json::Value::Bool(*flag),
        Json::Number(written) => serde_json::from_str(written).unwrap(),
        Json::Text(text) => serde_json::Value::String(text.clone()),
        Json::Array(items) => serde_json::Value::Array(items.iter().map(shown).collect()),
        Json::Object(members) => serde_json::Value::Object(
            members
                .iter()
                .map(|member| (member.key.clone(), shown(&member.value)))
                .collect(),
        ),
    }
}

fn expected(source: &str) -> serde_json::Value {
    serde_json::from_str(source).unwrap()
}

fn answer(source: &str) -> GeminiReply {
    GeminiReply::Answer(parse_json(source).unwrap())
}

#[test]
fn gemini_retries_bounded_transient_http_failure_without_logging_key() {
    let client = AiClient::with_endpoint("http://127.0.0.1:1/v1beta".to_string());
    let mut generation = client
        .generate_gemini(
            "test-secret-key",
            "gemini-test",
            &user_message("hello"),
            &options(),
        )
        .expect("the key is plain");
    assert_eq!(
        generation.url(),
        "http://127.0.0.1:1/v1beta/models/gemini-test:generateContent"
    );
    assert_eq!(generation.key(), "test-secret-key");
    let step = generation.on_reply(GeminiReply::Refused {
        status: 503,
        shown: "503 Service Unavailable".to_string(),
    });
    assert!(matches!(step, GeminiStep::Ask(100)));
    assert_eq!(generation.model(), "gemini-test");
    match generation.on_reply(answer(
        r#"{"candidates":[{"content":{"parts":[{"text":"ok"}]}}]}"#,
    )) {
        GeminiStep::Answered(text) => assert_eq!(text, "ok"),
        _ => panic!("the second answer is usable"),
    }
}

#[test]
fn gemini_empty_response_is_retried_and_never_returned_as_success() {
    let client = AiClient::new();
    let mut generation = client
        .generate_gemini("test-key", "gemini-test", &user_message("hello"), &options())
        .expect("the key is plain");
    assert!(matches!(
        generation.on_reply(answer(r#"{"candidates":[]}"#)),
        GeminiStep::Ask(100)
    ));
    match generation.on_reply(answer(
        r#"{"candidates":[{"content":{"parts":[{"text":"recovered"}]}}]}"#,
    )) {
        GeminiStep::Answered(text) => assert_eq!(text, "recovered"),
        _ => panic!("the second answer is usable"),
    }
}

#[test]
fn bad_keys_are_refused_before_any_request() {
    let client = AiClient::new();
    assert_eq!(
        client
            .generate_gemini(" ", "m", &Vec::new(), &options())
            .err(),
        Some("Gemini API key is not set".to_string())
    );
    assert_eq!(
        client
            .generate_gemini("a b", "m", &Vec::new(), &options())
            .err(),
        Some("Gemini API key configuration is invalid".to_string())
    );
}

#[test]
fn every_model_and_key_is_tried_before_giving_up() {
    let client = AiClient::new();
    let mut generation = client
        .generate_gemini("one,two", "  ", &user_message("x"), &options())
        .expect("the keys are plain");
    let mut tried = vec![(
        generation.model().clone(),
        generation.key().clone(),
    )];
    let error = loop {
        match generation.on_reply(GeminiReply::Refused {
            status: 400,
            shown: "400 Bad Request".to_string(),
        }) {
            GeminiStep::Ask(pause) => {
                assert_eq!(pause, 0);
                tried.push((generation.model().clone(), generation.key().clone()));
            }
            GeminiStep::GaveUp(error) => break error,
            GeminiStep::Answered(_) => panic!("nothing was answered"),
        }
    };
    let mut wanted = Vec::new();
    for model in [
        "gemini-3.7-flash",
        "gemini-2.0-flash",
        "gemini-2.5-flash",
        "gemini-1.5-flash",
    ] {
        for key in ["one", "two"] {
            wanted.push((model.to_string(), key.to_string()));
        }
    }
    assert_eq!(tried, wanted);
    assert_eq!(error, "Gemini API error (gemini-1.5-flash, 400 Bad Request)");
}

#[test]
fn transport_failures_are_tried_three_times_with_growing_pauses() {
    let client = AiClient::new();
    let mut generation = client
        .generate_gemini("k", "gemini-2.0-flash", &user_message("x"), &options())
        .expect("the key is plain");
    let mut pauses = Vec::new();
    let error = loop {
        match generation.on_reply(GeminiReply::Failed("to https://h/?key=s".to_string())) {
            GeminiStep::Ask(pause) => pauses.push(pause),
            GeminiStep::GaveUp(error) => break error,
            GeminiStep::Answered(_) => panic!("nothing was answered"),
        }
    };
    assert_eq!(pauses, vec![100, 200, 0, 100, 200, 0, 100, 200]);
    assert_eq!(
        error,
        "HTTP request error (gemini-1.5-flash, 0): to https://h/?key=[REDACTED]"
    );
}

#[test]
fn unreadable_answers_are_told_as_such() {
    let client = AiClient::new();
    let mut generation = client
        .generate_gemini("k", "gemini-1.5-flash", &user_message("x"), &options())
        .expect("the key is plain");
    let error = loop {
        if let GeminiStep::GaveUp(error) = generation.on_reply(GeminiReply::Unreadable) {
            break error;
        }
    };
    assert_eq!(
        error,
        "Failed to parse Gemini response (gemini-2.5-flash, 0)"
    );
}

#[test]
fn requests_hold_messages_image_and_settings() {
    let messages = vec![
        ChatMessage {
            role: "assistant".to_string(),
            content: "a".to_string(),
        },
        ChatMessage {
            role: "system".to_string(),
            content: "b".to_string(),
        },
    ];
    let settings = AiGenerateOptions {
        system_instruction: Some("be brief".to_string()),
        temperature: Some("0.5".to_string()),
        max_output_tokens: Some(-3),
        image_base64: Some("data:image/png;base64,AAAA".to_string()),
        thinking_budget: Some(0),
    };
    assert_eq!(
        shown(&gemini_request_body(&messages, &settings)),
        expected(
            r#"{"contents":[
                {"role":"model","parts":[{"text":"a"}]},
                {"role":"user","parts":[{"text":"b"},
                    {"inline_data":{"mime_type":"image/png","data":"AAAA"}}]}],
                "system_instruction":{"parts":[{"text":"be brief"}]},
                "generationConfig":{"temperature":0.5,"maxOutputTokens":-3,
                    "thinkingConfig":{"thinkingBudget":0}}}"#
        )
    );
    let bare = AiGenerateOptions {
        system_instruction: Some(String::new()),
        temperature: None,
        max_output_tokens: None,
        image_base64: Some("BBBB".to_string()),
        thinking_budget: None,
    };
    assert_eq!(
        shown(&gemini_request_body(&Vec::new(), &bare)),
        expected(
            r#"{"contents":[{"role":"user",
                "parts":[{"inline_data":{"mime_type":"image/jpeg","data":"BBBB"}}]}]}"#
        )
    );
}

#[test]
fn thoughts_are_no_part_of_an_answer() {
    let answer = parse_json(
        r#"{"candidates":[{"content":{"parts":[
            {"thought":true,"text":"hidden"},
            {"thought_signature":null,"text":"hidden"},
            {"thought":false,"text":" one "},
            {"text":7},
            {"text":"two<thought>x</thought>"}]}},
            {"content":{"parts":[{"text":"other"}]}}]}"#,
    )
    .unwrap();
    assert_eq!(read_gemini_answer(&answer), "one two");
}

#[test]
fn a_local_server_is_asked_and_read() {
    let client = AiClient::new();
    let mut settings = options();
    settings.system_instruction = Some("s".to_string());
    let (endpoint, body) =
        client.generate_llama_cpp("http://localhost:8080//", &user_message("q"), &settings);
    assert_eq!(endpoint, "http://localhost:8080/v1/chat/completions");
    let mut wanted = expected(
        r#"{"messages":[{"role":"system","content":"s"},{"role":"user","content":"q"}],
            "max_tokens":300,"stream":false}"#,
    );
    wanted["temperature"] = serde_json::Value::from(0.7f32);
    assert_eq!(shown(&body), wanted);
    assert_eq!(
        serde_json::Value::from(0.7f32).to_string(),
        DEFAULT_TEMPERATURE
    );
    let reply = parse_json(r#"{"choices":[{"message":{"content":" hi "}}]}"#).unwrap();
    assert_eq!(read_llama_answer(&reply), "hi");
    let empty = parse_json(r#"{"choices":[]}"#).unwrap();
    assert_eq!(read_llama_answer(&empty), "");
    assert_eq!(
        read_llama_response(200, "200 OK", br#"{"choices":[{"message":{"content":" hi "}}]}"#),
        Ok("hi".to_string())
    );
    assert_eq!(
        read_llama_response(500, "500 Internal Server Error", b"{}"),
        Err("llama.cpp HTTP error: 500 Internal Server Error".to_string())
    );
    assert_eq!(
        read_llama_response(200, "200 OK", b"{"),
        Err("Failed to parse llama.cpp response: error decoding response body".to_string())
    );
}

#[test]
fn responses_are_taken_as_they_come() {
    let client = AiClient::new();
    let mut generation = client
        .generate_gemini("k", "gemini-1.5-flash", &user_message("x"), &options())
        .expect("the key is plain");
    assert!(matches!(generation.on_response(200, "200 OK", None), GeminiStep::Ask(100)));
    assert!(matches!(
        generation.on_response(200, "200 OK", Some(&vec![0xff])),
        GeminiStep::Ask(200)
    ));
    assert!(matches!(
        generation.on_response(404, "404 Not Found", Some(&b"{}".to_vec())),
        GeminiStep::Ask(0)
    ));
    assert_eq!(generation.model(), "gemini-2.0-flash");
    let body = br#"{"candidates":[{"content":{"parts":[{"text":"ok"}]}}]}"#.to_vec();
    match generation.on_response(299, "299", Some(&body)) {
        GeminiStep::Answered(text) => assert_eq!(text, "ok"),
        _ => panic!("the answer is usable"),
    }
    for _ in 0..3 {
        generation.on_response(400, "400 Bad Request", None);
    }
    match generation.on_response(300, "300 Multiple Choices", Some(&body)) {
        GeminiStep::GaveUp(error) => {
            assert_eq!(error, "Gemini API error (gemini-2.5-flash, 300 Multiple Choices)")
        }
        _ => panic!("nothing is left to try"),
    }
}
