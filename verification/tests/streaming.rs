use aili::chat::{Message, StreamChoice, StreamChunk, StreamDelta};
use aili::config::{Persona, ResolvedConfig, TuiConfig};
use aili::stream::anthropic::{self, DeltaEvent, DeltaPayload};
use aili::stream::console::{self, Backend};
use aili::stream::gemini::{
    self, GeminiCandidate, GeminiChunk, GeminiContentResp, GeminiPartResp,
};
use aili::stream::openai_compat;
use aili::stream::{
    after_failed_send, split_system, Next, SourceEvent, Step, StreamEvent, StreamFailure,
    StreamOutcome,
};

fn cfg(model: &str) -> ResolvedConfig<f32> {
    ResolvedConfig {
        base_url: "http://localhost:1".into(),
        api_key: "test".into(),
        model: model.into(),
        temperature: None,
        top_p: None,
        max_tokens: Some(256),
        stop: vec!["END".into()],
        persona: Persona::default(),
        tui: TuiConfig::default(),
    }
}

fn message(data: &str) -> SourceEvent {
    SourceEvent::Message(data.to_string())
}

fn tokens(step: &Step) -> Vec<String> {
    step.emit
        .iter()
        .filter_map(|e| match e {
            StreamEvent::Token(t) => Some(t.clone()),
            StreamEvent::Usage { .. } => None,
        })
        .collect()
}

fn is_done(next: &Next, closing: bool) -> bool {
    matches!(next, Next::Finish { outcome: StreamOutcome::Done, close } if *close == closing)
}

fn error_of(next: Next) -> String {
    match next {
        Next::Fail { error, .. } => error,
        _ => panic!("no failure"),
    }
}

fn delta(text: &str) -> String {
    format!("{{\"choices\":[{{\"delta\":{{\"content\":\"{text}\"}},\"finish_reason\":null}}]}}")
}

#[test]
fn streams_tokens_in_order() {
    let c = cfg("test-model");
    assert_eq!(openai_compat::request_url(&c), "http://localhost:1/chat/completions");
    let mut all: Vec<String> = Vec::new();
    let step = openai_compat::step(&c, SourceEvent::Open);
    assert!(step.emit.is_empty() && matches!(step.next, Next::Continue));
    for d in ["hel", "lo", " world"] {
        let step = openai_compat::step(&c, message(&delta(d)));
        assert!(matches!(step.next, Next::Continue));
        all.extend(tokens(&step));
    }
    let step = openai_compat::step(&c, message(" [DONE]\n"));
    assert!(step.emit.is_empty() && is_done(&step.next, true));
    assert_eq!(all, vec!["hel", "lo", " world"]);
    assert_eq!(all.concat(), "hello world");
}

#[test]
fn parses_delta_content() {
    let json = "{\"choices\":[{\"delta\":{\"content\":\"hello\"},\"finish_reason\":null}]}";
    let chunk = openai_compat::read_chunk(json).unwrap();
    assert_eq!(chunk.texts[0].as_deref(), Some("hello"));
    assert_eq!(chunk.total_tokens, None);
}

#[test]
fn parses_empty_delta() {
    let json = "{\"choices\":[{\"delta\":{},\"finish_reason\":\"stop\"}]}";
    let value: serde_json::Value = serde_json::from_str(json).unwrap();
    let chunk = openai_compat::read_chunk(json).unwrap();
    assert_eq!(chunk.texts.len(), 1);
    assert!(chunk.texts[0].is_none());
    assert_eq!(value["choices"][0]["finish_reason"].as_str(), Some("stop"));
}

#[test]
fn chunk_of_several_choices_and_usage() {
    let json = "{\"choices\":[{\"delta\":{\"content\":\"a\"}},{\"delta\":{}},\
                {\"delta\":{\"content\":\"\"}},{\"delta\":{\"content\":7}},\
                {\"delta\":{\"content\":\"b\"}}],\"usage\":{\"total_tokens\":42}}";
    let chunk = openai_compat::read_chunk(json).unwrap();
    assert_eq!(
        chunk.texts,
        vec![Some("a".to_string()), None, Some(String::new()), None, Some("b".to_string())]
    );
    let step = openai_compat::step(&cfg("m"), message(json));
    assert_eq!(step.emit.len(), 3);
    assert_eq!(tokens(&step), vec!["a", "b"]);
    assert!(matches!(step.emit[2], StreamEvent::Usage { total_tokens: 42 }));
}

#[test]
fn chunk_without_choices_is_silent() {
    for json in ["{}", "[]", "null", "3", "{\"choices\":3}", "{\"usage\":{\"total_tokens\":-1}}"] {
        let step = openai_compat::step(&cfg("m"), message(json));
        assert!(step.emit.is_empty() && matches!(step.next, Next::Continue), "{json}");
    }
}

#[test]
fn step_goes_by_what_was_read() {
    let chunk = openai_compat::Chunk {
        texts: vec![Some("a".into()), None, Some(String::new()), Some("b".into())],
        total_tokens: Some(5),
    };
    let step = openai_compat::read_step("raw", Ok(chunk));
    assert_eq!(tokens(&step), vec!["a", "b"]);
    assert!(matches!(step.emit[2], StreamEvent::Usage { total_tokens: 5 }));
    assert!(matches!(step.next, Next::Continue));
    let step = openai_compat::read_step("raw", Err("why".into()));
    assert!(step.emit.is_empty() && matches!(step.next, Next::Fail { close: false, .. }));
    assert_eq!(error_of(step.next), "malformed stream chunk: why\nraw: raw");
}

#[test]
fn malformed_chunk_fails_with_its_text() {
    assert!(openai_compat::read_chunk("{oops").is_err());
    let step = openai_compat::step(&cfg("m"), message("{oops"));
    let detail = serde_json::from_str::<serde_json::Value>("{oops").unwrap_err();
    assert!(matches!(step.next, Next::Fail { close: false, .. }));
    assert_eq!(error_of(step.next), format!("malformed stream chunk: {detail}\nraw: {{oops"));
}

#[test]
fn http_401_surfaces_status_and_body() {
    let failure = || {
        SourceEvent::Failed(StreamFailure::Status {
            status: "401 Unauthorized".into(),
            body: "{\"error\":{\"message\":\"bad key\"}}".into(),
        })
    };
    let step = openai_compat::step(&cfg("test-model"), failure());
    assert!(matches!(step.next, Next::Fail { close: true, .. }));
    let s = error_of(step.next);
    assert!(s.contains("401"), "missing status in: {s}");
    assert!(s.contains("bad key"), "missing body in: {s}");
    assert_eq!(
        s,
        "request to http://localhost:1 failed with HTTP 401 Unauthorized\nmodel: test-model\n\
         body: {\"error\":{\"message\":\"bad key\"}}"
    );
    let s = error_of(anthropic::step(&cfg("m"), &failure(), None).next);
    assert!(s.starts_with("Anthropic request to http://localhost:1 failed with HTTP 401"));
    let s = error_of(gemini::step(&cfg("m"), &failure(), None).next);
    assert!(s.starts_with("Gemini request to http://localhost:1 failed with HTTP 401"));
}

#[test]
fn other_failures_have_their_texts() {
    let c = cfg("m");
    let transport = StreamFailure::Transport { detail: "refused".into(), unreachable: true };
    let other = StreamFailure::Other { detail: "odd".into() };
    assert_eq!(
        openai_compat::format_error(&c, &transport),
        "transport error contacting http://localhost:1: refused\n\
         hint: check your network and that api.deepseek.com is reachable"
    );
    assert_eq!(
        openai_compat::format_error(&c, &other),
        "stream error from http://localhost:1: odd"
    );
    assert_eq!(
        anthropic::format_error(&c, &transport),
        "transport error contacting http://localhost:1 (anthropic): refused"
    );
    assert_eq!(anthropic::format_error(&c, &other), "Anthropic stream error: odd");
    assert_eq!(
        gemini::format_error(&c, &transport),
        "transport error contacting http://localhost:1 (gemini): refused"
    );
    assert_eq!(gemini::format_error(&c, &other), "Gemini stream error: odd");
}

fn text_delta(text: &str) -> DeltaEvent {
    DeltaEvent {
        kind: "content_block_delta".into(),
        delta: Some(DeltaPayload { kind: Some("text_delta".into()), text: Some(text.into()) }),
    }
}

#[test]
fn anthropic_stream_emits_text_deltas_in_order() {
    let c = cfg("test-model");
    assert_eq!(anthropic::request_url(&c), "http://localhost:1/messages");
    let mut all: Vec<String> = Vec::new();
    let bare = |kind: &str| DeltaEvent { kind: kind.into(), delta: None };
    let step = anthropic::step(&c, &message(""), Some(bare("message_start")));
    assert!(step.emit.is_empty() && matches!(step.next, Next::Continue));
    let step = anthropic::step(&c, &message(""), Some(bare("content_block_start")));
    assert!(step.emit.is_empty() && matches!(step.next, Next::Continue));
    for d in ["Hel", "lo, ", "Aili"] {
        let step = anthropic::step(&c, &message(""), Some(text_delta(d)));
        assert!(matches!(step.next, Next::Continue));
        all.extend(tokens(&step));
    }
    let step = anthropic::step(&c, &message(""), Some(bare("message_stop")));
    assert!(is_done(&step.next, true));
    assert_eq!(all, vec!["Hel", "lo, ", "Aili"]);
}

#[test]
fn anthropic_passes_over_what_is_no_text() {
    let c = cfg("m");
    let mut other = text_delta("x");
    other.delta.as_mut().unwrap().kind = Some("input_json_delta".into());
    for parsed in [None, Some(text_delta("")), Some(other)] {
        let step = anthropic::step(&c, &message("?"), parsed);
        assert!(step.emit.is_empty() && matches!(step.next, Next::Continue));
    }
}

fn part(text: &str, finish: Option<&str>) -> GeminiChunk {
    GeminiChunk {
        candidates: vec![GeminiCandidate {
            content: Some(GeminiContentResp {
                parts: vec![
                    GeminiPartResp { text: None },
                    GeminiPartResp { text: Some(text.into()) },
                ],
            }),
            finish_reason: finish.map(|s| s.to_string()),
        }],
    }
}

#[test]
fn gemini_stream_emits_parts_in_order() {
    let c = cfg("gemini-2.5-pro");
    assert_eq!(
        gemini::request_url(&c),
        "http://localhost:1/models/gemini-2.5-pro:streamGenerateContent?alt=sse"
    );
    let mut all: Vec<String> = Vec::new();
    for d in ["你好", "，"] {
        let step = gemini::step(&c, &message(""), Some(part(d, None)));
        assert!(matches!(step.next, Next::Continue));
        all.extend(tokens(&step));
    }
    let step = gemini::step(&c, &message(""), Some(part("Aili", Some("STOP"))));
    assert!(is_done(&step.next, true));
    all.extend(tokens(&step));
    assert_eq!(all.concat(), "你好，Aili");
    let step = gemini::step(&c, &message(""), None);
    assert!(step.emit.is_empty() && matches!(step.next, Next::Continue));
}

#[test]
fn cancel_aborts_mid_stream() {
    let c = cfg("test-model");
    let steps = vec![
        openai_compat::step(&c, SourceEvent::Cancelled),
        anthropic::step(&c, &SourceEvent::Cancelled, None),
        gemini::step(&c, &SourceEvent::Cancelled, None),
    ];
    for step in steps {
        assert!(step.emit.is_empty(), "got tokens during cancel: {:?}", step.emit);
        assert!(matches!(
            step.next,
            Next::Finish { outcome: StreamOutcome::Cancelled, close: true }
        ));
    }
}

#[test]
fn stream_that_ends_is_done() {
    let c = cfg("m");
    for event in [SourceEvent::Closed, SourceEvent::Ended] {
        assert!(is_done(&anthropic::step(&c, &event, None).next, false));
        assert!(is_done(&gemini::step(&c, &event, None).next, false));
        assert!(is_done(&openai_compat::step(&c, event).next, false));
    }
}

#[test]
fn lost_reader_cancels() {
    assert_eq!(
        after_failed_send(&StreamEvent::Token("t".into())),
        Some(StreamOutcome::Cancelled)
    );
    assert_eq!(after_failed_send(&StreamEvent::Usage { total_tokens: 1 }), None);
}

fn conversation() -> Vec<Message> {
    let system = |s: &str| Message { role: "system".into(), content: s.into() };
    vec![system("one"), Message::user("q"), system("two"), Message::assistant("a")]
}

#[test]
fn system_messages_stand_apart() {
    let (system, conv) = split_system(&conversation());
    assert_eq!(system.as_deref(), Some("one\ntwo"));
    assert_eq!(conv.len(), 2);
    assert_eq!((conv[0].role.as_str(), conv[0].content.as_str()), ("user", "q"));
    assert_eq!((conv[1].role.as_str(), conv[1].content.as_str()), ("assistant", "a"));
    assert_eq!(split_system(&[Message::user("q")]).0, None);
}

#[test]
fn anthropic_request_has_a_length() {
    let mut c = cfg("m");
    let r = anthropic::build_request(&c, &conversation());
    assert_eq!((r.model, r.max_tokens, r.stream), ("m", 256, true));
    assert_eq!(r.system.as_deref(), Some("one\ntwo"));
    assert_eq!(r.messages.len(), 2);
    assert_eq!(r.stop_sequences, vec!["END"]);
    c.max_tokens = None;
    assert_eq!(anthropic::build_request(&c, &[]).max_tokens, 4096);
}

#[test]
fn gemini_request_names_the_model_role() {
    let r = gemini::build_request(&cfg("m"), &conversation());
    assert_eq!(r.contents.len(), 2);
    assert_eq!(r.contents[0].role, "user");
    assert_eq!(r.contents[1].role, "model");
    assert_eq!(r.contents[1].parts[0].text, "a");
    let system = r.system_instruction.unwrap();
    assert_eq!((system.role.as_str(), system.parts[0].text.as_str()), ("system", "one\ntwo"));
    let g = r.generation_config.unwrap();
    assert_eq!(g.max_output_tokens, Some(256));
    assert_eq!(g.stop_sequences, vec!["END"]);
    assert_eq!(gemini::gemini_role("assistant"), "model");
    assert_eq!(gemini::gemini_role("tool"), "tool");
}

fn chunk(texts: &[Option<&str>]) -> StreamChunk {
    StreamChunk {
        choices: texts
            .iter()
            .map(|t| StreamChoice {
                delta: StreamDelta { content: t.map(|s| s.to_string()) },
                finish_reason: None,
            })
            .collect(),
    }
}

#[test]
fn console_writes_and_keeps_text() {
    let c = cfg("m");
    let backend = Backend { name: "vllm", local: true, hint: "start it" };
    let mut sink = String::from("so far ");
    let parsed = Ok(chunk(&[Some("a"), None, Some("b")]));
    let step = console::step(&c, &backend, &message("x"), &parsed, &mut sink);
    assert_eq!(step.write, "ab");
    assert!(matches!(step.next, Next::Continue));
    assert_eq!(sink, "so far ab");
    let step = console::step(&c, &backend, &message("[DONE]"), &parsed, &mut sink);
    assert_eq!(step.write, "\n");
    assert!(is_done(&step.next, true));
    let bad = Err("expected value".to_string());
    let step = console::step(&c, &backend, &message("x"), &bad, &mut sink);
    assert_eq!(error_of(step.next), "malformed stream chunk: expected value\nraw: x");
    let step = console::step(&c, &backend, &SourceEvent::Closed, &bad, &mut sink);
    assert!(is_done(&step.next, false));
    assert_eq!(sink, "so far ab");
}

#[test]
fn console_hints_where_a_local_server_is_down() {
    let c = cfg("m");
    let local = Backend { name: "vllm", local: true, hint: "start it" };
    let remote = Backend { name: "deepseek", local: false, hint: "no" };
    let transport =
        |unreachable| StreamFailure::Transport { detail: "refused".into(), unreachable };
    assert_eq!(
        console::format_stream_error(&c, &local, &transport(true)),
        "transport error contacting http://localhost:1 (vllm): refused\nhint: start it"
    );
    assert_eq!(
        console::format_stream_error(&c, &local, &transport(false)),
        "transport error contacting http://localhost:1 (vllm): refused"
    );
    assert_eq!(
        console::format_stream_error(&c, &remote, &transport(true)),
        "transport error contacting http://localhost:1 (deepseek): refused"
    );
    assert_eq!(
        console::format_stream_error(
            &c,
            &local,
            &StreamFailure::Status { status: "500".into(), body: "b".into() }
        ),
        "request to http://localhost:1 failed with HTTP 500\nprovider: vllm  model: m\nbody: b"
    );
    assert_eq!(
        console::format_stream_error(&c, &local, &StreamFailure::Other { detail: "o".into() }),
        "stream error from http://localhost:1 (vllm): o"
    );
    assert_eq!(console::probe_url(&c, &local).as_deref(), Some("http://localhost:1/models"));
    assert_eq!(console::probe_url(&c, &remote), None);
    assert_eq!(
        console::probe_error(&c, &local, "refused"),
        "could not reach http://localhost:1 (vllm): refused\nhint: start it"
    );
}
