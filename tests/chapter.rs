use novel_translator::backend::{
    gemini_endpoint, interpret_reply, ollama_endpoint, select_backend, Backend, BackendError,
    ConfigError, GeminiConfig, LlmConfig, OllamaConfig,
};
use novel_translator::chapter::{
    analysis_request, translation_request, ChapterAction, ChapterError, ChapterEvent,
    ChapterPhase, ChapterRun, TranslationSettings,
};
use novel_translator::glossary::{AnalysisResult, ChapterGlossary};

fn settings() -> TranslationSettings {
    TranslationSettings {
        target_language: "繁體中文".to_string(),
        max_summary_length: 200,
        max_dictionary_size: 50,
        analysis_prompt: "To {{ target_lang }} in {{ summary_len }}/{{ glossary_limit }}. Before: {{ prev_summary }}. Known: {{ existing_glossary }}".to_string(),
        translation_prompt: "To {{ target_lang }}. Story: {{ summary }}. Use: {{ glossary }}".to_string(),
    }
}

fn prior() -> ChapterGlossary {
    ChapterGlossary {
        chapter_name: "ch1".to_string(),
        summary: "Alice met Bob.".to_string(),
        terms: vec![("Bob".to_string(), "鮑伯".to_string()), ("Alice".to_string(), "愛麗絲".to_string())],
    }
}

fn started() -> (ChapterRun, ChapterAction) {
    ChapterRun::start(settings(), "ch2".to_string(), "ch2.txt".to_string(), "Chapter two.".to_string(), prior())
}

fn analysed_and_saved() -> ChapterRun {
    let (mut run, _) = started();
    run.step(ChapterEvent::Reply(Ok("```json\n{}\n```".to_string())));
    let a = AnalysisResult {
        summary: "Bob left.".to_string(),
        new_terms: vec![("Bob".to_string(), "包柏".to_string()), ("Carol".to_string(), "卡羅".to_string())],
    };
    run.step(ChapterEvent::Decoded(Some(a)));
    run.step(ChapterEvent::Stored(Ok(())));
    run
}

#[test]
fn analysis_prompt_is_rendered() {
    let q = analysis_request(&settings(), &"text".to_string(), &prior()).unwrap();
    assert!(q.json_mode);
    assert_eq!(q.user_content, "text");
    assert_eq!(
        q.system_prompt,
        "To 繁體中文 in 200/50. Before: Alice met Bob.. Known: {\"Alice\":\"愛麗絲\",\"Bob\":\"鮑伯\"}"
    );
}

#[test]
fn translation_prompt_is_rendered() {
    let q = translation_request(&settings(), &"text".to_string(), &prior()).unwrap();
    assert!(!q.json_mode);
    assert_eq!(
        q.system_prompt,
        "To 繁體中文. Story: Alice met Bob.. Use: {\"Alice\":\"愛麗絲\",\"Bob\":\"鮑伯\"}"
    );
}

#[test]
fn broken_template_is_reported() {
    let mut s = settings();
    s.analysis_prompt = "{% if %}".to_string();
    let r = analysis_request(&s, &"text".to_string(), &prior());
    assert!(matches!(r, Err(ChapterError::Template(_))));
    let (run, action) = ChapterRun::start(s, "c".to_string(), "c.txt".to_string(), String::new(), ChapterGlossary::empty());
    assert_eq!(run.phase, ChapterPhase::Failed);
    assert!(matches!(action, ChapterAction::Abort(ChapterError::Template(_))));
}

#[test]
fn chapter_runs_both_passes() {
    let (mut run, action) = started();
    assert_eq!(run.phase, ChapterPhase::AwaitAnalysis);
    match action {
        ChapterAction::Call(q) => {
            assert!(q.json_mode);
            assert_eq!(q.user_content, "Chapter two.");
        }
        _ => panic!("expected the analysis call"),
    }
    match run.step(ChapterEvent::Reply(Ok("```json\n{\"summary\":\"x\"}\n```".to_string()))) {
        ChapterAction::Decode(j) => assert_eq!(j, "\n{\"summary\":\"x\"}\n"),
        _ => panic!("expected a decode"),
    }
    let a = AnalysisResult {
        summary: "Bob left.".to_string(),
        new_terms: vec![("Bob".to_string(), "包柏".to_string()), ("Carol".to_string(), "卡羅".to_string())],
    };
    match run.step(ChapterEvent::Decoded(Some(a))) {
        ChapterAction::SaveGlossary(g) => {
            assert_eq!(g.chapter_name, "ch2");
            assert_eq!(g.summary, "Bob left.");
            assert_eq!(
                g.terms,
                vec![
                    ("Bob".to_string(), "包柏".to_string()),
                    ("Alice".to_string(), "愛麗絲".to_string()),
                    ("Carol".to_string(), "卡羅".to_string()),
                ]
            );
        }
        _ => panic!("expected the snapshot to be saved"),
    }
    assert!(!run.saved);
    match run.step(ChapterEvent::Stored(Ok(()))) {
        ChapterAction::Call(q) => {
            assert!(!q.json_mode);
            assert_eq!(
                q.system_prompt,
                "To 繁體中文. Story: Bob left.. Use: {\"Alice\":\"愛麗絲\",\"Bob\":\"包柏\",\"Carol\":\"卡羅\"}"
            );
        }
        _ => panic!("expected the translation call"),
    }
    assert!(run.saved);
    match run.step(ChapterEvent::Reply(Ok("第一行\\n第二行".to_string()))) {
        ChapterAction::WriteOutput { file_name, text } => {
            assert_eq!(file_name, "ch2.txt");
            assert_eq!(text, "第一行\n第二行");
        }
        _ => panic!("expected the output to be written"),
    }
    match run.step(ChapterEvent::Stored(Ok(()))) {
        ChapterAction::Finish(g) => {
            assert_eq!(g.summary, "Bob left.");
            assert_eq!(g.terms.len(), 3);
        }
        _ => panic!("expected the chapter to finish"),
    }
    assert_eq!(run.phase, ChapterPhase::Complete);
}

#[test]
fn translation_failure_keeps_saved_snapshot() {
    let mut run = analysed_and_saved();
    assert_eq!(run.phase, ChapterPhase::AwaitTranslation);
    let action = run.step(ChapterEvent::Reply(Err(BackendError::Status("quota".to_string()))));
    match action {
        ChapterAction::Abort(ChapterError::Backend(BackendError::Status(b))) => assert_eq!(b, "quota"),
        _ => panic!("expected the chapter to abort"),
    }
    assert_eq!(run.phase, ChapterPhase::Failed);
    assert!(run.saved);
    assert_eq!(run.snapshot.summary, "Bob left.");
    assert!(matches!(run.step(ChapterEvent::Stored(Ok(()))), ChapterAction::Abort(ChapterError::OutOfOrder)));
}

#[test]
fn undecodable_analysis_keeps_raw_reply() {
    let (mut run, _) = started();
    run.step(ChapterEvent::Reply(Ok("not json at all".to_string())));
    match run.step(ChapterEvent::Decoded(None)) {
        ChapterAction::Abort(ChapterError::Parse { raw }) => assert_eq!(raw, "not json at all"),
        _ => panic!("expected a parse error"),
    }
    assert_eq!(run.phase, ChapterPhase::Failed);
    assert!(!run.saved);
}

#[test]
fn storage_failures_abort() {
    let (mut run, _) = started();
    run.step(ChapterEvent::Reply(Ok("{}".to_string())));
    run.step(ChapterEvent::Decoded(Some(AnalysisResult { summary: String::new(), new_terms: Vec::new() })));
    match run.step(ChapterEvent::Stored(Err("disk full".to_string()))) {
        ChapterAction::Abort(ChapterError::Storage(m)) => assert_eq!(m, "disk full"),
        _ => panic!("expected a storage error"),
    }
    let mut run = analysed_and_saved();
    run.step(ChapterEvent::Reply(Ok("t".to_string())));
    assert!(matches!(run.step(ChapterEvent::Stored(Err("no".to_string()))), ChapterAction::Abort(ChapterError::Storage(_))));
}

#[test]
fn analysis_call_failure_aborts() {
    let (mut run, _) = started();
    let action = run.step(ChapterEvent::Reply(Err(BackendError::Transport("down".to_string()))));
    assert!(matches!(action, ChapterAction::Abort(ChapterError::Backend(BackendError::Transport(_)))));
    assert!(!run.saved);
}

#[test]
fn events_out_of_order_abort() {
    let (mut run, _) = started();
    assert!(matches!(run.step(ChapterEvent::Stored(Ok(()))), ChapterAction::Abort(ChapterError::OutOfOrder)));
    assert_eq!(run.phase, ChapterPhase::Failed);
}

#[test]
fn backend_is_selected_by_provider() {
    let gemini = GeminiConfig { api_key: "SECRET-REDACTED".to_string(), model: "gemini-pro".to_string() };
    let ollama = OllamaConfig { base_url: "http://localhost:11434/".to_string(), model: "llama3".to_string() };
    let cfg = LlmConfig { provider: "gemini".to_string(), gemini: Some(gemini.clone()), ollama: None };
    assert!(matches!(select_backend(&cfg), Ok(Backend::Gemini(g)) if g.model == "gemini-pro"));
    let cfg = LlmConfig { provider: "ollama".to_string(), gemini: None, ollama: Some(ollama) };
    assert!(matches!(select_backend(&cfg), Ok(Backend::Ollama(o)) if o.model == "llama3"));
    let cfg = LlmConfig { provider: "ollama".to_string(), gemini: Some(gemini), ollama: None };
    assert!(matches!(select_backend(&cfg), Err(ConfigError::MissingSection(s)) if s == "ollama"));
    let cfg = LlmConfig { provider: "gemini".to_string(), gemini: None, ollama: None };
    assert!(matches!(select_backend(&cfg), Err(ConfigError::MissingSection(s)) if s == "gemini"));
    let cfg = LlmConfig { provider: "openai".to_string(), gemini: None, ollama: None };
    assert!(matches!(select_backend(&cfg), Err(ConfigError::UnknownProvider(s)) if s == "openai"));
}

#[test]
fn endpoints_are_built() {
    let g = GeminiConfig { api_key: "KEY".to_string(), model: "gemini-pro".to_string() };
    assert_eq!(
        gemini_endpoint(&g),
        "https://generativelanguage.googleapis.com/v1beta/models/gemini-pro:generateContent?key=KEY"
    );
    let o = OllamaConfig { base_url: "http://localhost:11434//".to_string(), model: "m".to_string() };
    assert_eq!(ollama_endpoint(&o), "http://localhost:11434/api/chat");
    let o = OllamaConfig { base_url: "http://host".to_string(), model: "m".to_string() };
    assert_eq!(ollama_endpoint(&o), "http://host/api/chat");
}

#[test]
fn replies_are_interpreted() {
    assert_eq!(interpret_reply(true, "{}".to_string(), Some("hi".to_string())).unwrap(), "hi");
    assert!(matches!(interpret_reply(true, "{}".to_string(), None), Err(BackendError::MissingText)));
    assert!(matches!(interpret_reply(false, "bad key".to_string(), Some("hi".to_string())), Err(BackendError::Status(b)) if b == "bad key"));
}

#[test]
fn rendering_template_gives_request_at_start() {
    let (run, action) = started();
    assert_eq!(run.phase, ChapterPhase::AwaitAnalysis);
    match action {
        ChapterAction::Call(q) => assert_eq!(
            q.system_prompt,
            "To 繁體中文 in 200/50. Before: Alice met Bob.. Known: {\"Alice\":\"愛麗絲\",\"Bob\":\"鮑伯\"}"
        ),
        _ => panic!("expected the analysis call"),
    }
}

#[test]
fn broken_translation_template_aborts_after_save() {
    let mut s = settings();
    s.translation_prompt = "{{ summary".to_string();
    let (mut run, _) = ChapterRun::start(s, "c".to_string(), "c.txt".to_string(), "t".to_string(), prior());
    run.step(ChapterEvent::Reply(Ok("{}".to_string())));
    run.step(ChapterEvent::Decoded(Some(AnalysisResult { summary: "x".to_string(), new_terms: Vec::new() })));
    let action = run.step(ChapterEvent::Stored(Ok(())));
    assert!(matches!(action, ChapterAction::Abort(ChapterError::Template(_))));
    assert!(run.saved);
    assert_eq!(run.phase, ChapterPhase::Failed);
}
