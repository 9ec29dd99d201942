use yap_to_text::cleanup::{
    CleanupStep, OllamaClient, build_user_prompt, finish_response, get_recommended_models,
    language_name,
};
use yap_to_text::modes::TranscriptionMode;

#[test]
fn language_table_maps_known_codes() {
    assert_eq!(language_name("fr"), "French");
    assert_eq!(language_name("es"), "Spanish");
    assert_eq!(language_name("de"), "German");
    assert_eq!(language_name("it"), "Italian");
    assert_eq!(language_name("pt"), "Portuguese");
    assert_eq!(language_name("nl"), "Dutch");
    assert_eq!(language_name("ru"), "Russian");
    assert_eq!(language_name("zh"), "Chinese");
    assert_eq!(language_name("ja"), "Japanese");
    assert_eq!(language_name("ko"), "Korean");
    assert_eq!(language_name("ar"), "Arabic");
    assert_eq!(language_name("en"), "English");
}

#[test]
fn unknown_language_codes_pass_through() {
    assert_eq!(language_name("eo"), "eo");
    assert_eq!(language_name(""), "");
    assert_eq!(language_name("FR"), "FR");
}

#[test]
fn new_client_defaults() {
    let c = OllamaClient::new();
    assert_eq!(c.model, "gemma2:2b");
    assert!(c.is_enabled());
}

#[test]
fn set_model_and_enabled() {
    let mut c = OllamaClient::new();
    c.set_model("phi3:3.8b");
    assert_eq!(c.model, "phi3:3.8b");
    c.set_enabled(false);
    assert!(!c.is_enabled());
    assert_eq!(c.model, "phi3:3.8b");
}

#[test]
fn disabled_cleanup_returns_text_unchanged_without_a_request() {
    let mut c = OllamaClient::new();
    c.set_enabled(false);
    match c.cleanup_plan("  keep me as I am  ", Some("en"), "bullets") {
        CleanupStep::Done(t) => assert_eq!(t, "  keep me as I am  "),
        CleanupStep::Call(_) => panic!("disabled cleanup must not build a request"),
    }
}

#[test]
fn blank_text_returns_unchanged_without_a_request() {
    let c = OllamaClient::new();
    match c.cleanup_plan("   \n\t ", Some("en"), "default") {
        CleanupStep::Done(t) => assert_eq!(t, "   \n\t "),
        CleanupStep::Call(_) => panic!("blank text must not build a request"),
    }
    match c.cleanup_plan("", None, "default") {
        CleanupStep::Done(t) => assert_eq!(t, ""),
        CleanupStep::Call(_) => panic!("empty text must not build a request"),
    }
}

#[test]
fn bullets_plan_builds_the_exact_request() {
    let c = OllamaClient::new();
    let raw = "so basically we need to ship the thing by friday";
    match c.cleanup_plan(raw, Some("en"), "bullets") {
        CleanupStep::Call(req) => {
            assert_eq!(req.model, "gemma2:2b");
            assert_eq!(
                req.prompt,
                "Convert this English transcript to bullet points (keep in English):\n\nso \
                 basically we need to ship the thing by friday"
            );
            assert!(req.system.contains("(English)"));
            assert!(req.system.starts_with("You are a content organizer that NEVER translates."));
        },
        CleanupStep::Done(_) => panic!("an enabled client with real text must send a request"),
    }
}

#[test]
fn absent_language_uses_the_same_language_phrase() {
    let c = OllamaClient::new();
    match c.cleanup_plan("hello there friend", None, "default") {
        CleanupStep::Call(req) => {
            assert_eq!(
                req.prompt,
                "Clean this the same language transcript (keep in the same language, do NOT \
                 translate):\n\nhello there friend"
            );
        },
        CleanupStep::Done(_) => panic!("expected a request"),
    }
}

#[test]
fn user_prompts_follow_each_modes_action() {
    let p = build_user_prompt(TranscriptionMode::Summary, "German", "der text");
    assert_eq!(p, "Summarize this German transcript (keep in German):\n\nder text");
    let p = build_user_prompt(TranscriptionMode::Email, "English", "hi");
    assert_eq!(
        p,
        "Format this English transcript as a professional email (keep in English):\n\nhi"
    );
}

#[test]
fn finish_response_trims_whitespace_and_one_quote_layer() {
    assert_eq!(finish_response("  hello  "), "hello");
    assert_eq!(finish_response("\"hello\""), "hello");
    assert_eq!(finish_response(" \"hello there\" \n"), "hello there");
    assert_eq!(finish_response("\"\"nested\"\""), "\"nested\"");
    assert_eq!(finish_response("plain"), "plain");
    assert_eq!(finish_response("\"unbalanced"), "\"unbalanced");
    assert_eq!(finish_response(""), "");
}

#[test]
fn availability_needs_success_and_a_plausible_body() {
    let c = OllamaClient::new();
    assert!(!c.interpret_availability(false, None));
    assert!(!c.interpret_availability(false, Some("gemma2:2b")));
    assert!(c.interpret_availability(true, None));
    assert!(c.interpret_availability(true, Some("{\"models\":[]}")));
    assert!(c.interpret_availability(true, Some("... gemma2:2b ...")));
    assert!(!c.interpret_availability(true, Some("nothing relevant")));
}

#[test]
fn recommended_models_catalog() {
    let models = get_recommended_models();
    assert_eq!(models.len(), 4);
    assert_eq!(models[0], ("gemma2:2b", "Fast, good quality (1.6GB)"));
    assert_eq!(models[1], ("phi3:3.8b", "Better quality (2.2GB)"));
    assert_eq!(models[2], ("llama3.1:8b", "Best quality (4.7GB)"));
    assert_eq!(models[3], ("grmr", "Grammar-focused (experimental)"));
}
