use ollama_predict::prompt::ChatMessage;
use ollama_predict::provider::{append_delta, ChatDelta, OllamaCompletionProvider};
use ollama_predict::window::TextWindow;

fn window(prefix: &str, suffix: &str) -> TextWindow {
    TextWindow {
        prefix: prefix.to_string(),
        suffix: suffix.to_string(),
        workspace_summary: "Language: Rust\n".to_string(),
    }
}

fn provider(model: &str) -> OllamaCompletionProvider {
    OllamaCompletionProvider::new(Some(model.to_string()), None, None)
}

#[test]
fn configuration_defaults() {
    let p = OllamaCompletionProvider::new(Some(String::new()), Some(String::new()), Some(String::new()));
    assert!(!p.is_enabled());
    assert_eq!(p.api_url, "http://localhost:11434");
    assert!(p.api_key.is_none());
    let p = OllamaCompletionProvider::new(Some("m".into()), Some("http://h:1".into()), Some("k".into()));
    assert!(p.is_enabled());
    assert_eq!(p.api_url, "http://h:1");
    assert_eq!(p.api_key.as_deref(), Some("k"));
}

#[test]
fn no_model_means_no_request() {
    let mut p = OllamaCompletionProvider::new(None, None, None);
    assert!(p.refresh(1, 5, window("a", "b"), true).is_none());
    assert!(!p.is_refreshing());
    assert!(p.suggest(1, 5).is_none());
}

#[test]
fn refresh_builds_request() {
    let mut p = provider("llama3");
    let r = p.refresh(1, 5, window("let x", ""), true).unwrap();
    assert!(r.debounce);
    assert!(r.request.stream);
    assert_eq!(r.request.num_predict, 256);
    assert_eq!(r.request.model, "llama3");
    assert_eq!(r.request.messages.len(), 2);
    assert!(p.is_refreshing());
}

#[test]
fn completion_is_stored_and_served() {
    let mut p = provider("llama3");
    let r = p.refresh(7, 3, window("let x = ", ";"), false).unwrap();
    p.finish_refresh(r.task, "`42;`");
    assert!(!p.is_refreshing());
    let s = p.suggest(7, 3).unwrap();
    assert_eq!((s.start, s.end), (3, 3));
    assert_eq!(s.text, "42");
}

#[test]
fn empty_stream_gives_no_suggestion() {
    let mut p = provider("llama3");
    let r = p.refresh(1, 0, window("", ""), false).unwrap();
    let mut completion = String::new();
    let done = append_delta(
        &mut completion,
        &ChatDelta { message: ChatMessage::Assistant { content: String::new() }, done: true },
    );
    assert!(done);
    p.finish_refresh(r.task, &completion);
    assert!(p.suggest(1, 0).is_none());
    assert!(!p.is_refreshing());
}

#[test]
fn superseded_refresh_is_ignored() {
    let mut p = provider("llama3");
    let first = p.refresh(1, 10, window("a", ""), true).unwrap();
    let second = p.refresh(1, 11, window("ab", ""), true).unwrap();
    assert_ne!(first.task, second.task);
    p.finish_refresh(first.task, "first");
    assert!(p.suggest(1, 10).is_none());
    assert!(p.is_refreshing());
    p.finish_refresh(second.task, "second");
    assert_eq!(p.suggest(1, 11).unwrap().text, "second");
    p.finish_refresh(first.task, "late");
    assert_eq!(p.suggest(1, 11).unwrap().text, "second");
}

#[test]
fn other_cursor_or_buffer_gets_nothing() {
    let mut p = provider("llama3");
    let r = p.refresh(2, 4, window("x", ""), false).unwrap();
    p.finish_refresh(r.task, "yz");
    assert!(p.suggest(2, 4).is_some());
    assert!(p.suggest(2, 5).is_none());
    assert!(p.suggest(3, 4).is_none());
}

#[test]
fn accept_and_discard_clear() {
    let mut p = provider("llama3");
    let r = p.refresh(2, 4, window("x", ""), false).unwrap();
    p.finish_refresh(r.task, "yz");
    p.cycle(2, 4, true);
    assert!(p.suggest(2, 4).is_some());
    p.accept();
    assert!(p.suggest(2, 4).is_none());
    let r = p.refresh(2, 4, window("x", ""), false).unwrap();
    p.finish_refresh(r.task, "yz");
    p.discard();
    assert!(p.suggest(2, 4).is_none());
}

#[test]
fn new_refresh_hides_stored_prediction() {
    let mut p = provider("llama3");
    let r = p.refresh(2, 4, window("x", ""), false).unwrap();
    p.finish_refresh(r.task, "yz");
    let _ = p.refresh(2, 4, window("x", ""), false).unwrap();
    assert!(p.suggest(2, 4).is_none());
}

#[test]
fn failure_ends_refresh() {
    let mut p = provider("llama3");
    let r = p.refresh(2, 4, window("x", ""), false).unwrap();
    p.fail_refresh(r.task + 1);
    assert!(p.is_refreshing());
    p.fail_refresh(r.task);
    assert!(!p.is_refreshing());
    assert!(p.suggest(2, 4).is_none());
}

#[test]
fn fim_result_is_not_post_processed() {
    let mut p = provider("deepseek-coder");
    let r = p.refresh(1, 1, window("x", "y"), false).unwrap();
    assert_eq!(r.request.messages.len(), 1);
    p.finish_refresh(r.task, "`x`y");
    assert_eq!(p.suggest(1, 1).unwrap().text, "`x`y");
}

#[test]
fn deltas_are_concatenated() {
    let mut c = String::new();
    assert!(!append_delta(&mut c, &ChatDelta { message: ChatMessage::Assistant { content: "ab".into() }, done: false }));
    assert!(!append_delta(&mut c, &ChatDelta { message: ChatMessage::User { content: "zz".into() }, done: false }));
    assert!(append_delta(&mut c, &ChatDelta { message: ChatMessage::Assistant { content: "c".into() }, done: true }));
    assert_eq!(c, "abc");
}
