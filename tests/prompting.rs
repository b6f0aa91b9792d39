use ollama_predict::prompt::{build_fim_messages, build_messages, supports_fim, ChatMessage};
use ollama_predict::window::{collect_context, workspace_summary, TextWindow};

fn window(prefix: &str, suffix: &str, summary: &str) -> TextWindow {
    TextWindow {
        prefix: prefix.to_string(),
        suffix: suffix.to_string(),
        workspace_summary: summary.to_string(),
    }
}

fn user_content(m: &ChatMessage) -> String {
    match m {
        ChatMessage::User { content } => content.clone(),
        _ => panic!("not a user turn"),
    }
}

#[test]
fn fim_support_ignores_case() {
    assert!(supports_fim("deepseek-coder"));
    assert!(supports_fim("DeepSeek-Coder:6.7b"));
    assert!(supports_fim("CODELLAMA"));
    assert!(supports_fim("Granite-Code:8b"));
    assert!(supports_fim("bigcode/StarCoder2"));
    assert!(supports_fim("codegemma"));
    assert!(supports_fim("my-code-llama"));
    assert!(!supports_fim("llama3"));
    assert!(!supports_fim("qwen2.5-coder"));
    assert!(!supports_fim(""));
}

#[test]
fn unlisted_model_gets_chat_prompt() {
    let w = window("let x = 1;\n", "", "File: <untitled>\nLanguage: Rust\n");
    let m = build_messages(&w, "llama3");
    assert_eq!(m.len(), 2);
    assert!(matches!(m[0], ChatMessage::System { .. }));
    assert_eq!(
        user_content(&m[1]),
        "Language: Rust\n\nCode context before cursor:\nlet x = 1;\n█  <-- Complete from here\n\nGenerate only the code that should be inserted at the cursor position.\n"
    );
}

#[test]
fn deepseek_fim_prompt() {
    let w = window("def f():\n    ", "\nprint(1)", "");
    let m = build_messages(&w, "deepseek-coder");
    assert_eq!(m.len(), 1);
    assert_eq!(
        user_content(&m[0]),
        "<｜fim▁begin｜>def f():\n    <｜fim▁hole｜>\nprint(1)<｜fim▁end｜>"
    );
}

#[test]
fn fim_dispatch_order() {
    let w = window("P", "S", "");
    assert_eq!(user_content(&build_fim_messages(&w, "codellama:7b")[0]), "<PRE> P <SUF>S <MID>");
    assert_eq!(user_content(&build_fim_messages(&w, "starcoder2")[0]), "<fim_prefix>P<fim_suffix>S<fim_middle>");
    assert_eq!(user_content(&build_fim_messages(&w, "codegemma")[0]), "<|fim_prefix|>P<|fim_suffix|>S<|fim_middle|>");
}

#[test]
fn chat_prompt_limits_lines() {
    let mut prefix = String::new();
    for i in 0..20 {
        prefix.push_str(&format!("l{}\n", i));
    }
    let w = window(&prefix, "a\n\nb\nc\nd\n", "Language:Rust\n");
    let m = build_messages(&w, "mistral");
    let mut expected = String::from("Language: unknown\n\nCode context before cursor:\n");
    for i in 5..20 {
        expected.push_str(&format!("l{}\n", i));
    }
    expected.push_str("█  <-- Complete from here\n\nCode context after cursor:\na\nb\nc\n");
    expected.push_str("\nGenerate only the code that should be inserted at the cursor position.\n");
    assert_eq!(user_content(&m[1]), expected);
}

#[test]
fn blank_suffix_is_left_out() {
    let w = window("", "  \n \n", "Language: Go\n");
    let m = build_messages(&w, "mistral");
    assert_eq!(
        user_content(&m[1]),
        "Language: Go\n█  <-- Complete from here\n\nGenerate only the code that should be inserted at the cursor position.\n"
    );
}

#[test]
fn summary_lines() {
    assert_eq!(
        workspace_summary(None, None, 4, false),
        "File: <untitled>\nLanguage: unknown\nTab size: 4\nInsert spaces: true\n"
    );
    assert_eq!(
        workspace_summary(Some("src/main.rs"), Some("Rust"), 120, true),
        "File: src/main.rs\nLanguage: Rust\nTab size: 120\nInsert spaces: false\n"
    );
}

#[test]
fn window_respects_budgets() {
    let text: String = "é".repeat(3000);
    let w = collect_context(&text, 2600, None, None, 4, false);
    assert_eq!(w.prefix.chars().count(), 2000);
    assert_eq!(w.suffix.chars().count(), 400);
    let w = collect_context(&text, 100, None, None, 4, false);
    assert_eq!(w.prefix.chars().count(), 100);
    assert_eq!(w.suffix.chars().count(), 500);
}

#[test]
fn window_slices_at_cursor() {
    let w = collect_context("abc😀def", 4, Some("a.py"), Some("Python"), 2, true);
    assert_eq!(w.prefix, "abc😀");
    assert_eq!(w.suffix, "def");
    assert_eq!(w.workspace_summary, "File: a.py\nLanguage: Python\nTab size: 2\nInsert spaces: false\n");
}

#[test]
fn empty_suffix_lines_are_skipped() {
    let w = window("", "a\n\nb\nc\n", "Language: C\n");
    let m = build_messages(&w, "mistral");
    assert_eq!(
        user_content(&m[1]),
        "Language: C\n█  <-- Complete from here\n\nCode context after cursor:\na\nb\nc\n\nGenerate only the code that should be inserted at the cursor position.\n"
    );
}
