use ollama_predict::clean::{clean, strip_markdown_code_blocks, trim_redundant_prefix, trim_redundant_suffix};

#[test]
fn fenced_python_completion_is_unwrapped() {
    let r = clean("```python\nreturn a + b\n```", "def add(a, b):\n    ", "", false);
    assert_eq!(r, "return a + b");
}

#[test]
fn prefix_overlap_removes_only_the_matched_run() {
    let r = clean("import numpy as np\nprint(np)", "x = 1\nimport numpy as np", "", false);
    assert_eq!(r, "\nprint(np)");
}

#[test]
fn prefix_overlap_with_trailing_newline_in_prefix() {
    let r = clean("import numpy as np\nprint(np)", "x = 1\nimport numpy as np\n", "", false);
    assert_eq!(r, "print(np)");
}

#[test]
fn fim_completion_is_kept_verbatim() {
    let r = clean("```x``` ", "```", "```", true);
    assert_eq!(r, "```x``` ");
}

#[test]
fn byte_order_marks_are_trimmed() {
    assert_eq!(clean("\u{feff}\u{feff}foo\u{feff}", "", "", true), "foo");
    assert_eq!(clean("\u{feff} foo \u{feff}", "", "", false), "foo");
}

#[test]
fn inline_backticks_are_removed() {
    assert_eq!(strip_markdown_code_blocks("  `x + 1`  "), "x + 1");
    assert_eq!(strip_markdown_code_blocks("``"), "``");
    assert_eq!(strip_markdown_code_blocks("```\n```"), "``\n``");
}

#[test]
fn fence_with_crlf_lines() {
    assert_eq!(strip_markdown_code_blocks("```rs\r\na\r\nb\r\n```"), "a\nb");
}

#[test]
fn fence_without_closing_line_is_kept() {
    assert_eq!(strip_markdown_code_blocks("```\na\nb"), "```\na\nb");
}

#[test]
fn longest_prefix_overlap_wins() {
    let mut c = String::from("abcabcX");
    trim_redundant_prefix(&mut c, "zzabcabc");
    assert_eq!(c, "X");
}

#[test]
fn prefix_overlap_is_capped() {
    let run = "a".repeat(150);
    let mut c = run.clone();
    trim_redundant_prefix(&mut c, &run);
    assert_eq!(c.len(), 50);
}

#[test]
fn suffix_overlap_is_removed() {
    let mut c = String::from("foo(x);\n}");
    trim_redundant_suffix(&mut c, "\n}\nfn next() {}");
    assert_eq!(c, "foo(x);");
}

#[test]
fn suffix_overlap_is_capped() {
    let run = "b".repeat(100);
    let mut c = run.clone();
    trim_redundant_suffix(&mut c, &run);
    assert_eq!(c.len(), 20);
}

#[test]
fn overlap_respects_multibyte_characters() {
    let mut c = String::from("é!");
    trim_redundant_prefix(&mut c, "café");
    assert_eq!(c, "!");
}

#[test]
fn cleaning_a_clean_chat_completion_keeps_it() {
    let once = clean("```\nlet y = 2;\n```", "let x = 1;\n", "\n", false);
    assert_eq!(once, "let y = 2;");
    let twice = clean(&once, "let x = 1;\n", "\n", false);
    assert_eq!(twice, once);
}

#[test]
fn cleaning_twice_can_shorten_when_overlap_remains() {
    let once = clean("bb", "ab", "", false);
    assert_eq!(once, "b");
    assert_eq!(clean(&once, "ab", "", false), "");
}
