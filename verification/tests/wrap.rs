use aili::tui::wrap::wrap_text_block;

#[test]
fn wraps_cjk_without_inserting_spaces() {
    let lines = wrap_text_block("你好，你是什么模型？", 8);
    assert_eq!(lines.concat(), "你好，你是什么模型？");
    assert!(lines.iter().all(|line| !line.contains(' ')));
}

#[test]
fn wraps_long_text_by_width() {
    let lines = wrap_text_block("abcdef", 3);
    assert_eq!(lines, vec!["abc".to_string(), "def".to_string()]);
}

#[test]
fn wrapping_keeps_closing_punctuation_with_previous_char() {
    let lines = wrap_text_block("你的吗？", 7);
    assert_eq!(lines, vec!["你的".to_string(), "吗？".to_string()]);
}

#[test]
fn wrapping_handles_the_edges() {
    let wrap = |text: &str, width: usize| wrap_text_block(text, width);
    assert_eq!(wrap("", 5), vec![""]);
    assert_eq!(wrap("a\n\nb\n", 5), vec!["a", "", "b", ""]);
    assert_eq!(wrap("ab", 0), vec!["a", "b"]);
    assert_eq!(wrap("你好", 1), vec!["你", "好"]);
    assert_eq!(wrap("\tab", 4), vec!["\t", "ab"]);
    assert_eq!(wrap("e\u{301}f", 1), vec!["e\u{301}", "f"]);
    assert_eq!(wrap("a)", 1), vec!["a", ")"]);
    assert_eq!(wrap("ab)", 2), vec!["a", "b)"]);
    assert_eq!(wrap("ab))", 2), vec!["a", "b", "))"]);
}

#[test]
fn wrapping_loses_nothing() {
    let text = "The quick，brown 狐狸 (jumps) over】the \u{301}lazy\tdog。!";
    for width in 0..40 {
        assert_eq!(wrap_text_block(text, width).concat(), text);
    }
    let text = "one\ntwo three\n\nfour";
    for width in 0..12 {
        assert_eq!(wrap_text_block(text, width).concat(), text.replace('\n', ""));
    }
}

#[test]
fn wrapping_breaks_at_line_feeds() {
    for (a, b) in [("abcdef", "gh"), ("", "x"), ("x", ""), ("", ""), ("你好\n", "\n吗？")] {
        for width in 0..8 {
            let mut parts = wrap_text_block(a, width);
            parts.extend(wrap_text_block(b, width));
            assert_eq!(wrap_text_block(&format!("{a}\n{b}"), width), parts);
            assert!(parts.iter().all(|line| !line.contains('\n')));
        }
    }
}
