use aili::provider::{default_model, model_info, model_presets, CONTEXT_WINDOW};
use aili::text::{
    has_part, is_control, is_white_space, join, repeat, split_char, split_words, strip_prefix,
    to_decimal, trim,
};
use aili::width::char_width;

#[test]
fn white_space_and_control_are_those_of_std() {
    for n in 0..=0x10ffffu32 {
        if let Some(c) = char::from_u32(n) {
            assert_eq!(is_white_space(c), c.is_whitespace(), "{n:x}");
            assert_eq!(is_control(c), c.is_control(), "{n:x}");
        }
    }
}

#[test]
fn widths_are_those_of_unicode_width() {
    for n in 0..=0x10ffffu32 {
        if let Some(c) = char::from_u32(n) {
            let w = unicode_width::UnicodeWidthChar::width(c);
            assert_eq!(w.is_none(), c.is_control());
            assert!(w.unwrap_or(0) <= 3);
            if (0x20..0x7f).contains(&n) {
                assert_eq!(w, Some(1));
            }
            let wide = [0x4e00..=0x9fff, 0x3001..=0x3029, 0xff01..=0xff60];
            if wide.iter().any(|r| r.contains(&n)) {
                assert_eq!(w, Some(2));
            }
            let expected = if c == '\t' { 4 } else { w.unwrap_or(0) };
            assert_eq!(char_width(c), expected, "{n:x}");
        }
    }
    assert_eq!(char_width('a'), 1);
    assert_eq!(char_width('你'), 2);
    assert_eq!((char_width('，'), char_width('。')), (2, 2));
    assert_eq!(char_width('\u{301}'), 0);
}

#[test]
fn splitting_and_joining_are_those_of_std() {
    for s in ["", " ", "a", " a b\t\nc ", "\n", "a\n\nb\n", "你 好\u{3000}吗", "x\u{85}y"] {
        assert_eq!(trim(s), s.trim());
        assert_eq!(split_words(s), s.split_whitespace().collect::<Vec<_>>());
        let pieces = split_char(s, '\n');
        assert_eq!(pieces, s.split('\n').collect::<Vec<_>>());
        assert_eq!(join(&pieces, "\n"), s);
    }
    assert_eq!(join(&[], ", "), "");
    assert_eq!(repeat('─', 3), "───");
}

#[test]
fn parts_and_prefixes_are_those_of_std() {
    let texts = ["", "/", "/a", "a/", "deepseek-v4-pro", "prpro", "p"];
    for s in texts {
        for part in texts {
            assert_eq!(has_part(s, part), s.contains(part), "{s} {part}");
            assert_eq!(strip_prefix(s, part).as_deref(), s.strip_prefix(part), "{s} {part}");
        }
    }
}

#[test]
fn decimals_are_those_of_std() {
    for n in [0, 9, 10, 99, 100, 12345, u64::MAX] {
        assert_eq!(to_decimal(n), n.to_string());
    }
}

#[test]
fn model_is_told_by_its_name() {
    assert_eq!(model_info("deepseek-v4-pro").name, "DeepSeek V4 Pro");
    assert_eq!(model_info("anything").name, "DeepSeek V4 Flash");
    assert_eq!(default_model().id, "deepseek-v4-flash");
    let presets = model_presets();
    assert_eq!(presets.len(), 2);
    assert_eq!(presets[1].id, "deepseek-v4-pro");
    assert_eq!(presets[0].context_window, CONTEXT_WINDOW);
}
