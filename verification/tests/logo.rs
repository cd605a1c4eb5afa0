use aili::logo::{
    lines as lines_of_small_logo, lines_for_scrollback, logo_height, logo_shape, logo_width, paragraph,
    plain_text, LogoShape,
};
use aili::style::{Alignment, Color, Style};

#[test]
fn logo_has_rows() {
    let shape = logo_shape();
    assert!(shape.left.len() >= 3);
    assert!(shape.right.len() >= 3);
    assert_eq!(shape.left.len(), shape.right.len());
}

#[test]
fn scrollback_lines_match_height() {
    let shape = logo_shape();
    let lines = lines_for_scrollback(shape, Color::Cyan, Color::DarkGray);
    assert_eq!(lines.len(), logo_height(shape));
}

#[test]
fn plain_text_has_no_markers() {
    let shape = logo_shape();
    let text = plain_text(shape);
    assert!(!text.contains('_'));
    assert!(!text.contains('^'));
    assert!(!text.contains('~'));
    assert!(!text.contains(','));
    assert!(text.contains('█'));
}

#[test]
fn logo_width_is_positive() {
    assert!(logo_width(logo_shape()) > 10);
}

#[test]
fn logo_is_exact() {
    let shape = logo_shape();
    assert_eq!((logo_width(shape), logo_height(shape)), (26, 5));
    assert!(plain_text(shape).starts_with(" ██████    ██  ██     ██  \n██    ██"));
    let lines = lines_for_scrollback(shape, Color::Cyan, Color::DarkGray);
    assert_eq!(lines[0].spans.len(), 25);
    assert_eq!(lines[0].spans[1].content, "█");
    assert_eq!(lines[0].spans[1].style, Style::fg(Color::Cyan));
    let p = paragraph(shape, Color::Cyan, Color::DarkGray);
    assert_eq!(p.lines, lines);
    assert_eq!(p.alignment, Alignment::Center);
    assert_eq!(lines_of_small_logo(), vec!["Aili"]);
}

#[test]
fn markers_become_glyphs() {
    let shape = LogoShape { left: &["_^~,x "], right: &["", "_"] };
    assert_eq!(plain_text(&shape), "█▀▀▄x   \n  █");
    let lines = lines_for_scrollback(&shape, Color::Cyan, Color::DarkGray);
    let content: Vec<&str> = lines[0].spans.iter().map(|s| s.content.as_str()).collect();
    assert_eq!(content, vec![" ", "▀", "▀", "▄", "x", " ", "  "]);
    assert_eq!(lines[0].spans[0].style.bg, Some(Color::DarkGray));
    assert_eq!(
        lines[0].spans[1].style,
        Style { fg: Some(Color::Cyan), bg: Some(Color::DarkGray), bold: false }
    );
    assert_eq!(lines[0].spans[2].style, Style::fg(Color::DarkGray));
    assert_eq!(lines[1].spans.len(), 2);
}
