use markdown_editor::alert::preprocess;

#[test]
fn text_without_alerts_is_trimmed_line_by_line() {
    assert_eq!(preprocess("  hello  \n\tworld \n"), "hello\nworld");
    assert_eq!(preprocess("# Title\n\n> quote"), "# Title\n\n> quote");
}

#[test]
fn empty_text_stays_empty() {
    assert_eq!(preprocess(""), "");
}

#[test]
fn carriage_returns_before_newlines_are_dropped() {
    assert_eq!(preprocess("a\r\nb\r\n"), "a\nb");
}

#[test]
fn tip_block_becomes_markers_title_and_body() {
    assert_eq!(
        preprocess("> [!TIP] hello\n> world"),
        "{{ALERT_START_TIP}}\n💡 Tip: hello\nworld\n{{ALERT_END_TIP}}"
    );
}

#[test]
fn each_known_kind_has_its_title() {
    let cases = [
        ("NOTE", "📝 Note"),
        ("TIP", "💡 Tip"),
        ("IMPORTANT", "⚠️ Important"),
        ("WARNING", "⚠️ Warning"),
        ("CAUTION", "🚨 Caution"),
    ];
    for (kind, title) in cases {
        let out = preprocess(&format!("> [!{}] x", kind));
        assert_eq!(
            out,
            format!("{{{{ALERT_START_{}}}}}\n{}: x\n{{{{ALERT_END_{}}}}}", kind, title, kind)
        );
    }
}

#[test]
fn kind_is_matched_in_any_case() {
    assert_eq!(
        preprocess("> [!NoTe] mixed"),
        "{{ALERT_START_NOTE}}\n📝 Note: mixed\n{{ALERT_END_NOTE}}"
    );
}

#[test]
fn unknown_kind_takes_the_info_title() {
    assert_eq!(
        preprocess("> [!custom]  spaced  "),
        "{{ALERT_START_CUSTOM}}\nℹ️ Info: spaced\n{{ALERT_END_CUSTOM}}"
    );
}

#[test]
fn opening_line_without_closing_bracket_passes_through() {
    assert_eq!(preprocess("  > [!NOTE no bracket  "), "> [!NOTE no bracket");
}

#[test]
fn block_ends_at_blank_line_which_is_kept() {
    assert_eq!(
        preprocess("> [!NOTE] a\n> b\n\nafter"),
        "{{ALERT_START_NOTE}}\n📝 Note: a\nb\n{{ALERT_END_NOTE}}\n\nafter"
    );
}

#[test]
fn unterminated_block_is_closed_at_end_of_input() {
    let out = preprocess("> [!WARNING] careful\n> still here");
    assert!(out.ends_with("{{ALERT_END_WARNING}}"));
    assert_eq!(out.matches("{{ALERT_START_").count(), 1);
    assert_eq!(out.matches("{{ALERT_END_").count(), 1);
}

#[test]
fn continuation_lines_keep_their_text_verbatim() {
    assert_eq!(
        preprocess("> [!NOTE]\n   >   indented  \n> \nplain"),
        "{{ALERT_START_NOTE}}\n📝 Note: \n  indented  \n\n{{ALERT_END_NOTE}}\nplain"
    );
}

#[test]
fn a_bare_quote_mark_ends_the_block() {
    assert_eq!(
        preprocess("> [!TIP] a\n>b"),
        "{{ALERT_START_TIP}}\n💡 Tip: a\n{{ALERT_END_TIP}}\n>b"
    );
}

#[test]
fn nested_alert_syntax_is_body_text() {
    assert_eq!(
        preprocess("> [!NOTE] outer\n> [!TIP] inner"),
        "{{ALERT_START_NOTE}}\n📝 Note: outer\n[!TIP] inner\n{{ALERT_END_NOTE}}"
    );
}

#[test]
fn two_blocks_in_a_row() {
    assert_eq!(
        preprocess("> [!NOTE] a\n> [!TIP]b"),
        "{{ALERT_START_NOTE}}\n📝 Note: a\n[!TIP]b\n{{ALERT_END_NOTE}}"
    );
    assert_eq!(
        preprocess("> [!NOTE] a\nx\n> [!TIP]b"),
        "{{ALERT_START_NOTE}}\n📝 Note: a\n{{ALERT_END_NOTE}}\nx\n{{ALERT_START_TIP}}\n💡 Tip: b\n{{ALERT_END_TIP}}"
    );
}
