use markdown_editor::render::MarkdownRenderer;
use markdown_editor::style::{style_props, StyleName, StyleProps};
use pulldown_cmark::HeadingLevel;

fn none() -> StyleProps {
    StyleProps {
        scale_percent: None,
        weight: None,
        foreground: None,
        background: None,
        italic: false,
        strikethrough: false,
        underline: false,
        monospace: false,
        size_points: None,
        left_margin: None,
        right_margin: None,
        pixels_above_lines: None,
        pixels_below_lines: None,
    }
}

#[test]
fn registry_lists_the_named_styles_in_order() {
    let renderer = MarkdownRenderer::new();
    let names: Vec<String> = renderer.styles().iter().map(|t| t.name.tag_name()).collect();
    assert_eq!(
        names,
        vec![
            "heading1", "heading2", "heading3", "heading4", "heading5", "heading6", "bold",
            "italic", "strikethrough", "code", "code_block", "quote", "list", "link",
            "alert_note", "alert_tip", "alert_important", "alert_warning", "alert_caution",
            "table_header", "table_cell",
        ]
    );
    for tag in renderer.styles() {
        assert_eq!(tag.props, style_props(&tag.name));
    }
}

#[test]
fn heading_one_properties() {
    assert_eq!(
        style_props(&StyleName::Heading(HeadingLevel::H1)),
        StyleProps {
            scale_percent: Some(220),
            weight: Some(800),
            foreground: Some(0x1f2937),
            pixels_below_lines: Some(8),
            ..none()
        }
    );
}

#[test]
fn code_block_properties() {
    assert_eq!(
        style_props(&StyleName::CodeBlock),
        StyleProps {
            monospace: true,
            background: Some(0xf8fafc),
            foreground: Some(0x1e293b),
            left_margin: Some(20),
            right_margin: Some(20),
            pixels_above_lines: Some(8),
            pixels_below_lines: Some(8),
            size_points: Some(12),
            ..none()
        }
    );
}

#[test]
fn alert_kinds_have_their_colors_and_unknown_ones_the_info_colors() {
    let tip = style_props(&StyleName::Alert("tip".to_string()));
    assert_eq!(tip.background, Some(0xdcfce7));
    assert_eq!(tip.foreground, Some(0x166534));
    assert_eq!(tip.left_margin, Some(20));
    let other = MarkdownRenderer::new().style_of(&StyleName::Alert("custom".to_string()));
    assert_eq!(other.background, Some(0xe5e7eb));
    assert_eq!(other.foreground, Some(0x374151));
}

#[test]
fn tag_names() {
    assert_eq!(StyleName::Heading(HeadingLevel::H6).tag_name(), "heading6");
    assert_eq!(StyleName::Alert("custom".to_string()).tag_name(), "alert_custom");
    assert_eq!(StyleName::TableHeader.tag_name(), "table_header");
}
