use markdown_editor::alert::preprocess;
use markdown_editor::events::{tokenize, MdEvent};
use markdown_editor::render::{render_events, MarkdownRenderer, Renderer, Run};
use markdown_editor::style::StyleName;
use pulldown_cmark::{HeadingLevel, TagEnd};

fn run(text: &str, styles: Vec<StyleName>) -> Run {
    Run { text: text.to_string(), styles }
}

fn plain(text: &str) -> Run {
    run(text, vec![])
}

fn render(text: &str) -> Vec<Run> {
    MarkdownRenderer::new().render_markdown(text)
}

#[test]
fn bold_and_italic_runs() {
    assert_eq!(
        render("**bold** and *italic*"),
        vec![
            run("bold", vec![StyleName::Bold]),
            plain(" and "),
            run("italic", vec![StyleName::Italic]),
            plain("\n\n"),
        ]
    );
}

#[test]
fn table_cells_are_tagged_by_row_kind() {
    assert_eq!(
        render("| A | B |\n|---|---|\n| 1 | 2 |"),
        vec![
            run("A", vec![StyleName::TableHeader]),
            plain(" | "),
            run("B", vec![StyleName::TableHeader]),
            plain(" | "),
            plain("\n"),
            run("1", vec![StyleName::TableCell]),
            plain(" | "),
            run("2", vec![StyleName::TableCell]),
            plain(" | "),
            plain("\n"),
        ]
    );
}

#[test]
fn nested_list_prefixes_count_the_depth() {
    assert_eq!(
        render_events(&tokenize("- a\n  - b")),
        vec![
            plain("• "),
            plain("a"),
            plain("•• "),
            plain("b"),
            plain("\n"),
            plain("\n"),
        ]
    );
}

#[test]
fn unterminated_alert_leaves_no_style_open() {
    let text = preprocess("> [!WARNING] careful\n> still here");
    let events = tokenize(&text);
    let mut renderer = Renderer::new();
    for e in &events {
        renderer.consume(e);
    }
    assert_eq!(renderer.stack_depth(), 0);
    let runs = renderer.into_runs();
    let warning = || vec![StyleName::Alert("warning".to_string())];
    assert!(runs.contains(&run("⚠️ Warning: careful", warning())));
    assert!(runs.contains(&run("still here", warning())));
}

#[test]
fn alert_block_renders_in_its_style_and_markers_vanish() {
    let runs = render("> [!TIP] hello\n> world");
    let tip = || vec![StyleName::Alert("tip".to_string())];
    assert_eq!(
        runs,
        vec![
            plain(" "),
            run("💡 Tip: hello", tip()),
            run(" ", vec![]),
            run("world", tip()),
            plain(" "),
            plain("\n\n"),
            plain("\n\n"),
        ]
    );
}

#[test]
fn preprocessing_flattens_indented_lists() {
    assert_eq!(
        render("- a\n  - b"),
        vec![plain("• "), plain("a"), plain("\n"), plain("• "), plain("b"), plain("\n")]
    );
}

#[test]
fn balanced_stream_ends_with_empty_stack() {
    let events = vec![
        MdEvent::Start(TagEnd::Paragraph),
        MdEvent::Start(TagEnd::Strong),
        MdEvent::Text("{{ALERT_START_NOTE}}".to_string()),
        MdEvent::Start(TagEnd::Link),
        MdEvent::Text("x".to_string()),
        MdEvent::End(TagEnd::Link),
        MdEvent::Text("{{ALERT_END_NOTE}}".to_string()),
        MdEvent::End(TagEnd::Strong),
        MdEvent::End(TagEnd::Paragraph),
    ];
    let mut renderer = Renderer::new();
    let mut depths = Vec::new();
    for e in &events {
        renderer.consume(e);
        depths.push(renderer.stack_depth());
    }
    assert_eq!(depths, vec![0, 1, 2, 3, 3, 2, 1, 0, 0]);
}

#[test]
fn closing_with_an_empty_stack_does_nothing_to_it() {
    let events = vec![
        MdEvent::End(TagEnd::Strong),
        MdEvent::Text("{{ALERT_END_X}}".to_string()),
        MdEvent::Text("after".to_string()),
    ];
    assert_eq!(render_events(&events), vec![plain("\n\n"), plain("after")]);
}

#[test]
fn heading_levels_and_paragraph_breaks() {
    assert_eq!(
        render("# One\n\n### Three"),
        vec![
            run("One", vec![StyleName::Heading(HeadingLevel::H1)]),
            plain("\n\n"),
            run("Three", vec![StyleName::Heading(HeadingLevel::H3)]),
            plain("\n\n"),
        ]
    );
}

#[test]
fn code_span_is_styled_inside_surrounding_styles() {
    assert_eq!(
        render("**a `c` b**"),
        vec![
            run("a ", vec![StyleName::Bold]),
            run("c", vec![StyleName::Bold, StyleName::Code]),
            run(" b", vec![StyleName::Bold]),
            plain("\n\n"),
        ]
    );
}

#[test]
fn code_block_keeps_its_text() {
    assert_eq!(
        render("```\nlet x = 1;\n\n```"),
        vec![run("let x = 1;\n\n", vec![StyleName::CodeBlock]), plain("\n\n")]
    );
}

#[test]
fn soft_breaks_follow_the_code_block_flag() {
    let events = vec![
        MdEvent::SoftBreak,
        MdEvent::Start(TagEnd::CodeBlock),
        MdEvent::SoftBreak,
        MdEvent::Text("  ".to_string()),
        MdEvent::End(TagEnd::CodeBlock),
        MdEvent::Text("  ".to_string()),
        MdEvent::HardBreak,
    ];
    assert_eq!(
        render_events(&events),
        vec![
            plain(" "),
            plain("\n"),
            run("  ", vec![StyleName::CodeBlock]),
            plain("\n\n"),
            plain("\n"),
        ]
    );
}

#[test]
fn rule_quote_link_and_html() {
    let line = format!("\n{}\n\n", "─".repeat(52));
    assert_eq!(
        render("---\n\n> [site](http://x)\n\n<div>hi</div>"),
        vec![
            plain(&line),
            run("site", vec![StyleName::Quote, StyleName::Link]),
            plain("\n\n"),
            plain("\n\n"),
            plain("<div>hi</div>"),
        ]
    );
}

#[test]
fn strikethrough_is_styled() {
    assert_eq!(
        render("~~gone~~"),
        vec![run("gone", vec![StyleName::Strikethrough]), plain("\n\n")]
    );
}

#[test]
fn list_depth_goes_back_down_after_a_list() {
    let events = vec![
        MdEvent::Start(TagEnd::List(false)),
        MdEvent::End(TagEnd::List(false)),
        MdEvent::End(TagEnd::List(false)),
        MdEvent::Start(TagEnd::Item),
    ];
    let mut renderer = Renderer::new();
    for e in &events {
        renderer.consume(e);
    }
    assert_eq!(renderer.list_depth(), 0);
    assert_eq!(renderer.into_runs(), vec![plain(" ")]);
}

#[test]
fn tokenizer_reports_tags_and_text() {
    assert_eq!(
        tokenize("# Hi\n\n`c`"),
        vec![
            MdEvent::Start(TagEnd::Heading(HeadingLevel::H1)),
            MdEvent::Text("Hi".to_string()),
            MdEvent::End(TagEnd::Heading(HeadingLevel::H1)),
            MdEvent::Start(TagEnd::Paragraph),
            MdEvent::Code("c".to_string()),
            MdEvent::End(TagEnd::Paragraph),
        ]
    );
}

#[test]
fn tokenizer_passes_over_task_markers() {
    let events = tokenize("- [x] done");
    assert!(events.contains(&MdEvent::Other));
}
