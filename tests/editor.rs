use markdown_editor::editor::{editing_status, font_toggle_status, toggle_preview, word_count};

#[test]
fn words_are_runs_of_non_space() {
    assert_eq!(word_count(""), 0);
    assert_eq!(word_count("   \n\t"), 0);
    assert_eq!(word_count("one"), 1);
    assert_eq!(word_count("  two  words\nand\u{3000}more "), 4);
}

#[test]
fn status_follows_the_word_count() {
    assert_eq!(editing_status(0), "Ready");
    assert_eq!(editing_status(3), "Editing");
}

#[test]
fn preview_toggle_flips_visibility() {
    let hide = toggle_preview(true);
    assert!(!hide.preview_visible);
    assert_eq!(hide.icon_name, "view-dual-symbolic");
    assert_eq!(hide.tooltip, "Show Preview");
    assert_eq!(hide.status, "Preview hidden");
    let show = toggle_preview(false);
    assert!(show.preview_visible);
    assert_eq!(show.icon_name, "sidebar-show-right-symbolic");
    assert_eq!(show.status, "Preview shown");
}

#[test]
fn font_toggle_messages() {
    assert_eq!(font_toggle_status(true), "Switched to proportional font");
    assert_eq!(font_toggle_status(false), "Switched to monospace font");
}
