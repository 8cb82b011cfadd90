//! Decisions of the editor window that depend only on plain values: the word
//! count and status line of the text being edited, and the effect of the view
//! and font toggles.
use crate::text::{char_is_white_space, chars_of, is_white_space};
use vstd::prelude::*;

verus! {

/// The number of words of `s`: maximal runs of characters that are not white space.
pub open spec fn word_total(s: Seq<char>) -> nat
    decreases s.len(),
{
    if s.len() == 0 {
        0
    } else {
        let starts_word = !is_white_space(s.last()) && (s.len() == 1 || is_white_space(
            s[s.len() - 2],
        ));
        word_total(s.drop_last()) + if starts_word {
            1nat
        } else {
            0nat
        }
    }
}

proof fn lemma_word_total_bound(s: Seq<char>)
    ensures
        word_total(s) <= s.len(),
    decreases s.len(),
{
    if s.len() > 0 {
        lemma_word_total_bound(s.drop_last());
    }
}

/// The number of words in `text`.
pub fn word_count(text: &str) -> (r: usize)
    ensures
        r == word_total(text@),
{
    let cs = chars_of(text);
    let mut count: usize = 0;
    let mut i: usize = 0;
    while i < cs.len()
        invariant
            i <= cs.len(),
            count == word_total(cs@.take(i as int)),
        decreases cs.len() - i,
    {
        proof {
            let t = cs@.take(i + 1);
            assert(t.drop_last() =~= cs@.take(i as int));
            lemma_word_total_bound(t);
        }
        if !char_is_white_space(cs[i]) && (i == 0 || char_is_white_space(cs[i - 1])) {
            count = count + 1;
        }
        i += 1;
    }
    assert(cs@.take(cs.len() as int) =~= cs@);
    count
}

/// The status line for a text with `words` words.
pub fn editing_status(words: usize) -> (r: &'static str)
    ensures
        words == 0 ==> r@ == "Ready"@,
        words > 0 ==> r@ == "Editing"@,
{
    if words == 0 {
        "Ready"
    } else {
        "Editing"
    }
}

/// What the view-mode button does to the window.
#[derive(Debug, PartialEq, Eq)]
pub struct PreviewToggle {
    /// Whether the preview is shown afterwards.
    pub preview_visible: bool,
    pub icon_name: &'static str,
    pub tooltip: &'static str,
    pub status: &'static str,
}

/// The effect of the view-mode button when the preview is `visible`: it is hidden
/// if shown and shown if hidden, and the button offers the opposite action.
pub fn toggle_preview(visible: bool) -> (r: PreviewToggle)
    ensures
        r.preview_visible == !visible,
        visible ==> r.icon_name@ == "view-dual-symbolic"@ && r.tooltip@ == "Show Preview"@
            && r.status@ == "Preview hidden"@,
        !visible ==> r.icon_name@ == "sidebar-show-right-symbolic"@ && r.tooltip@
            == "Hide Preview"@ && r.status@ == "Preview shown"@,
{
    if visible {
        PreviewToggle {
            preview_visible: false,
            icon_name: "view-dual-symbolic",
            tooltip: "Show Preview",
            status: "Preview hidden",
        }
    } else {
        PreviewToggle {
            preview_visible: true,
            icon_name: "sidebar-show-right-symbolic",
            tooltip: "Hide Preview",
            status: "Preview shown",
        }
    }
}

/// The status line after the font button switched away from monospace (`true`)
/// or to it (`false`).
pub fn font_toggle_status(was_monospace: bool) -> (r: &'static str)
    ensures
        was_monospace ==> r@ == "Switched to proportional font"@,
        !was_monospace ==> r@ == "Switched to monospace font"@,
{
    if was_monospace {
        "Switched to proportional font"
    } else {
        "Switched to monospace font"
    }
}

} // verus!
