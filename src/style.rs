//! The named styles that rendered runs carry, and the visual properties of each.
//! Sizes are integers: a scale in percent, font sizes in points, colours as
//! `0xRRGGBB`.
use crate::text::{chars_of, string_of, append_chars};
use pulldown_cmark::HeadingLevel;
use vstd::prelude::*;

verus! {

/// A style that can be active while text is rendered.
#[derive(Debug, PartialEq, Eq)]
pub enum StyleName {
    Heading(HeadingLevel),
    Bold,
    Italic,
    Strikethrough,
    Code,
    CodeBlock,
    Quote,
    List,
    Link,
    TableHeader,
    TableCell,
    /// An alert block, keyed by its kind in lower case.
    Alert(String),
}

/// The mathematical value of a `StyleName`.
pub enum StyleView {
    Heading(HeadingLevel),
    Bold,
    Italic,
    Strikethrough,
    Code,
    CodeBlock,
    Quote,
    List,
    Link,
    TableHeader,
    TableCell,
    Alert(Seq<char>),
}

impl View for StyleName {
    type V = StyleView;

    open spec fn view(&self) -> StyleView {
        match self {
            StyleName::Heading(h) => StyleView::Heading(*h),
            StyleName::Bold => StyleView::Bold,
            StyleName::Italic => StyleView::Italic,
            StyleName::Strikethrough => StyleView::Strikethrough,
            StyleName::Code => StyleView::Code,
            StyleName::CodeBlock => StyleView::CodeBlock,
            StyleName::Quote => StyleView::Quote,
            StyleName::List => StyleView::List,
            StyleName::Link => StyleView::Link,
            StyleName::TableHeader => StyleView::TableHeader,
            StyleName::TableCell => StyleView::TableCell,
            StyleName::Alert(k) => StyleView::Alert(k@),
        }
    }
}

impl StyleName {
    /// A copy with the same value.
    pub fn duplicate(&self) -> (r: StyleName)
        ensures
            r@ == self@,
    {
        match self {
            StyleName::Heading(h) => StyleName::Heading(*h),
            StyleName::Bold => StyleName::Bold,
            StyleName::Italic => StyleName::Italic,
            StyleName::Strikethrough => StyleName::Strikethrough,
            StyleName::Code => StyleName::Code,
            StyleName::CodeBlock => StyleName::CodeBlock,
            StyleName::Quote => StyleName::Quote,
            StyleName::List => StyleName::List,
            StyleName::Link => StyleName::Link,
            StyleName::TableHeader => StyleName::TableHeader,
            StyleName::TableCell => StyleName::TableCell,
            StyleName::Alert(k) => StyleName::Alert(k.clone()),
        }
    }

    /// The style's name as a text-view tag: `heading1` ... `heading6`, `bold`,
    /// `alert_<kind>` and so on.
    pub fn tag_name(&self) -> (r: String)
        ensures
            r@ == tag_name_of(self@),
    {
        let s = match self {
            StyleName::Heading(HeadingLevel::H1) => chars_of("heading1"),
            StyleName::Heading(HeadingLevel::H2) => chars_of("heading2"),
            StyleName::Heading(HeadingLevel::H3) => chars_of("heading3"),
            StyleName::Heading(HeadingLevel::H4) => chars_of("heading4"),
            StyleName::Heading(HeadingLevel::H5) => chars_of("heading5"),
            StyleName::Heading(HeadingLevel::H6) => chars_of("heading6"),
            StyleName::Bold => chars_of("bold"),
            StyleName::Italic => chars_of("italic"),
            StyleName::Strikethrough => chars_of("strikethrough"),
            StyleName::Code => chars_of("code"),
            StyleName::CodeBlock => chars_of("code_block"),
            StyleName::Quote => chars_of("quote"),
            StyleName::List => chars_of("list"),
            StyleName::Link => chars_of("link"),
            StyleName::TableHeader => chars_of("table_header"),
            StyleName::TableCell => chars_of("table_cell"),
            StyleName::Alert(k) => {
                let mut s = chars_of("alert_");
                append_chars(&mut s, &chars_of(k.as_str()));
                s
            },
        };
        string_of(&s)
    }
}

pub open spec fn tag_name_of(s: StyleView) -> Seq<char> {
    match s {
        StyleView::Heading(HeadingLevel::H1) => "heading1"@,
        StyleView::Heading(HeadingLevel::H2) => "heading2"@,
        StyleView::Heading(HeadingLevel::H3) => "heading3"@,
        StyleView::Heading(HeadingLevel::H4) => "heading4"@,
        StyleView::Heading(HeadingLevel::H5) => "heading5"@,
        StyleView::Heading(HeadingLevel::H6) => "heading6"@,
        StyleView::Bold => "bold"@,
        StyleView::Italic => "italic"@,
        StyleView::Strikethrough => "strikethrough"@,
        StyleView::Code => "code"@,
        StyleView::CodeBlock => "code_block"@,
        StyleView::Quote => "quote"@,
        StyleView::List => "list"@,
        StyleView::Link => "link"@,
        StyleView::TableHeader => "table_header"@,
        StyleView::TableCell => "table_cell"@,
        StyleView::Alert(k) => "alert_"@ + k,
    }
}

/// The visual properties of a style; `None` and `false` leave a property as it is.
#[derive(Debug, Clone, Copy, PartialEq, Eq, Structural)]
pub struct StyleProps {
    /// Font scale in percent.
    pub scale_percent: Option<u32>,
    pub weight: Option<u32>,
    pub foreground: Option<u32>,
    pub background: Option<u32>,
    pub italic: bool,
    pub strikethrough: bool,
    pub underline: bool,
    pub monospace: bool,
    pub size_points: Option<u32>,
    pub left_margin: Option<u32>,
    pub right_margin: Option<u32>,
    pub pixels_above_lines: Option<u32>,
    pub pixels_below_lines: Option<u32>,
}

pub open spec fn no_props() -> StyleProps {
    StyleProps {
        scale_percent: None,
        weight: None,
        foreground: None,
        background: None,
        italic: false,
        strikethrough: false,
        underline: false,
        monospace: false,
        size_points: None,
        left_margin: None,
        right_margin: None,
        pixels_above_lines: None,
        pixels_below_lines: None,
    }
}

pub open spec fn heading_props(h: HeadingLevel) -> StyleProps {
    match h {
        HeadingLevel::H1 => StyleProps {
            scale_percent: Some(220),
            weight: Some(800),
            foreground: Some(0x1f2937),
            pixels_below_lines: Some(8),
            ..no_props()
        },
        HeadingLevel::H2 => StyleProps {
            scale_percent: Some(180),
            weight: Some(700),
            foreground: Some(0x374151),
            pixels_below_lines: Some(6),
            ..no_props()
        },
        HeadingLevel::H3 => StyleProps {
            scale_percent: Some(150),
            weight: Some(600),
            foreground: Some(0x4b5563),
            pixels_below_lines: Some(4),
            ..no_props()
        },
        HeadingLevel::H4 => StyleProps {
            scale_percent: Some(130),
            weight: Some(600),
            foreground: Some(0x6b7280),
            pixels_below_lines: Some(3),
            ..no_props()
        },
        HeadingLevel::H5 => StyleProps {
            scale_percent: Some(110),
            weight: Some(500),
            foreground: Some(0x6b7280),
            ..no_props()
        },
        HeadingLevel::H6 => StyleProps {
            scale_percent: Some(100),
            weight: Some(500),
            foreground: Some(0x9ca3af),
            ..no_props()
        },
    }
}

/// An alert block's colours on a shared layout.
pub open spec fn alert_props(background: u32, foreground: u32) -> StyleProps {
    StyleProps {
        background: Some(background),
        foreground: Some(foreground),
        left_margin: Some(20),
        pixels_above_lines: Some(6),
        pixels_below_lines: Some(6),
        ..no_props()
    }
}

/// The colours of an alert kind; any kind but the five known ones takes the generic info colours.
pub open spec fn alert_colors(kind: Seq<char>) -> (u32, u32) {
    if kind == "note"@ {
        (0xdbeafe, 0x1e40af)
    } else if kind == "tip"@ {
        (0xdcfce7, 0x166534)
    } else if kind == "important"@ {
        (0xfef3c7, 0x92400e)
    } else if kind == "warning"@ {
        (0xfed7aa, 0xc2410c)
    } else if kind == "caution"@ {
        (0xfecaca, 0xdc2626)
    } else {
        (0xe5e7eb, 0x374151)
    }
}

/// The properties of each style.
pub open spec fn props_of(s: StyleView) -> StyleProps {
    match s {
        StyleView::Heading(h) => heading_props(h),
        StyleView::Bold => StyleProps { weight: Some(700), ..no_props() },
        StyleView::Italic => StyleProps { italic: true, ..no_props() },
        StyleView::Strikethrough => StyleProps { strikethrough: true, ..no_props() },
        StyleView::Code => StyleProps {
            monospace: true,
            background: Some(0xf3f4f6),
            foreground: Some(0xdc2626),
            size_points: Some(13),
            ..no_props()
        },
        StyleView::CodeBlock => StyleProps {
            monospace: true,
            background: Some(0xf8fafc),
            foreground: Some(0x1e293b),
            left_margin: Some(20),
            right_margin: Some(20),
            pixels_above_lines: Some(8),
            pixels_below_lines: Some(8),
            size_points: Some(12),
            ..no_props()
        },
        StyleView::Quote => StyleProps {
            left_margin: Some(20),
            italic: true,
            foreground: Some(0x6b7280),
            background: Some(0xf9fafb),
            pixels_above_lines: Some(4),
            pixels_below_lines: Some(4),
            ..no_props()
        },
        StyleView::List => StyleProps { left_margin: Some(20), ..no_props() },
        StyleView::Link => StyleProps {
            foreground: Some(0x2563eb),
            underline: true,
            ..no_props()
        },
        StyleView::TableHeader => StyleProps {
            weight: Some(700),
            background: Some(0xf3f4f6),
            ..no_props()
        },
        StyleView::TableCell => StyleProps {
            left_margin: Some(10),
            right_margin: Some(10),
            ..no_props()
        },
        StyleView::Alert(k) => alert_props(alert_colors(k).0, alert_colors(k).1),
    }
}

fn empty_props() -> (r: StyleProps)
    ensures
        r == no_props(),
{
    StyleProps {
        scale_percent: None,
        weight: None,
        foreground: None,
        background: None,
        italic: false,
        strikethrough: false,
        underline: false,
        monospace: false,
        size_points: None,
        left_margin: None,
        right_margin: None,
        pixels_above_lines: None,
        pixels_below_lines: None,
    }
}

fn heading_style(h: HeadingLevel) -> (r: StyleProps)
    ensures
        r == heading_props(h),
{
    let (scale, weight, color, below) = match h {
        HeadingLevel::H1 => (220, 800, 0x1f2937, Some(8)),
        HeadingLevel::H2 => (180, 700, 0x374151, Some(6)),
        HeadingLevel::H3 => (150, 600, 0x4b5563, Some(4)),
        HeadingLevel::H4 => (130, 600, 0x6b7280, Some(3)),
        HeadingLevel::H5 => (110, 500, 0x6b7280, None),
        HeadingLevel::H6 => (100, 500, 0x9ca3af, None),
    };
    StyleProps {
        scale_percent: Some(scale),
        weight: Some(weight),
        foreground: Some(color),
        pixels_below_lines: below,
        ..empty_props()
    }
}

fn alert_style(kind: &String) -> (r: StyleProps)
    ensures
        r == props_of(StyleView::Alert(kind@)),
{
    let k = chars_of(kind.as_str());
    let (background, foreground) = if crate::text::same_chars(&k, &chars_of("note")) {
        (0xdbeafe, 0x1e40af)
    } else if crate::text::same_chars(&k, &chars_of("tip")) {
        (0xdcfce7, 0x166534)
    } else if crate::text::same_chars(&k, &chars_of("important")) {
        (0xfef3c7, 0x92400e)
    } else if crate::text::same_chars(&k, &chars_of("warning")) {
        (0xfed7aa, 0xc2410c)
    } else if crate::text::same_chars(&k, &chars_of("caution")) {
        (0xfecaca, 0xdc2626)
    } else {
        (0xe5e7eb, 0x374151)
    };
    StyleProps {
        background: Some(background),
        foreground: Some(foreground),
        left_margin: Some(20),
        pixels_above_lines: Some(6),
        pixels_below_lines: Some(6),
        ..empty_props()
    }
}

/// The properties of the style `name`.
pub fn style_props(name: &StyleName) -> (r: StyleProps)
    ensures
        r == props_of(name@),
{
    match name {
        StyleName::Heading(h) => heading_style(*h),
        StyleName::Bold => StyleProps { weight: Some(700), ..empty_props() },
        StyleName::Italic => StyleProps { italic: true, ..empty_props() },
        StyleName::Strikethrough => StyleProps { strikethrough: true, ..empty_props() },
        StyleName::Code => StyleProps {
            monospace: true,
            background: Some(0xf3f4f6),
            foreground: Some(0xdc2626),
            size_points: Some(13),
            ..empty_props()
        },
        StyleName::CodeBlock => StyleProps {
            monospace: true,
            background: Some(0xf8fafc),
            foreground: Some(0x1e293b),
            left_margin: Some(20),
            right_margin: Some(20),
            pixels_above_lines: Some(8),
            pixels_below_lines: Some(8),
            size_points: Some(12),
            ..empty_props()
        },
        StyleName::Quote => StyleProps {
            left_margin: Some(20),
            italic: true,
            foreground: Some(0x6b7280),
            background: Some(0xf9fafb),
            pixels_above_lines: Some(4),
            pixels_below_lines: Some(4),
            ..empty_props()
        },
        StyleName::List => StyleProps { left_margin: Some(20), ..empty_props() },
        StyleName::Link => StyleProps {
            foreground: Some(0x2563eb),
            underline: true,
            ..empty_props()
        },
        StyleName::TableHeader => StyleProps {
            weight: Some(700),
            background: Some(0xf3f4f6),
            ..empty_props()
        },
        StyleName::TableCell => StyleProps {
            left_margin: Some(10),
            right_margin: Some(10),
            ..empty_props()
        },
        StyleName::Alert(k) => alert_style(k),
    }
}

} // verus!
