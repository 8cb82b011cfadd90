//! The style renderer: a state machine over tokenizer events that keeps a stack
//! of active styles, the list depth and the table-head flag, and emits text runs.
use crate::alert::{end_marker, lower_of, preprocess, preprocessed, start_marker, to_lower};
use crate::events::{event_views, markdown_events, tokenize, EventView, MdEvent};
use crate::style::{props_of, style_props, StyleName, StyleProps, StyleView};
use crate::text::{
    chars_of, ends_with, has_prefix, has_suffix, slice_chars, starts_with, string_of, trim,
    trim_chars,
};
use pulldown_cmark::{HeadingLevel, TagEnd};
use vstd::prelude::*;

verus! {

/// A piece of text and the styles active when it was emitted, innermost last.
#[derive(Debug, PartialEq, Eq)]
pub struct Run {
    pub text: String,
    pub styles: Vec<StyleName>,
}

pub struct RunView {
    pub text: Seq<char>,
    pub styles: Seq<StyleView>,
}

impl View for Run {
    type V = RunView;

    open spec fn view(&self) -> RunView {
        RunView { text: self.text@, styles: style_views(self.styles@) }
    }
}

pub open spec fn style_views(v: Seq<StyleName>) -> Seq<StyleView> {
    v.map_values(|s: StyleName| s@)
}

pub open spec fn run_views(v: Seq<Run>) -> Seq<RunView> {
    v.map_values(|r: Run| r@)
}

/// What the renderer carries from one event to the next.
pub struct RenderState {
    pub stack: Seq<StyleView>,
    pub list_depth: nat,
    pub in_code_block: bool,
    pub in_table_head: bool,
}

pub open spec fn initial_state() -> RenderState {
    RenderState { stack: Seq::empty(), list_depth: 0, in_code_block: false, in_table_head: false }
}

/// A text event that opens an alert: `{{ALERT_START_<kind>}}`.
pub open spec fn is_start_marker(t: Seq<char>) -> bool {
    &&& starts_with(t, "{{ALERT_START_"@)
    &&& ends_with(t, "}}"@)
    &&& t.len() >= "{{ALERT_START_"@.len() + 2
}

/// A text event that closes an alert: `{{ALERT_END_<kind>}}`.
pub open spec fn is_end_marker(t: Seq<char>) -> bool {
    &&& starts_with(t, "{{ALERT_END_"@)
    &&& ends_with(t, "}}"@)
    &&& t.len() >= "{{ALERT_END_"@.len() + 2
}

/// The kind that a start marker carries.
pub open spec fn marker_kind(t: Seq<char>) -> Seq<char> {
    t.subrange("{{ALERT_START_"@.len() as int, t.len() - 2)
}

pub open spec fn pop_top(stack: Seq<StyleView>) -> Seq<StyleView> {
    if stack.len() > 0 {
        stack.drop_last()
    } else {
        stack
    }
}

pub open spec fn pushed(s: RenderState, v: StyleView) -> RenderState {
    RenderState { stack: s.stack.push(v), ..s }
}

pub open spec fn popped(s: RenderState) -> RenderState {
    RenderState { stack: pop_top(s.stack), ..s }
}

/// A run that carries no style.
pub open spec fn plain(t: Seq<char>) -> RunView {
    RunView { text: t, styles: Seq::empty() }
}

/// A list item's prefix: one bullet per level of nesting, then a space.
pub open spec fn bullets(depth: nat) -> Seq<char> {
    Seq::new(depth, |i: int| '•') + seq![' ']
}

pub const RULE_WIDTH: usize = 52;

/// A thematic break: a line of box-drawing characters between line breaks.
pub open spec fn rule_text() -> Seq<char> {
    seq!['\n'] + Seq::new(RULE_WIDTH as nat, |i: int| '─') + seq!['\n', '\n']
}

/// The state after one event, and the runs that the event emits.
pub open spec fn step(s: RenderState, e: EventView) -> (RenderState, Seq<RunView>) {
    match e {
        EventView::Start(tag) => match tag {
            TagEnd::Heading(h) => (pushed(s, StyleView::Heading(h)), Seq::empty()),
            TagEnd::Strong => (pushed(s, StyleView::Bold), Seq::empty()),
            TagEnd::Emphasis => (pushed(s, StyleView::Italic), Seq::empty()),
            TagEnd::Strikethrough => (pushed(s, StyleView::Strikethrough), Seq::empty()),
            TagEnd::CodeBlock => (
                RenderState { in_code_block: true, ..pushed(s, StyleView::CodeBlock) },
                Seq::empty(),
            ),
            TagEnd::BlockQuote(_) => (pushed(s, StyleView::Quote), Seq::empty()),
            TagEnd::List(_) => (RenderState { list_depth: s.list_depth + 1, ..s }, Seq::empty()),
            TagEnd::Item => (s, seq![plain(bullets(s.list_depth))]),
            TagEnd::Link => (pushed(s, StyleView::Link), Seq::empty()),
            TagEnd::TableHead => (RenderState { in_table_head: true, ..s }, Seq::empty()),
            TagEnd::TableCell => (
                pushed(
                    s,
                    if s.in_table_head {
                        StyleView::TableHeader
                    } else {
                        StyleView::TableCell
                    },
                ),
                Seq::empty(),
            ),
            _ => (s, Seq::empty()),
        },
        EventView::End(tag) => match tag {
            TagEnd::Heading(_) => (popped(s), seq![plain("\n\n"@)]),
            TagEnd::Strong => (popped(s), Seq::empty()),
            TagEnd::Emphasis => (popped(s), Seq::empty()),
            TagEnd::Strikethrough => (popped(s), Seq::empty()),
            TagEnd::CodeBlock => (
                RenderState { in_code_block: false, ..popped(s) },
                seq![plain("\n\n"@)],
            ),
            TagEnd::BlockQuote(_) => (popped(s), seq![plain("\n\n"@)]),
            TagEnd::List(_) => (
                RenderState {
                    list_depth: if s.list_depth > 0 {
                        (s.list_depth - 1) as nat
                    } else {
                        0
                    },
                    ..s
                },
                Seq::empty(),
            ),
            TagEnd::Item => (s, seq![plain("\n"@)]),
            TagEnd::Link => (popped(s), Seq::empty()),
            TagEnd::TableHead => (RenderState { in_table_head: false, ..s }, seq![plain("\n"@)]),
            TagEnd::TableRow => (s, seq![plain("\n"@)]),
            TagEnd::TableCell => (popped(s), seq![plain(" | "@)]),
            TagEnd::Paragraph => (s, seq![plain("\n\n"@)]),
            _ => (s, Seq::empty()),
        },
        EventView::Text(t) => if is_start_marker(t) {
            (pushed(s, StyleView::Alert(lower_of(marker_kind(t)))), Seq::empty())
        } else if is_end_marker(t) {
            (popped(s), seq![plain("\n\n"@)])
        } else if trim(t).len() > 0 || s.in_code_block {
            (s, seq![RunView { text: t, styles: s.stack }])
        } else {
            (s, Seq::empty())
        },
        EventView::Code(t) => (s, seq![RunView { text: t, styles: s.stack.push(StyleView::Code) }]),
        EventView::Html(t) => (s, seq![plain(t)]),
        EventView::SoftBreak => (
            s,
            seq![
                plain(
                    if s.in_code_block {
                        "\n"@
                    } else {
                        " "@
                    },
                ),
            ],
        ),
        EventView::HardBreak => (s, seq![plain("\n"@)]),
        EventView::Rule => (s, seq![plain(rule_text())]),
        EventView::Other => (s, Seq::empty()),
    }
}

/// The state after `evs`, starting from the initial state, and all runs emitted.
pub open spec fn run_events(evs: Seq<EventView>) -> (RenderState, Seq<RunView>)
    decreases evs.len(),
{
    if evs.len() == 0 {
        (initial_state(), Seq::empty())
    } else {
        let before = run_events(evs.drop_last());
        let next = step(before.0, evs.last());
        (next.0, before.1 + next.1)
    }
}

/// The runs that a Markdown text renders to.
pub open spec fn rendered(text: Seq<char>) -> Seq<RunView> {
    run_events(markdown_events(preprocessed(text))).1
}

/// One render pass in progress.
pub struct Renderer {
    stack: Vec<StyleName>,
    list_depth: usize,
    in_code_block: bool,
    in_table_head: bool,
    runs: Vec<Run>,
}

impl View for Renderer {
    type V = (RenderState, Seq<RunView>);

    closed spec fn view(&self) -> (RenderState, Seq<RunView>) {
        (
            RenderState {
                stack: style_views(self.stack@),
                list_depth: self.list_depth as nat,
                in_code_block: self.in_code_block,
                in_table_head: self.in_table_head,
            },
            run_views(self.runs@),
        )
    }
}

fn push_style(stack: &mut Vec<StyleName>, s: StyleName)
    ensures
        style_views(final(stack)@) == style_views(old(stack)@).push(s@),
{
    stack.push(s);
    assert(style_views(stack@) =~= style_views(old(stack)@).push(s@));
}

fn pop_style(stack: &mut Vec<StyleName>)
    ensures
        style_views(final(stack)@) == pop_top(style_views(old(stack)@)),
{
    if stack.len() > 0 {
        stack.pop();
        assert(style_views(stack@) =~= style_views(old(stack)@).drop_last());
    }
}

fn push_run(runs: &mut Vec<Run>, r: Run)
    ensures
        run_views(final(runs)@) == run_views(old(runs)@).push(r@),
{
    runs.push(r);
    assert(run_views(runs@) =~= run_views(old(runs)@).push(r@));
}

fn unstyled(text: String) -> (r: Run)
    ensures
        r@ == plain(text@),
{
    let r = Run { text, styles: Vec::new() };
    assert(style_views(r.styles@) =~= Seq::<StyleView>::empty());
    r
}

fn plain_run(text: &str) -> (r: Run)
    ensures
        r@ == plain(text@),
{
    unstyled(string_of(&chars_of(text)))
}

fn copy_styles(stack: &Vec<StyleName>) -> (r: Vec<StyleName>)
    ensures
        style_views(r@) == style_views(stack@),
{
    let mut out: Vec<StyleName> = Vec::new();
    let mut i: usize = 0;
    while i < stack.len()
        invariant
            i <= stack.len(),
            style_views(out@) == style_views(stack@).take(i as int),
        decreases stack.len() - i,
    {
        push_style(&mut out, stack[i].duplicate());
        assert(style_views(stack@).take(i + 1) =~= style_views(stack@).take(i as int).push(
            stack@[i as int]@,
        ));
        i += 1;
    }
    assert(style_views(stack@).take(stack.len() as int) =~= style_views(stack@));
    out
}

fn bullet_prefix(depth: usize) -> (r: String)
    ensures
        r@ == bullets(depth as nat),
{
    let mut out: Vec<char> = Vec::new();
    let mut i: usize = 0;
    while i < depth
        invariant
            i <= depth,
            out@ == Seq::new(i as nat, |k: int| '•'),
        decreases depth - i,
    {
        out.push('•');
        assert(out@ =~= Seq::new((i + 1) as nat, |k: int| '•'));
        i += 1;
    }
    out.push(' ');
    assert(out@ =~= bullets(depth as nat));
    string_of(&out)
}

fn rule_line() -> (r: String)
    ensures
        r@ == rule_text(),
{
    let mut out: Vec<char> = vec!['\n'];
    let mut i: usize = 0;
    while i < RULE_WIDTH
        invariant
            i <= RULE_WIDTH,
            out@ == seq!['\n'] + Seq::new(i as nat, |k: int| '─'),
        decreases RULE_WIDTH - i,
    {
        out.push('─');
        assert(out@ =~= seq!['\n'] + Seq::new((i + 1) as nat, |k: int| '─'));
        i += 1;
    }
    out.push('\n');
    out.push('\n');
    assert(out@ =~= rule_text());
    string_of(&out)
}

/// Whether `t` is a start marker, and if so its kind.
fn start_marker_kind(t: &Vec<char>) -> (r: Option<Vec<char>>)
    ensures
        r is Some <==> is_start_marker(t@),
        r matches Some(k) ==> k@ == marker_kind(t@),
{
    proof {
        reveal_strlit("{{ALERT_START_");
        reveal_strlit("}}");
    }
    let prefix = chars_of("{{ALERT_START_");
    if t.len() >= 16 && has_prefix(t, &prefix) && has_suffix(t, &chars_of("}}")) {
        Some(slice_chars(t, 14, t.len() - 2))
    } else {
        None
    }
}

fn is_end_marker_text(t: &Vec<char>) -> (r: bool)
    ensures
        r == is_end_marker(t@),
{
    proof {
        reveal_strlit("{{ALERT_END_");
        reveal_strlit("}}");
    }
    t.len() >= 14 && has_prefix(t, &chars_of("{{ALERT_END_")) && has_suffix(t, &chars_of("}}"))
}

impl Renderer {
    /// A renderer at the start of a pass: no styles, depth zero, no runs.
    pub fn new() -> (r: Renderer)
        ensures
            r@ == (initial_state(), Seq::<RunView>::empty()),
    {
        let r = Renderer {
            stack: Vec::new(),
            list_depth: 0,
            in_code_block: false,
            in_table_head: false,
            runs: Vec::new(),
        };
        assert(style_views(r.stack@) =~= Seq::<StyleView>::empty());
        assert(run_views(r.runs@) =~= Seq::<RunView>::empty());
        r
    }

    /// How many styles are active.
    pub fn stack_depth(&self) -> (r: usize)
        ensures
            r == self@.0.stack.len(),
    {
        self.stack.len()
    }

    /// The list nesting depth.
    pub fn list_depth(&self) -> (r: usize)
        ensures
            r == self@.0.list_depth,
    {
        self.list_depth
    }

    /// Takes one event: updates the state and appends the runs it emits.
    pub fn consume(&mut self, event: &MdEvent)
        requires
            old(self)@.0.list_depth < usize::MAX,
        ensures
            final(self)@ == (step(old(self)@.0, event@).0, old(self)@.1 + step(
                old(self)@.0,
                event@,
            ).1),
    {
        let ghost s = self@.0;
        let ghost runs0 = self@.1;
        match event {
            MdEvent::Start(tag) => match tag {
                TagEnd::Heading(h) => push_style(&mut self.stack, StyleName::Heading(*h)),
                TagEnd::Strong => push_style(&mut self.stack, StyleName::Bold),
                TagEnd::Emphasis => push_style(&mut self.stack, StyleName::Italic),
                TagEnd::Strikethrough => push_style(&mut self.stack, StyleName::Strikethrough),
                TagEnd::CodeBlock => {
                    self.in_code_block = true;
                    push_style(&mut self.stack, StyleName::CodeBlock);
                },
                TagEnd::BlockQuote(_) => push_style(&mut self.stack, StyleName::Quote),
                TagEnd::List(_) => {
                    self.list_depth = self.list_depth + 1;
                },
                TagEnd::Item => push_run(&mut self.runs, unstyled(bullet_prefix(self.list_depth))),
                TagEnd::Link => push_style(&mut self.stack, StyleName::Link),
                TagEnd::TableHead => {
                    self.in_table_head = true;
                },
                TagEnd::TableCell => {
                    if self.in_table_head {
                        push_style(&mut self.stack, StyleName::TableHeader);
                    } else {
                        push_style(&mut self.stack, StyleName::TableCell);
                    }
                },
                _ => {},
            },
            MdEvent::End(tag) => match tag {
                TagEnd::Heading(_) => {
                    pop_style(&mut self.stack);
                    push_run(&mut self.runs, plain_run("\n\n"));
                },
                TagEnd::Strong => pop_style(&mut self.stack),
                TagEnd::Emphasis => pop_style(&mut self.stack),
                TagEnd::Strikethrough => pop_style(&mut self.stack),
                TagEnd::CodeBlock => {
                    self.in_code_block = false;
                    pop_style(&mut self.stack);
                    push_run(&mut self.runs, plain_run("\n\n"));
                },
                TagEnd::BlockQuote(_) => {
                    pop_style(&mut self.stack);
                    push_run(&mut self.runs, plain_run("\n\n"));
                },
                TagEnd::List(_) => {
                    if self.list_depth > 0 {
                        self.list_depth = self.list_depth - 1;
                    }
                },
                TagEnd::Item => push_run(&mut self.runs, plain_run("\n")),
                TagEnd::Link => pop_style(&mut self.stack),
                TagEnd::TableHead => {
                    self.in_table_head = false;
                    push_run(&mut self.runs, plain_run("\n"));
                },
                TagEnd::TableRow => push_run(&mut self.runs, plain_run("\n")),
                TagEnd::TableCell => {
                    pop_style(&mut self.stack);
                    push_run(&mut self.runs, plain_run(" | "));
                },
                TagEnd::Paragraph => push_run(&mut self.runs, plain_run("\n\n")),
                _ => {},
            },
            MdEvent::Text(t) => {
                let chars = chars_of(t.as_str());
                match start_marker_kind(&chars) {
                    Some(kind) => {
                        let kind = string_of(&kind);
                        let lower = to_lower(kind.as_str());
                        push_style(&mut self.stack, StyleName::Alert(lower));
                    },
                    None => {
                        if is_end_marker_text(&chars) {
                            pop_style(&mut self.stack);
                            push_run(&mut self.runs, plain_run("\n\n"));
                        } else if trim_chars(&chars).len() > 0 || self.in_code_block {
                            let styles = copy_styles(&self.stack);
                            push_run(&mut self.runs, Run { text: t.clone(), styles });
                        }
                    },
                }
            },
            MdEvent::Code(t) => {
                let mut styles = copy_styles(&self.stack);
                push_style(&mut styles, StyleName::Code);
                push_run(&mut self.runs, Run { text: t.clone(), styles });
            },
            MdEvent::Html(t) => {
                push_run(&mut self.runs, unstyled(t.clone()));
            },
            MdEvent::SoftBreak => {
                if self.in_code_block {
                    push_run(&mut self.runs, plain_run("\n"));
                } else {
                    push_run(&mut self.runs, plain_run(" "));
                }
            },
            MdEvent::HardBreak => push_run(&mut self.runs, plain_run("\n")),
            MdEvent::Rule => {
                push_run(&mut self.runs, unstyled(rule_line()));
            },
            MdEvent::Other => {},
        }
        proof {
            assert(self@.1 =~= runs0 + step(s, event@).1);
        }
    }

    /// The runs emitted so far.
    pub fn into_runs(self) -> (r: Vec<Run>)
        ensures
            run_views(r@) == self@.1,
    {
        self.runs
    }
}

/// A tag whose start event opens a style and whose end event closes it.
pub open spec fn styled_tag(t: TagEnd) -> bool {
    ||| t is Heading
    ||| t is Strong
    ||| t is Emphasis
    ||| t is Strikethrough
    ||| t is CodeBlock
    ||| t is BlockQuote
    ||| t is Link
    ||| t is TableCell
}

/// The event opens a style: the start of a styled tag, or an alert start marker.
pub open spec fn opens_style(e: EventView) -> bool {
    match e {
        EventView::Start(t) => styled_tag(t),
        EventView::Text(t) => is_start_marker(t),
        _ => false,
    }
}

/// The event closes a style: the end of a styled tag, or an alert end marker.
pub open spec fn closes_style(e: EventView) -> bool {
    match e {
        EventView::End(t) => styled_tag(t),
        EventView::Text(t) => !is_start_marker(t) && is_end_marker(t),
        _ => false,
    }
}

pub open spec fn open_count(evs: Seq<EventView>) -> nat
    decreases evs.len(),
{
    if evs.len() == 0 {
        0
    } else {
        open_count(evs.drop_last()) + if opens_style(evs.last()) {
            1nat
        } else {
            0nat
        }
    }
}

pub open spec fn close_count(evs: Seq<EventView>) -> nat
    decreases evs.len(),
{
    if evs.len() == 0 {
        0
    } else {
        close_count(evs.drop_last()) + if closes_style(evs.last()) {
            1nat
        } else {
            0nat
        }
    }
}

/// No prefix of the stream closes more styles than it opens.
pub open spec fn never_overclosed(evs: Seq<EventView>) -> bool {
    forall|k: int| 0 <= k <= evs.len() ==> close_count(#[trigger] evs.take(k)) <= open_count(evs.take(k))
}

/// A well-formed stream: every style closed was opened before, and every style
/// opened is closed.
pub open spec fn balanced(evs: Seq<EventView>) -> bool {
    never_overclosed(evs) && close_count(evs) == open_count(evs)
}

/// The tags of the elements open after `evs`, innermost last; `None` once an end
/// event does not match the innermost open start event.
pub open spec fn open_tags(evs: Seq<EventView>) -> Option<Seq<TagEnd>>
    decreases evs.len(),
{
    if evs.len() == 0 {
        Some(Seq::empty())
    } else {
        match open_tags(evs.drop_last()) {
            None => None,
            Some(st) => match evs.last() {
                EventView::Start(t) => Some(st.push(t)),
                EventView::End(t) => if st.len() > 0 && st.last() == t {
                    Some(st.drop_last())
                } else {
                    None
                },
                _ => Some(st),
            },
        }
    }
}

/// The number of alerts open after `evs`; `None` once an end marker comes with no alert open.
pub open spec fn open_alerts(evs: Seq<EventView>) -> Option<nat>
    decreases evs.len(),
{
    if evs.len() == 0 {
        Some(0)
    } else {
        match open_alerts(evs.drop_last()) {
            None => None,
            Some(n) => if opens_style(evs.last()) && evs.last() is Text {
                Some(n + 1)
            } else if closes_style(evs.last()) && evs.last() is Text {
                if n > 0 {
                    Some((n - 1) as nat)
                } else {
                    None
                }
            } else {
                Some(n)
            },
        }
    }
}

/// A well-formed stream: start and end events nest, each end event carrying the
/// tag of the innermost open start event; each alert end marker closes an open
/// alert; and at the end no element and no alert is open.
pub open spec fn well_formed(evs: Seq<EventView>) -> bool {
    open_tags(evs) == Some(Seq::<TagEnd>::empty()) && open_alerts(evs) == Some(0nat)
}

/// How many of the open tags open a style.
pub open spec fn styled_count(tags: Seq<TagEnd>) -> nat
    decreases tags.len(),
{
    if tags.len() == 0 {
        0
    } else {
        styled_count(tags.drop_last()) + if styled_tag(tags.last()) {
            1nat
        } else {
            0nat
        }
    }
}

proof fn lemma_open_minus_closed(evs: Seq<EventView>)
    requires
        open_tags(evs) is Some,
        open_alerts(evs) is Some,
    ensures
        open_count(evs) - close_count(evs) == styled_count(open_tags(evs)->0) + open_alerts(
            evs,
        )->0,
    decreases evs.len(),
{
    if evs.len() > 0 {
        let init = evs.drop_last();
        lemma_open_minus_closed(init);
        let st = open_tags(init)->0;
        match evs.last() {
            EventView::Start(t) => {
                assert(st.push(t).drop_last() =~= st);
                assert(styled_count(st.push(t)) == styled_count(st) + if styled_tag(t) {
                    1nat
                } else {
                    0nat
                });
            },
            EventView::End(t) => {
                assert(st.drop_last().push(t) =~= st);
                assert(styled_count(st) == styled_count(st.drop_last()) + if styled_tag(t) {
                    1nat
                } else {
                    0nat
                });
            },
            _ => {},
        }
    }
}

proof fn lemma_prefixes_open(evs: Seq<EventView>, k: int)
    requires
        open_tags(evs) is Some,
        open_alerts(evs) is Some,
        0 <= k <= evs.len(),
    ensures
        open_tags(evs.take(k)) is Some,
        open_alerts(evs.take(k)) is Some,
    decreases evs.len(),
{
    if k == evs.len() {
        assert(evs.take(k) =~= evs);
    } else {
        assert(evs.take(k) =~= evs.drop_last().take(k));
        lemma_prefixes_open(evs.drop_last(), k);
    }
}

/// A well-formed stream is balanced: no prefix closes more styles than it
/// opened, and the whole stream closes as many as it opens.
pub proof fn lemma_well_formed_is_balanced(evs: Seq<EventView>)
    requires
        well_formed(evs),
    ensures
        balanced(evs),
{
    assert forall|k: int| 0 <= k <= evs.len() implies close_count(#[trigger] evs.take(k))
        <= open_count(evs.take(k)) by {
        lemma_prefixes_open(evs, k);
        lemma_open_minus_closed(evs.take(k));
    }
    lemma_open_minus_closed(evs);
}

proof fn lemma_step_stack(s: RenderState, e: EventView)
    ensures
        opens_style(e) ==> step(s, e).0.stack.len() == s.stack.len() + 1,
        closes_style(e) && s.stack.len() > 0 ==> step(s, e).0.stack.len() == s.stack.len() - 1,
        !opens_style(e) && !closes_style(e) ==> step(s, e).0.stack.len() == s.stack.len(),
{
}

/// After each prefix of a stream that never closes more styles than it opened,
/// the stack holds exactly the styles opened and not yet closed.
pub proof fn lemma_stack_height(evs: Seq<EventView>)
    requires
        never_overclosed(evs),
    ensures
        run_events(evs).0.stack.len() == open_count(evs) - close_count(evs),
    decreases evs.len(),
{
    if evs.len() > 0 {
        let init = evs.drop_last();
        assert forall|k: int| 0 <= k <= init.len() implies close_count(#[trigger] init.take(k))
            <= open_count(init.take(k)) by {
            assert(init.take(k) =~= evs.take(k));
        }
        lemma_stack_height(init);
        assert(evs.take(evs.len() as int) =~= evs);
        lemma_step_stack(run_events(init).0, evs.last());
    }
}

/// Stack balance: over a balanced stream, and so over a well-formed one, the
/// renderer pushes as many styles as it pops, never pops an empty stack, and ends
/// with no style active.
pub proof fn lemma_balanced_stream_leaves_no_style(evs: Seq<EventView>)
    requires
        balanced(evs) || well_formed(evs),
    ensures
        run_events(evs).0.stack.len() == 0,
        forall|k: int|
            0 <= k <= evs.len() ==> (#[trigger] run_events(evs.take(k))).0.stack.len() == open_count(
                evs.take(k),
            ) - close_count(evs.take(k)),
{
    if well_formed(evs) {
        lemma_well_formed_is_balanced(evs);
    }
    lemma_stack_height(evs);
    assert forall|k: int| 0 <= k <= evs.len() implies (#[trigger] run_events(
        evs.take(k),
    )).0.stack.len() == open_count(evs.take(k)) - close_count(evs.take(k)) by {
        let p = evs.take(k);
        assert forall|j: int| 0 <= j <= p.len() implies close_count(#[trigger] p.take(j))
            <= open_count(p.take(j)) by {
            assert(p.take(j) =~= evs.take(j));
        }
        lemma_stack_height(p);
    }
}

/// The marker lines that the preprocessor writes are the ones the renderer acts
/// on: a start marker opens the alert style of its label, an end marker closes a style.
pub proof fn lemma_markers_recognized(label: Seq<char>)
    ensures
        is_start_marker(start_marker(label)),
        marker_kind(start_marker(label)) == label,
        !is_start_marker(end_marker(label)),
        is_end_marker(end_marker(label)),
{
    reveal_strlit("{{ALERT_START_");
    reveal_strlit("{{ALERT_END_");
    reveal_strlit("}}");
    let s = start_marker(label);
    let e = end_marker(label);
    assert(s.subrange(0, 14) =~= "{{ALERT_START_"@);
    assert(s.subrange(s.len() - 2, s.len() as int) =~= "}}"@);
    assert(marker_kind(s) =~= label);
    assert(e.subrange(0, 12) =~= "{{ALERT_END_"@);
    assert(e.subrange(e.len() - 2, e.len() as int) =~= "}}"@);
    if e.len() >= 14 {
        assert(e.subrange(0, 14)[9] != "{{ALERT_START_"@[9]);
    }
}

proof fn lemma_step_depth(s: RenderState, e: EventView)
    ensures
        step(s, e).0.list_depth <= s.list_depth + 1,
{
}

/// Renders a whole event stream from the initial state.
pub fn render_events(events: &Vec<MdEvent>) -> (r: Vec<Run>)
    ensures
        run_views(r@) == run_events(event_views(events@)).1,
{
    let ghost evs = event_views(events@);
    let mut renderer = Renderer::new();
    let mut i: usize = 0;
    assert(evs.take(0) =~= Seq::<EventView>::empty());
    while i < events.len()
        invariant
            i <= events.len(),
            evs == event_views(events@),
            renderer@ == run_events(evs.take(i as int)),
            renderer@.0.list_depth <= i,
        decreases events.len() - i,
    {
        proof {
            assert(evs.take(i + 1).drop_last() =~= evs.take(i as int));
            assert(evs.take(i + 1).last() == events@[i as int]@);
            lemma_step_depth(renderer@.0, events@[i as int]@);
        }
        renderer.consume(&events[i]);
        i += 1;
    }
    assert(evs.take(events.len() as int) =~= evs);
    renderer.into_runs()
}

/// A named style and its properties.
#[derive(Debug, PartialEq, Eq)]
pub struct StyleTag {
    pub name: StyleName,
    pub props: StyleProps,
}

/// The styles that a renderer registers up front, in order.
pub open spec fn registry() -> Seq<StyleView> {
    seq![
        StyleView::Heading(HeadingLevel::H1),
        StyleView::Heading(HeadingLevel::H2),
        StyleView::Heading(HeadingLevel::H3),
        StyleView::Heading(HeadingLevel::H4),
        StyleView::Heading(HeadingLevel::H5),
        StyleView::Heading(HeadingLevel::H6),
        StyleView::Bold,
        StyleView::Italic,
        StyleView::Strikethrough,
        StyleView::Code,
        StyleView::CodeBlock,
        StyleView::Quote,
        StyleView::List,
        StyleView::Link,
        StyleView::Alert("note"@),
        StyleView::Alert("tip"@),
        StyleView::Alert("important"@),
        StyleView::Alert("warning"@),
        StyleView::Alert("caution"@),
        StyleView::TableHeader,
        StyleView::TableCell,
    ]
}

/// Turns Markdown text into styled runs, with a fixed registry of named styles.
pub struct MarkdownRenderer {
    styles: Vec<StyleTag>,
}

fn register(styles: &mut Vec<StyleTag>, name: StyleName)
    ensures
        final(styles)@.len() == old(styles)@.len() + 1,
        forall|i: int| 0 <= i < old(styles)@.len() ==> final(styles)@[i] == old(styles)@[i],
        final(styles)@.last().name@ == name@,
        final(styles)@.last().props == props_of(name@),
{
    let props = style_props(&name);
    styles.push(StyleTag { name, props });
}

impl MarkdownRenderer {
    /// Tags of the registry, each with the properties of its style.
    pub closed spec fn holds_registry(&self) -> bool {
        &&& self.styles@.len() == registry().len()
        &&& forall|i: int|
            0 <= i < registry().len() ==> (#[trigger] self.styles@[i]).name@ == registry()[i]
                && self.styles@[i].props == props_of(registry()[i])
    }

    pub fn new() -> (r: MarkdownRenderer)
        ensures
            r.holds_registry(),
    {
        let mut styles: Vec<StyleTag> = Vec::new();
        register(&mut styles, StyleName::Heading(HeadingLevel::H1));
        register(&mut styles, StyleName::Heading(HeadingLevel::H2));
        register(&mut styles, StyleName::Heading(HeadingLevel::H3));
        register(&mut styles, StyleName::Heading(HeadingLevel::H4));
        register(&mut styles, StyleName::Heading(HeadingLevel::H5));
        register(&mut styles, StyleName::Heading(HeadingLevel::H6));
        register(&mut styles, StyleName::Bold);
        register(&mut styles, StyleName::Italic);
        register(&mut styles, StyleName::Strikethrough);
        register(&mut styles, StyleName::Code);
        register(&mut styles, StyleName::CodeBlock);
        register(&mut styles, StyleName::Quote);
        register(&mut styles, StyleName::List);
        register(&mut styles, StyleName::Link);
        register(&mut styles, StyleName::Alert(string_of(&chars_of("note"))));
        register(&mut styles, StyleName::Alert(string_of(&chars_of("tip"))));
        register(&mut styles, StyleName::Alert(string_of(&chars_of("important"))));
        register(&mut styles, StyleName::Alert(string_of(&chars_of("warning"))));
        register(&mut styles, StyleName::Alert(string_of(&chars_of("caution"))));
        register(&mut styles, StyleName::TableHeader);
        register(&mut styles, StyleName::TableCell);
        MarkdownRenderer { styles }
    }

    /// The registered styles, in registry order.
    pub fn styles(&self) -> (r: &Vec<StyleTag>)
        requires
            self.holds_registry(),
        ensures
            r@.len() == registry().len(),
            forall|i: int|
                0 <= i < registry().len() ==> (#[trigger] r@[i]).name@ == registry()[i]
                    && r@[i].props == props_of(registry()[i]),
    {
        &self.styles
    }

    /// The properties of any style, registered or not; an alert of an unknown
    /// kind takes the generic info style.
    pub fn style_of(&self, name: &StyleName) -> (r: StyleProps)
        ensures
            r == props_of(name@),
    {
        style_props(name)
    }

    /// Preprocesses alert blocks, tokenizes the result and renders its events.
    pub fn render_markdown(&self, markdown_text: &str) -> (r: Vec<Run>)
        ensures
            run_views(r@) == rendered(markdown_text@),
    {
        let processed = preprocess(markdown_text);
        let events = tokenize(processed.as_str());
        render_events(&events)
    }
}

} // verus!
