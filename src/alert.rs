//! The alert-block preprocessor: `> [!KIND] text` blocks become a start marker
//! line, a title line, the block's body lines and an end marker line, so that a
//! plain Markdown tokenizer sees them as ordinary paragraphs.
use crate::text::{
    append_chars, chars_of, has_prefix, index_of, join_lines, join_with_newlines, lines_of,
    same_chars, slice_chars, split_lines, starts_with, string_of, trim, trim_chars, trim_start,
    trim_start_chars, views, find_char,
};
use vstd::prelude::*;

verus! {

/// The lower-case mapping of a string, as `str::to_lowercase` computes it.
pub uninterp spec fn lower_of(s: Seq<char>) -> Seq<char>;

/// The upper-case mapping of a string, as `str::to_uppercase` computes it.
pub uninterp spec fn upper_of(s: Seq<char>) -> Seq<char>;

/// Relies on `str::to_lowercase`: the result depends on the characters alone.
#[verifier::external_body]
pub(crate) fn to_lower(s: &str) -> (r: String)
    ensures
        r@ == lower_of(s@),
{
    s.to_lowercase()
}

/// Relies on `str::to_uppercase`: the result depends on the characters alone.
#[verifier::external_body]
fn to_upper(s: &str) -> (r: String)
    ensures
        r@ == upper_of(s@),
{
    s.to_uppercase()
}

/// What a trimmed line opening an alert block starts with.
pub open spec fn open_marker() -> Seq<char> {
    seq!['>', ' ', '[', '!']
}

/// What a continuation line of an alert block starts with, after its leading white space.
pub open spec fn continuation_marker() -> Seq<char> {
    seq!['>', ' ']
}

/// A trimmed line opens an alert block: `> [!` and, further on, a `]`.
pub open spec fn opens_alert(t: Seq<char>) -> bool {
    starts_with(t, open_marker()) && index_of(t, ']') >= 0
}

/// The kind as written: between `[!` and the first `]`.
pub open spec fn raw_kind(t: Seq<char>) -> Seq<char> {
    t.subrange(4, index_of(t, ']'))
}

/// What follows the first `]` of the opening line, trimmed.
pub open spec fn inline_content(t: Seq<char>) -> Seq<char> {
    trim(t.subrange(index_of(t, ']') + 1, t.len() as int))
}

/// The label that the markers carry: the kind in lower case, then in upper case.
pub open spec fn label_of(t: Seq<char>) -> Seq<char> {
    upper_of(lower_of(raw_kind(t)))
}

/// The title for a lower-case kind: one of five known kinds, or the generic one.
pub open spec fn title_of(kind: Seq<char>) -> Seq<char> {
    if kind == "note"@ {
        "📝 Note"@
    } else if kind == "tip"@ {
        "💡 Tip"@
    } else if kind == "important"@ {
        "⚠️ Important"@
    } else if kind == "warning"@ {
        "⚠️ Warning"@
    } else if kind == "caution"@ {
        "🚨 Caution"@
    } else {
        "ℹ️ Info"@
    }
}

/// The line that follows the start marker: title, `": "` and the inline content.
pub open spec fn title_line(t: Seq<char>) -> Seq<char> {
    title_of(lower_of(raw_kind(t))) + seq![':', ' '] + inline_content(t)
}

pub open spec fn start_marker(label: Seq<char>) -> Seq<char> {
    "{{ALERT_START_"@ + label + "}}"@
}

pub open spec fn end_marker(label: Seq<char>) -> Seq<char> {
    "{{ALERT_END_"@ + label + "}}"@
}

/// A line continues an alert block: after its leading white space it starts with `"> "`.
pub open spec fn is_continuation(l: Seq<char>) -> bool {
    starts_with(trim_start(l), continuation_marker())
}

/// A continuation line without its leading white space and its `"> "`.
pub open spec fn continuation_body(l: Seq<char>) -> Seq<char> {
    trim_start(l).subrange(2, trim_start(l).len() as int)
}

/// How many lines at the front of `ls` continue an alert block.
pub open spec fn continuation_run(ls: Seq<Seq<char>>) -> nat
    decreases ls.len(),
{
    if ls.len() > 0 && is_continuation(ls[0]) {
        1 + continuation_run(ls.drop_first())
    } else {
        0
    }
}

/// The lines that an alert block opened by `t`, with continuation lines `body`, becomes.
pub open spec fn alert_block(t: Seq<char>, body: Seq<Seq<char>>) -> Seq<Seq<char>> {
    seq![start_marker(label_of(t)), title_line(t)] + body.map_values(
        |l: Seq<char>| continuation_body(l),
    ) + seq![end_marker(label_of(t))]
}

/// The output lines for input lines `ls`.
pub open spec fn process_lines(ls: Seq<Seq<char>>) -> Seq<Seq<char>>
    decreases ls.len(),
{
    if ls.len() == 0 {
        Seq::empty()
    } else {
        let t = trim(ls[0]);
        let rest = ls.drop_first();
        if opens_alert(t) {
            let n = continuation_run(rest);
            proof {
                lemma_continuation_run_bound(rest);
            }
            alert_block(t, rest.take(n as int)) + process_lines(rest.skip(n as int))
        } else {
            seq![t] + process_lines(rest)
        }
    }
}

/// The preprocessed text: the output lines joined with `'\n'`.
pub open spec fn preprocessed(source: Seq<char>) -> Seq<char> {
    join_lines(process_lines(lines_of(source)))
}

pub proof fn lemma_continuation_run_bound(ls: Seq<Seq<char>>)
    ensures
        continuation_run(ls) <= ls.len(),
    decreases ls.len(),
{
    if ls.len() > 0 && is_continuation(ls[0]) {
        lemma_continuation_run_bound(ls.drop_first());
    }
}

/// The run is `k` when the first `k` lines continue the block and line `k`, if any, does not.
pub proof fn lemma_continuation_run_exact(ls: Seq<Seq<char>>, k: int)
    requires
        0 <= k <= ls.len(),
        forall|j: int| 0 <= j < k ==> is_continuation(#[trigger] ls[j]),
        k < ls.len() ==> !is_continuation(ls[k]),
    ensures
        continuation_run(ls) == k,
    decreases k,
{
    if k > 0 {
        assert forall|j: int| 0 <= j < k - 1 implies is_continuation(
            #[trigger] ls.drop_first()[j],
        ) by {
            assert(ls.drop_first()[j] == ls[j + 1]);
        }
        lemma_continuation_run_exact(ls.drop_first(), k - 1);
    }
}

/// Every line of `s` trimmed, joined with `'\n'`.
pub open spec fn trim_lines(s: Seq<char>) -> Seq<char> {
    join_lines(lines_of(s).map_values(|l: Seq<char>| trim(l)))
}

proof fn lemma_process_plain_lines(ls: Seq<Seq<char>>)
    requires
        forall|k: int| 0 <= k < ls.len() ==> !opens_alert(#[trigger] trim(ls[k])),
    ensures
        process_lines(ls) == ls.map_values(|l: Seq<char>| trim(l)),
    decreases ls.len(),
{
    if ls.len() > 0 {
        let rest = ls.drop_first();
        assert forall|k: int| 0 <= k < rest.len() implies !opens_alert(#[trigger] trim(rest[k])) by {
            assert(rest[k] == ls[k + 1]);
            assert(!opens_alert(trim(ls[k + 1])));
        }
        assert(!opens_alert(trim(ls[0])));
        lemma_process_plain_lines(rest);
        assert(ls.map_values(|l: Seq<char>| trim(l)) =~= seq![trim(ls[0])] + rest.map_values(
            |l: Seq<char>| trim(l),
        ));
    }
}

/// Text in which no line opens an alert block is only trimmed, line by line.
pub proof fn lemma_preprocess_without_alerts(source: Seq<char>)
    requires
        forall|k: int|
            0 <= k < lines_of(source).len() ==> !opens_alert(#[trigger] trim(lines_of(source)[k])),
    ensures
        preprocessed(source) == trim_lines(source),
{
    lemma_process_plain_lines(lines_of(source));
}

/// An alert block, that is an opening line `> [!KIND] content` and the lines
/// `body` that continue it, followed by lines `rest` whose first line does not
/// continue it, becomes exactly: one start marker carrying the block's label, the
/// title line, each body line without its `"> "`, one end marker carrying the
/// same label; and after it, what `rest` becomes on its own.
pub proof fn lemma_alert_block_lines(
    open: Seq<char>,
    body: Seq<Seq<char>>,
    rest: Seq<Seq<char>>,
)
    requires
        opens_alert(trim(open)),
        forall|j: int| 0 <= j < body.len() ==> is_continuation(#[trigger] body[j]),
        rest.len() > 0 ==> !is_continuation(rest[0]),
    ensures
        process_lines(seq![open] + body + rest) == alert_block(trim(open), body) + process_lines(
            rest,
        ),
        alert_block(trim(open), body).len() == body.len() + 3,
        alert_block(trim(open), body)[0] == start_marker(label_of(trim(open))),
        alert_block(trim(open), body)[1] == title_line(trim(open)),
        forall|j: int|
            0 <= j < body.len() ==> alert_block(trim(open), body)[j + 2] == continuation_body(
                #[trigger] body[j],
            ),
        alert_block(trim(open), body)[body.len() + 2int] == end_marker(label_of(trim(open))),
{
    let ls = seq![open] + body + rest;
    let tail = ls.drop_first();
    assert(tail =~= body + rest);
    assert forall|j: int| 0 <= j < body.len() implies is_continuation(#[trigger] tail[j]) by {
        assert(tail[j] == body[j]);
    }
    if body.len() < tail.len() {
        assert(tail[body.len() as int] == rest[0]);
    }
    lemma_continuation_run_exact(tail, body.len() as int);
    assert(tail.take(body.len() as int) =~= body);
    assert(tail.skip(body.len() as int) =~= rest);
    assert(ls[0] == open);
}

/// A text whose lines are an alert block and then lines `rest`, the first of
/// which does not continue the block, is preprocessed into the block's lines and
/// what `rest` becomes, joined with `'\n'`.
pub proof fn lemma_preprocess_alert_block(
    source: Seq<char>,
    open: Seq<char>,
    body: Seq<Seq<char>>,
    rest: Seq<Seq<char>>,
)
    requires
        lines_of(source) == seq![open] + body + rest,
        opens_alert(trim(open)),
        forall|j: int| 0 <= j < body.len() ==> is_continuation(#[trigger] body[j]),
        rest.len() > 0 ==> !is_continuation(rest[0]),
    ensures
        preprocessed(source) == join_lines(alert_block(trim(open), body) + process_lines(rest)),
{
    lemma_alert_block_lines(open, body, rest);
}

/// `title_of(kind)`.
pub fn alert_title(kind: &Vec<char>) -> (r: Vec<char>)
    ensures
        r@ == title_of(kind@),
{
    if same_chars(kind, &chars_of("note")) {
        chars_of("📝 Note")
    } else if same_chars(kind, &chars_of("tip")) {
        chars_of("💡 Tip")
    } else if same_chars(kind, &chars_of("important")) {
        chars_of("⚠️ Important")
    } else if same_chars(kind, &chars_of("warning")) {
        chars_of("⚠️ Warning")
    } else if same_chars(kind, &chars_of("caution")) {
        chars_of("🚨 Caution")
    } else {
        chars_of("ℹ️ Info")
    }
}

/// The marker line `{{<prefix><label>}}`.
fn marker_line(prefix: &str, label: &Vec<char>) -> (r: Vec<char>)
    ensures
        r@ == "{{"@ + prefix@ + label@ + "}}"@,
{
    let mut out = chars_of("{{");
    append_chars(&mut out, &chars_of(prefix));
    append_chars(&mut out, label);
    append_chars(&mut out, &chars_of("}}"));
    out
}

/// The start marker, title line and end marker of the alert block that the
/// trimmed line `t` opens; `None` when it opens none.
pub fn alert_head(t: &Vec<char>) -> (r: Option<(Vec<char>, Vec<char>, Vec<char>)>)
    ensures
        r is Some <==> opens_alert(t@),
        r matches Some(h) ==> h.0@ == start_marker(label_of(t@)) && h.1@ == title_line(t@)
            && h.2@ == end_marker(label_of(t@)),
{
    let marker = vec!['>', ' ', '[', '!'];
    if !has_prefix(t, &marker) {
        return None;
    }
    let close = match find_char(t, ']') {
        Some(k) => k,
        None => {
            return None;
        },
    };
    proof {
        assert(t@.subrange(0, 4) == open_marker());
        assert(t@[0] == t@.subrange(0, 4)[0]);
        assert(t@[1] == t@.subrange(0, 4)[1]);
        assert(t@[2] == t@.subrange(0, 4)[2]);
        assert(t@[3] == t@.subrange(0, 4)[3]);
        if close < 4 {
            assert(t@[close as int] == ']');
        }
    }
    let raw = string_of(&slice_chars(t, 4, close));
    let lower = to_lower(raw.as_str());
    let upper = to_upper(lower.as_str());
    let label = chars_of(upper.as_str());
    let start = marker_line("ALERT_START_", &label);
    let end = marker_line("ALERT_END_", &label);
    let mut title = alert_title(&chars_of(lower.as_str()));
    title.push(':');
    title.push(' ');
    let content = trim_chars(&slice_chars(t, close + 1, t.len()));
    append_chars(&mut title, &content);
    proof {
        reveal_strlit("{{");
        reveal_strlit("}}");
        reveal_strlit("ALERT_START_");
        reveal_strlit("ALERT_END_");
        reveal_strlit("{{ALERT_START_");
        reveal_strlit("{{ALERT_END_");
        assert(start@ =~= start_marker(label_of(t@)));
        assert(end@ =~= end_marker(label_of(t@)));
        assert(title@ =~= title_line(t@));
    }
    Some((start, title, end))
}

/// Whether `l` continues an alert block.
fn continues_alert(l: &Vec<char>) -> (r: bool)
    ensures
        r == is_continuation(l@),
{
    let s = trim_start_chars(l);
    has_prefix(&s, &vec!['>', ' '])
}

/// `continuation_body(l)`.
fn strip_continuation(l: &Vec<char>) -> (r: Vec<char>)
    requires
        is_continuation(l@),
    ensures
        r@ == continuation_body(l@),
{
    let s = trim_start_chars(l);
    slice_chars(&s, 2, s.len())
}

/// The output lines for input lines `ls`.
pub fn process_alert_lines(ls: &Vec<Vec<char>>) -> (r: Vec<Vec<char>>)
    ensures
        views(r@) == process_lines(views(ls@)),
{
    let ghost input = views(ls@);
    let mut out: Vec<Vec<char>> = Vec::new();
    let mut i: usize = 0;
    assert(input.skip(0) =~= input);
    assert(views(out@) =~= Seq::<Seq<char>>::empty());
    while i < ls.len()
        invariant
            i <= ls.len(),
            input == views(ls@),
            views(out@) + process_lines(input.skip(i as int)) == process_lines(input),
        decreases ls.len() - i,
    {
        let ghost before_vec = out@;
        let ghost before = views(out@);
        let ghost here = input.skip(i as int);
        let t = trim_chars(&ls[i]);
        assert(here[0] == ls@[i as int]@);
        let ghost rest = here.drop_first();
        assert(rest =~= input.skip(i + 1));
        match alert_head(&t) {
            Some(head) => {
                let (start, title, end) = head;
                out.push(start);
                proof {
                    lemma_views_push_last(before_vec, out@);
                }
                let ghost with_start = out@;
                out.push(title);
                proof {
                    lemma_views_push_last(with_start, out@);
                }
                let first = i + 1;
                i = first;
                let ghost opened = before + seq![start@, title@];
                assert(views(out@) =~= opened);
                while i < ls.len() && continues_alert(&ls[i])
                    invariant
                        first <= i <= ls.len(),
                        input == views(ls@),
                        rest == input.skip(first as int),
                        forall|j: int| first <= j < i ==> is_continuation(#[trigger] input[j]),
                        views(out@) == opened + input.subrange(first as int, i as int).map_values(
                            |l: Seq<char>| continuation_body(l),
                        ),
                    decreases ls.len() - i,
                {
                    let body = strip_continuation(&ls[i]);
                    let ghost prev = out@;
                    out.push(body);
                    proof {
                        lemma_views_push_last(prev, out@);
                        assert(input.subrange(first as int, i + 1).map_values(
                            |l: Seq<char>| continuation_body(l),
                        ) =~= input.subrange(first as int, i as int).map_values(
                            |l: Seq<char>| continuation_body(l),
                        ).push(continuation_body(input[i as int])));
                        assert(views(out@) =~= opened + input.subrange(first as int, i + 1).map_values(
                            |l: Seq<char>| continuation_body(l),
                        ));
                    }
                    i += 1;
                }
                let ghost prev = out@;
                out.push(end);
                proof {
                    lemma_views_push_last(prev, out@);
                    let k = i - first;
                    assert forall|j: int| 0 <= j < k implies is_continuation(#[trigger] rest[j]) by {
                        assert(rest[j] == input[first + j]);
                    }
                    if i < ls.len() {
                        assert(rest[k] == input[i as int]);
                    }
                    lemma_continuation_run_exact(rest, k);
                    assert(rest.take(k) =~= input.subrange(first as int, i as int));
                    assert(rest.skip(k) =~= input.skip(i as int));
                    assert(views(out@) =~= before + alert_block(t@, rest.take(k)));
                    assert(process_lines(here) == alert_block(t@, rest.take(k)) + process_lines(
                        rest.skip(k),
                    ));
                    assert(views(out@) + process_lines(input.skip(i as int)) =~= before
                        + process_lines(here));
                }
            },
            None => {
                out.push(t);
                proof {
                    lemma_views_push_last(before_vec, out@);
                    assert(process_lines(here) == seq![t@] + process_lines(rest));
                    assert(views(out@) + process_lines(input.skip(i + 1)) =~= before
                        + process_lines(here));
                }
                i += 1;
            },
        }
    }
    assert(input.skip(ls.len() as int) =~= Seq::<Seq<char>>::empty());
    assert(views(out@) =~= views(out@) + Seq::<Seq<char>>::empty());
    out
}

proof fn lemma_views_push_last(old: Seq<Vec<char>>, now: Seq<Vec<char>>)
    requires
        now == old.push(now.last()),
    ensures
        views(now) == views(old).push(now.last()@),
{
    assert(views(now) =~= views(old).push(now.last()@));
}

/// Rewrites every alert block of `source` into marker and body lines; every other
/// line is trimmed. The lines are joined with `'\n'`.
pub fn preprocess(source: &str) -> (r: String)
    ensures
        r@ == preprocessed(source@),
{
    let chars = chars_of(source);
    let lines = split_lines(&chars);
    let out = process_alert_lines(&lines);
    string_of(&join_with_newlines(&out))
}

} // verus!
