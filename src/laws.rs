use vstd::prelude::*;
use crate::classify::{
    classify_lines, classify_line_spec, classify_parsed, classify_text, diagnostic, opens_object,
    ResultsView,
};
use crate::escape::{
    attribute_encoded, lemma_attribute_encoded_no_open_angle, lemma_html_escaped_no_open_angle,
    lemma_no_open_angle_concat, no_open_angle, html_escaped,
};
use crate::event::{decode, json_fields_of, EventView, FieldView};
use crate::linker::{
    anchor, is_linking_of, joined, linked_piece, linked_pieces, linked_with, piece_text,
    linked_text, reference_pieces_of, PieceView, SourceLinker,
};
use crate::report::{is_model_of, RenderModel};
use crate::text::trim;

verus! {

/// Every `<` of the text opens a tag whose name starts with `a` or `/`.
pub open spec fn tags_are_links(s: Seq<char>) -> bool {
    forall|i: int|
        0 <= i < s.len() && #[trigger] s[i] == '<' ==> i + 1 < s.len() && (s[i + 1] == 'a' || s[i
            + 1] == '/')
}

pub open spec fn contains(s: Seq<char>, pat: Seq<char>) -> bool {
    exists|k: int| 0 <= k && k + pat.len() <= s.len() && #[trigger] s.subrange(k, k + pat.len()) == pat
}

proof fn lemma_tags_concat(a: Seq<char>, b: Seq<char>)
    requires
        tags_are_links(a),
        tags_are_links(b),
    ensures
        tags_are_links(a + b),
{
    let s = a + b;
    assert forall|i: int| 0 <= i < s.len() && #[trigger] s[i] == '<' implies i + 1 < s.len() && (
    s[i + 1] == 'a' || s[i + 1] == '/') by {
        if i < a.len() {
            assert(s[i] == a[i]);
            assert(s[i + 1] == a[i + 1]);
        } else {
            assert(s[i] == b[i - a.len()]);
            assert(s[i + 1] == b[i + 1 - a.len()]);
        }
    }
}

proof fn lemma_split_no_open_angle(a: Seq<char>, b: Seq<char>)
    requires
        no_open_angle(a + b),
    ensures
        no_open_angle(a),
        no_open_angle(b),
{
    assert forall|i: int| 0 <= i < a.len() implies #[trigger] a[i] != '<' by {
        assert(a[i] == (a + b)[i]);
    }
    assert forall|i: int| 0 <= i < b.len() implies #[trigger] b[i] != '<' by {
        assert(b[i] == (a + b)[i + a.len()]);
    }
}

pub open spec fn piece_clean(p: PieceView) -> bool {
    match p {
        PieceView::Text(s) => no_open_angle(s),
        PieceView::Ref { file, line, col } => no_open_angle(file) && no_open_angle(line)
            && no_open_angle(col),
    }
}

proof fn lemma_pieces_clean(ps: Seq<PieceView>)
    requires
        no_open_angle(joined(ps)),
    ensures
        forall|i: int| 0 <= i < ps.len() ==> piece_clean(#[trigger] ps[i]),
    decreases ps.len(),
{
    if ps.len() > 0 {
        let p = ps.last();
        lemma_split_no_open_angle(joined(ps.drop_last()), piece_text(p));
        lemma_pieces_clean(ps.drop_last());
        match p {
            PieceView::Ref { file, line, col } => {
                let x1 = "at "@ + file;
                let x2 = x1 + ":"@;
                let x3 = x2 + line;
                let x4 = x3 + ":"@;
                let x5 = x4 + col;
                lemma_split_no_open_angle(x5, ":"@);
                lemma_split_no_open_angle(x4, col);
                lemma_split_no_open_angle(x3, ":"@);
                lemma_split_no_open_angle(x2, line);
                lemma_split_no_open_angle(x1, ":"@);
                lemma_split_no_open_angle("at "@, file);
            },
            _ => {},
        }
        assert forall|i: int| 0 <= i < ps.len() implies piece_clean(#[trigger] ps[i]) by {
            if i < ps.len() - 1 {
                assert(ps[i] == ps.drop_last()[i]);
            }
        }
    }
}

proof fn lemma_literals()
    ensures
        no_open_angle(":"@),
        no_open_angle("at "@),
        no_open_angle("\" target=\"_blank\">"@),
        tags_are_links("at <a href=\""@),
        tags_are_links("</a>:"@),
{
    reveal_strlit(":");
    reveal_strlit("at ");
    reveal_strlit("\" target=\"_blank\">");
    reveal_strlit("at <a href=\"");
    reveal_strlit("</a>:");
}

proof fn lemma_linked_piece_tags(p: PieceView, u: Option<Seq<char>>)
    requires
        piece_clean(p),
    ensures
        tags_are_links(linked_piece(p, u)),
{
    lemma_literals();
    match p {
        PieceView::Text(s) => {},
        PieceView::Ref { file, line, col } => {
            let c = ":"@;
            let x1 = "at "@ + file;
            lemma_no_open_angle_concat("at "@, file);
            lemma_no_open_angle_concat(x1, c);
            lemma_no_open_angle_concat(x1 + c, line);
            lemma_no_open_angle_concat(x1 + c + line, c);
            lemma_no_open_angle_concat(x1 + c + line + c, col);
            lemma_no_open_angle_concat(x1 + c + line + c + col, c);
            match u {
                Some(url) => {
                    let e = attribute_encoded(url);
                    lemma_attribute_encoded_no_open_angle(url);
                    let mid = "\" target=\"_blank\">"@;
                    lemma_no_open_angle_concat(e, mid);
                    lemma_no_open_angle_concat(e + mid, file);
                    lemma_no_open_angle_concat(e + mid + file, c);
                    lemma_no_open_angle_concat(e + mid + file + c, line);
                    lemma_no_open_angle_concat(e + mid + file + c + line, c);
                    lemma_no_open_angle_concat(e + mid + file + c + line + c, col);
                    let body = e + mid + file + c + line + c + col;
                    let head = "at <a href=\""@;
                    lemma_tags_concat(head, body);
                    lemma_tags_concat(head + body, "</a>:"@);
                    assert(head + e + mid + file + c + line + c + col =~= head + body);
                    assert(anchor(url, file, line, col) =~= head + body + "</a>:"@);
                },
                None => {},
            }
        },
    }
}

proof fn lemma_linked_pieces_tags(ps: Seq<PieceView>, urls: Seq<Option<Seq<char>>>)
    requires
        forall|i: int| 0 <= i < ps.len() ==> piece_clean(#[trigger] ps[i]),
    ensures
        tags_are_links(linked_pieces(ps, urls)),
    decreases ps.len(),
{
    if ps.len() > 0 {
        assert forall|i: int| 0 <= i < ps.drop_last().len() implies piece_clean(
            #[trigger] ps.drop_last()[i],
        ) by {
            assert(ps.drop_last()[i] == ps[i]);
        }
        lemma_linked_pieces_tags(ps.drop_last(), urls.drop_last());
        lemma_linked_piece_tags(ps.last(), urls.last());
        lemma_tags_concat(
            linked_pieces(ps.drop_last(), urls.drop_last()),
            linked_piece(ps.last(), urls.last()),
        );
    }
}

/// Linked output never holds a `<script>` tag, whatever the captured text and
/// whatever the linker answered: the text is escaped before any anchor is
/// inserted, so every `<` left in it opens an anchor or closes one.
pub proof fn linked_text_has_no_script_tag(text: Seq<char>, out: Seq<char>)
    requires
        is_linking_of(text, out),
    ensures
        !contains(out, "<script>"@),
{
    let urls = choose|urls: Seq<Option<Seq<char>>>| linked_with(text, urls, out);
    let ps = reference_pieces_of(html_escaped(text));
    lemma_html_escaped_no_open_angle(text);
    lemma_pieces_clean(ps);
    lemma_linked_pieces_tags(ps, urls);
    reveal_strlit("<script>");
    if contains(out, "<script>"@) {
        let k = choose|k: int|
            0 <= k && k + "<script>"@.len() <= out.len() && #[trigger] out.subrange(
                k,
                k + "<script>"@.len(),
            ) == "<script>"@;
        assert(out.subrange(k, k + 8)[0] == out[k]);
        assert(out.subrange(k, k + 8)[1] == out[k + 1]);
        assert(out[k] == '<');
        assert(out[k + 1] == 's');
    }
}

proof fn lemma_unanswered_pieces(ps: Seq<PieceView>, urls: Seq<Option<Seq<char>>>)
    requires
        urls.len() == ps.len(),
        forall|i: int| 0 <= i < urls.len() ==> #[trigger] urls[i] is None,
    ensures
        linked_pieces(ps, urls) == joined(ps),
    decreases ps.len(),
{
    if ps.len() > 0 {
        assert(urls.last() is None);
        assert forall|i: int| 0 <= i < urls.drop_last().len() implies #[trigger] urls.drop_last()[i]
            is None by {
            assert(urls.drop_last()[i] == urls[i]);
        }
        lemma_unanswered_pieces(ps.drop_last(), urls.drop_last());
    }
}

/// With a linker that answers no location (such as the default one), linking
/// gives back exactly the escaped text: no anchor is inserted.
pub proof fn unanswered_links_give_escaped_text<L: SourceLinker>(
    linker: L,
    text: Seq<char>,
    out: Seq<char>,
)
    requires
        forall|file: Seq<char>, line: u32| #[trigger] linker.link_spec(file, line) is None,
        is_linking_of(text, out),
        out == linked_text(linker, text),
    ensures
        out == html_escaped(text),
{
    let ps = reference_pieces_of(html_escaped(text));
    let urls = crate::linker::answers(linker, ps);
    assert forall|i: int| 0 <= i < urls.len() implies #[trigger] urls[i] is None by {
        match ps[i] {
            PieceView::Ref { file, line, col: _ } => {
                assert(linker.link_spec(file, crate::linker::line_number(line)) is None);
            },
            _ => {},
        }
    }
    let w = choose|w: Seq<Option<Seq<char>>>| linked_with(text, w, out);
    lemma_unanswered_pieces(ps, urls);
}

/// A test line `{ "type": "test", "name": N, "event": "ok" }`, as its members,
/// is filed exactly once, under passed, and every other bucket is left as it was.
pub proof fn ok_test_line_is_passed(r: ResultsView, line: Seq<char>, name: Seq<char>)
    ensures
        classify_parsed(
            r,
            line,
            Ok(
                seq![
                    ("type"@, FieldView::Text("test"@)),
                    ("name"@, FieldView::Text(name)),
                    ("event"@, FieldView::Text("ok"@)),
                ],
            ),
        ) == (ResultsView {
            passed: r.passed.push(
                EventView::Test { event: "ok"@, name, stdout: None, exec_time: None },
            ),
            ..r
        }),
{
    reveal_strlit("type");
    reveal_strlit("test");
    reveal_strlit("name");
    reveal_strlit("event");
    reveal_strlit("ok");
    reveal_strlit("suite");
    reveal_strlit("stdout");
    reveal_strlit("exec_time");
    reveal_with_fuel(crate::event::lookup_from, 4);
    let f = seq![
        ("type"@, FieldView::Text("test"@)),
        ("name"@, FieldView::Text(name)),
        ("event"@, FieldView::Text("ok"@)),
    ];
    assert("type"@[0] != "name"@[0]);
    assert("type"@.len() != "event"@.len() && "type"@.len() != "stdout"@.len());
    assert("type"@.len() != "exec_time"@.len() && "name"@.len() != "event"@.len());
    assert("name"@.len() != "stdout"@.len() && "name"@.len() != "exec_time"@.len());
    assert("event"@ != "stdout"@ && "event"@ != "exec_time"@);
    assert("test"@.len() != "suite"@.len());
    assert(crate::event::lookup(f, "type"@) == Some(FieldView::Text("test"@)));
    assert(crate::event::lookup(f, "name"@) == Some(FieldView::Text(name)));
    assert(crate::event::lookup(f, "event"@) == Some(FieldView::Text("ok"@)));
    assert(crate::event::lookup(f, "stdout"@) == None::<FieldView>);
    assert(crate::event::lookup(f, "exec_time"@) == None::<FieldView>);
    assert(decode(f) == Some(EventView::Test { event: "ok"@, name, stdout: None, exec_time: None }));
}

/// A line that is no JSON object and does not open one is kept as raw text,
/// never reported as an error.
pub proof fn unparsed_plain_line_is_raw(r: ResultsView, raw: Seq<char>)
    requires
        trim(raw).len() > 0,
        !opens_object(trim(raw)),
        json_fields_of(trim(raw)) is Err,
    ensures
        classify_line_spec(r, raw) == (ResultsView { raw_lines: r.raw_lines.push(trim(raw)), ..r }),
{
}

/// A line that opens an object but is no valid JSON is reported as an error,
/// with the parser's message and the line, and is not kept as raw text.
pub proof fn unparsed_object_line_is_error(r: ResultsView, raw: Seq<char>)
    requires
        opens_object(trim(raw)),
        json_fields_of(trim(raw)) is Err,
    ensures
        classify_line_spec(r, raw) == (ResultsView {
            errors: r.errors.push(diagnostic(json_fields_of(trim(raw))->Err_0, trim(raw))),
            ..r
        }),
{
}

/// The event that a line of input holds, where it holds one.
pub open spec fn line_event(raw: Seq<char>) -> Option<EventView> {
    let t = trim(raw);
    if t.len() == 0 {
        None
    } else {
        match json_fields_of(t) {
            Ok(f) => decode(f),
            Err(_) => None,
        }
    }
}

pub open spec fn is_suite_line(raw: Seq<char>) -> bool {
    match line_event(raw) {
        Some(EventView::Suite { .. }) => true,
        _ => false,
    }
}

proof fn lemma_no_suite_lines_keep_summary(r: ResultsView, ls: Seq<Seq<char>>)
    requires
        forall|i: int| 0 <= i < ls.len() ==> !is_suite_line(#[trigger] ls[i]),
    ensures
        classify_lines(r, ls).suite_info == r.suite_info,
    decreases ls.len(),
{
    if ls.len() > 0 {
        assert(!is_suite_line(ls[0]));
        assert forall|i: int| 0 <= i < ls.drop_first().len() implies !is_suite_line(
            #[trigger] ls.drop_first()[i],
        ) by {
            assert(ls.drop_first()[i] == ls[i + 1]);
        }
        lemma_no_suite_lines_keep_summary(classify_line_spec(r, ls[0]), ls.drop_first());
    }
}

/// The suite summary kept is that of the last suite line, whatever lines
/// stand before and after it: every earlier suite line is replaced.
pub proof fn last_suite_line_is_kept(r: ResultsView, ls: Seq<Seq<char>>, k: int)
    requires
        0 <= k < ls.len(),
        is_suite_line(ls[k]),
        forall|i: int| k < i < ls.len() ==> !is_suite_line(#[trigger] ls[i]),
    ensures
        classify_lines(r, ls).suite_info == line_event(ls[k]),
    decreases k,
{
    let rest = ls.drop_first();
    if k == 0 {
        assert forall|i: int| 0 <= i < rest.len() implies !is_suite_line(#[trigger] rest[i]) by {
            assert(rest[i] == ls[i + 1]);
        }
        lemma_no_suite_lines_keep_summary(classify_line_spec(r, ls[0]), rest);
    } else {
        assert(rest[k - 1] == ls[k]);
        assert forall|i: int| k - 1 < i < rest.len() implies !is_suite_line(#[trigger] rest[i]) by {
            assert(rest[i] == ls[i + 1]);
        }
        last_suite_line_is_kept(classify_line_spec(r, ls[0]), rest, k - 1);
    }
}

pub open spec fn is_ok_test_line(raw: Seq<char>) -> bool {
    match line_event(raw) {
        Some(EventView::Test { event, .. }) => event == "ok"@,
        _ => false,
    }
}

/// How many of the lines are ok test lines.
pub open spec fn ok_line_count(ls: Seq<Seq<char>>) -> nat
    decreases ls.len(),
{
    if ls.len() == 0 {
        0
    } else {
        (if is_ok_test_line(ls[0]) { 1nat } else { 0nat }) + ok_line_count(ls.drop_first())
    }
}

proof fn lemma_ok_lines_pass(r: ResultsView, ls: Seq<Seq<char>>)
    ensures
        classify_lines(r, ls).passed.len() == r.passed.len() + ok_line_count(ls),
    decreases ls.len(),
{
    if ls.len() > 0 {
        let r1 = classify_line_spec(r, ls[0]);
        assert(r1.passed.len() == r.passed.len() + (if is_ok_test_line(ls[0]) { 1nat } else { 0nat }));
        lemma_ok_lines_pass(r1, ls.drop_first());
    }
}

/// Whatever else the input holds, the report model counts exactly as many
/// passed tests as the input has ok test lines.
pub proof fn passed_count_is_ok_line_count<L: SourceLinker>(
    linker: L,
    input: Seq<char>,
    m: RenderModel,
)
    requires
        is_model_of(linker, classify_text(input), m),
    ensures
        m.passed_count == ok_line_count(crate::text::lines_of(input)),
{
    lemma_ok_lines_pass(crate::classify::empty_results(), crate::text::lines_of(input));
}

} // verus!
