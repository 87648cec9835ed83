use vstd::prelude::*;
use vstd::string::*;
use crate::event::{
    decode, decode_event, decode_problem, decode_problem_text, events_view, json_fields_of, opt_event_view, parse_json_fields,
    parsed_view, EventView, Fields, JsonField, TestEvent,
};
use crate::text::{chars_of, lines_from, lines_of, trim, trimmed};

verus! {

/// What a run's lines were sorted into. Each bucket keeps the order of input.
#[derive(Debug)]
pub struct TestResults {
    pub passed: Vec<TestEvent>,
    pub failed: Vec<TestEvent>,
    pub ignored: Vec<TestEvent>,
    pub suite_info: Option<TestEvent>,
    pub errors: Vec<String>,
    pub raw_lines: Vec<String>,
}

pub ghost struct ResultsView {
    pub passed: Seq<EventView>,
    pub failed: Seq<EventView>,
    pub ignored: Seq<EventView>,
    pub suite_info: Option<EventView>,
    pub errors: Seq<Seq<char>>,
    pub raw_lines: Seq<Seq<char>>,
}

pub open spec fn texts_view(v: Seq<String>) -> Seq<Seq<char>> {
    v.map_values(|s: String| s@)
}

impl View for TestResults {
    type V = ResultsView;

    open spec fn view(&self) -> ResultsView {
        ResultsView {
            passed: events_view(self.passed@),
            failed: events_view(self.failed@),
            ignored: events_view(self.ignored@),
            suite_info: opt_event_view(self.suite_info),
            errors: texts_view(self.errors@),
            raw_lines: texts_view(self.raw_lines@),
        }
    }
}

pub open spec fn empty_results() -> ResultsView {
    ResultsView {
        passed: Seq::empty(),
        failed: Seq::empty(),
        ignored: Seq::empty(),
        suite_info: None,
        errors: Seq::empty(),
        raw_lines: Seq::empty(),
    }
}

/// The diagnostic recorded for a line that opens an object but is no event.
pub open spec fn diagnostic(message: Seq<char>, line: Seq<char>) -> Seq<char> {
    "Failed to parse JSON: "@ + message + " - Line: "@ + line
}

pub open spec fn opens_object(line: Seq<char>) -> bool {
    line.len() > 0 && line[0] == '{'
}

/// A line that is no event: an error where it opens an object, raw text otherwise.
pub open spec fn rejected(r: ResultsView, line: Seq<char>, message: Seq<char>) -> ResultsView {
    if opens_object(line) {
        ResultsView { errors: r.errors.push(diagnostic(message, line)), ..r }
    } else {
        ResultsView { raw_lines: r.raw_lines.push(line), ..r }
    }
}

/// Where a decoded event goes.
pub open spec fn file_event(r: ResultsView, line: Seq<char>, ev: EventView) -> ResultsView {
    match ev {
        EventView::Suite { .. } => ResultsView { suite_info: Some(ev), ..r },
        EventView::Test { event, .. } => if event == "ok"@ {
            ResultsView { passed: r.passed.push(ev), ..r }
        } else if event == "failed"@ {
            ResultsView { failed: r.failed.push(ev), ..r }
        } else if event == "ignored"@ {
            ResultsView { ignored: r.ignored.push(ev), ..r }
        } else {
            ResultsView { raw_lines: r.raw_lines.push(line), ..r }
        },
    }
}

/// One trimmed, non-empty line, given what reading it as a JSON object gave.
pub open spec fn classify_parsed(
    r: ResultsView,
    line: Seq<char>,
    parsed: Result<Fields, Seq<char>>,
) -> ResultsView {
    match parsed {
        Ok(f) => match decode(f) {
            Some(ev) => file_event(r, line, ev),
            None => rejected(r, line, decode_problem(f)),
        },
        Err(m) => rejected(r, line, m),
    }
}

/// One line of input: trimmed, skipped where empty, classified otherwise.
pub open spec fn classify_line_spec(r: ResultsView, raw: Seq<char>) -> ResultsView {
    let t = trim(raw);
    if t.len() == 0 {
        r
    } else {
        classify_parsed(r, t, json_fields_of(t))
    }
}

pub open spec fn classify_lines(r: ResultsView, lines: Seq<Seq<char>>) -> ResultsView
    decreases lines.len(),
{
    if lines.len() == 0 {
        r
    } else {
        classify_lines(classify_line_spec(r, lines[0]), lines.drop_first())
    }
}

/// The classification of a whole input text.
pub open spec fn classify_text(input: Seq<char>) -> ResultsView {
    classify_lines(empty_results(), lines_of(input))
}

impl TestResults {
    pub fn new() -> (r: TestResults)
        ensures
            r@ == empty_results(),
    {
        let r = TestResults {
            passed: Vec::new(),
            failed: Vec::new(),
            ignored: Vec::new(),
            suite_info: None,
            errors: Vec::new(),
            raw_lines: Vec::new(),
        };
        assert(r@.passed =~= Seq::<EventView>::empty());
        assert(r@.failed =~= Seq::<EventView>::empty());
        assert(r@.ignored =~= Seq::<EventView>::empty());
        assert(r@.errors =~= Seq::<Seq<char>>::empty());
        assert(r@.raw_lines =~= Seq::<Seq<char>>::empty());
        r
    }
}

fn push_event(v: &mut Vec<TestEvent>, ev: TestEvent)
    ensures
        events_view(final(v)@) == events_view(old(v)@).push(ev@),
{
    v.push(ev);
    assert(events_view(v@) =~= events_view(old(v)@).push(ev@));
}

fn push_text(v: &mut Vec<String>, s: String)
    ensures
        texts_view(final(v)@) == texts_view(old(v)@).push(s@),
{
    v.push(s);
    assert(texts_view(v@) =~= texts_view(old(v)@).push(s@));
}

fn reject_line(results: &mut TestResults, line: &str, message: &str)
    ensures
        final(results)@ == rejected(old(results)@, line@, message@),
{
    if !line.is_empty() && line.get_char(0) == '{' {
        let mut d = String::from_str("Failed to parse JSON: ");
        d.append(message);
        d.append(" - Line: ");
        d.append(line);
        push_text(&mut results.errors, d);
    } else {
        push_text(&mut results.raw_lines, String::from_str(line));
    }
}

/// Files one trimmed, non-empty line, given what reading it as a JSON object
/// gave (`parse_json_fields`).
pub fn classify_line(
    results: &mut TestResults,
    line: &str,
    parsed: Result<Vec<(String, JsonField)>, String>,
)
    ensures
        final(results)@ == classify_parsed(old(results)@, line@, parsed_view(parsed)),
{
    match parsed {
        Ok(fields) => match decode_event(&fields) {
            Some(ev) => match ev {
                TestEvent::Suite { .. } => {
                    results.suite_info = Some(ev);
                },
                TestEvent::Test { event: ref status, .. } => {
                    if *status == String::from_str("ok") {
                        push_event(&mut results.passed, ev);
                    } else if *status == String::from_str("failed") {
                        push_event(&mut results.failed, ev);
                    } else if *status == String::from_str("ignored") {
                        push_event(&mut results.ignored, ev);
                    } else {
                        push_text(&mut results.raw_lines, String::from_str(line));
                    }
                },
            },
            None => reject_line(results, line, decode_problem_text(&fields).as_str()),
        },
        Err(m) => reject_line(results, line, m.as_str()),
    }
}

fn classify_raw_line(results: &mut TestResults, raw: &Vec<char>)
    ensures
        final(results)@ == classify_line_spec(old(results)@, raw@),
{
    let t = trimmed(raw);
    if !t.as_str().is_empty() {
        let parsed = parse_json_fields(t.as_str());
        classify_line(results, t.as_str(), parsed);
    }
}

/// Sorts every line of the input into the buckets of a `TestResults`.
pub fn parse_test_output(input: &str) -> (r: TestResults)
    ensures
        r@ == classify_text(input@),
{
    let chars = chars_of(input);
    let ghost s = input@;
    let mut results = TestResults::new();
    let mut cur: Vec<char> = Vec::new();
    let mut i: usize = 0;
    assert(cur@ =~= Seq::<char>::empty());
    while i < chars.len()
        invariant
            chars@ == s,
            i <= s.len(),
            classify_lines(results@, lines_from(s, i as int, cur@)) == classify_text(s),
        decreases s.len() - i,
    {
        let c = chars[i];
        if c == '\n' {
            proof {
                let rest = lines_from(s, i + 1, Seq::empty());
                let ls = seq![cur@] + rest;
                assert(ls[0] == cur@);
                assert(ls.drop_first() =~= rest);
            }
            classify_raw_line(&mut results, &cur);
            cur = Vec::new();
            assert(cur@ =~= Seq::<char>::empty());
        } else {
            cur.push(c);
        }
        i = i + 1;
    }
    let ghost before = results@;
    proof {
        let ls = seq![cur@];
        assert(lines_from(s, i as int, cur@) == ls);
        assert(ls.drop_first() =~= Seq::<Seq<char>>::empty());
        assert(ls[0] == cur@);
    }
    classify_raw_line(&mut results, &cur);
    proof {
        let ls = seq![cur@];
        assert(classify_lines(results@, ls.drop_first()) == results@);
        assert(classify_lines(before, ls) == results@);
    }
    results
}

} // verus!
