use vstd::prelude::*;
use vstd::string::*;
use crate::classify::{classify_text, parse_test_output, texts_view, ResultsView, TestResults};
use crate::escape::{escape_html, html_escaped};
use crate::event::{events_view, opt_event_view, opt_text, EventView, TestEvent};
use crate::linker::{add_source_links, is_linking_of, linked_text, Config, SourceLinker};

verus! {

/// What a report shows: the buckets, with each test's output escaped and its
/// references linked, and the size of each test bucket.
#[derive(Debug)]
pub struct RenderModel {
    pub passed: Vec<TestEvent>,
    pub failed: Vec<TestEvent>,
    pub ignored: Vec<TestEvent>,
    pub suite_info: Option<TestEvent>,
    pub errors: Vec<String>,
    pub raw_lines: Vec<String>,
    pub passed_count: usize,
    pub failed_count: usize,
    pub ignored_count: usize,
}

/// `out` is `ev` as a report shows it: a suite summary unchanged, a test with
/// the same name, outcome and time and its output linked.
pub open spec fn is_linked_event<L: SourceLinker>(linker: L, ev: EventView, out: EventView) -> bool {
    match ev {
        EventView::Suite { .. } => out == ev,
        EventView::Test { event, name, stdout, exec_time } => match out {
            EventView::Test { event: e2, name: n2, stdout: o2, exec_time: x2 } => {
                &&& e2 == event
                &&& n2 == name
                &&& x2 == exec_time
                &&& match (stdout, o2) {
                    (None, None) => true,
                    (Some(s), Some(t)) => t == linked_text(linker, s) && is_linking_of(s, t),
                    _ => false,
                }
            },
            _ => false,
        },
    }
}

pub open spec fn all_linked<L: SourceLinker>(linker: L, v: Seq<EventView>, w: Seq<EventView>) -> bool {
    &&& v.len() == w.len()
    &&& forall|i: int| 0 <= i < v.len() ==> is_linked_event(linker, #[trigger] v[i], w[i])
}

fn copy_text(o: &Option<String>) -> (r: Option<String>)
    ensures
        opt_text(r) == opt_text(*o),
{
    match o {
        Some(s) => Some(s.clone()),
        None => None,
    }
}

/// A copy of an event.
pub fn copy_event(ev: &TestEvent) -> (r: TestEvent)
    ensures
        r@ == ev@,
{
    match ev {
        TestEvent::Suite {
            event,
            test_count,
            passed,
            failed,
            ignored,
            measured,
            filtered_out,
            exec_time,
        } => TestEvent::Suite {
            event: event.clone(),
            test_count: *test_count,
            passed: *passed,
            failed: *failed,
            ignored: *ignored,
            measured: *measured,
            filtered_out: *filtered_out,
            exec_time: copy_text(exec_time),
        },
        TestEvent::Test { event, name, stdout, exec_time } => TestEvent::Test {
            event: event.clone(),
            name: name.clone(),
            stdout: copy_text(stdout),
            exec_time: copy_text(exec_time),
        },
    }
}

/// The event with its captured output escaped and linked.
pub fn process_test_for_links<L: SourceLinker>(test: &TestEvent, config: &Config<L>) -> (r: TestEvent)
    ensures
        is_linked_event(config.linker(), test@, r@),
{
    match test {
        TestEvent::Test { event, name, stdout, exec_time } => {
            let processed = match stdout {
                Some(s) => Some(add_source_links(s.as_str(), config)),
                None => None,
            };
            TestEvent::Test {
                event: event.clone(),
                name: name.clone(),
                stdout: processed,
                exec_time: copy_text(exec_time),
            }
        },
        _ => copy_event(test),
    }
}

fn process_all<L: SourceLinker>(tests: &Vec<TestEvent>, config: &Config<L>) -> (r: Vec<TestEvent>)
    ensures
        all_linked(config.linker(), events_view(tests@), events_view(r@)),
{
    let mut out: Vec<TestEvent> = Vec::new();
    let mut i: usize = 0;
    while i < tests.len()
        invariant
            i <= tests@.len(),
            out@.len() == i,
            forall|k: int|
                0 <= k < i ==> is_linked_event(config.linker(), #[trigger] tests@[k]@, out@[k]@),
        decreases tests@.len() - i,
    {
        out.push(process_test_for_links(&tests[i], config));
        i = i + 1;
    }
    out
}

fn copy_texts(v: &Vec<String>) -> (r: Vec<String>)
    ensures
        texts_view(r@) == texts_view(v@),
{
    let mut out: Vec<String> = Vec::new();
    let mut i: usize = 0;
    while i < v.len()
        invariant
            i <= v@.len(),
            out@.len() == i,
            forall|k: int| 0 <= k < i ==> (#[trigger] out@[k])@ == v@[k]@,
        decreases v@.len() - i,
    {
        out.push(v[i].clone());
        i = i + 1;
    }
    assert(texts_view(out@) =~= texts_view(v@));
    out
}

/// `m` shows the classified results `r`, linked by `linker`.
pub open spec fn is_model_of<L: SourceLinker>(linker: L, r: ResultsView, m: RenderModel) -> bool {
    &&& m.passed_count == r.passed.len()
    &&& m.failed_count == r.failed.len()
    &&& m.ignored_count == r.ignored.len()
    &&& all_linked(linker, r.passed, events_view(m.passed@))
    &&& all_linked(linker, r.failed, events_view(m.failed@))
    &&& all_linked(linker, r.ignored, events_view(m.ignored@))
    &&& opt_event_view(m.suite_info) == r.suite_info
    &&& texts_view(m.errors@) == r.errors
    &&& texts_view(m.raw_lines@) == r.raw_lines
}

/// Prepares classified results for rendering: counts each test bucket and
/// links the captured output of every test; the rest is carried over.
pub fn render_model<L: SourceLinker>(results: &TestResults, config: &Config<L>) -> (r: RenderModel)
    ensures
        is_model_of(config.linker(), results@, r),
{
    let suite_info = match &results.suite_info {
        Some(ev) => Some(copy_event(ev)),
        None => None,
    };
    RenderModel {
        passed: process_all(&results.passed, config),
        failed: process_all(&results.failed, config),
        ignored: process_all(&results.ignored, config),
        suite_info,
        errors: copy_texts(&results.errors),
        raw_lines: copy_texts(&results.raw_lines),
        passed_count: results.passed.len(),
        failed_count: results.failed.len(),
        ignored_count: results.ignored.len(),
    }
}

/// Classifies the lines of a test run and prepares them for rendering.
pub fn report_model<L: SourceLinker>(json_input: &str, config: &Config<L>) -> (r: RenderModel)
    ensures
        is_model_of(config.linker(), classify_text(json_input@), r),
{
    let results = parse_test_output(json_input);
    render_model(&results, config)
}

/// The page shown where the template could not be rendered.
pub open spec fn fallback_page(message: Seq<char>) -> Seq<char> {
    "<html><body><h1>Template Error</h1><p>"@ + html_escaped(message) + "</p></body></html>"@
}

/// A minimal page that reports a rendering failure, its message escaped.
pub fn fallback_html(message: &str) -> (r: String)
    ensures
        r@ == fallback_page(message@),
{
    let mut r = String::from_str("<html><body><h1>Template Error</h1><p>");
    r.append(escape_html(message).as_str());
    r.append("</p></body></html>");
    r
}

} // verus!
