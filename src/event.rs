use vstd::prelude::*;
use vstd::string::*;
use serde_json::Value;

verus! {

/// One top-level value of a JSON object, as far as event decoding reads it.
/// A number keeps its text and, where it is a non-negative integer that fits,
/// its value.
pub enum JsonField {
    Null,
    Bool(bool),
    Number { unsigned: Option<u64>, text: String },
    Text(String),
    Array,
    Object,
}

pub ghost enum FieldView {
    Null,
    Bool(bool),
    Number { unsigned: Option<u64>, text: Seq<char> },
    Text(Seq<char>),
    Array,
    Object,
}

impl View for JsonField {
    type V = FieldView;

    open spec fn view(&self) -> FieldView {
        match self {
            JsonField::Null => FieldView::Null,
            JsonField::Bool(b) => FieldView::Bool(*b),
            JsonField::Number { unsigned, text } => FieldView::Number {
                unsigned: *unsigned,
                text: text@,
            },
            JsonField::Text(s) => FieldView::Text(s@),
            JsonField::Array => FieldView::Array,
            JsonField::Object => FieldView::Object,
        }
    }
}

/// One event of a test run: the summary of a whole suite, or one test.
/// An execution time is kept as the text of the JSON number.
#[derive(Debug)]
pub enum TestEvent {
    Suite {
        event: String,
        test_count: Option<u32>,
        passed: Option<u32>,
        failed: Option<u32>,
        ignored: Option<u32>,
        measured: Option<u32>,
        filtered_out: Option<u32>,
        exec_time: Option<String>,
    },
    Test { event: String, name: String, stdout: Option<String>, exec_time: Option<String> },
}

pub ghost enum EventView {
    Suite {
        event: Seq<char>,
        test_count: Option<u32>,
        passed: Option<u32>,
        failed: Option<u32>,
        ignored: Option<u32>,
        measured: Option<u32>,
        filtered_out: Option<u32>,
        exec_time: Option<Seq<char>>,
    },
    Test {
        event: Seq<char>,
        name: Seq<char>,
        stdout: Option<Seq<char>>,
        exec_time: Option<Seq<char>>,
    },
}

pub open spec fn opt_text(o: Option<String>) -> Option<Seq<char>> {
    match o {
        Some(s) => Some(s@),
        None => None,
    }
}

impl View for TestEvent {
    type V = EventView;

    open spec fn view(&self) -> EventView {
        match self {
            TestEvent::Suite {
                event,
                test_count,
                passed,
                failed,
                ignored,
                measured,
                filtered_out,
                exec_time,
            } => EventView::Suite {
                event: event@,
                test_count: *test_count,
                passed: *passed,
                failed: *failed,
                ignored: *ignored,
                measured: *measured,
                filtered_out: *filtered_out,
                exec_time: opt_text(*exec_time),
            },
            TestEvent::Test { event, name, stdout, exec_time } => EventView::Test {
                event: event@,
                name: name@,
                stdout: opt_text(*stdout),
                exec_time: opt_text(*exec_time),
            },
        }
    }
}

pub open spec fn events_view(v: Seq<TestEvent>) -> Seq<EventView> {
    v.map_values(|e: TestEvent| e@)
}

pub open spec fn opt_event_view(o: Option<TestEvent>) -> Option<EventView> {
    match o {
        Some(e) => Some(e@),
        None => None,
    }
}

pub type Fields = Seq<(Seq<char>, FieldView)>;

pub open spec fn fields_view(v: Seq<(String, JsonField)>) -> Fields {
    v.map_values(|p: (String, JsonField)| (p.0@, p.1@))
}

/// What reading a line as a JSON object gives: its members, or the parser's
/// message.
pub open spec fn parsed_view(r: Result<Vec<(String, JsonField)>, String>) -> Result<Fields, Seq<char>> {
    match r {
        Ok(v) => Ok(fields_view(v@)),
        Err(e) => Err(e@),
    }
}

/// What serde_json makes of a line read as a JSON object: the members sorted
/// by name, a name given twice keeping its last value.
pub uninterp spec fn json_fields_of(line: Seq<char>) -> Result<Fields, Seq<char>>;

/// Relies on `serde_json::from_str` into a `serde_json::Map` (a `BTreeMap`):
/// the members of the object that the line holds, or the parser's message
/// where it holds none.
#[verifier::external_body]
pub(crate) fn parse_json_fields(line: &str) -> (r: Result<Vec<(String, JsonField)>, String>)
    ensures
        parsed_view(r) == json_fields_of(line@),
{
    let m = serde_json::from_str::<serde_json::Map<String, Value>>(line).map_err(|e| e.to_string())?;
    let mut fields = Vec::new();
    for (k, v) in m {
        fields.push((k, match v {
            Value::Null => JsonField::Null,
            Value::Bool(b) => JsonField::Bool(b),
            Value::Number(n) => JsonField::Number { unsigned: n.as_u64(), text: n.to_string() },
            Value::String(s) => JsonField::Text(s),
            Value::Array(_) => JsonField::Array,
            Value::Object(_) => JsonField::Object,
        }));
    }
    Ok(fields)
}

/// The first member named `key` at or after position `i`.
pub open spec fn lookup_from(f: Fields, i: int, key: Seq<char>) -> Option<FieldView>
    decreases f.len() - i,
{
    if i < 0 || i >= f.len() {
        None
    } else if f[i].0 == key {
        Some(f[i].1)
    } else {
        lookup_from(f, i + 1, key)
    }
}

pub open spec fn lookup(f: Fields, key: Seq<char>) -> Option<FieldView> {
    lookup_from(f, 0, key)
}

/// A required string member; `None` where it is missing or not a string.
pub open spec fn required_text(f: Fields, key: Seq<char>) -> Option<Seq<char>> {
    match lookup(f, key) {
        Some(FieldView::Text(s)) => Some(s),
        _ => None,
    }
}

/// An optional string member: absent or null gives `Some(None)`; a value of
/// another kind fails the decoding (`None`).
pub open spec fn optional_text(f: Fields, key: Seq<char>) -> Option<Option<Seq<char>>> {
    match lookup(f, key) {
        None => Some(None),
        Some(FieldView::Null) => Some(None),
        Some(FieldView::Text(s)) => Some(Some(s)),
        _ => None,
    }
}

/// An optional `u32` member: only a non-negative integer that fits is accepted.
pub open spec fn optional_count(f: Fields, key: Seq<char>) -> Option<Option<u32>> {
    match lookup(f, key) {
        None => Some(None),
        Some(FieldView::Null) => Some(None),
        Some(FieldView::Number { unsigned: Some(u), text: _ }) => if u <= u32::MAX {
            Some(Some(u as u32))
        } else {
            None
        },
        _ => None,
    }
}

/// An optional numeric member of any kind, kept as its text.
pub open spec fn optional_number(f: Fields, key: Seq<char>) -> Option<Option<Seq<char>>> {
    match lookup(f, key) {
        None => Some(None),
        Some(FieldView::Null) => Some(None),
        Some(FieldView::Number { unsigned: _, text }) => Some(Some(text)),
        _ => None,
    }
}

/// The event that the members describe: `"type"` picks the shape, and each
/// member of that shape must be present (where required) and of its kind.
/// Members that the shape does not name are passed over.
pub open spec fn decode(f: Fields) -> Option<EventView> {
    match required_text(f, "type"@) {
        Some(t) => if t == "suite"@ {
            match (
                required_text(f, "event"@),
                optional_count(f, "test_count"@),
                optional_count(f, "passed"@),
                optional_count(f, "failed"@),
                optional_count(f, "ignored"@),
                optional_count(f, "measured"@),
                optional_count(f, "filtered_out"@),
                optional_number(f, "exec_time"@),
            ) {
                (Some(e), Some(tc), Some(p), Some(fl), Some(ig), Some(m), Some(fo), Some(x)) => Some(
                    EventView::Suite {
                        event: e,
                        test_count: tc,
                        passed: p,
                        failed: fl,
                        ignored: ig,
                        measured: m,
                        filtered_out: fo,
                        exec_time: x,
                    },
                ),
                _ => None,
            }
        } else if t == "test"@ {
            match (
                required_text(f, "event"@),
                required_text(f, "name"@),
                optional_text(f, "stdout"@),
                optional_number(f, "exec_time"@),
            ) {
                (Some(e), Some(n), Some(o), Some(x)) => Some(
                    EventView::Test { event: e, name: n, stdout: o, exec_time: x },
                ),
                _ => None,
            }
        } else {
            None
        },
        None => None,
    }
}

pub open spec fn field_problem(key: Seq<char>) -> Seq<char> {
    "missing or invalid field `"@ + key + "`"@
}

/// Why members that `decode` rejects describe no event: the type is missing
/// or unknown, or names the first member of its shape that fails.
pub open spec fn decode_problem(f: Fields) -> Seq<char> {
    match required_text(f, "type"@) {
        None => field_problem("type"@),
        Some(t) => if t == "suite"@ {
            if required_text(f, "event"@) is None {
                field_problem("event"@)
            } else if optional_count(f, "test_count"@) is None {
                field_problem("test_count"@)
            } else if optional_count(f, "passed"@) is None {
                field_problem("passed"@)
            } else if optional_count(f, "failed"@) is None {
                field_problem("failed"@)
            } else if optional_count(f, "ignored"@) is None {
                field_problem("ignored"@)
            } else if optional_count(f, "measured"@) is None {
                field_problem("measured"@)
            } else if optional_count(f, "filtered_out"@) is None {
                field_problem("filtered_out"@)
            } else {
                field_problem("exec_time"@)
            }
        } else if t == "test"@ {
            if required_text(f, "event"@) is None {
                field_problem("event"@)
            } else if required_text(f, "name"@) is None {
                field_problem("name"@)
            } else if optional_text(f, "stdout"@) is None {
                field_problem("stdout"@)
            } else {
                field_problem("exec_time"@)
            }
        } else {
            "unknown event type `"@ + t + "`"@
        },
    }
}

fn problem(key: &str) -> (r: String)
    ensures
        r@ == field_problem(key@),
{
    let mut r = String::from_str("missing or invalid field `");
    r.append(key);
    r.append("`");
    r
}

/// The reason that `decode_problem` gives.
pub fn decode_problem_text(fields: &Vec<(String, JsonField)>) -> (r: String)
    ensures
        r@ == decode_problem(fields_view(fields@)),
{
    let t = match get_required_text(fields, "type") {
        Some(t) => t,
        None => return problem("type"),
    };
    if t == String::from_str("suite") {
        if get_required_text(fields, "event").is_none() {
            problem("event")
        } else if get_optional_count(fields, "test_count").is_none() {
            problem("test_count")
        } else if get_optional_count(fields, "passed").is_none() {
            problem("passed")
        } else if get_optional_count(fields, "failed").is_none() {
            problem("failed")
        } else if get_optional_count(fields, "ignored").is_none() {
            problem("ignored")
        } else if get_optional_count(fields, "measured").is_none() {
            problem("measured")
        } else if get_optional_count(fields, "filtered_out").is_none() {
            problem("filtered_out")
        } else {
            problem("exec_time")
        }
    } else if t == String::from_str("test") {
        if get_required_text(fields, "event").is_none() {
            problem("event")
        } else if get_required_text(fields, "name").is_none() {
            problem("name")
        } else if get_optional_text(fields, "stdout").is_none() {
            problem("stdout")
        } else {
            problem("exec_time")
        }
    } else {
        let mut r = String::from_str("unknown event type `");
        r.append(t.as_str());
        r.append("`");
        r
    }
}

fn find_field(fields: &Vec<(String, JsonField)>, key: &str) -> (r: Option<usize>)
    ensures
        match r {
            Some(i) => i < fields@.len() && lookup(fields_view(fields@), key@) == Some(
                fields@[i as int].1@,
            ),
            None => lookup(fields_view(fields@), key@) == None::<FieldView>,
        },
{
    let ghost f = fields_view(fields@);
    let k = String::from_str(key);
    let mut i: usize = 0;
    while i < fields.len()
        invariant
            i <= fields@.len(),
            f == fields_view(fields@),
            k@ == key@,
            lookup(f, key@) == lookup_from(f, i as int, key@),
        decreases fields@.len() - i,
    {
        if fields[i].0 == k {
            return Some(i);
        }
        i = i + 1;
    }
    None
}

fn get_required_text(fields: &Vec<(String, JsonField)>, key: &str) -> (r: Option<String>)
    ensures
        opt_text(r) == required_text(fields_view(fields@), key@),
{
    match find_field(fields, key) {
        Some(i) => match &fields[i].1 {
            JsonField::Text(s) => Some(s.clone()),
            _ => None,
        },
        None => None,
    }
}

fn get_optional_text(fields: &Vec<(String, JsonField)>, key: &str) -> (r: Option<Option<String>>)
    ensures
        match r {
            Some(o) => optional_text(fields_view(fields@), key@) == Some(opt_text(o)),
            None => optional_text(fields_view(fields@), key@) == None::<Option<Seq<char>>>,
        },
{
    match find_field(fields, key) {
        Some(i) => match &fields[i].1 {
            JsonField::Null => Some(None),
            JsonField::Text(s) => Some(Some(s.clone())),
            _ => None,
        },
        None => Some(None),
    }
}

fn get_optional_count(fields: &Vec<(String, JsonField)>, key: &str) -> (r: Option<Option<u32>>)
    ensures
        r == optional_count(fields_view(fields@), key@),
{
    match find_field(fields, key) {
        Some(i) => match &fields[i].1 {
            JsonField::Null => Some(None),
            JsonField::Number { unsigned: Some(u), text: _ } => if *u <= 0xffff_ffffu64 {
                Some(Some(*u as u32))
            } else {
                None
            },
            _ => None,
        },
        None => Some(None),
    }
}

fn get_optional_number(fields: &Vec<(String, JsonField)>, key: &str) -> (r: Option<Option<String>>)
    ensures
        match r {
            Some(o) => optional_number(fields_view(fields@), key@) == Some(opt_text(o)),
            None => optional_number(fields_view(fields@), key@) == None::<Option<Seq<char>>>,
        },
{
    match find_field(fields, key) {
        Some(i) => match &fields[i].1 {
            JsonField::Null => Some(None),
            JsonField::Number { unsigned: _, text } => Some(Some(text.clone())),
            _ => None,
        },
        None => Some(None),
    }
}

/// Decodes the members of a JSON object into an event, or `None` where they
/// describe neither shape.
pub fn decode_event(fields: &Vec<(String, JsonField)>) -> (r: Option<TestEvent>)
    ensures
        opt_event_view(r) == decode(fields_view(fields@)),
{
    let t = match get_required_text(fields, "type") {
        Some(t) => t,
        None => return None,
    };
    if t == String::from_str("suite") {
        let event = get_required_text(fields, "event");
        let test_count = get_optional_count(fields, "test_count");
        let passed = get_optional_count(fields, "passed");
        let failed = get_optional_count(fields, "failed");
        let ignored = get_optional_count(fields, "ignored");
        let measured = get_optional_count(fields, "measured");
        let filtered_out = get_optional_count(fields, "filtered_out");
        let exec_time = get_optional_number(fields, "exec_time");
        match (event, test_count, passed, failed, ignored, measured, filtered_out, exec_time) {
            (Some(e), Some(tc), Some(p), Some(fl), Some(ig), Some(m), Some(fo), Some(x)) => Some(
                TestEvent::Suite {
                    event: e,
                    test_count: tc,
                    passed: p,
                    failed: fl,
                    ignored: ig,
                    measured: m,
                    filtered_out: fo,
                    exec_time: x,
                },
            ),
            _ => None,
        }
    } else if t == String::from_str("test") {
        let event = get_required_text(fields, "event");
        let name = get_required_text(fields, "name");
        let stdout = get_optional_text(fields, "stdout");
        let exec_time = get_optional_number(fields, "exec_time");
        match (event, name, stdout, exec_time) {
            (Some(e), Some(n), Some(o), Some(x)) => Some(
                TestEvent::Test { event: e, name: n, stdout: o, exec_time: x },
            ),
            _ => None,
        }
    } else {
        None
    }
}

} // verus!
