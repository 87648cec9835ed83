use vstd::prelude::*;

verus! {

/// How the template engine's default escaping writes one character.
pub open spec fn html_entity(c: char) -> Seq<char> {
    if c == '<' {
        seq!['&', 'l', 't', ';']
    } else if c == '>' {
        seq!['&', 'g', 't', ';']
    } else if c == '"' {
        seq!['&', 'q', 'u', 'o', 't', ';']
    } else if c == '&' {
        seq!['&', 'a', 'm', 'p', ';']
    } else if c == '\'' {
        seq!['&', '#', 'x', '2', '7', ';']
    } else if c == '`' {
        seq!['&', '#', 'x', '6', '0', ';']
    } else if c == '=' {
        seq!['&', '#', 'x', '3', 'D', ';']
    } else {
        seq![c]
    }
}

/// The text with each character replaced by its `html_entity`.
pub open spec fn html_escaped(s: Seq<char>) -> Seq<char>
    decreases s.len(),
{
    if s.len() == 0 {
        Seq::empty()
    } else {
        html_escaped(s.drop_last()) + html_entity(s.last())
    }
}

/// How a double-quoted attribute value writes one character: only `&`, `<`,
/// `>` and `"` change.
pub open spec fn attribute_entity(c: char) -> Seq<char> {
    if c == '&' {
        seq!['&', 'a', 'm', 'p', ';']
    } else if c == '<' {
        seq!['&', 'l', 't', ';']
    } else if c == '>' {
        seq!['&', 'g', 't', ';']
    } else if c == '"' {
        seq!['&', 'q', 'u', 'o', 't', ';']
    } else {
        seq![c]
    }
}

/// The text with each character replaced by its `attribute_entity`.
pub open spec fn attribute_encoded(s: Seq<char>) -> Seq<char>
    decreases s.len(),
{
    if s.len() == 0 {
        Seq::empty()
    } else {
        attribute_encoded(s.drop_last()) + attribute_entity(s.last())
    }
}

/// No `<` anywhere in the text.
pub open spec fn no_open_angle(s: Seq<char>) -> bool {
    forall|i: int| 0 <= i < s.len() ==> #[trigger] s[i] != '<'
}

/// Relies on `handlebars::html_escape`, the template engine's default escape
/// function: it replaces `<`, `>`, `"`, `&`, `'`, backquote and `=` by entities.
#[verifier::external_body]
pub(crate) fn escape_html(s: &str) -> (r: String)
    ensures
        r@ == html_escaped(s@),
{
    handlebars::html_escape(s)
}

/// Relies on `html_escape::encode_double_quoted_attribute`: it replaces `&`,
/// `<`, `>` and `"` by entities.
#[verifier::external_body]
pub(crate) fn encode_attribute(s: &str) -> (r: String)
    ensures
        r@ == attribute_encoded(s@),
{
    html_escape::encode_double_quoted_attribute(s).into_owned()
}

pub proof fn lemma_no_open_angle_concat(a: Seq<char>, b: Seq<char>)
    requires
        no_open_angle(a),
        no_open_angle(b),
    ensures
        no_open_angle(a + b),
{
    assert forall|i: int| 0 <= i < (a + b).len() implies #[trigger] (a + b)[i] != '<' by {
        if i >= a.len() {
            assert((a + b)[i] == b[i - a.len()]);
        }
    }
}

pub proof fn lemma_html_escaped_no_open_angle(s: Seq<char>)
    ensures
        no_open_angle(html_escaped(s)),
    decreases s.len(),
{
    if s.len() > 0 {
        lemma_html_escaped_no_open_angle(s.drop_last());
        let e = html_entity(s.last());
        assert(no_open_angle(e));
        lemma_no_open_angle_concat(html_escaped(s.drop_last()), e);
    }
}

pub proof fn lemma_attribute_encoded_no_open_angle(s: Seq<char>)
    ensures
        no_open_angle(attribute_encoded(s)),
    decreases s.len(),
{
    if s.len() > 0 {
        lemma_attribute_encoded_no_open_angle(s.drop_last());
        let e = attribute_entity(s.last());
        assert(no_open_angle(e));
        lemma_no_open_angle_concat(attribute_encoded(s.drop_last()), e);
    }
}

} // verus!
