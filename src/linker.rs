use vstd::prelude::*;
use vstd::string::*;
use crate::escape::{attribute_encoded, encode_attribute, escape_html, html_escaped};
use crate::event::opt_text;
use crate::text::{chars_of, push_char};

verus! {

/// Turns a source location into a link target, where it has one.
/// A linker is a function of the location alone: `link_spec` names it, and
/// each linker states it.
pub trait SourceLinker {
    spec fn link_spec(&self, file: Seq<char>, line: u32) -> Option<Seq<char>>;

    fn link(&self, file: &str, line: u32) -> (r: Option<String>)
        ensures
            opt_text(r) == self.link_spec(file@, line),
    ;
}

/// A linker that links nothing.
#[derive(Default, Debug)]
pub struct NoSourceLinker;

impl SourceLinker for NoSourceLinker {
    open spec fn link_spec(&self, file: Seq<char>, line: u32) -> Option<Seq<char>> {
        None
    }

    fn link(&self, _file: &str, _line: u32) -> (r: Option<String>) {
        None
    }
}

/// Links the locations listed in a table: the first entry with the same file
/// and line gives the link target; other locations are not linked.
#[derive(Debug)]
pub struct TableLinker {
    pub entries: Vec<(String, u32, String)>,
}

/// The link target that the first matching entry gives.
pub open spec fn table_lookup(entries: Seq<(String, u32, String)>, file: Seq<char>, line: u32) -> Option<
    Seq<char>,
>
    decreases entries.len(),
{
    if entries.len() == 0 {
        None
    } else if entries[0].0@ == file && entries[0].1 == line {
        Some(entries[0].2@)
    } else {
        table_lookup(entries.drop_first(), file, line)
    }
}

impl SourceLinker for TableLinker {
    open spec fn link_spec(&self, file: Seq<char>, line: u32) -> Option<Seq<char>> {
        table_lookup(self.entries@, file, line)
    }

    fn link(&self, file: &str, line: u32) -> (r: Option<String>) {
        let key = String::from_str(file);
        let n = self.entries.len();
        let mut i: usize = 0;
        assert(self.entries@.subrange(0, n as int) =~= self.entries@);
        while i < n
            invariant
                n == self.entries@.len(),
                i <= n,
                key@ == file@,
                table_lookup(self.entries@, file@, line) == table_lookup(
                    self.entries@.subrange(i as int, n as int),
                    file@,
                    line,
                ),
            decreases n - i,
        {
            let ghost rest = self.entries@.subrange(i as int, n as int);
            assert(rest.drop_first() =~= self.entries@.subrange(i + 1, n as int));
            assert(rest[0] == self.entries@[i as int]);
            if self.entries[i].0 == key && self.entries[i].1 == line {
                return Some(self.entries[i].2.clone());
            }
            i = i + 1;
        }
        assert(self.entries@.subrange(i as int, n as int).len() == 0);
        None
    }
}

/// Links into a repository's file browser at a branch, tag or commit.
#[derive(Debug)]
pub struct GitHubLinker {
    pub repo: String,
    pub ref_: String,
}

pub open spec fn is_digit(c: char) -> bool {
    '0' <= c && c <= '9'
}

pub open spec fn digit_char(d: int) -> char {
    if d == 0 { '0' }
    else if d == 1 { '1' }
    else if d == 2 { '2' }
    else if d == 3 { '3' }
    else if d == 4 { '4' }
    else if d == 5 { '5' }
    else if d == 6 { '6' }
    else if d == 7 { '7' }
    else if d == 8 { '8' }
    else { '9' }
}

/// The decimal digits of `n`, without leading zeros.
pub open spec fn decimal(n: nat) -> Seq<char>
    decreases n,
{
    if n < 10 {
        seq![digit_char(n as int)]
    } else {
        decimal(n / 10).push(digit_char((n % 10) as int))
    }
}

/// The address of a line of a file in a repository's browser.
pub open spec fn github_url(repo: Seq<char>, ref_: Seq<char>, file: Seq<char>, line: u32) -> Seq<char> {
    "https://github.com/"@ + repo + "/blob/"@ + ref_ + "/"@ + file + "#L"@ + decimal(line as nat)
}

fn push_decimal(s: &mut String, n: u32)
    ensures
        final(s)@ == old(s)@ + decimal(n as nat),
    decreases n,
{
    if n >= 10 {
        push_decimal(s, n / 10);
    }
    let d: u32 = n % 10;
    let c = if d == 0 { '0' }
        else if d == 1 { '1' }
        else if d == 2 { '2' }
        else if d == 3 { '3' }
        else if d == 4 { '4' }
        else if d == 5 { '5' }
        else if d == 6 { '6' }
        else if d == 7 { '7' }
        else if d == 8 { '8' }
        else { '9' };
    push_char(s, c);
    proof {
        if n >= 10 {
            assert(decimal(n as nat) == decimal((n / 10) as nat).push(c));
        }
    }
    assert(final(s)@ =~= old(s)@ + decimal(n as nat));
}

impl GitHubLinker {
    /// A linker into `repo` (`owner/name`) at the branch `main`.
    pub fn new(repo: &str) -> (r: GitHubLinker)
        ensures
            r.repo@ == repo@,
            r.ref_@ == "main"@,
    {
        GitHubLinker { repo: String::from_str(repo), ref_: String::from_str("main") }
    }

    /// The same linker at another branch, tag or commit.
    pub fn with_ref(self, ref_: &str) -> (r: GitHubLinker)
        ensures
            r.repo == self.repo,
            r.ref_@ == ref_@,
    {
        GitHubLinker { repo: self.repo, ref_: String::from_str(ref_) }
    }

    pub fn url(&self, file: &str, line: u32) -> (r: String)
        ensures
            r@ == github_url(self.repo@, self.ref_@, file@, line),
    {
        let mut r = String::from_str("https://github.com/");
        r.append(self.repo.as_str());
        r.append("/blob/");
        r.append(self.ref_.as_str());
        r.append("/");
        r.append(file);
        r.append("#L");
        push_decimal(&mut r, line);
        r
    }
}

impl SourceLinker for GitHubLinker {
    open spec fn link_spec(&self, file: Seq<char>, line: u32) -> Option<Seq<char>> {
        Some(github_url(self.repo@, self.ref_@, file, line))
    }

    fn link(&self, file: &str, line: u32) -> (r: Option<String>) {
        Some(self.url(file, line))
    }
}

/// How a report is made: which linker turns source locations into links.
pub struct Config<L: SourceLinker> {
    source_linker: L,
}

impl<L: SourceLinker> Config<L> {
    pub closed spec fn linker(&self) -> L {
        self.source_linker
    }

    pub fn new(source_linker: L) -> (r: Config<L>)
        ensures
            r.linker() == source_linker,
    {
        Config { source_linker }
    }
}

impl Default for Config<NoSourceLinker> {
    fn default() -> (r: Config<NoSourceLinker>)
        ensures
            r.linker() == NoSourceLinker,
    {
        Config { source_linker: NoSourceLinker }
    }
}

/// The value of a run of ASCII digits, read from the left.
pub open spec fn digits_value(s: Seq<char>) -> int
    decreases s.len(),
{
    if s.len() == 0 {
        0
    } else {
        digits_value(s.drop_last()) * 10 + (s.last() as int - '0' as int)
    }
}

pub open spec fn all_digits(s: Seq<char>) -> bool {
    forall|i: int| 0 <= i < s.len() ==> is_digit(#[trigger] s[i])
}

/// A line number as text: its value where it is a non-empty run of ASCII
/// digits that fits in `u32`, and 0 otherwise.
pub open spec fn line_number(s: Seq<char>) -> u32 {
    if s.len() > 0 && all_digits(s) && digits_value(s) <= u32::MAX {
        digits_value(s) as u32
    } else {
        0
    }
}

proof fn lemma_digits_value_grows(s: Seq<char>, i: int)
    requires
        all_digits(s),
        0 <= i <= s.len(),
    ensures
        0 <= digits_value(s.subrange(0, i)) <= digits_value(s),
    decreases s.len() - i,
{
    if i < s.len() {
        lemma_digits_value_grows(s, i + 1);
        let a = s.subrange(0, i + 1);
        assert(a.drop_last() =~= s.subrange(0, i));
        assert(is_digit(a.last()));
    } else {
        assert(s.subrange(0, i) =~= s);
        lemma_digits_value_nonneg(s);
    }
}

proof fn lemma_digits_value_nonneg(s: Seq<char>)
    requires
        all_digits(s),
    ensures
        digits_value(s) >= 0,
    decreases s.len(),
{
    if s.len() > 0 {
        assert(all_digits(s.drop_last()));
        lemma_digits_value_nonneg(s.drop_last());
        assert(is_digit(s.last()));
    }
}

/// Reads a line number as `line_number` states.
pub fn parse_line_number(s: &str) -> (r: u32)
    ensures
        r == line_number(s@),
{
    let cs = chars_of(s);
    if cs.len() == 0 {
        return 0;
    }
    let mut acc: u64 = 0;
    let mut i: usize = 0;
    while i < cs.len()
        invariant
            cs@ == s@,
            i <= cs@.len(),
            all_digits(cs@.subrange(0, i as int)),
            acc == digits_value(cs@.subrange(0, i as int)),
            acc <= u32::MAX,
        decreases cs@.len() - i,
    {
        let c = cs[i];
        if !('0' <= c && c <= '9') {
            assert(!all_digits(s@));
            return 0;
        }
        let d: u64 = (c as u32 - '0' as u32) as u64;
        acc = acc * 10 + d;
        let ghost p = cs@.subrange(0, i + 1);
        assert(p.drop_last() =~= cs@.subrange(0, i as int));
        assert(all_digits(p));
        if acc > 0xffff_ffffu64 {
            proof {
                if all_digits(s@) {
                    lemma_digits_value_grows(s@, i + 1);
                }
            }
            return 0;
        }
        i = i + 1;
    }
    assert(cs@.subrange(0, i as int) =~= s@);
    acc as u32
}

/// A stretch of text: plain, or a backtrace reference `at file:line:col:`.
pub enum Piece {
    Text(String),
    Ref { file: String, line: String, col: String },
}

pub ghost enum PieceView {
    Text(Seq<char>),
    Ref { file: Seq<char>, line: Seq<char>, col: Seq<char> },
}

impl View for Piece {
    type V = PieceView;

    open spec fn view(&self) -> PieceView {
        match self {
            Piece::Text(s) => PieceView::Text(s@),
            Piece::Ref { file, line, col } => PieceView::Ref { file: file@, line: line@, col: col@ },
        }
    }
}

pub open spec fn pieces_view(v: Seq<Piece>) -> Seq<PieceView> {
    v.map_values(|p: Piece| p@)
}

/// The text that a piece stands for.
pub open spec fn piece_text(p: PieceView) -> Seq<char> {
    match p {
        PieceView::Text(s) => s,
        PieceView::Ref { file, line, col } => "at "@ + file + ":"@ + line + ":"@ + col + ":"@,
    }
}

pub open spec fn joined(ps: Seq<PieceView>) -> Seq<char>
    decreases ps.len(),
{
    if ps.len() == 0 {
        Seq::empty()
    } else {
        joined(ps.drop_last()) + piece_text(ps.last())
    }
}

/// How the reference pattern `at ([^:\s]+\.rs):(\d+):(\d+):` cuts a text:
/// the text between matches, and each match with its three groups.
pub uninterp spec fn reference_pieces_of(text: Seq<char>) -> Seq<PieceView>;

/// Relies on `regex::Regex::captures_iter`: the successive non-overlapping
/// matches of the pattern, with the text between them, which together give
/// back the whole text.
#[verifier::external_body]
fn find_references(text: &str) -> (r: Vec<Piece>)
    ensures
        pieces_view(r@) == reference_pieces_of(text@),
        joined(pieces_view(r@)) == text@,
{
    let re = regex::Regex::new(r"at ([^:\s]+\.rs):(\d+):(\d+):").unwrap();
    let mut pieces = Vec::new();
    let mut last: usize = 0;
    for caps in re.captures_iter(text) {
        let whole = caps.get(0).unwrap();
        pieces.push(Piece::Text(text[last..whole.start()].to_string()));
        pieces.push(Piece::Ref { file: caps[1].to_string(), line: caps[2].to_string(), col: caps[3].to_string() });
        last = whole.end();
    }
    pieces.push(Piece::Text(text[last..].to_string()));
    pieces
}

/// The anchor that replaces a reference whose location has a link target.
pub open spec fn anchor(url: Seq<char>, file: Seq<char>, line: Seq<char>, col: Seq<char>) -> Seq<char> {
    "at <a href=\""@ + attribute_encoded(url) + "\" target=\"_blank\">"@ + file + ":"@ + line + ":"@ + col
        + "</a>:"@
}

/// A piece as it is written out, given what the linker returned for it
/// (`None` for plain text, which is not looked up).
pub open spec fn linked_piece(p: PieceView, url: Option<Seq<char>>) -> Seq<char> {
    match (p, url) {
        (PieceView::Ref { file, line, col }, Some(u)) => anchor(u, file, line, col),
        _ => piece_text(p),
    }
}

pub open spec fn linked_pieces(ps: Seq<PieceView>, urls: Seq<Option<Seq<char>>>) -> Seq<char>
    decreases ps.len(),
{
    if ps.len() == 0 {
        Seq::empty()
    } else {
        linked_pieces(ps.drop_last(), urls.drop_last()) + linked_piece(ps.last(), urls.last())
    }
}

/// `out` is `text` escaped and with its references linked, for answers of the
/// linker `urls`: one per piece, and none for plain text.
pub open spec fn linked_with(text: Seq<char>, urls: Seq<Option<Seq<char>>>, out: Seq<char>) -> bool {
    let ps = reference_pieces_of(html_escaped(text));
    &&& joined(ps) == html_escaped(text)
    &&& urls.len() == ps.len()
    &&& forall|i: int| 0 <= i < ps.len() && ps[i] is Text ==> #[trigger] urls[i] is None
    &&& out == linked_pieces(ps, urls)
}

pub open spec fn is_linking_of(text: Seq<char>, out: Seq<char>) -> bool {
    exists|urls: Seq<Option<Seq<char>>>| linked_with(text, urls, out)
}

/// What the linker answers for a piece: its link target for a reference,
/// read at the line number that `line_number` gives, and nothing for text.
pub open spec fn answer<L: SourceLinker>(linker: L, p: PieceView) -> Option<Seq<char>> {
    match p {
        PieceView::Ref { file, line, col: _ } => linker.link_spec(file, line_number(line)),
        PieceView::Text(_) => None,
    }
}

pub open spec fn answers<L: SourceLinker>(linker: L, ps: Seq<PieceView>) -> Seq<Option<Seq<char>>> {
    ps.map_values(|p: PieceView| answer(linker, p))
}

/// The text escaped, each reference that the linker resolves replaced by an
/// anchor to its answer, every other reference left as it is.
pub open spec fn linked_text<L: SourceLinker>(linker: L, text: Seq<char>) -> Seq<char> {
    let ps = reference_pieces_of(html_escaped(text));
    linked_pieces(ps, answers(linker, ps))
}

pub open spec fn opt_texts(v: Seq<Option<String>>) -> Seq<Option<Seq<char>>> {
    v.map_values(|o: Option<String>| crate::event::opt_text(o))
}

/// Writes the pieces out, each reference with the link target given for it
/// at the same position as an anchor, and as plain text where none is given.
pub fn render_pieces(pieces: &Vec<Piece>, urls: &Vec<Option<String>>) -> (r: String)
    requires
        urls@.len() == pieces@.len(),
    ensures
        r@ == linked_pieces(pieces_view(pieces@), opt_texts(urls@)),
{
    let ghost ps = pieces_view(pieces@);
    let ghost us = opt_texts(urls@);
    let mut out = String::new();
    let mut i: usize = 0;
    while i < pieces.len()
        invariant
            i <= pieces@.len() == urls@.len(),
            ps == pieces_view(pieces@),
            us == opt_texts(urls@),
            out@ == linked_pieces(ps.subrange(0, i as int), us.subrange(0, i as int)),
        decreases pieces@.len() - i,
    {
        let ghost before = out@;
        match &pieces[i] {
            Piece::Text(s) => {
                out.append(s.as_str());
            },
            Piece::Ref { file, line, col } => {
                match &urls[i] {
                    Some(u) => {
                        out.append("at <a href=\"");
                        out.append(encode_attribute(u.as_str()).as_str());
                        out.append("\" target=\"_blank\">");
                        out.append(file.as_str());
                        out.append(":");
                        out.append(line.as_str());
                        out.append(":");
                        out.append(col.as_str());
                        out.append("</a>:");
                    },
                    None => {
                        out.append("at ");
                        out.append(file.as_str());
                        out.append(":");
                        out.append(line.as_str());
                        out.append(":");
                        out.append(col.as_str());
                        out.append(":");
                    },
                }
            },
        }
        proof {
            let sub = ps.subrange(0, i + 1);
            let su = us.subrange(0, i + 1);
            assert(sub.drop_last() =~= ps.subrange(0, i as int));
            assert(su.drop_last() =~= us.subrange(0, i as int));
            assert(sub.last() == ps[i as int]);
            assert(su.last() == us[i as int]);
            assert(out@ =~= before + linked_piece(ps[i as int], us[i as int]));
        }
        i = i + 1;
    }
    proof {
        assert(ps.subrange(0, i as int) =~= ps);
        assert(us.subrange(0, i as int) =~= us);
    }
    out
}

/// Asks the linker for each reference among the pieces, once each and in
/// order; plain text gets no answer.
pub fn resolve_pieces<L: SourceLinker>(pieces: &Vec<Piece>, config: &Config<L>) -> (r: Vec<
    Option<String>,
>)
    ensures
        opt_texts(r@) == answers(config.linker(), pieces_view(pieces@)),
{
    let mut urls: Vec<Option<String>> = Vec::new();
    let mut i: usize = 0;
    while i < pieces.len()
        invariant
            i <= pieces@.len(),
            urls@.len() == i,
            forall|k: int|
                0 <= k < i ==> opt_text(#[trigger] urls@[k]) == answer(
                    config.source_linker,
                    pieces@[k]@,
                ),
        decreases pieces@.len() - i,
    {
        let url = match &pieces[i] {
            Piece::Text(_) => None,
            Piece::Ref { file, line, col: _ } => config.source_linker.link(
                file.as_str(),
                parse_line_number(line.as_str()),
            ),
        };
        urls.push(url);
        i = i + 1;
    }
    assert(opt_texts(urls@) =~= answers(config.source_linker, pieces_view(pieces@)));
    urls
}

/// Escapes the text, then turns each reference whose location the linker
/// resolves into an anchor to it; the linker is asked once per reference.
pub fn add_source_links<L: SourceLinker>(text: &str, config: &Config<L>) -> (r: String)
    ensures
        r@ == linked_text(config.linker(), text@),
        is_linking_of(text@, r@),
{
    let escaped = escape_html(text);
    let pieces = find_references(escaped.as_str());
    let urls = resolve_pieces(&pieces, config);
    let r = render_pieces(&pieces, &urls);
    proof {
        let ps = pieces_view(pieces@);
        let us = opt_texts(urls@);
        assert forall|i: int| 0 <= i < ps.len() && ps[i] is Text implies #[trigger] us[i] is None by {
            assert(pieces@[i] is Text);
        }
        assert(linked_with(text@, us, r@));
    }
    r
}

} // verus!
