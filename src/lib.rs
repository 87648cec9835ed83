//! Turns the line-delimited JSON events of a test run into the data of an HTML
//! report: lines are sorted into passed, failed and ignored tests, the suite
//! summary, malformed events and other text; captured output is escaped and its
//! backtrace references are linked to their source.
pub mod classify;
pub mod escape;
pub mod event;
pub mod laws;
pub mod linker;
pub mod report;
pub mod text;

pub use classify::{classify_line, parse_test_output, TestResults};
pub use event::{decode_event, decode_problem_text, JsonField, TestEvent};
pub use linker::{
    add_source_links, parse_line_number, render_pieces, resolve_pieces, Config, GitHubLinker, NoSourceLinker, Piece, SourceLinker, TableLinker,
};
pub use report::{fallback_html, process_test_for_links, render_model, report_model, RenderModel};
