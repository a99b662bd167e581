//! What a search reads from ripgrep's JSON output (`serde_json`), and the
//! views of optional texts.
use serde_json::Value;
use vstd::prelude::*;

verus! {

/// The fields of one line of ripgrep's `--json` output that a search reads.
pub struct RgEvent {
    pub kind: Option<String>,
    pub path: Option<String>,
    pub line_number: Option<u64>,
    pub text: Option<String>,
}

/// The abstract content of an [`RgEvent`].
pub struct RgEventView {
    pub kind: Option<Seq<char>>,
    pub path: Option<Seq<char>>,
    pub line_number: Option<u64>,
    pub text: Option<Seq<char>>,
}

/// The view of an optional string.
pub open spec fn opt_view(s: Option<String>) -> Option<Seq<char>> {
    match s {
        Some(t) => Some(t@),
        None => None,
    }
}

impl View for RgEvent {
    type V = RgEventView;

    open spec fn view(&self) -> RgEventView {
        RgEventView {
            kind: opt_view(self.kind),
            path: opt_view(self.path),
            line_number: self.line_number,
            text: opt_view(self.text),
        }
    }
}

/// What one line of ripgrep JSON output holds: `None` when the line is not
/// JSON; otherwise its `type` text, the `data.path.text` text, the
/// `data.line_number` number and the `data.lines.text` text, each `None`
/// when absent or of another JSON type.
pub uninterp spec fn rg_event_fields(line: Seq<char>) -> Option<RgEventView>;

/// Reads one line of ripgrep JSON output. The contract claims only that the
/// answer is `serde_json`'s (deterministic) reading of `line`, named
/// [`rg_event_fields`].
#[verifier::external_body]
pub(crate) fn read_rg_event(line: &str) -> (r: Option<RgEvent>)
    ensures
        match r {
            Some(e) => rg_event_fields(line@) == Some(e@),
            None => rg_event_fields(line@) is None,
        },
{
    let v: Value = match serde_json::from_str(line) {
        Ok(v) => v,
        Err(_) => return None,
    };
    let data = v.get("data");
    Some(RgEvent {
        kind: v.get("type").and_then(Value::as_str).map(String::from),
        path: data.and_then(|d| d.get("path")).and_then(|p| p.get("text")).and_then(Value::as_str).map(String::from),
        line_number: data.and_then(|d| d.get("line_number")).and_then(Value::as_u64),
        text: data.and_then(|d| d.get("lines")).and_then(|l| l.get("text")).and_then(Value::as_str).map(String::from),
    })
}

} // verus!
