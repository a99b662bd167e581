//! The interface state that dialogs and pop-ups keep between key presses.
use crate::tools::permissions::ToolPermissionDescriptor;
use crate::tui::clock::{elapsed_since, elapsed_text, format_elapsed, now, whole_seconds};
use std::path::PathBuf;
use crate::text::{chars_of, decimal, decimal_exec, eq_chars, extend, extend_str, owned, string_of};
use crate::tools::todo_write::TodoItem;
use crate::tui::events::AgentState;
use crate::tools::file_ops::edit_file::{replace_all_matches, replacement};
use crate::tui::input::{line_total, TextAttachment};
use rand::rngs::ThreadRng;
use rand::Rng;
use std::collections::VecDeque;
use std::sync::atomic::AtomicBool;
use std::sync::Arc;
use std::time::Instant;
use vstd::arithmetic::div_mod::{lemma_add_mod_noop, lemma_small_mod};
use vstd::prelude::*;
use vstd::utf8::encode_utf8;

verus! {

#[derive(Clone, Debug, PartialEq, Eq, Structural)]
pub enum InputMode {
    Normal,
    Expanded,
    AttachmentList,
    AttachmentView,
}

#[derive(Clone, Debug)]
pub struct SubagentStepSummary {
    pub step_number: usize,
    pub action_type: String,
    pub description: String,
}

#[derive(Clone, Debug)]
pub struct BashOutputLine {
    pub line_number: usize,
    pub content: String,
    pub stream_type: String,
}

#[derive(Clone, Debug, PartialEq)]
pub enum ToolCallStatus {
    Starting,
    AwaitingApproval,
    Executing,
    Completed,
    Error(String),
}

/// How many completion candidates the pop-up shows at once.
pub const VISIBLE_COMPLETIONS: usize = 10;

/// The scroll offset that keeps the selected row in a window of `visible`
/// rows: scrolled up to it when it is above the window, down so that it is
/// the last row when it is below, unchanged otherwise.
pub open spec fn scrolled_offset(selected: usize, offset: usize, visible: usize) -> int {
    if selected < offset {
        selected as int
    } else if selected >= offset + visible {
        if selected >= visible - 1 {
            selected - (visible - 1)
        } else {
            0
        }
    } else {
        offset as int
    }
}

/// Whether scrolling can be computed without overflow.
pub open spec fn scroll_fits(selected: usize, offset: usize, visible: usize) -> bool {
    selected < offset || (offset + visible <= usize::MAX && visible >= 1)
}

/// The index after `i` in a list of `n` entries, wrapping to the first.
pub open spec fn next_index(i: usize, n: nat) -> int {
    (i + 1) % (n as int)
}

/// The index before `i` in a list of `n` entries, wrapping to the last.
pub open spec fn prev_index(i: usize, n: nat) -> int {
    if i == 0 {
        n - 1
    } else {
        i - 1
    }
}

/// Moving the highlight of a pop-up forward stays within machine numbers.
pub open spec fn next_fits(c: CompletionState) -> bool {
    c.candidates@.len() > 0 ==> c.selected_index < usize::MAX && scroll_fits(
        (((c.selected_index + 1) as int) % (c.candidates@.len() as int)) as usize,
        c.scroll_offset,
        VISIBLE_COMPLETIONS,
    )
}

/// Moving the highlight of a pop-up back stays within machine numbers.
pub open spec fn prev_fits(c: CompletionState) -> bool {
    c.candidates@.len() > 0 ==> scroll_fits(
        prev_index(c.selected_index, c.candidates@.len()) as usize,
        c.scroll_offset,
        VISIBLE_COMPLETIONS,
    )
}

pub struct CompletionState {
    pub candidates: Vec<String>,
    pub selected_index: usize,
    pub scroll_offset: usize,
    pub query: String,
    pub completer_index: usize,
}

impl CompletionState {
    pub fn new(completer_index: usize) -> (r: Self)
        ensures
            r.candidates@.len() == 0,
            r.selected_index == 0,
            r.scroll_offset == 0,
            r.query@ == Seq::<char>::empty(),
            r.completer_index == completer_index,
    {
        Self {
            candidates: Vec::new(),
            selected_index: 0,
            scroll_offset: 0,
            query: String::new(),
            completer_index,
        }
    }

    pub fn selected_item(&self) -> (r: Option<&str>)
        ensures
            self.selected_index < self.candidates@.len() ==> r is Some && r->0@
                == self.candidates@[self.selected_index as int]@,
            self.selected_index >= self.candidates@.len() ==> r is None,
    {
        if self.selected_index < self.candidates.len() {
            Some(self.candidates[self.selected_index].as_str())
        } else {
            None
        }
    }

    pub fn select_next(&mut self)
        requires
            old(self).candidates@.len() > 0 ==> old(self).selected_index < usize::MAX
                && scroll_fits(
                (((old(self).selected_index + 1) as int) % (old(self).candidates@.len() as int)) as usize,
                old(self).scroll_offset,
                VISIBLE_COMPLETIONS,
            ),
        ensures
            final(self).candidates@ == old(self).candidates@,
            final(self).query@ == old(self).query@,
            final(self).completer_index == old(self).completer_index,
            old(self).candidates@.len() == 0 ==> final(self).selected_index == old(
                self,
            ).selected_index && final(self).scroll_offset == old(self).scroll_offset,
            old(self).candidates@.len() > 0 ==> final(self).selected_index == next_index(
                old(self).selected_index,
                old(self).candidates@.len(),
            ) && final(self).scroll_offset == scrolled_offset(
                final(self).selected_index,
                old(self).scroll_offset,
                VISIBLE_COMPLETIONS,
            ),
    {
        if self.candidates.len() > 0 {
            self.selected_index = (self.selected_index + 1) % self.candidates.len();
            self.update_scroll_offset(VISIBLE_COMPLETIONS);
        }
    }

    pub fn select_prev(&mut self)
        requires
            old(self).candidates@.len() > 0 ==> scroll_fits(
                prev_index(old(self).selected_index, old(self).candidates@.len()) as usize,
                old(self).scroll_offset,
                VISIBLE_COMPLETIONS,
            ),
        ensures
            final(self).candidates@ == old(self).candidates@,
            final(self).query@ == old(self).query@,
            final(self).completer_index == old(self).completer_index,
            old(self).candidates@.len() == 0 ==> final(self).selected_index == old(
                self,
            ).selected_index && final(self).scroll_offset == old(self).scroll_offset,
            old(self).candidates@.len() > 0 ==> final(self).selected_index == prev_index(
                old(self).selected_index,
                old(self).candidates@.len(),
            ) && final(self).scroll_offset == scrolled_offset(
                final(self).selected_index,
                old(self).scroll_offset,
                VISIBLE_COMPLETIONS,
            ),
    {
        if self.candidates.len() > 0 {
            if self.selected_index == 0 {
                self.selected_index = self.candidates.len() - 1;
            } else {
                self.selected_index -= 1;
            }
            self.update_scroll_offset(VISIBLE_COMPLETIONS);
        }
    }

    /// Scrolls so that the selected candidate is within a window of
    /// `visible_items` rows (see [`scrolled_offset`]).
    pub fn update_scroll_offset(&mut self, visible_items: usize)
        requires
            scroll_fits(old(self).selected_index, old(self).scroll_offset, visible_items),
        ensures
            final(self).scroll_offset == scrolled_offset(
                old(self).selected_index,
                old(self).scroll_offset,
                visible_items,
            ),
            final(self).selected_index == old(self).selected_index,
            final(self).candidates@ == old(self).candidates@,
            final(self).query@ == old(self).query@,
            final(self).completer_index == old(self).completer_index,
    {
        if self.selected_index < self.scroll_offset {
            self.scroll_offset = self.selected_index;
        } else if self.selected_index >= self.scroll_offset + visible_items {
            self.scroll_offset = self.selected_index.saturating_sub(visible_items - 1);
        }
    }
}

/// A permission dialog for one tool call: what is asked, the request it
/// answers, and the highlighted choice.
pub struct ToolPermissionDialogState {
    pub descriptor: ToolPermissionDescriptor,
    pub request_id: String,
    pub selected_index: usize,
    pub options: Vec<PermissionOption>,
}

pub struct ApprovalDialogState {
    pub tool_call_id: String,
    pub tool_name: String,
    pub selected_index: usize,
}

impl ApprovalDialogState {
    pub fn new(tool_call_id: String, tool_name: String) -> (r: Self)
        ensures
            r.tool_call_id@ == tool_call_id@,
            r.tool_name@ == tool_name@,
            r.selected_index == 0,
    {
        Self {
            tool_call_id,
            tool_name,
            selected_index: 0,  // 0 = Approve, 1 = Reject
        }
    }
}

pub enum PermissionOption {
    YesOnce,
    No,
    TrustProject(PathBuf),
}

/// The choices of the permission dialog: allow once, trust the project
/// (when its directory is known), refuse.
pub open spec fn permission_options(current_dir: Option<PathBuf>) -> Seq<PermissionOption> {
    match current_dir {
        Some(dir) => seq![PermissionOption::YesOnce, PermissionOption::TrustProject(dir), PermissionOption::No],
        None => seq![PermissionOption::YesOnce, PermissionOption::No],
    }
}

/// The first-run dialog asking what the agent may do in a project.
pub struct InitialPermissionDialogState {
    pub project_path: PathBuf,
    pub selected_index: usize,
}

impl InitialPermissionDialogState {
    pub fn new(project_path: PathBuf) -> (r: Self)
        ensures
            r.project_path == project_path,
            r.selected_index == 0,
    {
        Self { project_path, selected_index: 0 }
    }
}

#[derive(Clone, Debug)]
pub enum InitialPermissionChoice {
    ReadOnly,
    EnableWriteEdit,
    Deny,
}

// ---------------------------------------------------------------------------
// Conversation lines
// ---------------------------------------------------------------------------
/// How a line of the conversation is shown.
#[derive(Clone, Copy, Debug, PartialEq, Eq, Structural)]
pub enum LineKind {
    Plain,
    Markdown,
    /// Italic, in the warning colour.
    Warning,
    /// Italic, in the colour of errors.
    Destructive,
}

/// The colour of a styled line; styled lines are italic.
#[derive(Clone, Copy, Debug, PartialEq, Eq, Structural)]
pub enum Tone {
    Warning,
    Destructive,
}

/// A line of one style.
#[derive(Clone, Debug)]
pub struct StyledLine {
    pub text: String,
    pub tone: Tone,
}

#[derive(Clone, Debug)]
pub enum MessageLine {
    Plain(String),
    Styled(StyledLine),
    Markdown(String),
}

/// The kind of line a tone gives.
pub open spec fn tone_kind(t: Tone) -> LineKind {
    match t {
        Tone::Warning => LineKind::Warning,
        Tone::Destructive => LineKind::Destructive,
    }
}

impl View for MessageLine {
    type V = (LineKind, Seq<char>);

    open spec fn view(&self) -> (LineKind, Seq<char>) {
        match self {
            MessageLine::Plain(s) => (LineKind::Plain, s@),
            MessageLine::Markdown(s) => (LineKind::Markdown, s@),
            MessageLine::Styled(l) => (tone_kind(l.tone), l.text@),
        }
    }
}

/// The lines of a queue, each by what it shows.
pub open spec fn line_views(q: Seq<MessageLine>) -> Seq<(LineKind, Seq<char>)> {
    q.map_values(|m: MessageLine| m@)
}

/// A history after one more line: when it then holds more than `max` lines,
/// its first line goes.
pub open spec fn capped_push(
    s: Seq<(LineKind, Seq<char>)>,
    m: (LineKind, Seq<char>),
    max: usize,
) -> Seq<(LineKind, Seq<char>)> {
    if s.len() + 1 > max {
        s.push(m).drop_first()
    } else {
        s.push(m)
    }
}

/// A history after several lines, added one by one as [`capped_push`] adds one.
pub open spec fn capped_push_all(
    s: Seq<(LineKind, Seq<char>)>,
    ms: Seq<(LineKind, Seq<char>)>,
    max: usize,
) -> Seq<(LineKind, Seq<char>)>
    decreases ms.len(),
{
    if ms.len() == 0 {
        s
    } else {
        capped_push(capped_push_all(s, ms.drop_last(), max), ms.last(), max)
    }
}

/// A plain line.
pub open spec fn plain_line(s: Seq<char>) -> (LineKind, Seq<char>) {
    (LineKind::Plain, s)
}

/// The line that names a tool call.
pub open spec fn call_line(name: Seq<char>) -> (LineKind, Seq<char>) {
    plain_line("\n● "@ + name)
}

/// The line that reports under a tool call.
pub open spec fn status_line(message: Seq<char>) -> (LineKind, Seq<char>) {
    plain_line("  ⎿  "@ + message)
}

/// The line that shows an error under a tool call.
pub open spec fn error_line(error: Seq<char>) -> (LineKind, Seq<char>) {
    (LineKind::Destructive, "  ⎿  "@ + error)
}

/// An empty line before a block of text.
pub open spec fn blank_line() -> (LineKind, Seq<char>) {
    plain_line("\n"@)
}

/// The lines of a block of Markdown text after an empty line.
pub open spec fn text_block(content: Seq<char>) -> Seq<(LineKind, Seq<char>)> {
    seq![blank_line(), (LineKind::Markdown, content)]
}

/// Adding lines in two batches is adding them all.
pub proof fn lemma_capped_push_all_append(
    s: Seq<(LineKind, Seq<char>)>,
    a: Seq<(LineKind, Seq<char>)>,
    b: Seq<(LineKind, Seq<char>)>,
    max: usize,
)
    ensures
        capped_push_all(s, a + b, max) == capped_push_all(capped_push_all(s, a, max), b, max),
    decreases b.len(),
{
    if b.len() == 0 {
        assert(a + b =~= a);
    } else {
        lemma_capped_push_all_append(s, a, b.drop_last(), max);
        assert((a + b).drop_last() =~= a + b.drop_last());
        assert((a + b).last() == b.last());
    }
}

/// Adding no line changes nothing; adding one is [`capped_push`].
pub proof fn lemma_capped_push_all_small(
    s: Seq<(LineKind, Seq<char>)>,
    m: (LineKind, Seq<char>),
    max: usize,
)
    ensures
        capped_push_all(s, Seq::empty(), max) == s,
        capped_push_all(s, seq![m], max) == capped_push(s, m, max),
{
    assert(seq![m].drop_last() =~= Seq::<(LineKind, Seq<char>)>::empty());
    assert(capped_push_all(s, Seq::<(LineKind, Seq<char>)>::empty(), max) == s);
}

/// Adding lines twice is adding them all at once.
pub proof fn lemma_lines_added_twice(
    a: AppState,
    b: AppState,
    c: AppState,
    x: Seq<(LineKind, Seq<char>)>,
    y: Seq<(LineKind, Seq<char>)>,
)
    requires
        b.lines_added(&a, x),
        c.lines_added(&b, y),
        b.max_messages == a.max_messages,
    ensures
        c.lines_added(&a, x + y),
{
    lemma_capped_push_all_append(a.shown(), x, y, a.max_messages);
    assert(a.pending() + x + y =~= a.pending() + (x + y));
}

proof fn lemma_views_push(q: Seq<MessageLine>, m: MessageLine)
    ensures
        line_views(q.push(m)) == line_views(q).push(m@),
{
    assert(line_views(q.push(m)) =~= line_views(q).push(m@));
}

proof fn lemma_views_drop_first(q: Seq<MessageLine>)
    requires
        q.len() > 0,
    ensures
        line_views(q.subrange(1, q.len() as int)) == line_views(q).drop_first(),
{
    assert(line_views(q.subrange(1, q.len() as int)) =~= line_views(q).drop_first());
}

/// A copy of a line.
fn copy_line(m: &MessageLine) -> (r: MessageLine)
    ensures
        r == *m,
{
    match m {
        MessageLine::Plain(s) => MessageLine::Plain(s.clone()),
        MessageLine::Markdown(s) => MessageLine::Markdown(s.clone()),
        MessageLine::Styled(l) => MessageLine::Styled(StyledLine { text: l.text.clone(), tone: l.tone }),
    }
}

/// `prefix` followed by `s`.
fn prefixed(prefix: &str, s: &str) -> (r: String)
    ensures
        r@ == prefix@ + s@,
{
    let mut out = chars_of(prefix);
    extend_str(&mut out, s);
    string_of(out.as_slice())
}

// ---------------------------------------------------------------------------
// Tool calls in flight
// ---------------------------------------------------------------------------
/// A tool call that the interface shows while it runs.
#[derive(Clone, Debug)]
pub struct ActiveToolCall {
    pub tool_call_id: String,
    pub display_name: String,
    pub status: ToolCallStatus,
    pub preview: Option<String>,
    pub result_summary: Option<String>,
    pub subagent_steps: Vec<SubagentStepSummary>,
    pub is_subagent_task: bool,
    pub bash_output_lines: Vec<BashOutputLine>,
    pub is_bash_streaming: bool,
    pub start_time: Instant,
    /// The share of its budget that a sub-agent has spent, in percent,
    /// carried as the bits of an `f32`.
    pub budget_pct_bits: Option<u32>,
    pub total_tool_uses: Option<usize>,
    pub total_tokens: Option<usize>,
}

impl ActiveToolCall {
    pub fn add_subagent_step(&mut self, step: SubagentStepSummary)
        ensures
            final(self).subagent_steps@ == old(self).subagent_steps@.push(step),
            *final(self) == (ActiveToolCall { subagent_steps: final(self).subagent_steps, ..*old(self) }),
    {
        self.subagent_steps.push(step);
    }

    pub fn add_bash_output_line(&mut self, line: BashOutputLine)
        ensures
            final(self).bash_output_lines@ == old(self).bash_output_lines@.push(line),
            final(self).is_bash_streaming,
            *final(self) == (ActiveToolCall {
                bash_output_lines: final(self).bash_output_lines,
                is_bash_streaming: true,
                ..*old(self)
            }),
    {
        self.bash_output_lines.push(line);
        self.is_bash_streaming = true;
    }

    /// How long the call has run, written as [`elapsed_text`] says; the
    /// number of seconds is read from the clock.
    pub fn elapsed_time(&self) -> (r: String)
        ensures
            exists|secs: u64| r@ == elapsed_text(secs as nat),
    {
        let elapsed = elapsed_since(&self.start_time);
        let total_secs = whole_seconds(&elapsed);
        format_elapsed(total_secs)
    }
}

/// The position of the first call in `calls` with the given id, if any.
pub open spec fn call_index(calls: Seq<ActiveToolCall>, id: Seq<char>) -> Option<int> {
    if exists|i: int|
        0 <= i < calls.len() && calls[i].tool_call_id@ == id && forall|j: int|
            0 <= j < i ==> calls[j].tool_call_id@ != id {
        Some(
            choose|i: int|
                0 <= i < calls.len() && calls[i].tool_call_id@ == id && forall|j: int|
                    0 <= j < i ==> calls[j].tool_call_id@ != id,
        )
    } else {
        None
    }
}

/// The calls after the first with the given id was changed by `f`; the
/// same calls when none has that id.
pub open spec fn calls_updated(
    calls: Seq<ActiveToolCall>,
    id: Seq<char>,
    f: spec_fn(ActiveToolCall) -> ActiveToolCall,
) -> Seq<ActiveToolCall> {
    match call_index(calls, id) {
        Some(i) => calls.update(i, f(calls[i])),
        None => calls,
    }
}

/// A call as it is when the agent announces it.
pub open spec fn is_new_call(c: ActiveToolCall, id: Seq<char>, name: Seq<char>) -> bool {
    &&& c.tool_call_id@ == id
    &&& c.display_name@ == name
    &&& c.status == ToolCallStatus::Starting
    &&& c.preview is None
    &&& c.result_summary is None
    &&& c.subagent_steps@.len() == 0
    &&& !c.is_subagent_task
    &&& c.bash_output_lines@.len() == 0
    &&& !c.is_bash_streaming
    &&& c.budget_pct_bits is None
    &&& c.total_tool_uses is None
    &&& c.total_tokens is None
}

/// The lines that close a call when all calls of a step are done: its
/// name, its result line if it has one, and its error if it failed.
pub open spec fn finished_call_lines(c: ActiveToolCall) -> Seq<(LineKind, Seq<char>)> {
    seq![call_line(c.display_name@)] + (match c.result_summary {
        Some(s) => seq![status_line(s@)],
        None => Seq::empty(),
    }) + error_lines(c.status)
}

/// The error line of a failed call; none for another status.
pub open spec fn error_lines(status: ToolCallStatus) -> Seq<(LineKind, Seq<char>)> {
    match status {
        ToolCallStatus::Error(e) => seq![error_line(e@)],
        _ => Seq::empty(),
    }
}

/// The closing lines of several calls, in order.
pub open spec fn finished_calls_lines(cs: Seq<ActiveToolCall>) -> Seq<(LineKind, Seq<char>)>
    decreases cs.len(),
{
    if cs.len() == 0 {
        Seq::empty()
    } else {
        finished_calls_lines(cs.drop_last()) + finished_call_lines(cs.last())
    }
}

/// What a finished sub-agent reports: `Done (3 tool uses · 1.2k tokens · 4s)`.
pub open spec fn done_text(uses: usize, tokens: Seq<char>, elapsed: Seq<char>) -> Seq<char> {
    "Done ("@ + decimal(uses as nat) + " tool uses · "@ + tokens + " tokens · "@ + elapsed + ")"@
}

/// The lines that close one call as soon as it is done: its name; for a
/// sub-agent that reported its totals, those totals, else its result line
/// if it has one; and its error if it failed. `tokens` and `elapsed` are how
/// the token count and the running time were written.
pub open spec fn completed_call_lines(
    c: ActiveToolCall,
    tokens: Seq<char>,
    elapsed: Seq<char>,
) -> Seq<(LineKind, Seq<char>)> {
    seq![call_line(c.display_name@)] + (if c.is_subagent_task {
        match (c.total_tool_uses, c.total_tokens) {
            (Some(u), Some(_)) => seq![plain_line("  ⎿ "@ + done_text(u, tokens, elapsed))],
            _ => Seq::empty(),
        }
    } else {
        match c.result_summary {
            Some(s) => seq![status_line(s@)],
            None => Seq::empty(),
        }
    }) + error_lines(c.status)
}

/// How a token count is written: in full under a thousand, else as
/// `thousands` writes it.
pub open spec fn token_text<F: Fn(usize) -> String>(n: usize, text: Seq<char>, thousands: F) -> bool {
    if n < 1000 {
        text == decimal(n as nat)
    } else {
        exists|s: String| thousands.ensures((n,), s) && text == s@
    }
}

/// The token count of a finished sub-agent, when its totals are shown, is
/// written as [`token_text`] says.
pub open spec fn tokens_written<F: Fn(usize) -> String>(
    c: ActiveToolCall,
    tokens: Seq<char>,
    thousands: F,
) -> bool {
    c.is_subagent_task && c.total_tool_uses is Some ==> (c.total_tokens matches Some(n)
        ==> token_text(n, tokens, thousands))
}

/// Why an attachment could not be made or found.
#[derive(Clone, Copy, Debug, PartialEq, Eq, Structural)]
pub enum AttachmentError {
    /// The text is over the size limit.
    TooLarge,
    /// The text is too short to be worth an attachment.
    TooSmall,
    /// No attachment has the number.
    NotFound(usize),
}

/// The largest text, in bytes, that can become an attachment.
pub const MAX_ATTACHMENT_BYTES: usize = 5_000_000;

/// A text becomes an attachment only when it has more characters than this.
pub const MIN_ATTACHMENT_CHARS: usize = 200;

/// What an attachment error says.
pub open spec fn attachment_error_text(e: AttachmentError) -> Seq<char> {
    match e {
        AttachmentError::TooLarge => "Paste rejected: exceeds 5MB limit"@,
        AttachmentError::TooSmall => "Content too small for attachment (must be >200 chars)"@,
        AttachmentError::NotFound(id) => "Attachment not found: "@ + decimal(id as nat),
    }
}

impl AttachmentError {
    /// What the error says (see [`attachment_error_text`]).
    pub fn message(&self) -> (r: String)
        ensures
            r@ == attachment_error_text(*self),
    {
        match self {
            AttachmentError::TooLarge => owned("Paste rejected: exceeds 5MB limit"),
            AttachmentError::TooSmall => owned(
                "Content too small for attachment (must be >200 chars)",
            ),
            AttachmentError::NotFound(id) => {
                let mut out = chars_of("Attachment not found: ");
                extend(&mut out, decimal_exec(*id).as_slice());
                string_of(out.as_slice())
            },
        }
    }
}

/// The position of the first attachment with the given number, if any.
pub open spec fn attachment_index(atts: Seq<TextAttachment>, id: usize) -> Option<int> {
    if exists|i: int|
        0 <= i < atts.len() && atts[i].id == id && forall|j: int| 0 <= j < i ==> atts[j].id != id {
        Some(
            choose|i: int|
                0 <= i < atts.len() && atts[i].id == id && forall|j: int|
                    0 <= j < i ==> atts[j].id != id,
        )
    } else {
        None
    }
}

/// The placeholder that stands for an attachment in the prompt.
pub open spec fn attachment_token(id: usize) -> Seq<char> {
    "[pasted text-"@ + decimal(id as nat) + "]"@
}

/// A prompt with the placeholders of the attachments replaced by their
/// texts, one attachment after the other.
pub open spec fn expanded(input: Seq<char>, atts: Seq<TextAttachment>) -> Seq<char>
    decreases atts.len(),
{
    if atts.len() == 0 {
        input
    } else {
        replace_all_matches(
            expanded(input, atts.drop_last()),
            attachment_token(atts.last().id),
            atts.last().content@,
        )
    }
}

/// Whether two texts are equal.
fn same_text(a: &str, b: &str) -> (r: bool)
    ensures
        r == (a@ == b@),
{
    let x = chars_of(a);
    let y = chars_of(b);
    eq_chars(x.as_slice(), y.as_slice())
}

// ---------------------------------------------------------------------------
// Randomness for the spinners
// ---------------------------------------------------------------------------
/// The thread-local random number generator of `rand` (`ThreadRng`),
/// carried as an opaque value.
#[verifier::external_type_specification]
#[verifier::external_body]
pub struct ExThreadRng(ThreadRng);

/// The thread's random generator (`rand::thread_rng`), seeded by the system.
pub assume_specification[ rand::thread_rng ]() -> ThreadRng;

/// A number drawn from `0..upper` (`Rng::gen_range`). Of every draw it is
/// claimed only that it lies in the range.
#[verifier::external_body]
fn random_below(rng: &mut ThreadRng, upper: usize) -> (r: usize)
    requires
        upper > 0,
    ensures
        r < upper,
{
    rng.gen_range(0..upper)
}

/// How many spinner styles the status line can use.
pub const SPINNER_STYLES: usize = 7;

/// A spinner style chosen at random.
pub(crate) fn random_spinner() -> (r: usize)
    ensures
        r < SPINNER_STYLES,
{
    let mut rng = rand::thread_rng();
    random_below(&mut rng, SPINNER_STYLES)
}

// ---------------------------------------------------------------------------
// The interface state
// ---------------------------------------------------------------------------
/// How many lines the conversation keeps before the oldest go.
pub const MAX_MESSAGES: usize = 1000;

/// What the terminal interface knows between two events: the conversation,
/// the agent's activity, the tool calls in flight, and the dialogs and
/// pop-ups that are open.
pub struct AppState {
    pub messages: VecDeque<MessageLine>,
    pub pending_messages: VecDeque<MessageLine>,
    pub agent_state: AgentState,
    pub should_quit: bool,
    pub should_cancel_task: bool,
    pub max_messages: usize,
    pub completion_state: Option<CompletionState>,
    pub tool_permission_dialog_state: Option<ToolPermissionDialogState>,
    pub approval_dialog_state: Option<ApprovalDialogState>,
    pub initial_permission_dialog_state: Option<InitialPermissionDialogState>,
    pub autopilot_enabled: Arc<AtomicBool>,
    pub animation_frame: usize,
    pub current_thinking_spinner: usize,
    pub current_executing_spinner: usize,
    pub current_retry_status: Option<String>,
    pub input_tokens: usize,
    pub output_tokens: usize,
    pub active_tool_calls: Vec<ActiveToolCall>,
    pub todos: Vec<TodoItem>,
    pub vertical_scroll: usize,
    pub vertical_scroll_content_length: usize,
    pub vertical_scroll_viewport_length: usize,
    pub attachments: Vec<TextAttachment>,
    pub next_attachment_id: usize,
    pub input_mode: InputMode,
}

impl AppState {
    /// The conversation as shown.
    pub open spec fn shown(&self) -> Seq<(LineKind, Seq<char>)> {
        line_views(self.messages@)
    }

    /// The lines not yet handed to the renderer.
    pub open spec fn pending(&self) -> Seq<(LineKind, Seq<char>)> {
        line_views(self.pending_messages@)
    }

    /// Both queues of lines are as in `other`.
    pub open spec fn same_lines(&self, other: &AppState) -> bool {
        &&& self.shown() == other.shown()
        &&& self.pending() == other.pending()
    }

    /// The agent's side is as in `other`: its activity, spinners, retry
    /// line, token counts and task list.
    pub open spec fn same_agent(&self, other: &AppState) -> bool {
        &&& self.agent_state == other.agent_state
        &&& self.current_thinking_spinner == other.current_thinking_spinner
        &&& self.current_executing_spinner == other.current_executing_spinner
        &&& self.current_retry_status == other.current_retry_status
        &&& self.input_tokens == other.input_tokens
        &&& self.output_tokens == other.output_tokens
        &&& self.todos@ == other.todos@
    }

    /// The open dialogs and the completion pop-up are as in `other`.
    pub open spec fn same_dialogs(&self, other: &AppState) -> bool {
        &&& self.completion_state == other.completion_state
        &&& self.tool_permission_dialog_state == other.tool_permission_dialog_state
        &&& self.approval_dialog_state == other.approval_dialog_state
    }

    /// The rest of the interface is as in `other`: flags, history limit,
    /// autopilot switch, animation, scrolling, attachments and input mode.
    pub open spec fn same_frame(&self, other: &AppState) -> bool {
        &&& self.same_frame_but_first_run(other)
        &&& self.initial_permission_dialog_state == other.initial_permission_dialog_state
    }

    /// The rest of the interface but the first-run dialog is as in `other`.
    pub open spec fn same_frame_but_first_run(&self, other: &AppState) -> bool {
        &&& self.should_quit == other.should_quit
        &&& self.should_cancel_task == other.should_cancel_task
        &&& self.max_messages == other.max_messages
        &&& self.autopilot_enabled == other.autopilot_enabled
        &&& self.animation_frame == other.animation_frame
        &&& self.vertical_scroll == other.vertical_scroll
        &&& self.vertical_scroll_content_length == other.vertical_scroll_content_length
        &&& self.vertical_scroll_viewport_length == other.vertical_scroll_viewport_length
        &&& self.attachments@ == other.attachments@
        &&& self.next_attachment_id == other.next_attachment_id
        &&& self.input_mode == other.input_mode
    }

    /// Only the open dialogs and the completion pop-up may differ from `other`.
    pub open spec fn only_dialogs_differ(&self, other: &AppState) -> bool {
        &&& self.same_lines(other)
        &&& self.same_agent(other)
        &&& self.same_frame(other)
        &&& self.active_tool_calls@ == other.active_tool_calls@
    }

    /// Only the attachments and their numbering may differ from `other`.
    pub open spec fn only_attachments_differ(&self, other: &AppState) -> bool {
        &&& self.same_lines(other)
        &&& self.same_agent(other)
        &&& self.same_dialogs(other)
        &&& self.active_tool_calls@ == other.active_tool_calls@
        &&& self.should_quit == other.should_quit
        &&& self.should_cancel_task == other.should_cancel_task
        &&& self.max_messages == other.max_messages
        &&& self.autopilot_enabled == other.autopilot_enabled
        &&& self.animation_frame == other.animation_frame
        &&& self.vertical_scroll == other.vertical_scroll
        &&& self.input_mode == other.input_mode
        &&& self.initial_permission_dialog_state == other.initial_permission_dialog_state
    }

    /// The attachments are numbered in increasing order, each below the
    /// next number to give, so no two share a number.
    pub open spec fn attachments_numbered(&self) -> bool {
        &&& forall|k: int|
            0 <= k < self.attachments@.len() ==> (#[trigger] self.attachments@[k]).id
                < self.next_attachment_id
        &&& forall|j: int, k: int|
            0 <= j < k < self.attachments@.len() ==> (#[trigger] self.attachments@[j]).id
                < (#[trigger] self.attachments@[k]).id
    }

    /// Only the conversation lines may differ from `other`.
    pub open spec fn only_lines_differ(&self, other: &AppState) -> bool {
        &&& self.same_agent(other)
        &&& self.same_dialogs(other)
        &&& self.same_frame(other)
        &&& self.active_tool_calls@ == other.active_tool_calls@
    }

    /// The conversation after `lines` were added to that of `other`, one by
    /// one: each goes to the pending queue, and to the history, which drops
    /// its first line whenever it grows past its limit.
    pub open spec fn lines_added(&self, other: &AppState, lines: Seq<(LineKind, Seq<char>)>) -> bool {
        &&& self.shown() == capped_push_all(other.shown(), lines, other.max_messages)
        &&& self.pending() == other.pending() + lines
    }

    /// A state as it is when the interface starts.
    pub open spec fn is_fresh(&self) -> bool {
        &&& self.shown().len() == 0
        &&& self.pending().len() == 0
        &&& self.agent_state == AgentState::Idle
        &&& !self.should_quit
        &&& !self.should_cancel_task
        &&& self.max_messages == MAX_MESSAGES
        &&& self.completion_state is None
        &&& self.tool_permission_dialog_state is None
        &&& self.approval_dialog_state is None
        &&& self.initial_permission_dialog_state is None
        &&& self.animation_frame == 0
        &&& self.current_thinking_spinner < SPINNER_STYLES
        &&& self.current_executing_spinner < SPINNER_STYLES
        &&& self.current_retry_status is None
        &&& self.input_tokens == 0
        &&& self.output_tokens == 0
        &&& self.active_tool_calls@.len() == 0
        &&& self.todos@.len() == 0
        &&& self.vertical_scroll == 0
        &&& self.vertical_scroll_content_length == 0
        &&& self.vertical_scroll_viewport_length == 0
        &&& self.attachments@.len() == 0
        &&& self.next_attachment_id == 1
        &&& self.input_mode == InputMode::Normal
    }

    /// A state with an empty conversation, the agent idle, no dialog open,
    /// autopilot off and spinners chosen at random.
    pub fn new() -> (r: Self)
        ensures
            r.is_fresh(),
            r.attachments_numbered(),
    {
        let current_thinking_spinner = random_spinner();
        let current_executing_spinner = random_spinner();
        let r = AppState {
            messages: VecDeque::new(),
            pending_messages: VecDeque::new(),
            agent_state: AgentState::Idle,
            should_quit: false,
            should_cancel_task: false,
            max_messages: MAX_MESSAGES,
            completion_state: None,
            tool_permission_dialog_state: None,
            approval_dialog_state: None,
            initial_permission_dialog_state: None,
            autopilot_enabled: Arc::new(AtomicBool::new(false)),
            animation_frame: 0,
            current_thinking_spinner,
            current_executing_spinner,
            current_retry_status: None,
            input_tokens: 0,
            output_tokens: 0,
            active_tool_calls: Vec::new(),
            todos: Vec::new(),
            vertical_scroll: 0,
            vertical_scroll_content_length: 0,
            vertical_scroll_viewport_length: 0,
            attachments: Vec::new(),
            next_attachment_id: 1,
            input_mode: InputMode::Normal,
        };
        assert(r.shown() =~= Seq::empty());
        assert(r.pending() =~= Seq::empty());
        r
    }

    /// Advances the animation by one frame, wrapping at the largest number.
    pub fn tick_animation(&mut self)
        ensures
            final(self).animation_frame == (if old(self).animation_frame == usize::MAX {
                0
            } else {
                old(self).animation_frame + 1
            }),
            final(self).same_lines(old(self)),
            final(self).same_agent(old(self)),
            final(self).same_dialogs(old(self)),
            final(self).active_tool_calls@ == old(self).active_tool_calls@,
            final(self).should_quit == old(self).should_quit,
            final(self).max_messages == old(self).max_messages,
            final(self).attachments@ == old(self).attachments@,
            final(self).input_mode == old(self).input_mode,
    {
        self.animation_frame = if self.animation_frame == usize::MAX {
            0
        } else {
            self.animation_frame + 1
        };
    }

    pub fn is_completing(&self) -> (r: bool)
        ensures
            r == self.completion_state is Some,
    {
        self.completion_state.is_some()
    }

    pub fn is_showing_tool_permission_dialog(&self) -> (r: bool)
        ensures
            r == self.tool_permission_dialog_state is Some,
    {
        self.tool_permission_dialog_state.is_some()
    }

    pub fn is_showing_approval_dialog(&self) -> (r: bool)
        ensures
            r == self.approval_dialog_state is Some,
    {
        self.approval_dialog_state.is_some()
    }

    /// Flips the shared autopilot switch. The switch is an atomic that other
    /// tasks read; Verus does not model what it holds, so the contract only
    /// says that nothing else changes.
    pub fn toggle_autopilot(&mut self)
        ensures
            final(self).only_dialogs_differ(old(self)),
            final(self).same_dialogs(old(self)),
    {
        let current = self.autopilot_enabled.load(std::sync::atomic::Ordering::Relaxed);
        self.autopilot_enabled.store(!current, std::sync::atomic::Ordering::Relaxed);
    }

    /// Opens the dialog that asks to approve one tool call; the first
    /// choice (approve) is highlighted.
    pub fn show_approval_dialog(&mut self, tool_call_id: String, tool_name: String)
        ensures
            final(self).approval_dialog_state matches Some(d) && d.tool_call_id@ == tool_call_id@
                && d.tool_name@ == tool_name@ && d.selected_index == 0,
            final(self).completion_state == old(self).completion_state,
            final(self).tool_permission_dialog_state == old(self).tool_permission_dialog_state,
            final(self).only_dialogs_differ(old(self)),
    {
        self.approval_dialog_state = Some(ApprovalDialogState::new(tool_call_id, tool_name));
    }

    pub fn hide_approval_dialog(&mut self)
        ensures
            final(self).approval_dialog_state is None,
            final(self).completion_state == old(self).completion_state,
            final(self).tool_permission_dialog_state == old(self).tool_permission_dialog_state,
            final(self).only_dialogs_differ(old(self)),
    {
        self.approval_dialog_state = None;
    }

    /// Moves the highlight of the approval dialog to the other of its two
    /// choices.
    pub fn select_next_approval_option(&mut self)
        ensures
            old(self).approval_dialog_state is None ==> final(self).approval_dialog_state is None,
            old(self).approval_dialog_state matches Some(d) ==> final(self).approval_dialog_state
                == Some(
                ApprovalDialogState { selected_index: ((d.selected_index + 1) % 2) as usize, ..d },
            ),
            final(self).completion_state == old(self).completion_state,
            final(self).tool_permission_dialog_state == old(self).tool_permission_dialog_state,
            final(self).only_dialogs_differ(old(self)),
    {
        if let Some(dialog) = &mut self.approval_dialog_state {
            dialog.selected_index = (dialog.selected_index % 2 + 1) % 2;
        }
    }

    /// With two choices, moving back is moving forward.
    pub fn select_prev_approval_option(&mut self)
        ensures
            old(self).approval_dialog_state is None ==> final(self).approval_dialog_state is None,
            old(self).approval_dialog_state matches Some(d) ==> final(self).approval_dialog_state
                == Some(
                ApprovalDialogState { selected_index: ((d.selected_index + 1) % 2) as usize, ..d },
            ),
            final(self).completion_state == old(self).completion_state,
            final(self).tool_permission_dialog_state == old(self).tool_permission_dialog_state,
            final(self).only_dialogs_differ(old(self)),
    {
        self.select_next_approval_option();
    }

    /// Opens the permission dialog for a tool call. Its choices are to allow
    /// once, to trust the project (when the working directory is known) and
    /// to refuse; the first is highlighted.
    pub fn show_tool_permission_dialog(
        &mut self,
        descriptor: ToolPermissionDescriptor,
        request_id: String,
        current_dir: Option<PathBuf>,
    )
        ensures
            final(self).tool_permission_dialog_state matches Some(d) && d.descriptor == descriptor
                && d.request_id@ == request_id@ && d.selected_index == 0 && d.options@
                == permission_options(current_dir),
            final(self).completion_state == old(self).completion_state,
            final(self).approval_dialog_state == old(self).approval_dialog_state,
            final(self).only_dialogs_differ(old(self)),
    {
        let options = match current_dir {
            Some(dir) => vec![
                PermissionOption::YesOnce,
                PermissionOption::TrustProject(dir),
                PermissionOption::No,
            ],
            None => vec![PermissionOption::YesOnce, PermissionOption::No],
        };
        self.tool_permission_dialog_state = Some(
            ToolPermissionDialogState { descriptor, request_id, selected_index: 0, options },
        );
    }

    /// Moves the highlight of the permission dialog to the next choice,
    /// wrapping to the first.
    pub fn select_next_tool_permission_option(&mut self)
        ensures
            (match old(self).tool_permission_dialog_state {
                Some(d) => if d.options@.len() > 0 {
                    final(self).tool_permission_dialog_state == Some(
                        ToolPermissionDialogState {
                            selected_index: next_index(d.selected_index, d.options@.len()) as usize,
                            ..d
                        },
                    )
                } else {
                    final(self).tool_permission_dialog_state == old(
                        self,
                    ).tool_permission_dialog_state
                },
                None => final(self).tool_permission_dialog_state is None,
            }),
            final(self).completion_state == old(self).completion_state,
            final(self).approval_dialog_state == old(self).approval_dialog_state,
            final(self).only_dialogs_differ(old(self)),
    {
        if let Some(dialog) = &mut self.tool_permission_dialog_state {
            let n = dialog.options.len();
            if n > 0 {
                let i = dialog.selected_index;
                proof {
                    lemma_add_mod_noop(i as int, 1, n as int);
                    if n > 1 {
                        lemma_small_mod(1, n as nat);
                    } else {
                        assert(((i as int) % 1 + 1) % 1 == 0 && ((i as int) + 1) % 1 == 0);
                    }
                }
                dialog.selected_index = (i % n + 1) % n;
            }
        }
    }

    /// Moves the highlight of the permission dialog to the previous choice,
    /// wrapping to the last.
    pub fn select_prev_tool_permission_option(&mut self)
        ensures
            (match old(self).tool_permission_dialog_state {
                Some(d) => if d.options@.len() > 0 {
                    final(self).tool_permission_dialog_state == Some(
                        ToolPermissionDialogState {
                            selected_index: prev_index(d.selected_index, d.options@.len()) as usize,
                            ..d
                        },
                    )
                } else {
                    final(self).tool_permission_dialog_state == old(
                        self,
                    ).tool_permission_dialog_state
                },
                None => final(self).tool_permission_dialog_state is None,
            }),
            final(self).completion_state == old(self).completion_state,
            final(self).approval_dialog_state == old(self).approval_dialog_state,
            final(self).only_dialogs_differ(old(self)),
    {
        if let Some(dialog) = &mut self.tool_permission_dialog_state {
            if dialog.options.len() > 0 {
                if dialog.selected_index == 0 {
                    dialog.selected_index = dialog.options.len() - 1;
                } else {
                    dialog.selected_index -= 1;
                }
            }
        }
    }

    pub fn hide_tool_permission_dialog(&mut self)
        ensures
            final(self).tool_permission_dialog_state is None,
            final(self).completion_state == old(self).completion_state,
            final(self).approval_dialog_state == old(self).approval_dialog_state,
            final(self).only_dialogs_differ(old(self)),
    {
        self.tool_permission_dialog_state = None;
    }

    /// Only the first-run dialog may differ from `other`.
    pub open spec fn only_first_run_differs(&self, other: &AppState) -> bool {
        &&& self.same_lines(other)
        &&& self.same_agent(other)
        &&& self.same_dialogs(other)
        &&& self.same_frame_but_first_run(other)
        &&& self.active_tool_calls@ == other.active_tool_calls@
    }

    /// Opens the first-run dialog for a project; the first choice (read
    /// only) is highlighted.
    pub fn show_initial_permission_dialog(&mut self, project_path: PathBuf)
        ensures
            final(self).initial_permission_dialog_state == Some(
                InitialPermissionDialogState { project_path, selected_index: 0 },
            ),
            final(self).only_first_run_differs(old(self)),
    {
        self.initial_permission_dialog_state = Some(InitialPermissionDialogState::new(project_path));
    }

    pub fn is_showing_initial_permission_dialog(&self) -> (r: bool)
        ensures
            r == self.initial_permission_dialog_state is Some,
    {
        self.initial_permission_dialog_state.is_some()
    }

    /// Moves the highlight of the first-run dialog to the next of its three
    /// choices, wrapping to the first.
    pub fn select_next_initial_permission_option(&mut self)
        ensures
            (match old(self).initial_permission_dialog_state {
                Some(d) => final(self).initial_permission_dialog_state == Some(
                    InitialPermissionDialogState {
                        selected_index: ((d.selected_index + 1) % 3) as usize,
                        ..d
                    },
                ),
                None => final(self).initial_permission_dialog_state is None,
            }),
            final(self).only_first_run_differs(old(self)),
    {
        if let Some(dialog) = &mut self.initial_permission_dialog_state {
            dialog.selected_index = (dialog.selected_index % 3 + 1) % 3;
        }
    }

    /// Moves the highlight of the first-run dialog to the previous choice,
    /// wrapping to the last.
    pub fn select_prev_initial_permission_option(&mut self)
        ensures
            (match old(self).initial_permission_dialog_state {
                Some(d) => final(self).initial_permission_dialog_state == Some(
                    InitialPermissionDialogState {
                        selected_index: if d.selected_index == 0 {
                            2
                        } else {
                            (d.selected_index - 1) as usize
                        },
                        ..d
                    },
                ),
                None => final(self).initial_permission_dialog_state is None,
            }),
            final(self).only_first_run_differs(old(self)),
    {
        if let Some(dialog) = &mut self.initial_permission_dialog_state {
            if dialog.selected_index == 0 {
                dialog.selected_index = 2;
            } else {
                dialog.selected_index -= 1;
            }
        }
    }

    /// The highlighted choice of the first-run dialog, if it is open: read
    /// only, enable writes and edits, or deny (read only for any other
    /// position).
    pub fn get_selected_initial_permission_choice(&self) -> (r: Option<InitialPermissionChoice>)
        ensures
            (match self.initial_permission_dialog_state {
                Some(d) => r == Some(
                    if d.selected_index == 1 {
                        InitialPermissionChoice::EnableWriteEdit
                    } else if d.selected_index == 2 {
                        InitialPermissionChoice::Deny
                    } else {
                        InitialPermissionChoice::ReadOnly
                    },
                ),
                None => r is None,
            }),
    {
        match &self.initial_permission_dialog_state {
            Some(dialog) => Some(
                match dialog.selected_index {
                    0 => InitialPermissionChoice::ReadOnly,
                    1 => InitialPermissionChoice::EnableWriteEdit,
                    2 => InitialPermissionChoice::Deny,
                    _ => InitialPermissionChoice::ReadOnly,
                },
            ),
            None => None,
        }
    }

    pub fn hide_initial_permission_dialog(&mut self)
        ensures
            final(self).initial_permission_dialog_state is None,
            final(self).only_first_run_differs(old(self)),
    {
        self.initial_permission_dialog_state = None;
    }

    /// Opens the completion pop-up for the completer at `completer_index`,
    /// with no query and no candidates yet.
    pub fn start_completion(&mut self, completer_index: usize)
        ensures
            final(self).completion_state matches Some(c) && c.candidates@.len() == 0
                && c.selected_index == 0 && c.scroll_offset == 0 && c.query@ == Seq::<char>::empty()
                && c.completer_index == completer_index,
            final(self).tool_permission_dialog_state == old(self).tool_permission_dialog_state,
            final(self).approval_dialog_state == old(self).approval_dialog_state,
            final(self).only_dialogs_differ(old(self)),
    {
        self.completion_state = Some(CompletionState::new(completer_index));
    }

    pub fn cancel_completion(&mut self)
        ensures
            final(self).completion_state is None,
            final(self).tool_permission_dialog_state == old(self).tool_permission_dialog_state,
            final(self).approval_dialog_state == old(self).approval_dialog_state,
            final(self).only_dialogs_differ(old(self)),
    {
        self.completion_state = None;
    }

    /// Sets what the user has typed since the pop-up opened; the first
    /// candidate is highlighted again.
    pub fn update_completion_query(&mut self, query: String)
        ensures
            (match old(self).completion_state {
                Some(c) => final(self).completion_state matches Some(n) && n.query@ == query@
                    && n.selected_index == 0 && n.scroll_offset == c.scroll_offset
                    && n.candidates@ == c.candidates@ && n.completer_index == c.completer_index,
                None => final(self).completion_state is None,
            }),
            final(self).tool_permission_dialog_state == old(self).tool_permission_dialog_state,
            final(self).approval_dialog_state == old(self).approval_dialog_state,
            final(self).only_dialogs_differ(old(self)),
    {
        if let Some(state) = &mut self.completion_state {
            state.query = query;
            state.selected_index = 0;
        }
    }

    /// Replaces the candidates of the pop-up; the first is highlighted and
    /// shown at the top.
    pub fn set_completion_candidates(&mut self, candidates: Vec<String>)
        ensures
            (match old(self).completion_state {
                Some(c) => final(self).completion_state matches Some(n) && n.candidates@
                    == candidates@ && n.selected_index == 0 && n.scroll_offset == 0 && n.query@
                    == c.query@ && n.completer_index == c.completer_index,
                None => final(self).completion_state is None,
            }),
            final(self).tool_permission_dialog_state == old(self).tool_permission_dialog_state,
            final(self).approval_dialog_state == old(self).approval_dialog_state,
            final(self).only_dialogs_differ(old(self)),
    {
        if let Some(state) = &mut self.completion_state {
            state.candidates = candidates;
            state.selected_index = 0;
            state.scroll_offset = 0;
        }
    }

    /// Highlights the next candidate (see [`CompletionState::select_next`]).
    pub fn select_next_completion(&mut self)
        requires
            old(self).completion_state matches Some(c) ==> next_fits(c),
        ensures
            (match old(self).completion_state {
                Some(c) => final(self).completion_state matches Some(n) && n.candidates@
                    == c.candidates@ && n.query@ == c.query@ && n.completer_index
                    == c.completer_index && (if c.candidates@.len() == 0 {
                    n.selected_index == c.selected_index && n.scroll_offset == c.scroll_offset
                } else {
                    n.selected_index == next_index(c.selected_index, c.candidates@.len())
                        && n.scroll_offset == scrolled_offset(
                        n.selected_index,
                        c.scroll_offset,
                        VISIBLE_COMPLETIONS,
                    )
                }),
                None => final(self).completion_state is None,
            }),
            final(self).tool_permission_dialog_state == old(self).tool_permission_dialog_state,
            final(self).approval_dialog_state == old(self).approval_dialog_state,
            final(self).only_dialogs_differ(old(self)),
    {
        if let Some(state) = &mut self.completion_state {
            state.select_next();
        }
    }

    /// Highlights the previous candidate (see [`CompletionState::select_prev`]).
    pub fn select_prev_completion(&mut self)
        requires
            old(self).completion_state matches Some(c) ==> prev_fits(c),
        ensures
            (match old(self).completion_state {
                Some(c) => final(self).completion_state matches Some(n) && n.candidates@
                    == c.candidates@ && n.query@ == c.query@ && n.completer_index
                    == c.completer_index && (if c.candidates@.len() == 0 {
                    n.selected_index == c.selected_index && n.scroll_offset == c.scroll_offset
                } else {
                    n.selected_index == prev_index(c.selected_index, c.candidates@.len())
                        && n.scroll_offset == scrolled_offset(
                        n.selected_index,
                        c.scroll_offset,
                        VISIBLE_COMPLETIONS,
                    )
                }),
                None => final(self).completion_state is None,
            }),
            final(self).tool_permission_dialog_state == old(self).tool_permission_dialog_state,
            final(self).approval_dialog_state == old(self).approval_dialog_state,
            final(self).only_dialogs_differ(old(self)),
    {
        if let Some(state) = &mut self.completion_state {
            state.select_prev();
        }
    }

    /// Takes the highlighted candidate and closes the pop-up. Without a pop-up,
    /// or with nothing highlighted, nothing is taken and nothing changes.
    pub fn apply_completion(&mut self) -> (r: Option<String>)
        ensures
            (match old(self).completion_state {
                Some(c) => if c.selected_index < c.candidates@.len() {
                    r matches Some(s) && s@ == c.candidates@[c.selected_index as int]@
                        && final(self).completion_state is None
                } else {
                    r is None && final(self).completion_state == old(self).completion_state
                },
                None => r is None && final(self).completion_state is None,
            }),
            final(self).tool_permission_dialog_state == old(self).tool_permission_dialog_state,
            final(self).approval_dialog_state == old(self).approval_dialog_state,
            final(self).only_dialogs_differ(old(self)),
    {
        let selected = match &self.completion_state {
            Some(state) => match state.selected_item() {
                Some(item) => Some(owned(item)),
                None => None,
            },
            None => None,
        };
        if selected.is_some() {
            self.completion_state = None;
        }
        selected
    }

    /// Adds a line to the conversation and to the lines waiting for the
    /// renderer; when the conversation then holds more lines than its
    /// limit, its oldest line goes.
    pub fn add_message_line(&mut self, msg_line: MessageLine)
        ensures
            final(self).lines_added(old(self), seq![msg_line@]),
            final(self).only_lines_differ(old(self)),
    {
        let ghost m = msg_line@;
        let copy = copy_line(&msg_line);
        proof {
            lemma_views_push(self.messages@, copy);
            lemma_views_push(self.pending_messages@, msg_line);
        }
        self.messages.push_back(copy);
        if self.messages.len() > self.max_messages {
            proof {
                lemma_views_drop_first(self.messages@);
            }
            self.messages.pop_front();
        }
        self.pending_messages.push_back(msg_line);
        proof {
            lemma_capped_push_all_small(old(self).shown(), m, old(self).max_messages);
            assert(old(self).pending().push(m) =~= old(self).pending() + seq![m]);
        }
    }

    /// Adds a plain line.
    pub fn add_message(&mut self, message: String)
        ensures
            final(self).lines_added(old(self), seq![plain_line(message@)]),
            final(self).only_lines_differ(old(self)),
    {
        self.add_message_line(MessageLine::Plain(message));
    }

    /// Adds a line marked as debugging output, in the warning style.
    pub fn add_debug_message(&mut self, message: String)
        ensures
            final(self).lines_added(old(self), seq![(LineKind::Warning, "  [DEBUG] "@ + message@)]),
            final(self).only_lines_differ(old(self)),
    {
        let text = prefixed("  [DEBUG] ", message.as_str());
        self.add_styled_line(StyledLine { text, tone: Tone::Warning });
    }

    /// Adds a styled line.
    pub fn add_styled_line(&mut self, line: StyledLine)
        ensures
            final(self).lines_added(old(self), seq![(tone_kind(line.tone), line.text@)]),
            final(self).only_lines_differ(old(self)),
    {
        self.add_message_line(MessageLine::Styled(line));
    }

    pub fn has_pending_messages(&self) -> (r: bool)
        ensures
            r == (self.pending().len() > 0),
    {
        self.pending_messages.len() > 0
    }

    /// Hands over the lines waiting for the renderer, oldest first, and
    /// empties their queue.
    pub fn drain_pending_messages(&mut self) -> (r: Vec<MessageLine>)
        ensures
            r@ == old(self).pending_messages@,
            final(self).pending().len() == 0,
            final(self).shown() == old(self).shown(),
            final(self).only_lines_differ(old(self)),
    {
        let mut r: Vec<MessageLine> = Vec::new();
        while self.pending_messages.len() > 0
            invariant
                r@ + self.pending_messages@ == old(self).pending_messages@,
                self.messages@ == old(self).messages@,
                self.only_lines_differ(old(self)),
            decreases self.pending_messages@.len(),
        {
            let ghost before = self.pending_messages@;
            match self.pending_messages.pop_front() {
                Some(m) => {
                    assert(before =~= seq![m] + self.pending_messages@);
                    assert(r@.push(m) + self.pending_messages@ =~= r@ + before);
                    r.push(m);
                },
                None => {},
            }
        }
        assert(r@ + self.pending_messages@ =~= r@);
        assert(self.pending() =~= Seq::empty());
        r
    }

    /// Adds a thought of the agent as a text block; an empty thought adds
    /// nothing.
    pub fn add_thought(&mut self, content: &str)
        ensures
            final(self).lines_added(
                old(self),
                if content@.len() == 0 {
                    Seq::empty()
                } else {
                    text_block(content@)
                },
            ),
            final(self).only_lines_differ(old(self)),
    {
        if !content.is_empty() {
            self.add_block(content);
        } else {
            assert(old(self).pending() + Seq::empty() =~= old(self).pending());
            proof {
                lemma_capped_push_all_small(old(self).shown(), blank_line(), old(self).max_messages);
            }
        }
    }

    /// An empty line, then `content` as Markdown.
    fn add_block(&mut self, content: &str)
        ensures
            final(self).lines_added(old(self), text_block(content@)),
            final(self).only_lines_differ(old(self)),
    {
        let ghost s0 = self.shown();
        let ghost p0 = self.pending();
        let ghost max = self.max_messages;
        self.add_message(owned("\n"));
        self.add_message_line(MessageLine::Markdown(owned(content)));
        proof {
            let lines = text_block(content@);
            let md = (LineKind::Markdown, content@);
            assert(lines =~= seq![blank_line()] + seq![md]);
            lemma_capped_push_all_append(s0, seq![blank_line()], seq![md], max);
            assert(p0 + seq![blank_line()] + seq![md] =~= p0 + lines);
        }
    }

    /// Adds the line that names a tool call.
    pub fn add_tool_call(&mut self, name: &str)
        ensures
            final(self).lines_added(old(self), seq![call_line(name@)]),
            final(self).only_lines_differ(old(self)),
    {
        self.add_message(prefixed("\n● ", name));
    }

    /// Adds a report line under a tool call.
    pub fn add_status_message(&mut self, message: &str)
        ensures
            final(self).lines_added(old(self), seq![status_line(message@)]),
            final(self).only_lines_differ(old(self)),
    {
        self.add_message(prefixed("  ⎿  ", message));
    }

    /// Adds an error under a tool call, in the error style.
    pub fn add_error(&mut self, error: &str)
        ensures
            final(self).lines_added(old(self), seq![error_line(error@)]),
            final(self).only_lines_differ(old(self)),
    {
        let text = prefixed("  ⎿  ", error);
        self.add_styled_line(StyledLine { text, tone: Tone::Destructive });
    }

    /// Adds the agent's answer as a text block.
    pub fn add_final_response(&mut self, content: &str)
        ensures
            final(self).lines_added(old(self), text_block(content@)),
            final(self).only_lines_differ(old(self)),
    {
        self.add_block(content);
    }

    /// Adds what the user asked.
    pub fn add_user_input(&mut self, input: &str)
        ensures
            final(self).lines_added(old(self), seq![plain_line("\n> "@ + input@)]),
            final(self).only_lines_differ(old(self)),
    {
        self.add_message(prefixed("\n> ", input));
    }

    /// Adds the preview of what a tool call will do.
    pub fn add_tool_preview(&mut self, preview: &str)
        ensures
            final(self).lines_added(old(self), seq![plain_line("\n"@ + preview@)]),
            final(self).only_lines_differ(old(self)),
    {
        self.add_message(prefixed("\n", preview));
    }

    /// Adds a call that the agent has just announced, as starting.
    pub fn add_active_tool_call(&mut self, tool_call_id: String, display_name: String)
        ensures
            final(self).active_tool_calls@.len() == old(self).active_tool_calls@.len() + 1,
            final(self).active_tool_calls@.drop_last() == old(self).active_tool_calls@,
            is_new_call(final(self).active_tool_calls@.last(), tool_call_id@, display_name@),
            final(self).same_lines(old(self)),
            final(self).same_agent(old(self)),
            final(self).same_dialogs(old(self)),
            final(self).same_frame(old(self)),
    {
        let call = ActiveToolCall {
            tool_call_id,
            display_name,
            status: ToolCallStatus::Starting,
            preview: None,
            result_summary: None,
            subagent_steps: Vec::new(),
            is_subagent_task: false,
            bash_output_lines: Vec::new(),
            is_bash_streaming: false,
            start_time: now(),
            budget_pct_bits: None,
            total_tool_uses: None,
            total_tokens: None,
        };
        self.active_tool_calls.push(call);
        assert(self.active_tool_calls@.drop_last() =~= old(self).active_tool_calls@);
    }

    /// The position of the first call in flight with the given id.
    pub(crate) fn call_position(&self, tool_call_id: &str) -> (r: Option<usize>)
        ensures
            r matches Some(i) ==> call_index(self.active_tool_calls@, tool_call_id@) == Some(
                i as int,
            ),
            r is None ==> call_index(self.active_tool_calls@, tool_call_id@) is None,
    {
        let ghost calls = self.active_tool_calls@;
        let ghost id = tool_call_id@;
        let mut i: usize = 0;
        while i < self.active_tool_calls.len()
            invariant
                i <= calls.len(),
                calls == self.active_tool_calls@,
                id == tool_call_id@,
                forall|j: int| 0 <= j < i ==> calls[j].tool_call_id@ != id,
            decreases calls.len() - i,
        {
            if same_text(self.active_tool_calls[i].tool_call_id.as_str(), tool_call_id) {
                proof {
                    assert(calls[i as int].tool_call_id@ == id);
                    let c = choose|k: int|
                        0 <= k < calls.len() && calls[k].tool_call_id@ == id && forall|j: int|
                            0 <= j < k ==> calls[j].tool_call_id@ != id;
                    if c < i {
                        assert(calls[c].tool_call_id@ != id);
                    }
                    if c > i {
                        assert(calls[i as int].tool_call_id@ != id);
                    }
                }
                return Some(i);
            }
            i += 1;
        }
        None
    }

    /// Sets the status of the first call in flight with the given id; with
    /// no such call nothing changes.
    pub fn update_tool_call_status(&mut self, tool_call_id: &str, status: ToolCallStatus)
        ensures
            final(self).active_tool_calls@ == calls_updated(
                old(self).active_tool_calls@,
                tool_call_id@,
                |c: ActiveToolCall| ActiveToolCall { status: status, ..c },
            ),
            final(self).same_lines(old(self)),
            final(self).same_agent(old(self)),
            final(self).same_dialogs(old(self)),
            final(self).same_frame(old(self)),
    {
        if let Some(i) = self.call_position(tool_call_id) {
            self.active_tool_calls[i].status = status;
        }
    }

    /// Records the result line of the first call in flight with the given
    /// id; with no such call nothing changes.
    pub fn set_tool_call_result(&mut self, tool_call_id: &str, summary: String)
        ensures
            final(self).active_tool_calls@ == calls_updated(
                old(self).active_tool_calls@,
                tool_call_id@,
                |c: ActiveToolCall| ActiveToolCall { result_summary: Some(summary), ..c },
            ),
            final(self).same_lines(old(self)),
            final(self).same_agent(old(self)),
            final(self).same_dialogs(old(self)),
            final(self).same_frame(old(self)),
    {
        if let Some(i) = self.call_position(tool_call_id) {
            self.active_tool_calls[i].result_summary = Some(summary);
        }
    }

    /// The first call in flight with the given id, to change in place.
    pub fn get_active_tool_call_mut(&mut self, tool_call_id: &str) -> (r: Option<&mut ActiveToolCall>)
        ensures
            (match call_index(old(self).active_tool_calls@, tool_call_id@) {
                Some(i) => r matches Some(c) && *c == old(self).active_tool_calls@[i]
                    && final(self).active_tool_calls@ == old(self).active_tool_calls@.update(
                    i,
                    *final(c),
                ),
                None => r is None && final(self).active_tool_calls@ == old(self).active_tool_calls@,
            }),
            final(self).same_lines(old(self)),
            final(self).same_agent(old(self)),
            final(self).same_dialogs(old(self)),
            final(self).same_frame(old(self)),
    {
        match self.call_position(tool_call_id) {
            Some(i) => Some(&mut self.active_tool_calls[i]),
            None => None,
        }
    }

    /// Closes all calls in flight: for each, in order, its closing lines
    /// (see [`finished_call_lines`]) are added; then none is in flight.
    pub fn complete_active_tool_calls(&mut self)
        ensures
            final(self).lines_added(old(self), finished_calls_lines(old(self).active_tool_calls@)),
            final(self).active_tool_calls@.len() == 0,
            final(self).same_agent(old(self)),
            final(self).same_dialogs(old(self)),
            final(self).same_frame(old(self)),
    {
        let ghost calls = self.active_tool_calls@;
        let mut i: usize = 0;
        proof {
            lemma_capped_push_all_small(self.shown(), blank_line(), self.max_messages);
            assert(self.pending() + Seq::empty() =~= self.pending());
            assert(calls.take(0) =~= Seq::<ActiveToolCall>::empty());
        }
        while i < self.active_tool_calls.len()
            invariant
                i <= calls.len(),
                self.active_tool_calls@ == calls,
                calls == old(self).active_tool_calls@,
                self.lines_added(old(self), finished_calls_lines(calls.take(i as int))),
                self.only_lines_differ(old(self)),
            decreases calls.len() - i,
        {
            let ghost before = *self;
            self.add_finished_call(i);
            proof {
                lemma_lines_added_twice(
                    *old(self),
                    before,
                    *self,
                    finished_calls_lines(calls.take(i as int)),
                    finished_call_lines(calls[i as int]),
                );
                assert(calls.take(i + 1).drop_last() =~= calls.take(i as int));
            }
            i += 1;
        }
        assert(calls.take(calls.len() as int) =~= calls);
        self.active_tool_calls.clear();
    }

    /// Adds the closing lines of the call at `i`.
    fn add_finished_call(&mut self, i: usize)
        requires
            i < old(self).active_tool_calls@.len(),
        ensures
            final(self).lines_added(old(self), finished_call_lines(old(self).active_tool_calls@[i as int])),
            final(self).only_lines_differ(old(self)),
    {
        let ghost c = self.active_tool_calls@[i as int];
        let ghost s0 = *self;
        let head = prefixed("\n● ", self.active_tool_calls[i].display_name.as_str());
        self.add_message(head);
        let ghost s1 = *self;
        let summary = match &self.active_tool_calls[i].result_summary {
            Some(text) => Some(prefixed("  ⎿  ", text.as_str())),
            None => None,
        };
        let ghost mid: Seq<(LineKind, Seq<char>)> = match c.result_summary {
            Some(t) => seq![status_line(t@)],
            None => Seq::empty(),
        };
        match summary {
            Some(line) => {
                self.add_message(line);
            },
            None => {
                proof {
                    lemma_capped_push_all_small(s1.shown(), blank_line(), s1.max_messages);
                    assert(s1.pending() + Seq::empty() =~= s1.pending());
                }
            },
        }
        proof {
            lemma_lines_added_twice(s0, s1, *self, seq![call_line(c.display_name@)], mid);
        }
        let ghost s2 = *self;
        let error = match &self.active_tool_calls[i].status {
            ToolCallStatus::Error(e) => Some(owned(e.as_str())),
            _ => None,
        };
        match error {
            Some(e) => {
                self.add_error(e.as_str());
            },
            None => {
                proof {
                    lemma_capped_push_all_small(s2.shown(), blank_line(), s2.max_messages);
                    assert(s2.pending() + Seq::empty() =~= s2.pending());
                }
            },
        }
        proof {
            lemma_lines_added_twice(
                s0,
                s2,
                *self,
                seq![call_line(c.display_name@)] + mid,
                error_lines(c.status),
            );
        }
    }

    /// Closes the first call in flight with the given id: it leaves the
    /// calls in flight and its closing lines are added (see
    /// [`completed_call_lines`]); token counts of a thousand or more are
    /// written by `thousands`. With no such call nothing changes.
    pub fn complete_single_tool_call<F: Fn(usize) -> String>(
        &mut self,
        tool_call_id: &str,
        thousands: F,
    )
        requires
            forall|n: usize| n >= 1000 ==> thousands.requires((n,)),
        ensures
            (match call_index(old(self).active_tool_calls@, tool_call_id@) {
                Some(i) => {
                    let c = old(self).active_tool_calls@[i];
                    &&& final(self).active_tool_calls@ == old(self).active_tool_calls@.remove(i)
                    &&& exists|tokens: Seq<char>, secs: u64|
                        tokens_written(c, tokens, thousands) && final(self).lines_added(
                            old(self),
                            completed_call_lines(c, tokens, elapsed_text(secs as nat)),
                        )
                },
                None => final(self).active_tool_calls@ == old(self).active_tool_calls@
                    && final(self).same_lines(old(self)),
            }),
            final(self).same_agent(old(self)),
            final(self).same_dialogs(old(self)),
            final(self).same_frame(old(self)),
    {
        let index = self.call_position(tool_call_id);
        if let Some(index) = index {
            let tool_call = self.active_tool_calls.remove(index);
            let ghost c = tool_call;
            let ghost s0 = *self;
            self.add_message(prefixed("\n● ", tool_call.display_name.as_str()));
            let ghost s1 = *self;
            let ghost mut tokens: Seq<char> = Seq::empty();
            let ghost mut secs: u64 = 0;
            if tool_call.is_subagent_task {
                if let (Some(tool_uses), Some(tokens_used)) = (
                    tool_call.total_tool_uses,
                    tool_call.total_tokens,
                ) {
                    let tokens_formatted = if tokens_used >= 1000 {
                        let t = thousands(tokens_used);
                        assert(token_text(tokens_used, t@, thousands));
                        t
                    } else {
                        string_of(decimal_exec(tokens_used).as_slice())
                    };
                    proof {
                        tokens = tokens_formatted@;
                    }
                    assert(token_text(tokens_used, tokens, thousands));
                    let elapsed = elapsed_since(&tool_call.start_time);
                    let total_secs = whole_seconds(&elapsed);
                    proof {
                        secs = total_secs;
                    }
                    let timer = format_elapsed(total_secs);
                    let mut text = chars_of("  ⎿ ");
                    extend_str(&mut text, "Done (");
                    extend(&mut text, decimal_exec(tool_uses).as_slice());
                    extend_str(&mut text, " tool uses · ");
                    extend_str(&mut text, tokens_formatted.as_str());
                    extend_str(&mut text, " tokens · ");
                    extend_str(&mut text, timer.as_str());
                    extend_str(&mut text, ")");
                    assert(text@ =~= "  ⎿ "@ + done_text(tool_uses, tokens, elapsed_text(secs as nat)));
                    self.add_message(string_of(text.as_slice()));
                } else {
                    proof {
                        lemma_capped_push_all_small(s1.shown(), blank_line(), s1.max_messages);
                        assert(s1.pending() + Seq::empty() =~= s1.pending());
                    }
                }
            } else if let Some(summary) = &tool_call.result_summary {
                self.add_message(prefixed("  ⎿  ", summary.as_str()));
            } else {
                proof {
                    lemma_capped_push_all_small(s1.shown(), blank_line(), s1.max_messages);
                    assert(s1.pending() + Seq::empty() =~= s1.pending());
                }
            }
            let ghost mid: Seq<(LineKind, Seq<char>)> = if c.is_subagent_task {
                match (c.total_tool_uses, c.total_tokens) {
                    (Some(u), Some(_)) => seq![
                        plain_line("  ⎿ "@ + done_text(u, tokens, elapsed_text(secs as nat))),
                    ],
                    _ => Seq::empty(),
                }
            } else {
                match c.result_summary {
                    Some(s) => seq![status_line(s@)],
                    None => Seq::empty(),
                }
            };
            proof {
                assert(self.lines_added(&s1, mid));
                lemma_lines_added_twice(s0, s1, *self, seq![call_line(c.display_name@)], mid);
            }
            let ghost s2 = *self;
            if let ToolCallStatus::Error(err) = &tool_call.status {
                self.add_error(err.as_str());
            } else {
                proof {
                    lemma_capped_push_all_small(s2.shown(), blank_line(), s2.max_messages);
                    assert(s2.pending() + Seq::empty() =~= s2.pending());
                }
            }
            proof {
                lemma_lines_added_twice(
                    s0,
                    s2,
                    *self,
                    seq![call_line(c.display_name@)] + mid,
                    error_lines(c.status),
                );
                assert(completed_call_lines(c, tokens, elapsed_text(secs as nat)) == seq![
                    call_line(c.display_name@),
                ] + mid + error_lines(c.status));
                assert(tokens_written(c, tokens, thousands));
            }
        }
    }

    /// Keeps a pasted text as an attachment under the next number, which
    /// it returns. A text over [`MAX_ATTACHMENT_BYTES`] bytes, or of at
    /// most [`MIN_ATTACHMENT_CHARS`] characters, is refused and nothing
    /// changes.
    pub fn create_attachment(&mut self, content: String) -> (r: Result<usize, AttachmentError>)
        requires
            encode_utf8(content@).len() <= usize::MAX,
            encode_utf8(content@).len() <= MAX_ATTACHMENT_BYTES && content@.len()
                > MIN_ATTACHMENT_CHARS ==> old(self).next_attachment_id < usize::MAX,
        ensures
            encode_utf8(content@).len() > MAX_ATTACHMENT_BYTES ==> r == Err::<
                usize,
                AttachmentError,
            >(AttachmentError::TooLarge),
            encode_utf8(content@).len() <= MAX_ATTACHMENT_BYTES && content@.len()
                <= MIN_ATTACHMENT_CHARS ==> r == Err::<usize, AttachmentError>(
                AttachmentError::TooSmall,
            ),
            r is Err ==> final(self).attachments@ == old(self).attachments@
                && final(self).next_attachment_id == old(self).next_attachment_id,
            encode_utf8(content@).len() <= MAX_ATTACHMENT_BYTES && content@.len()
                > MIN_ATTACHMENT_CHARS ==> {
                &&& r == Ok::<usize, AttachmentError>(old(self).next_attachment_id)
                &&& final(self).next_attachment_id == old(self).next_attachment_id + 1
                &&& final(self).attachments@.drop_last() == old(self).attachments@
                &&& final(self).attachments@.len() == old(self).attachments@.len() + 1
                &&& final(self).attachments@.last().id == old(self).next_attachment_id
                &&& final(self).attachments@.last().content@ == content@
                &&& final(self).attachments@.last().size_chars == content@.len()
                &&& final(self).attachments@.last().line_count == line_total(content@)
            },
            final(self).only_attachments_differ(old(self)),
            old(self).attachments_numbered() ==> final(self).attachments_numbered(),
    {
        let size_bytes = content.as_str().len();
        if size_bytes > MAX_ATTACHMENT_BYTES {
            return Err(AttachmentError::TooLarge);
        }
        let chars = chars_of(content.as_str());
        if chars.len() <= MIN_ATTACHMENT_CHARS {
            return Err(AttachmentError::TooSmall);
        }
        let id = self.next_attachment_id;
        self.next_attachment_id += 1;
        let attachment = TextAttachment::new(id, content);
        self.attachments.push(attachment);
        assert(self.attachments@.drop_last() =~= old(self).attachments@);
        Ok(id)
    }

    /// The position of the first attachment with the given number.
    fn attachment_position(&self, id: usize) -> (r: Option<usize>)
        ensures
            r matches Some(i) ==> attachment_index(self.attachments@, id) == Some(i as int),
            r is None ==> attachment_index(self.attachments@, id) is None,
    {
        let ghost atts = self.attachments@;
        let mut i: usize = 0;
        while i < self.attachments.len()
            invariant
                i <= atts.len(),
                atts == self.attachments@,
                forall|j: int| 0 <= j < i ==> atts[j].id != id,
            decreases atts.len() - i,
        {
            if self.attachments[i].id == id {
                proof {
                    let c = choose|k: int|
                        0 <= k < atts.len() && atts[k].id == id && forall|j: int|
                            0 <= j < k ==> atts[j].id != id;
                    assert(atts[i as int].id == id);
                    if c < i {
                        assert(atts[c].id != id);
                    }
                    if c > i {
                        assert(atts[i as int].id != id);
                    }
                }
                return Some(i);
            }
            i += 1;
        }
        None
    }

    /// Drops the first attachment with the given number; with none, says so.
    pub fn delete_attachment(&mut self, id: usize) -> (r: Result<(), AttachmentError>)
        ensures
            (match attachment_index(old(self).attachments@, id) {
                Some(i) => r is Ok && final(self).attachments@ == old(self).attachments@.remove(i),
                None => r == Err::<(), AttachmentError>(AttachmentError::NotFound(id))
                    && final(self).attachments@ == old(self).attachments@,
            }),
            final(self).next_attachment_id == old(self).next_attachment_id,
            final(self).only_attachments_differ(old(self)),
            old(self).attachments_numbered() ==> final(self).attachments_numbered(),
    {
        match self.attachment_position(id) {
            Some(index) => {
                self.attachments.remove(index);
                Ok(())
            },
            None => Err(AttachmentError::NotFound(id)),
        }
    }

    /// Drops every attachment; numbering starts again at 1.
    pub fn clear_attachments(&mut self)
        ensures
            final(self).attachments@.len() == 0,
            final(self).next_attachment_id == 1,
            final(self).only_attachments_differ(old(self)),
            old(self).attachments_numbered() ==> final(self).attachments_numbered(),
    {
        self.attachments.clear();
        self.next_attachment_id = 1;
    }

    /// The first attachment with the given number.
    pub fn get_attachment(&self, id: usize) -> (r: Option<&TextAttachment>)
        ensures
            (match attachment_index(self.attachments@, id) {
                Some(i) => r == Some(&self.attachments@[i]),
                None => r is None,
            }),
    {
        match self.attachment_position(id) {
            Some(i) => Some(&self.attachments[i]),
            None => None,
        }
    }

    /// The first attachment with the given number, to change in place.
    pub fn get_attachment_mut(&mut self, id: usize) -> (r: Option<&mut TextAttachment>)
        ensures
            (match attachment_index(old(self).attachments@, id) {
                Some(i) => r matches Some(a) && *a == old(self).attachments@[i]
                    && final(self).attachments@ == old(self).attachments@.update(i, *final(a)),
                None => r is None && final(self).attachments@ == old(self).attachments@,
            }),
            final(self).next_attachment_id == old(self).next_attachment_id,
            final(self).only_attachments_differ(old(self)),
    {
        match self.attachment_position(id) {
            Some(i) => Some(&mut self.attachments[i]),
            None => None,
        }
    }

    /// The prompt with each attachment's placeholder replaced by its text
    /// (see [`expanded`]).
    pub fn expand_attachments(&self, input: &str) -> (r: String)
        ensures
            r@ == expanded(input@, self.attachments@),
    {
        let mut out = chars_of(input);
        let mut i: usize = 0;
        while i < self.attachments.len()
            invariant
                i <= self.attachments@.len(),
                out@ == expanded(input@, self.attachments@.take(i as int)),
            decreases self.attachments@.len() - i,
        {
            let mut token = chars_of("[pasted text-");
            extend(&mut token, decimal_exec(self.attachments[i].id).as_slice());
            extend_str(&mut token, "]");
            let text = chars_of(self.attachments[i].content.as_str());
            out = replacement(out.as_slice(), token.as_slice(), text.as_slice(), true);
            proof {
                let t = self.attachments@.take(i + 1);
                assert(t.drop_last() =~= self.attachments@.take(i as int));
                assert(t.last() == self.attachments@[i as int]);
            }
            i += 1;
        }
        assert(self.attachments@.take(self.attachments@.len() as int) =~= self.attachments@);
        string_of(out.as_slice())
    }

    /// Forgets the calls in flight.
    pub fn clear_active_tool_calls(&mut self)
        ensures
            final(self).active_tool_calls@.len() == 0,
            final(self).same_lines(old(self)),
            final(self).same_agent(old(self)),
            final(self).same_dialogs(old(self)),
            final(self).same_frame(old(self)),
    {
        self.active_tool_calls.clear();
    }

    /// Adds the line that says that retrying gave up, in the error style.
    pub fn add_retry_failure(&mut self, message: &str)
        ensures
            final(self).lines_added(old(self), seq![error_line(message@)]),
            final(self).only_lines_differ(old(self)),
    {
        let text = prefixed("  ⎿  ", message);
        self.add_styled_line(StyledLine { text, tone: Tone::Destructive });
    }
}

impl Default for AppState {
    /// A state as [`AppState::new`] makes it.
    fn default() -> (r: Self)
        ensures
            r.is_fresh(),
    {
        Self::new()
    }
}

// ---------------------------------------------------------------------------
// Laws
// ---------------------------------------------------------------------------
/// After scrolling, the selected row lies inside the visible window.
pub proof fn law_scrolled_selection_visible(selected: usize, offset: usize, visible: usize)
    requires
        visible >= 1,
        scroll_fits(selected, offset, visible),
    ensures
        scrolled_offset(selected, offset, visible) <= selected < scrolled_offset(
            selected,
            offset,
            visible,
        ) + visible,
{
}

/// The conversation never grows past its limit: from a history within the
/// limit, adding lines one by one keeps it within, and when the limit
/// allows a line at all, the last line added is the last line shown.
pub proof fn law_history_stays_bounded(
    s: Seq<(LineKind, Seq<char>)>,
    ms: Seq<(LineKind, Seq<char>)>,
    max: usize,
)
    requires
        s.len() <= max,
    ensures
        capped_push_all(s, ms, max).len() <= max,
        max >= 1 && ms.len() > 0 ==> capped_push_all(s, ms, max).last() == ms.last(),
    decreases ms.len(),
{
    if ms.len() > 0 {
        law_history_stays_bounded(s, ms.drop_last(), max);
    }
}

/// Moving the highlight of the approval dialog twice comes back to the
/// same choice.
pub proof fn law_approval_choice_flips_back(i: usize)
    ensures
        ((((i + 1) % 2) as usize + 1) % 2) == i % 2,
{
}

/// Moving the highlight forward on a pop-up with candidates selects the
/// next one, wrapping from the last to the first, and scrolls so that it is
/// among the rows shown. The move is always allowed (`next_fits`). A list
/// within ten of the largest machine number of entries, which no memory
/// holds, is left out.
pub proof fn law_select_next_stays_visible(s: CompletionState)
    requires
        s.candidates@.len() > 0,
        s.selected_index < s.candidates@.len(),
        s.scroll_offset < s.candidates@.len(),
        s.candidates@.len() <= usize::MAX - VISIBLE_COMPLETIONS,
    ensures
        next_fits(s),
        0 <= next_index(s.selected_index, s.candidates@.len()) < s.candidates@.len(),
        scrolled_offset(
            next_index(s.selected_index, s.candidates@.len()) as usize,
            s.scroll_offset,
            VISIBLE_COMPLETIONS,
        ) <= next_index(s.selected_index, s.candidates@.len()) < scrolled_offset(
            next_index(s.selected_index, s.candidates@.len()) as usize,
            s.scroll_offset,
            VISIBLE_COMPLETIONS,
        ) + VISIBLE_COMPLETIONS,
{
    let n = s.candidates@.len();
    law_next_then_prev(s.selected_index, n);
    let t = next_index(s.selected_index, n) as usize;
    law_scrolled_selection_visible(t, s.scroll_offset, VISIBLE_COMPLETIONS);
}

/// Moving the highlight back on a pop-up with candidates selects the
/// previous one, wrapping from the first to the last, and scrolls so that
/// it is among the rows shown. The move is always allowed (`prev_fits`). A
/// list within ten of the largest machine number of entries, which no
/// memory holds, is left out.
pub proof fn law_select_prev_stays_visible(s: CompletionState)
    requires
        s.candidates@.len() > 0,
        s.selected_index < s.candidates@.len(),
        s.scroll_offset < s.candidates@.len(),
        s.candidates@.len() <= usize::MAX - VISIBLE_COMPLETIONS,
    ensures
        prev_fits(s),
        0 <= prev_index(s.selected_index, s.candidates@.len()) < s.candidates@.len(),
        scrolled_offset(
            prev_index(s.selected_index, s.candidates@.len()) as usize,
            s.scroll_offset,
            VISIBLE_COMPLETIONS,
        ) <= prev_index(s.selected_index, s.candidates@.len()) < scrolled_offset(
            prev_index(s.selected_index, s.candidates@.len()) as usize,
            s.scroll_offset,
            VISIBLE_COMPLETIONS,
        ) + VISIBLE_COMPLETIONS,
{
    let n = s.candidates@.len();
    law_prev_then_next(s.selected_index, n);
    let t = prev_index(s.selected_index, n) as usize;
    law_scrolled_selection_visible(t, s.scroll_offset, VISIBLE_COMPLETIONS);
}

/// `select_prev` undoes `select_next`: from a pop-up state `s`, the state
/// `t` that moving forward leaves (the next candidate, scrolled into view)
/// may move back, and moving back highlights `s`'s candidate again, also
/// across the wrap at either end. A list within ten of the largest machine
/// number of entries, which no memory holds, is left out.
pub proof fn law_select_prev_undoes_next(s: CompletionState, t: CompletionState)
    requires
        s.candidates@.len() > 0,
        s.selected_index < s.candidates@.len(),
        s.scroll_offset < s.candidates@.len(),
        s.candidates@.len() <= usize::MAX - VISIBLE_COMPLETIONS,
        t.candidates@ == s.candidates@,
        t.selected_index == next_index(s.selected_index, s.candidates@.len()),
        t.scroll_offset == scrolled_offset(t.selected_index, s.scroll_offset, VISIBLE_COMPLETIONS),
    ensures
        prev_fits(t),
        prev_index(t.selected_index, t.candidates@.len()) == s.selected_index,
{
    law_select_next_stays_visible(s);
    law_next_then_prev(s.selected_index, s.candidates@.len());
}

/// Moving the selection forward and then back returns to the same entry.
pub proof fn law_next_then_prev(i: usize, n: nat)
    requires
        i < n,
        n <= usize::MAX,
    ensures
        0 <= next_index(i, n) < n,
        prev_index(next_index(i, n) as usize, n) == i,
{
    if i + 1 < n {
        assert((i + 1) % (n as int) == i + 1) by (nonlinear_arith)
            requires
                0 <= i + 1 < n,
        ;
    } else {
        assert((i + 1) % (n as int) == 0) by (nonlinear_arith)
            requires
                i + 1 == n,
                n > 0,
        ;
    }
}

/// Moving the selection back and then forward returns to the same entry.
pub proof fn law_prev_then_next(i: usize, n: nat)
    requires
        i < n,
        n <= usize::MAX,
    ensures
        0 <= prev_index(i, n) < n,
        next_index(prev_index(i, n) as usize, n) == i,
{
    let p = prev_index(i, n);
    if i == 0 {
        assert((p + 1) % (n as int) == 0) by (nonlinear_arith)
            requires
                p + 1 == n,
                n > 0,
        ;
    } else {
        assert((p + 1) % (n as int) == i) by (nonlinear_arith)
            requires
                p + 1 == i,
                0 < i < n,
        ;
    }
}

} // verus!
