//! The vertical layout of the interface: which areas are shown, in what
//! order, and how many rows each takes.
use crate::text::{chars_of, lines, lines_exec, views};
use crate::tui::app_state::{ActiveToolCall, AppState, ToolPermissionDialogState};
use vstd::prelude::*;

verus! {

/// An area of the interface.
#[derive(Clone, Copy, Debug, PartialEq, Eq, Structural)]
pub enum LayoutSlot {
    Spacer,
    ActiveToolCalls,
    SubagentResults,
    BashResults,
    StatusBar,
    TodoList,
    InputField,
    ModeIndicator,
    PermissionDialog,
    ApprovalDialog,
    CompletionPopup,
}

/// One area with its height in rows and whether it is shown.
#[derive(Clone, Copy, Debug, PartialEq, Eq, Structural)]
pub struct LayoutEntry {
    pub slot: LayoutSlot,
    pub height: u16,
    pub visible: bool,
}

/// How many entries of a list are shown at most before an ellipsis row.
pub const MAX_SHOWN_ROWS: usize = 5;

/// How many preview lines the permission dialog shows at most.
pub const MAX_PREVIEW_LINES: u16 = 15;

/// Rows for a list of `n` entries of which at most `max` are shown, plus
/// one for an ellipsis when some are left out.
pub open spec fn capped_rows(n: nat, max: nat) -> int {
    if n > max {
        max + 1int
    } else {
        n as int
    }
}

/// Rows of a call in flight: its line, and its result line if it has one.
pub open spec fn call_rows(c: ActiveToolCall) -> int {
    if c.result_summary is Some {
        2
    } else {
        1
    }
}

/// Rows of the steps of a sub-agent (none for other calls).
pub open spec fn step_rows(c: ActiveToolCall) -> int {
    if !c.is_subagent_task || c.subagent_steps@.len() == 0 {
        0
    } else {
        capped_rows(c.subagent_steps@.len(), MAX_SHOWN_ROWS as nat)
    }
}

/// Rows of the output of a running shell command (none for other calls).
pub open spec fn output_rows(c: ActiveToolCall) -> int {
    if !c.is_bash_streaming || c.bash_output_lines@.len() == 0 {
        0
    } else {
        capped_rows(c.bash_output_lines@.len(), MAX_SHOWN_ROWS as nat)
    }
}

/// The sum of `f` over the calls.
pub open spec fn total_rows(cs: Seq<ActiveToolCall>, f: spec_fn(ActiveToolCall) -> int) -> int
    decreases cs.len(),
{
    if cs.len() == 0 {
        0
    } else {
        total_rows(cs.drop_last(), f) + f(cs.last())
    }
}

/// Rows of the permission dialog: prompt, spacer, the options (their count
/// taken as a 16-bit number), spacer, help and two borders; with a command
/// preview, a spacer, its lines (at most [`MAX_PREVIEW_LINES`], their count
/// taken as a 16-bit number) and a row saying that more lines follow.
pub open spec fn dialog_rows(d: ToolPermissionDialogState) -> int {
    let base = 6 + (d.options@.len() as u16);
    match d.descriptor.command_preview {
        Some(p) => {
            let n = lines(p@).len() as u16;
            base + 1 + (if n > MAX_PREVIEW_LINES {
                MAX_PREVIEW_LINES + 1
            } else {
                n as int
            })
        },
        None => base,
    }
}

/// The layout stays within 16-bit row counts.
pub open spec fn layout_fits(app: AppState) -> bool {
    &&& total_rows(app.active_tool_calls@, |c: ActiveToolCall| call_rows(c)) <= u16::MAX
    &&& total_rows(app.active_tool_calls@, |c: ActiveToolCall| step_rows(c)) <= u16::MAX
    &&& total_rows(app.active_tool_calls@, |c: ActiveToolCall| output_rows(c)) <= u16::MAX
    &&& app.tool_permission_dialog_state matches Some(d) ==> dialog_rows(d) <= u16::MAX
}

/// Whether some call satisfies `p`.
pub open spec fn any_call(cs: Seq<ActiveToolCall>, p: spec_fn(ActiveToolCall) -> bool) -> bool {
    exists|k: int| 0 <= k < cs.len() && p(#[trigger] cs[k])
}

/// The layout of the interface for a state, top to bottom: a spacer; the
/// calls in flight, sub-agent steps and shell output, each shown when some
/// call has them; a spacer shown after any of them; the status bar; the task
/// list (at most ten rows); the input field; the mode line, hidden while a
/// dialog or pop-up is open; then the open dialog: the permission dialog, or
/// else the approval dialog (six rows), or else the completion pop-up (at
/// most ten rows).
pub open spec fn layout_of(app: AppState) -> Seq<LayoutEntry> {
    let cs = app.active_tool_calls@;
    let calls_shown = cs.len() > 0;
    let steps_shown = any_call(cs, |c: ActiveToolCall| c.is_subagent_task);
    let output_shown = any_call(cs, |c: ActiveToolCall| c.is_bash_streaming);
    let overlay = app.tool_permission_dialog_state is Some || app.approval_dialog_state is Some
        || app.completion_state is Some;
    let todos = app.todos@.len();
    let base = seq![
        LayoutEntry { slot: LayoutSlot::Spacer, height: 1, visible: true },
        LayoutEntry {
            slot: LayoutSlot::ActiveToolCalls,
            height: total_rows(cs, |c: ActiveToolCall| call_rows(c)) as u16,
            visible: calls_shown,
        },
        LayoutEntry {
            slot: LayoutSlot::SubagentResults,
            height: total_rows(cs, |c: ActiveToolCall| step_rows(c)) as u16,
            visible: steps_shown,
        },
        LayoutEntry {
            slot: LayoutSlot::BashResults,
            height: total_rows(cs, |c: ActiveToolCall| output_rows(c)) as u16,
            visible: output_shown,
        },
        LayoutEntry {
            slot: LayoutSlot::Spacer,
            height: 1,
            visible: calls_shown || steps_shown || output_shown,
        },
        LayoutEntry { slot: LayoutSlot::StatusBar, height: 1, visible: true },
        LayoutEntry {
            slot: LayoutSlot::TodoList,
            height: (if todos < 10 {
                todos
            } else {
                10
            }) as u16,
            visible: todos > 0,
        },
        LayoutEntry { slot: LayoutSlot::InputField, height: 1, visible: true },
        LayoutEntry { slot: LayoutSlot::ModeIndicator, height: 1, visible: !overlay },
    ];
    match app.tool_permission_dialog_state {
        Some(d) => base.push(
            LayoutEntry {
                slot: LayoutSlot::PermissionDialog,
                height: dialog_rows(d) as u16,
                visible: true,
            },
        ),
        None => if app.approval_dialog_state is Some {
            base.push(LayoutEntry { slot: LayoutSlot::ApprovalDialog, height: 6, visible: true })
        } else {
            match app.completion_state {
                Some(c) => base.push(
                    LayoutEntry {
                        slot: LayoutSlot::CompletionPopup,
                        height: (if c.candidates@.len() < 10 {
                            c.candidates@.len()
                        } else {
                            10
                        }) as u16,
                        visible: true,
                    },
                ),
                None => base,
            }
        },
    }
}

/// The areas of the interface, top to bottom.
pub struct Layout {
    pub entries: Vec<LayoutEntry>,
}

/// Rows of a list of `n` entries shown up to [`MAX_SHOWN_ROWS`].
fn capped_rows_exec(n: usize) -> (r: u16)
    ensures
        r == capped_rows(n as nat, MAX_SHOWN_ROWS as nat),
{
    if n > MAX_SHOWN_ROWS {
        6
    } else {
        n as u16
    }
}

impl Layout {
    /// The layout of the interface for `app` (see [`layout_of`]).
    pub fn create(app: &AppState) -> (r: Layout)
        requires
            layout_fits(*app),
        ensures
            r.entries@ == layout_of(*app),
    {
        let cs = &app.active_tool_calls;
        let ghost calls = cs@;
        let mut call_total: u16 = 0;
        let mut step_total: u16 = 0;
        let mut output_total: u16 = 0;
        let mut steps_shown = false;
        let mut output_shown = false;
        let mut i: usize = 0;
        while i < cs.len()
            invariant
                i <= calls.len(),
                calls == cs@,
                layout_fits(*app),
                cs@ == app.active_tool_calls@,
                call_total == total_rows(calls.take(i as int), |c: ActiveToolCall| call_rows(c)),
                step_total == total_rows(calls.take(i as int), |c: ActiveToolCall| step_rows(c)),
                output_total == total_rows(
                    calls.take(i as int),
                    |c: ActiveToolCall| output_rows(c),
                ),
                steps_shown == any_call(calls.take(i as int), |c: ActiveToolCall| c.is_subagent_task),
                output_shown == any_call(
                    calls.take(i as int),
                    |c: ActiveToolCall| c.is_bash_streaming,
                ),
            decreases calls.len() - i,
        {
            let c = &cs[i];
            let ghost t = calls.take(i + 1);
            assert(t.drop_last() =~= calls.take(i as int));
            assert(t.last() == calls[i as int]);
            proof {
                lemma_total_rows_prefix(calls, i as int + 1, |c: ActiveToolCall| call_rows(c));
                lemma_total_rows_prefix(calls, i as int + 1, |c: ActiveToolCall| step_rows(c));
                lemma_total_rows_prefix(calls, i as int + 1, |c: ActiveToolCall| output_rows(c));
                lemma_total_rows_monotone(calls, i as int + 1, |c: ActiveToolCall| call_rows(c));
                lemma_total_rows_monotone(calls, i as int + 1, |c: ActiveToolCall| step_rows(c));
                lemma_total_rows_monotone(calls, i as int + 1, |c: ActiveToolCall| output_rows(c));
            }
            let rows: u16 = if c.result_summary.is_some() {
                2
            } else {
                1
            };
            call_total = call_total + rows;
            if c.is_subagent_task && c.subagent_steps.len() > 0 {
                step_total = step_total + capped_rows_exec(c.subagent_steps.len());
            }
            if c.is_bash_streaming && c.bash_output_lines.len() > 0 {
                output_total = output_total + capped_rows_exec(c.bash_output_lines.len());
            }
            proof {
                assert forall|k: int| 0 <= k < t.len() implies t[k] == calls[k] by {}
                if c.is_subagent_task {
                    assert(t[i as int] == calls[i as int]);
                }
                if steps_shown {
                    let k = choose|k: int|
                        0 <= k < calls.take(i as int).len() && (#[trigger] calls.take(
                            i as int,
                        )[k]).is_subagent_task;
                    assert(t[k] == calls.take(i as int)[k]);
                }
                if output_shown {
                    let k = choose|k: int|
                        0 <= k < calls.take(i as int).len() && (#[trigger] calls.take(
                            i as int,
                        )[k]).is_bash_streaming;
                    assert(t[k] == calls.take(i as int)[k]);
                }
                if c.is_bash_streaming {
                    assert(t[i as int] == calls[i as int]);
                }
            }
            steps_shown = steps_shown || c.is_subagent_task;
            output_shown = output_shown || c.is_bash_streaming;
            proof {
                if !steps_shown {
                    assert forall|k: int| 0 <= k < t.len() implies !(#[trigger] t[k]).is_subagent_task by {
                        if k < i {
                            assert(t[k] == calls.take(i as int)[k]);
                        }
                    }
                }
                if !output_shown {
                    assert forall|k: int| 0 <= k < t.len() implies !(#[trigger] t[k]).is_bash_streaming by {
                        if k < i {
                            assert(t[k] == calls.take(i as int)[k]);
                        }
                    }
                }
            }
            i += 1;
        }
        assert(calls.take(calls.len() as int) =~= calls);
        let calls_shown = cs.len() > 0;
        let overlay = app.is_showing_tool_permission_dialog() || app.is_showing_approval_dialog()
            || app.is_completing();
        let todo_rows: u16 = if app.todos.len() < 10 {
            app.todos.len() as u16
        } else {
            10
        };
        let mut entries: Vec<LayoutEntry> = vec![
            LayoutEntry { slot: LayoutSlot::Spacer, height: 1, visible: true },
            LayoutEntry { slot: LayoutSlot::ActiveToolCalls, height: call_total, visible: calls_shown },
            LayoutEntry { slot: LayoutSlot::SubagentResults, height: step_total, visible: steps_shown },
            LayoutEntry { slot: LayoutSlot::BashResults, height: output_total, visible: output_shown },
            LayoutEntry {
                slot: LayoutSlot::Spacer,
                height: 1,
                visible: calls_shown || steps_shown || output_shown,
            },
            LayoutEntry { slot: LayoutSlot::StatusBar, height: 1, visible: true },
            LayoutEntry { slot: LayoutSlot::TodoList, height: todo_rows, visible: app.todos.len() > 0 },
            LayoutEntry { slot: LayoutSlot::InputField, height: 1, visible: true },
            LayoutEntry { slot: LayoutSlot::ModeIndicator, height: 1, visible: !overlay },
        ];
        if let Some(d) = &app.tool_permission_dialog_state {
            let rows = permission_dialog_rows(d);
            entries.push(LayoutEntry { slot: LayoutSlot::PermissionDialog, height: rows, visible: true });
        } else if app.is_showing_approval_dialog() {
            entries.push(LayoutEntry { slot: LayoutSlot::ApprovalDialog, height: 6, visible: true });
        } else if let Some(c) = &app.completion_state {
            let n = c.candidates.len();
            let rows: u16 = if n < 10 {
                n as u16
            } else {
                10
            };
            entries.push(LayoutEntry { slot: LayoutSlot::CompletionPopup, height: rows, visible: true });
        }
        Layout { entries }
    }
}

/// Rows of the permission dialog (see [`dialog_rows`]).
fn permission_dialog_rows(d: &ToolPermissionDialogState) -> (r: u16)
    requires
        dialog_rows(*d) <= u16::MAX,
    ensures
        r == dialog_rows(*d),
{
    #[verifier::truncate]
    let options = d.options.len() as u16;
    let mut base: u16 = 6 + options;
    match &d.descriptor.command_preview {
        Some(preview) => {
            let text = chars_of(preview.as_str());
            let split = lines_exec(text.as_slice());
            assert(split@.len() == lines(preview@).len()) by {
                assert(views(split@).len() == split@.len());
            }
            #[verifier::truncate]
            let preview_lines = split.len() as u16;
            let displayed = if preview_lines < MAX_PREVIEW_LINES {
                preview_lines
            } else {
                MAX_PREVIEW_LINES
            };
            base = base + 1 + displayed;
            if preview_lines > MAX_PREVIEW_LINES {
                base = base + 1;
            }
        },
        None => {},
    }
    base
}

/// The sum over a prefix grows by the next call.
proof fn lemma_total_rows_prefix(cs: Seq<ActiveToolCall>, n: int, f: spec_fn(ActiveToolCall) -> int)
    requires
        0 < n <= cs.len(),
    ensures
        total_rows(cs.take(n), f) == total_rows(cs.take(n - 1), f) + f(cs[n - 1]),
{
    assert(cs.take(n).drop_last() =~= cs.take(n - 1));
}

/// With rows never negative, a prefix never sums to more than the whole.
proof fn lemma_total_rows_monotone(cs: Seq<ActiveToolCall>, n: int, f: spec_fn(ActiveToolCall) -> int)
    requires
        0 <= n <= cs.len(),
        forall|c: ActiveToolCall| #[trigger] f(c) >= 0,
    ensures
        0 <= total_rows(cs.take(n), f) <= total_rows(cs, f),
    decreases cs.len(),
{
    if n == cs.len() {
        assert(cs.take(n) =~= cs);
        lemma_total_rows_nonneg(cs, f);
    } else {
        lemma_total_rows_monotone(cs.drop_last(), n, f);
        assert(cs.drop_last().take(n) =~= cs.take(n));
    }
}

proof fn lemma_total_rows_nonneg(cs: Seq<ActiveToolCall>, f: spec_fn(ActiveToolCall) -> int)
    requires
        forall|c: ActiveToolCall| #[trigger] f(c) >= 0,
    ensures
        total_rows(cs, f) >= 0,
    decreases cs.len(),
{
    if cs.len() > 0 {
        lemma_total_rows_nonneg(cs.drop_last(), f);
    }
}

} // verus!
