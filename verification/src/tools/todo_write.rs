//! The task list the agent keeps for a session: its items, and the texts
//! the tool answers with.
use crate::text::{chars_of, decimal, decimal_exec, extend, extend_str, owned, string_of};
use vstd::prelude::*;

verus! {

/// Status of a todo item
#[derive(Debug, Clone, Copy, PartialEq, Eq, Structural)]
pub enum TodoStatus {
    Pending,
    InProgress,
    Completed,
}

/// The name of a status as it is written out.
pub open spec fn status_label(s: TodoStatus) -> Seq<char> {
    match s {
        TodoStatus::Pending => "pending"@,
        TodoStatus::InProgress => "in_progress"@,
        TodoStatus::Completed => "completed"@,
    }
}

impl TodoStatus {
    /// The name of the status as it is written out (`pending`,
    /// `in_progress`, `completed`).
    pub fn as_str(&self) -> (r: &'static str)
        ensures
            r@ == status_label(*self),
    {
        match self {
            TodoStatus::Pending => "pending",
            TodoStatus::InProgress => "in_progress",
            TodoStatus::Completed => "completed",
        }
    }
}

/// A single todo item
#[derive(Debug, Clone)]
pub struct TodoItem {
    /// The content/description of the todo (imperative form, e.g., "Run tests")
    pub content: String,
    /// Current status of the todo
    pub status: TodoStatus,
    /// The active form shown during execution (e.g., "Running tests")
    pub active_form: String,
}

impl TodoItem {
    pub fn new(content: String, status: TodoStatus, active_form: String) -> (r: Self)
        ensures
            r.content@ == content@,
            r.status == status,
            r.active_form@ == active_form@,
    {
        Self { content, status, active_form }
    }
}

/// How many items of `todos` have status `st`.
pub open spec fn count_status(todos: Seq<TodoItem>, st: TodoStatus) -> nat
    decreases todos.len(),
{
    if todos.len() == 0 {
        0
    } else if todos.last().status == st {
        count_status(todos.drop_last(), st) + 1
    } else {
        count_status(todos.drop_last(), st)
    }
}

/// The index of the first item of `todos` in progress, if any.
pub open spec fn first_in_progress(todos: Seq<TodoItem>) -> Option<int> {
    if exists|i: int|
        0 <= i < todos.len() && todos[i].status == TodoStatus::InProgress && forall|j: int|
            0 <= j < i ==> todos[j].status != TodoStatus::InProgress {
        Some(
            choose|i: int|
                0 <= i < todos.len() && todos[i].status == TodoStatus::InProgress && forall|j: int|
                    0 <= j < i ==> todos[j].status != TodoStatus::InProgress,
        )
    } else {
        None
    }
}

/// What the tool answers after the list was replaced: the counts by status,
/// a note when more than one item is in progress, and a nudge to keep using
/// the list.
pub open spec fn todo_response(todos: Seq<TodoItem>) -> Seq<char> {
    let in_progress = count_status(todos, TodoStatus::InProgress);
    "Todos have been modified successfully. "@ + decimal(todos.len()) + " total ("@ + decimal(
        count_status(todos, TodoStatus::Completed),
    ) + " completed, "@ + decimal(count_status(todos, TodoStatus::Pending)) + " pending, "@
        + decimal(in_progress) + " in progress)."@ + (if in_progress > 1 {
        "\nNote: Multiple tasks are marked as in_progress. Consider having only one task in progress at a time."@
    } else {
        Seq::empty()
    })
        + " Ensure that you continue to use the todo list to track your progress. Please proceed with the current tasks if applicable"@
}

/// How a call replacing the list with `todos` is shown: the item count and
/// the first item in progress, if any; `TodoWrite(...)` when the arguments
/// hold no list.
pub open spec fn todo_call_display(todos: Option<Seq<TodoItem>>) -> Seq<char> {
    match todos {
        Some(t) => match first_in_progress(t) {
            Some(i) => "TodoWrite("@ + decimal(t.len()) + " items, current: "@ + t[i].active_form@
                + ")"@,
            None => "TodoWrite("@ + decimal(t.len()) + " items)"@,
        },
        None => "TodoWrite(...)"@,
    }
}

/// How many items of `todos` have status `st`.
pub fn count_with_status(todos: &Vec<TodoItem>, st: TodoStatus) -> (r: usize)
    ensures
        r == count_status(todos@, st),
{
    let mut n: usize = 0;
    let mut i: usize = 0;
    while i < todos.len()
        invariant
            i <= todos@.len(),
            n == count_status(todos@.take(i as int), st),
            n <= i,
        decreases todos@.len() - i,
    {
        assert(todos@.take(i + 1).drop_last() =~= todos@.take(i as int));
        if todos[i].status == st {
            n += 1;
        }
        i += 1;
    }
    assert(todos@.take(todos@.len() as int) =~= todos@);
    n
}

/// What the tool answers after the list was replaced (see [`todo_response`]).
pub fn todo_write_response(todos: &Vec<TodoItem>) -> (r: String)
    ensures
        r@ == todo_response(todos@),
{
    let in_progress = count_with_status(todos, TodoStatus::InProgress);
    let completed = count_with_status(todos, TodoStatus::Completed);
    let pending = count_with_status(todos, TodoStatus::Pending);
    let mut r = chars_of("Todos have been modified successfully. ");
    extend(&mut r, decimal_exec(todos.len()).as_slice());
    extend_str(&mut r, " total (");
    extend(&mut r, decimal_exec(completed).as_slice());
    extend_str(&mut r, " completed, ");
    extend(&mut r, decimal_exec(pending).as_slice());
    extend_str(&mut r, " pending, ");
    extend(&mut r, decimal_exec(in_progress).as_slice());
    extend_str(&mut r, " in progress).");
    if in_progress > 1 {
        extend_str(
            &mut r,
            "\nNote: Multiple tasks are marked as in_progress. Consider having only one task in progress at a time.",
        );
    } else {
        assert(r@ + Seq::<char>::empty() =~= r@);
    }
    extend_str(
        &mut r,
        " Ensure that you continue to use the todo list to track your progress. Please proceed with the current tasks if applicable",
    );
    string_of(r.as_slice())
}

/// How a call replacing the list is shown (see [`todo_call_display`]).
pub fn todo_write_call_display(todos: Option<&Vec<TodoItem>>) -> (r: String)
    ensures
        r@ == todo_call_display(
            match todos {
                Some(t) => Some(t@),
                None => None,
            },
        ),
{
    match todos {
        None => owned("TodoWrite(...)"),
        Some(t) => {
            let mut i: usize = 0;
            while i < t.len()
                invariant_except_break
                    i <= t@.len(),
                    forall|j: int| 0 <= j < i ==> t@[j].status != TodoStatus::InProgress,
                ensures
                    i <= t@.len(),
                    forall|j: int| 0 <= j < i ==> t@[j].status != TodoStatus::InProgress,
                    i < t@.len() ==> t@[i as int].status == TodoStatus::InProgress,
                decreases t@.len() - i,
            {
                if t[i].status == TodoStatus::InProgress {
                    break;
                }
                i += 1;
            }
            let mut r = chars_of("TodoWrite(");
            extend(&mut r, decimal_exec(t.len()).as_slice());
            if i < t.len() {
                proof {
                    let c = choose|k: int|
                        0 <= k < t@.len() && t@[k].status == TodoStatus::InProgress && forall|
                            j: int,
                        |
                            0 <= j < k ==> t@[j].status != TodoStatus::InProgress;
                    assert(0 <= i < t@.len() && t@[i as int].status == TodoStatus::InProgress);
                    if c < i {
                        assert(t@[c].status != TodoStatus::InProgress);
                    }
                    if c > i {
                        assert(t@[i as int].status != TodoStatus::InProgress);
                    }
                }
                extend_str(&mut r, " items, current: ");
                extend_str(&mut r, t[i].active_form.as_str());
                extend_str(&mut r, ")");
            } else {
                extend_str(&mut r, " items)");
            }
            string_of(r.as_slice())
        },
    }
}

/// The counts by status add up to the length of the list, so the answer's
/// "completed, pending, in progress" split accounts for every item.
pub proof fn law_status_counts_add_up(todos: Seq<TodoItem>)
    ensures
        count_status(todos, TodoStatus::Completed) + count_status(todos, TodoStatus::Pending)
            + count_status(todos, TodoStatus::InProgress) == todos.len(),
    decreases todos.len(),
{
    if todos.len() > 0 {
        law_status_counts_add_up(todos.drop_last());
    }
}

} // verus!
