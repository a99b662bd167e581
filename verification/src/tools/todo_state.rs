//! The reminder about the task list that is handed to the model.
use crate::text::{chars_of, decimal, decimal_exec, extend, extend_str, join, join_chars, owned, string_of, views};
use crate::tools::todo_write::{count_status, status_label, TodoItem, TodoStatus};
use vstd::prelude::*;

verus! {

/// Whether every item of a non-empty list is completed.
pub open spec fn all_done(todos: Seq<TodoItem>) -> bool {
    todos.len() > 0 && forall|i: int| 0 <= i < todos.len() ==> #[trigger] todos[i].status
        == TodoStatus::Completed
}

/// The reminder for an empty list.
pub open spec fn empty_list_reminder() -> Seq<char> {
    "<system-reminder>\nThis is a reminder that your todo list is currently empty. DO NOT mention this to the user explicitly because they are already aware. If you are working on tasks that would benefit from a todo list please use the todo_write tool to create one. If not, please feel free to ignore. Again do not mention this message to the user.\n</system-reminder>"@
}

/// The note for a list whose items are all completed.
pub open spec fn all_done_note() -> Seq<char> {
    "All tasks in your todo list have been completed! You can now clear the todo list by calling todo_write with an empty array, or leave it as-is if you want to keep the record. DO NOT mention this reminder to the user."@
}

/// The note for a list with open items.
pub open spec fn open_items_note() -> Seq<char> {
    "The todo_write tool hasn't been used recently. If you're working on tasks that would benefit from tracking progress, consider using the todo_write tool to track progress. Also consider cleaning up the todo list if has become stale and no longer matches what you are working on. Only use it if it's relevant to the current work. This is just a gentle reminder - ignore if not applicable. Make sure that you NEVER mention this reminder to the user"@
}

/// The line for the item at index `i`: its number, status and content.
pub open spec fn item_line(todos: Seq<TodoItem>, i: int) -> Seq<char> {
    decimal((i + 1) as nat) + ". ["@ + status_label(todos[i].status) + "] "@ + todos[i].content@
}

/// The reminder's lines for a non-empty list.
pub open spec fn reminder_lines(todos: Seq<TodoItem>) -> Seq<Seq<char>> {
    seq![
        "<system-reminder>"@,
        if all_done(todos) {
            all_done_note()
        } else {
            open_items_note()
        },
        Seq::empty(),
        Seq::empty(),
        "Here are the existing contents of your todo list:"@,
        Seq::empty(),
        "["@,
    ] + Seq::new(todos.len(), |i: int| item_line(todos, i)) + seq!["]"@, "</system-reminder>"@]
}

/// The reminder about the list that is handed to the model.
pub open spec fn todo_reminder(todos: Seq<TodoItem>) -> Seq<char> {
    if todos.len() == 0 {
        empty_list_reminder()
    } else {
        join(reminder_lines(todos), "\n"@)
    }
}

/// Whether every item of a non-empty list is completed.
pub fn all_completed(todos: &Vec<TodoItem>) -> (r: bool)
    ensures
        r == all_done(todos@),
{
    if todos.len() == 0 {
        return false;
    }
    let mut i: usize = 0;
    while i < todos.len()
        invariant
            i <= todos@.len(),
            forall|j: int| 0 <= j < i ==> #[trigger] todos@[j].status == TodoStatus::Completed,
        decreases todos@.len() - i,
    {
        if todos[i].status != TodoStatus::Completed {
            return false;
        }
        i += 1;
    }
    true
}

/// Adds one line to the reminder being built.
fn push_line(lines: &mut Vec<Vec<char>>, line: Vec<char>)
    ensures
        views(final(lines)@) == views(old(lines)@).push(line@),
{
    lines.push(line);
    assert(views(lines@) =~= views(old(lines)@).push(line@));
}

/// Format the current todo state as a system reminder for the LLM
pub fn format_for_llm(todos: &Vec<TodoItem>) -> (r: String)
    ensures
        r@ == todo_reminder(todos@),
{
    if todos.len() == 0 {
        return owned(
            "<system-reminder>\n\
            This is a reminder that your todo list is currently empty. DO NOT mention this to the user explicitly because they are already aware. \
            If you are working on tasks that would benefit from a todo list please use the todo_write tool to create one. \
            If not, please feel free to ignore. Again do not mention this message to the user.\n\
            </system-reminder>",
        );
    }
    let done = all_completed(todos);
    let mut lines: Vec<Vec<char>> = Vec::new();
    push_line(&mut lines, chars_of("<system-reminder>"));
    if done {
        push_line(
            &mut lines,
            chars_of(
                "All tasks in your todo list have been completed! You can now clear the todo list by calling todo_write with an empty array, \
or leave it as-is if you want to keep the record. DO NOT mention this reminder to the user.",
            ),
        );
    } else {
        push_line(
            &mut lines,
            chars_of(
                "The todo_write tool hasn't been used recently. If you're working on tasks that would benefit from tracking progress, \
consider using the todo_write tool to track progress. Also consider cleaning up the todo list if has become stale and no longer matches \
what you are working on. Only use it if it's relevant to the current work. This is just a gentle reminder - ignore if not applicable. \
Make sure that you NEVER mention this reminder to the user",
            ),
        );
    }
    push_line(&mut lines, Vec::new());
    push_line(&mut lines, Vec::new());
    push_line(&mut lines, chars_of("Here are the existing contents of your todo list:"));
    push_line(&mut lines, Vec::new());
    push_line(&mut lines, chars_of("["));
    let ghost head = views(lines@);
    let ghost items = Seq::new(todos@.len(), |i: int| item_line(todos@, i));
    let mut i: usize = 0;
    while i < todos.len()
        invariant
            i <= todos@.len(),
            items == Seq::new(todos@.len(), |k: int| item_line(todos@, k)),
            views(lines@) == head + items.take(i as int),
        decreases todos@.len() - i,
    {
        let mut line = decimal_exec(i + 1);
        extend_str(&mut line, ". [");
        extend_str(&mut line, todos[i].status.as_str());
        extend_str(&mut line, "] ");
        extend_str(&mut line, todos[i].content.as_str());
        assert(line@ == item_line(todos@, i as int));
        push_line(&mut lines, line);
        assert(items.take(i + 1) =~= items.take(i as int).push(items[i as int]));
        i += 1;
    }
    assert(items.take(todos@.len() as int) =~= items);
    push_line(&mut lines, chars_of("]"));
    push_line(&mut lines, chars_of("</system-reminder>"));
    assert(views(lines@) =~= reminder_lines(todos@));
    let sep = chars_of("\n");
    let joined = join_chars(&lines, sep.as_slice());
    string_of(joined.as_slice())
}

} // verus!
