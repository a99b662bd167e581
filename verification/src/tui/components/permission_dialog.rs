//! The text of the permission dialog: the prompt, a preview of the command
//! cut to the rows the screen leaves, the choices with the highlighted one
//! marked, and the key help. Drawing the box around it is the terminal's.
use crate::text::{chars_of, decimal, decimal_exec, extend, extend_str, lines, lines_exec, string_of, views};
use crate::tools::json::opt_view;
use crate::tui::app_state::{PermissionOption, ToolPermissionDialogState};
use vstd::prelude::*;

verus! {

/// How a piece of the dialog is colored.
#[derive(Debug, Clone, Copy, PartialEq, Eq, Structural)]
pub enum DialogStyle {
    Plain,
    Bold,
    Gutter,
    Preview,
    MoreLines,
    Selected,
    Help,
}

/// A piece of a dialog line and its style.
pub struct DialogSpan {
    pub text: String,
    pub style: DialogStyle,
}

/// The views of the pieces of one line.
pub open spec fn span_views(v: Seq<DialogSpan>) -> Seq<(Seq<char>, DialogStyle)> {
    Seq::new(v.len(), |i: int| (v[i].text@, v[i].style))
}

/// The views of the lines of a dialog.
pub open spec fn dialog_views(v: Seq<Vec<DialogSpan>>) -> Seq<Seq<(Seq<char>, DialogStyle)>> {
    Seq::new(v.len(), |i: int| span_views(v[i]@))
}

/// An empty line.
pub open spec fn blank_line() -> Seq<(Seq<char>, DialogStyle)> {
    seq![(Seq::empty(), DialogStyle::Plain)]
}

/// How many rows of the command preview are shown: what a dialog of
/// `height` rows leaves after its borders (2), the prompt (2), one row per
/// choice and the help (2), and at most 15.
pub open spec fn preview_budget(height: u16, n_options: nat) -> nat {
    let chrome = 6 + n_options;
    let avail: int = if height >= chrome {
        height - chrome
    } else {
        0
    };
    (if avail < 15 {
        avail
    } else {
        15
    }) as nat
}

/// One row of the command preview, behind its gutter.
pub open spec fn preview_row(line: Seq<char>) -> Seq<(Seq<char>, DialogStyle)> {
    seq![(" │ "@, DialogStyle::Gutter), (line, DialogStyle::Preview)]
}

/// The note for preview lines that did not fit.
pub open spec fn more_lines_row(hidden: nat) -> Seq<(Seq<char>, DialogStyle)> {
    seq![
        (" │ "@, DialogStyle::Gutter),
        ("... ("@ + decimal(hidden) + " more lines)"@, DialogStyle::MoreLines),
    ]
}

/// The preview block: nothing when no row is left; else the first
/// `budget` lines of the preview, a note of how many more there are, and an
/// empty line.
pub open spec fn preview_block(preview: Seq<char>, budget: nat) -> Seq<Seq<(Seq<char>, DialogStyle)>> {
    let ls = lines(preview);
    if budget == 0 {
        Seq::empty()
    } else {
        let shown: nat = if ls.len() < budget {
            ls.len()
        } else {
            budget
        };
        Seq::new(shown, |i: int| preview_row(ls[i])) + (if ls.len() > budget {
            seq![more_lines_row((ls.len() - budget) as nat)]
        } else {
            Seq::empty()
        }) + seq![blank_line()]
    }
}

/// The key and label of a choice; the trust choice names what is trusted.
pub open spec fn option_text(o: PermissionOption, trust: Seq<char>) -> Seq<char> {
    match o {
        PermissionOption::YesOnce => "[y] "@ + "Yes, once "@,
        PermissionOption::No => "[n] "@ + "No "@,
        PermissionOption::TrustProject(_) => "[t] "@ + "yes, and "@ + trust + " "@,
    }
}

/// The line of a choice: marked and highlighted when it is the selected one.
pub open spec fn option_line(o: PermissionOption, trust: Seq<char>, selected: bool) -> Seq<
    (Seq<char>, DialogStyle),
> {
    if selected {
        seq![("> "@ + option_text(o, trust), DialogStyle::Selected)]
    } else {
        seq![("  "@ + option_text(o, trust), DialogStyle::Plain)]
    }
}

/// The help line under the choices.
pub open spec fn help_text() -> Seq<char> {
    "↑/↓ navigate, Enter/key to choose, Esc cancel"@
}

/// The lines of the dialog: the prompt in bold and an empty line, the
/// preview block when the request has a preview, one line per choice, an
/// empty line and the help.
pub open spec fn dialog_lines(
    prompt: Seq<char>,
    preview: Option<Seq<char>>,
    trust: Seq<char>,
    options: Seq<PermissionOption>,
    selected: usize,
    height: u16,
) -> Seq<Seq<(Seq<char>, DialogStyle)>> {
    seq![seq![(prompt, DialogStyle::Bold)], blank_line()] + match preview {
        Some(p) => preview_block(p, preview_budget(height, options.len())),
        None => Seq::empty(),
    } + Seq::new(options.len(), |i: int| option_line(options[i], trust, i == selected)) + seq![
        blank_line(),
        seq![(help_text(), DialogStyle::Help)],
    ]
}

/// A line of one piece.
fn single(text: Vec<char>, style: DialogStyle) -> (r: Vec<DialogSpan>)
    ensures
        span_views(r@) == seq![(text@, style)],
{
    let mut r: Vec<DialogSpan> = Vec::new();
    r.push(DialogSpan { text: string_of(text.as_slice()), style });
    assert(span_views(r@) =~= seq![(text@, style)]);
    r
}

/// A line of two pieces.
fn pair(a: Vec<char>, sa: DialogStyle, b: Vec<char>, sb: DialogStyle) -> (r: Vec<DialogSpan>)
    ensures
        span_views(r@) == seq![(a@, sa), (b@, sb)],
{
    let mut r: Vec<DialogSpan> = Vec::new();
    r.push(DialogSpan { text: string_of(a.as_slice()), style: sa });
    r.push(DialogSpan { text: string_of(b.as_slice()), style: sb });
    assert(span_views(r@) =~= seq![(a@, sa), (b@, sb)]);
    r
}

/// Adds a line.
fn push_line(out: &mut Vec<Vec<DialogSpan>>, line: Vec<DialogSpan>)
    ensures
        dialog_views(final(out)@) == dialog_views(old(out)@).push(span_views(line@)),
{
    let ghost l = span_views(line@);
    out.push(line);
    assert(dialog_views(out@) =~= dialog_views(old(out)@).push(l));
}

/// Adds an empty line.
fn push_blank(out: &mut Vec<Vec<DialogSpan>>)
    ensures
        dialog_views(final(out)@) == dialog_views(old(out)@).push(blank_line()),
{
    let line = single(Vec::new(), DialogStyle::Plain);
    assert(span_views(line@) =~= blank_line());
    push_line(out, line);
}

/// Adds the preview block (see [`preview_block`]).
fn push_preview(out: &mut Vec<Vec<DialogSpan>>, preview: &str, budget: usize)
    ensures
        dialog_views(final(out)@) == dialog_views(old(out)@) + preview_block(preview@, budget as nat),
{
    let ghost start = dialog_views(out@);
    if budget == 0 {
        assert(dialog_views(out@) =~= start + preview_block(preview@, budget as nat));
        return;
    }
    let ls = lines_exec(chars_of(preview).as_slice());
    let ghost lv = views(ls@);
    let shown: usize = if ls.len() < budget {
        ls.len()
    } else {
        budget
    };
    let mut i: usize = 0;
    while i < shown
        invariant
            i <= shown <= ls@.len(),
            lv == views(ls@),
            lv == lines(preview@),
            dialog_views(out@) == start + Seq::new(i as nat, |k: int| preview_row(lv[k])),
        decreases shown - i,
    {
        let row = pair(chars_of(" │ "), DialogStyle::Gutter, ls[i].clone(), DialogStyle::Preview);
        proof {
            reveal_strlit(" │ ");
        }
        assert(span_views(row@) == preview_row(lv[i as int]));
        push_line(out, row);
        assert(Seq::new(i as nat, |k: int| preview_row(lv[k])).push(preview_row(lv[i as int]))
            =~= Seq::new((i + 1) as nat, |k: int| preview_row(lv[k])));
        i += 1;
    }
    let ghost rows = dialog_views(out@);
    if ls.len() > budget {
        let mut t = chars_of("... (");
        extend(&mut t, decimal_exec(ls.len() - budget).as_slice());
        extend_str(&mut t, " more lines)");
        let row = pair(chars_of(" │ "), DialogStyle::Gutter, t, DialogStyle::MoreLines);
        push_line(out, row);
    }
    let ghost more = dialog_views(out@);
    push_blank(out);
    assert(dialog_views(out@) =~= start + preview_block(preview@, budget as nat));
}

/// The line of a choice (see [`option_line`]).
fn option_row(o: &PermissionOption, trust: &str, selected: bool) -> (r: Vec<DialogSpan>)
    ensures
        span_views(r@) == option_line(*o, trust@, selected),
{
    let mut t = if selected {
        chars_of("> ")
    } else {
        chars_of("  ")
    };
    let ghost lead = t@;
    match o {
        PermissionOption::YesOnce => {
            extend_str(&mut t, "[y] ");
            extend_str(&mut t, "Yes, once ");
        },
        PermissionOption::No => {
            extend_str(&mut t, "[n] ");
            extend_str(&mut t, "No ");
        },
        PermissionOption::TrustProject(_) => {
            extend_str(&mut t, "[t] ");
            extend_str(&mut t, "yes, and ");
            extend_str(&mut t, trust);
            extend_str(&mut t, " ");
        },
    }
    assert(t@ =~= lead + option_text(*o, trust@));
    if selected {
        single(t, DialogStyle::Selected)
    } else {
        single(t, DialogStyle::Plain)
    }
}

/// The lines of the permission dialog for `state` in a screen area of
/// `area_height` rows (see [`dialog_lines`]). `prompt` is the question the
/// request asks and `trust` the wording of what the trust choice approves,
/// both as the request's descriptor gives them. The descriptor's
/// destructiveness picks the border color, which the terminal draws.
pub fn permission_dialog_lines(
    state: &ToolPermissionDialogState,
    prompt: &str,
    trust: &str,
    area_height: u16,
) -> (r: Vec<Vec<DialogSpan>>)
    requires
        state.options@.len() + 6 <= u16::MAX,
    ensures
        dialog_views(r@) == dialog_lines(
            prompt@,
            opt_view(state.descriptor.command_preview),
            trust@,
            state.options@,
            state.selected_index,
            area_height,
        ),
{
    let mut out: Vec<Vec<DialogSpan>> = Vec::new();
    push_line(&mut out, single(chars_of(prompt), DialogStyle::Bold));
    push_blank(&mut out);
    let ghost head = dialog_views(out@);
    assert(head =~= seq![seq![(prompt@, DialogStyle::Bold)], blank_line()]);
    let n_options: u16 = state.options.len() as u16;
    let chrome: u16 = 2 + 2 + n_options + 2;
    match &state.descriptor.command_preview {
        Some(p) => {
            let avail: u16 = if area_height >= chrome {
                area_height - chrome
            } else {
                0
            };
            let budget: usize = if avail < 15 {
                avail as usize
            } else {
                15
            };
            assert(budget == preview_budget(area_height, state.options@.len()));
            push_preview(&mut out, p.as_str(), budget);
        },
        None => {},
    }
    let ghost mid = dialog_views(out@);
    let ghost opts = state.options@;
    let ghost tv = trust@;
    let ghost sel = state.selected_index;
    let mut i: usize = 0;
    while i < state.options.len()
        invariant
            i <= opts.len(),
            opts == state.options@,
            tv == trust@,
            sel == state.selected_index,
            dialog_views(out@) == mid + Seq::new(i as nat, |k: int| option_line(opts[k], tv, k == sel)),
        decreases opts.len() - i,
    {
        let row = option_row(&state.options[i], trust, i == state.selected_index);
        push_line(&mut out, row);
        assert(Seq::new(i as nat, |k: int| option_line(opts[k], tv, k == sel)).push(
            option_line(opts[i as int], tv, i == sel),
        ) =~= Seq::new((i + 1) as nat, |k: int| option_line(opts[k], tv, k == sel)));
        i += 1;
    }
    push_blank(&mut out);
    push_line(&mut out, single(chars_of("↑/↓ navigate, Enter/key to choose, Esc cancel"), DialogStyle::Help));
    assert(dialog_views(out@) =~= dialog_lines(
        prompt@,
        opt_view(state.descriptor.command_preview),
        trust@,
        state.options@,
        state.selected_index,
        area_height,
    ));
    out
}

} // verus!
