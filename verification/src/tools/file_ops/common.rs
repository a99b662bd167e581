//! Path handling shared by the file tools: where a path given to a tool
//! leads, decided in text, and the path built from that decision.
use crate::text::{chars_of, has_char, owned};
use crate::tools::error::ToolError;
use crate::tools::paths::{
    path_from, path_is_absolute, path_join, path_owned, path_starts_with, plainly_relative,
};
use std::path::{Path, PathBuf};
use vstd::prelude::*;

verus! {

/// Where a path leads, before the platform builds it: a text taken as it
/// stands, or a base directory with parts appended to it in order.
pub enum PathPlan<'a> {
    AsGiven(String),
    Under(&'a Path, Vec<String>),
}

/// The abstract content of a [`PathPlan`]: its texts as character
/// sequences.
pub enum PathPlanView<'a> {
    AsGiven(Seq<char>),
    Under(&'a Path, Seq<Seq<char>>),
}

impl<'a> View for PathPlan<'a> {
    type V = PathPlanView<'a>;

    open spec fn view(&self) -> PathPlanView<'a> {
        match self {
            PathPlan::AsGiven(t) => PathPlanView::AsGiven(t@),
            PathPlan::Under(base, parts) => PathPlanView::Under(*base, parts.deep_view()),
        }
    }
}

/// The plan for `file_path`, given whether the platform counts it as
/// absolute: the text as it stands when it is, else the text under
/// `working_directory`.
pub open spec fn path_plan_for<'a>(absolute: bool, file_path: Seq<char>, working_directory: &'a Path) -> PathPlanView<'a> {
    if absolute {
        PathPlanView::AsGiven(file_path)
    } else {
        PathPlanView::Under(working_directory, seq![file_path])
    }
}

/// The plan for `file_path` once the platform has said whether it is
/// absolute (see [`path_plan_for`]).
pub fn path_choice<'a>(absolute: bool, file_path: &str, working_directory: &'a Path) -> (r: PathPlan<'a>)
    ensures
        r@ == path_plan_for(absolute, file_path@, working_directory),
{
    if absolute {
        PathPlan::AsGiven(owned(file_path))
    } else {
        let parts = vec![owned(file_path)];
        let r = PathPlan::Under(working_directory, parts);
        assert(r@ == path_plan_for(absolute, file_path@, working_directory)) by {
            assert(parts.deep_view() =~= seq![file_path@]);
        }
        r
    }
}

/// Where `file_path` leads for a tool working in `working_directory`: the
/// text itself when it is absolute, else the text under the directory. A
/// plainly relative text (no leading slash or backslash, no `:`) always goes
/// under the directory; for other texts what counts as absolute is the
/// platform's rule (`Path::is_absolute`), and the plan is one of the two.
pub fn resolve_path<'a>(file_path: &str, working_directory: &'a Path) -> (r: PathPlan<'a>)
    ensures
        r@ == path_plan_for(true, file_path@, working_directory)
            || r@ == path_plan_for(false, file_path@, working_directory),
        plainly_relative(file_path@) ==> r@ == path_plan_for(false, file_path@, working_directory),
{
    path_choice(path_is_absolute(file_path), file_path, working_directory)
}

impl<'a> PathPlan<'a> {
    /// The path the plan leads to: the text as a path (`PathBuf::from`), or
    /// the base with each part joined in turn (`Path::join`). How a platform
    /// joins and spells paths is its own, so nothing is claimed of the
    /// result.
    pub fn build(&self) -> PathBuf {
        match self {
            PathPlan::AsGiven(t) => path_from(t.as_str()),
            PathPlan::Under(base, parts) => {
                let mut p = path_owned(base);
                let mut i: usize = 0;
                while i < parts.len()
                    decreases parts.len() - i,
                {
                    p = path_join(p.as_path(), parts[i].as_str());
                    i = i + 1;
                }
                p
            },
        }
    }
}

/// Which kind of access a file tool asks for, which its refusal names.
#[derive(Debug, Clone, Copy, PartialEq, Eq, Structural)]
pub enum Access {
    Read,
    Write,
}

/// The refusal of a path outside the working directory.
pub open spec fn denial_text(access: Access) -> Seq<char> {
    match access {
        Access::Read => "Access denied: cannot read files outside working directory"@,
        Access::Write => "Access denied: cannot write files outside working directory"@,
    }
}

/// The plan kept when the planned path lies within the working directory
/// (`within`), else the refusal for the access asked (see [`denial_text`]).
pub fn access_decision<'a>(plan: PathPlan<'a>, within: bool, access: Access) -> (r: Result<
    PathPlan<'a>,
    ToolError,
>)
    ensures
        within ==> r == Ok::<PathPlan<'a>, ToolError>(plan),
        !within ==> (r matches Err(ToolError::SecurityViolation { message }) && message@ == denial_text(access)),
{
    if within {
        Ok(plan)
    } else {
        let message = match access {
            Access::Read => owned("Access denied: cannot read files outside working directory"),
            Access::Write => owned("Access denied: cannot write files outside working directory"),
        };
        Err(ToolError::SecurityViolation { message })
    }
}

/// Where `file_path` leads for a tool working in `working_directory`, or
/// the refusal when it leads outside that directory: the path built from
/// the plan must start with the directory, whole component by component
/// (`Path::starts_with`). A plainly relative text goes under the directory
/// and is always allowed (std's `Path::join` appends such a text, so the
/// joined path starts with the directory); for other texts the platform
/// decides, and the answer is the plan of [`resolve_path`] or the refusal.
pub fn checked_path<'a>(file_path: &str, working_directory: &'a Path, access: Access) -> (r: Result<
    PathPlan<'a>,
    ToolError,
>)
    ensures
        plainly_relative(file_path@) ==> (r matches Ok(p) && p@ == path_plan_for(
            false,
            file_path@,
            working_directory,
        )),
        match r {
            Ok(p) => p@ == path_plan_for(true, file_path@, working_directory) || p@ == path_plan_for(
                false,
                file_path@,
                working_directory,
            ),
            Err(e) => e matches ToolError::SecurityViolation { message } && message@ == denial_text(
                access,
            ),
        },
{
    let plan = resolve_path(file_path, working_directory);
    let relative = is_plainly_relative(file_path);
    let within = if relative {
        true
    } else {
        let built = plan.build();
        path_starts_with(built.as_path(), working_directory)
    };
    access_decision(plan, within, access)
}

/// Whether a text is plainly relative (see [`plainly_relative`]).
pub fn is_plainly_relative(text: &str) -> (r: bool)
    ensures
        r == plainly_relative(text@),
{
    let cs = chars_of(text);
    let lead_ok = cs.len() == 0 || (cs[0] != '/' && cs[0] != '\\');
    lead_ok && !has_char(cs.as_slice(), ':')
}

/// The directory a listing reads: the working directory for an empty path,
/// else `dir_path` where it lies within the working directory (see
/// [`checked_path`]); a path leading outside falls back to `.`.
pub fn listing_target<'a>(dir_path: &str, working_directory: &'a Path) -> (r: PathPlan<'a>)
    ensures
        ({
            let t = if dir_path@.len() == 0 {
                "."@
            } else {
                dir_path@
            };
            ||| r@ == path_plan_for(true, t, working_directory)
            ||| r@ == path_plan_for(false, t, working_directory)
            ||| r@ == PathPlanView::AsGiven("."@)
        }),
        dir_path@.len() == 0 ==> r@ == path_plan_for(false, "."@, working_directory),
        plainly_relative(dir_path@) && dir_path@.len() > 0 ==> r@ == path_plan_for(
            false,
            dir_path@,
            working_directory,
        ),
{
    let target = if chars_of(dir_path).len() == 0 {
        "."
    } else {
        dir_path
    };
    proof {
        reveal_strlit(".");
        assert(plainly_relative("."@));
    }
    match checked_path(target, working_directory, Access::Read) {
        Ok(p) => p,
        Err(_) => PathPlan::AsGiven(owned(".")),
    }
}

} // verus!
