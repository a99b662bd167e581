//! The collapsed list of running tool calls: which file names fit.
use crate::text::{chars_of, decimal, decimal_exec, extend, extend_str, join, join_chars, string_of, views};
use vstd::prelude::*;

verus! {

pub struct ActiveToolCallsComponent;

/// Columns taken by the line's lead-in before the names.
pub const PREFIX_WIDTH: usize = 4;

/// How many of `names` fit in `budget` columns when joined with `", "`.
pub open spec fn fitting_count(names: Seq<Seq<char>>, budget: int) -> nat
    decreases names.len(),
{
    if names.len() == 0 {
        0
    } else {
        let k = fitting_count(names.drop_last(), budget);
        if k == names.len() - 1 && join(names, ", "@).len() <= budget {
            k + 1
        } else {
            k
        }
    }
}

/// The column budget for a line of width `max_width`.
pub open spec fn target_budget(max_width: usize) -> int {
    let w = if max_width >= PREFIX_WIDTH {
        max_width - PREFIX_WIDTH
    } else {
        0
    };
    if w >= 8 {
        w
    } else {
        8
    }
}

/// The names shown for a line of width `max_width`: all of them joined when
/// they fit; else as many leading names as fit and a count of the others;
/// else only how many files there are.
pub open spec fn truncated_targets(names: Seq<Seq<char>>, max_width: usize) -> Seq<char> {
    let budget = target_budget(max_width);
    let k = fitting_count(names, budget);
    if join(names, ", "@).len() <= budget {
        join(names, ", "@)
    } else if k == 0 {
        decimal(names.len()) + " files"@
    } else {
        join(names.take(k as int), ", "@) + " +"@ + decimal((names.len() - k) as nat) + " more"@
    }
}

/// The joined width of names grows by the separator and the next name.
proof fn lemma_join_push_len(names: Seq<Seq<char>>, x: Seq<char>)
    ensures
        join(names.push(x), ", "@).len() == join(names, ", "@).len() + x.len() + if names.len() == 0 {
            0int
        } else {
            2int
        },
{
    reveal_strlit(", ");
    assert(names.push(x).drop_last() =~= names);
}

/// Once a name does not fit, no longer list fits either.
proof fn lemma_fitting_prefix(names: Seq<Seq<char>>, budget: int, k: nat)
    requires
        k <= names.len(),
        join(names.take(k as int), ", "@).len() <= budget,
        k == names.len() || join(names.take(k as int + 1), ", "@).len() > budget,
    ensures
        fitting_count(names, budget) == k,
    decreases names.len(),
{
    if names.len() == 0 {
    } else if k == names.len() {
        assert(names.take(k as int) =~= names);
        let init = names.drop_last();
        lemma_join_push_len(init, names.last());
        assert(init.push(names.last()) =~= names);
        assert(init.take(init.len() as int) =~= init);
        lemma_fitting_prefix(init, budget, (k - 1) as nat);
    } else {
        let init = names.drop_last();
        assert(init.take(k as int) =~= names.take(k as int));
        if k < init.len() {
            assert(init.take(k as int + 1) =~= names.take(k as int + 1));
            lemma_fitting_prefix(init, budget, k);
        } else {
            assert(init.take(k as int) =~= init);
            assert(names.take(k as int + 1) =~= names);
            lemma_fitting_prefix(init, budget, k);
        }
        lemma_join_push_len(init, names.last());
        assert(init.push(names.last()) =~= names);
    }
}

pub fn truncate_targets(basenames: &Vec<String>, max_width: usize) -> (r: String)
    ensures
        r@ == truncated_targets(basenames.deep_view(), max_width),
{
    let ghost names = basenames.deep_view();
    let w: usize = if max_width >= PREFIX_WIDTH {
        max_width - PREFIX_WIDTH
    } else {
        0
    };
    let budget: usize = if w >= 8 {
        w
    } else {
        8
    };
    let mut parts: Vec<Vec<char>> = Vec::new();
    let mut i: usize = 0;
    while i < basenames.len()
        invariant
            i <= basenames@.len(),
            names == basenames.deep_view(),
            views(parts@) == names.take(i as int),
        decreases basenames@.len() - i,
    {
        let ghost before = views(parts@);
        parts.push(chars_of(basenames[i].as_str()));
        assert(views(parts@) =~= before.push(names[i as int]));
        assert(names.take(i + 1) =~= names.take(i as int).push(names[i as int]));
        i += 1;
    }
    assert(names.take(basenames@.len() as int) =~= names);
    let sep = chars_of(", ");
    let joined = join_chars(&parts, sep.as_slice());
    if joined.len() <= budget {
        return string_of(joined.as_slice());
    }
    let mut shown: Vec<Vec<char>> = Vec::new();
    let mut width: usize = 0;
    let mut j: usize = 0;
    while j < parts.len()
        invariant_except_break
            j <= parts@.len(),
            parts@.len() == basenames@.len(),
            names == basenames.deep_view(),
            views(parts@) == names,
            views(shown@) == names.take(j as int),
            width == join(names.take(j as int), ", "@).len(),
            width <= budget,
        ensures
            j <= parts@.len(),
            views(shown@) == names.take(j as int),
            width == join(names.take(j as int), ", "@).len(),
            width <= budget,
            j == parts@.len() || join(names.take(j + 1), ", "@).len() > budget,
        decreases parts@.len() - j,
    {
        let sep_w: usize = if j == 0 {
            0
        } else {
            2
        };
        proof {
            lemma_join_push_len(names.take(j as int), names[j as int]);
            assert(names.take(j as int).push(names[j as int]) =~= names.take(j + 1));
            reveal_strlit(", ");
        }
        let name_len = parts[j].len();
        assert(name_len == names[j as int].len());
        let room = budget - width;
        if sep_w > room || name_len > room - sep_w {
            break;
        }
        width = width + sep_w + name_len;
        let ghost before = views(shown@);
        shown.push(chars_of(basenames[j].as_str()));
        assert(views(shown@) =~= before.push(names[j as int]));
        j += 1;
    }
    proof {
        lemma_fitting_prefix(names, budget as int, j as nat);
    }
    if shown.len() == 0 {
        let mut r = decimal_exec(basenames.len());
        extend_str(&mut r, " files");
        return string_of(r.as_slice());
    }
    let remaining = basenames.len() - shown.len();
    let mut r = join_chars(&shown, sep.as_slice());
    extend_str(&mut r, " +");
    let digits = decimal_exec(remaining);
    extend(&mut r, digits.as_slice());
    extend_str(&mut r, " more");
    string_of(r.as_slice())
}

} // verus!
