//! The status bar's animated indicator.
use crate::text::string_of;
use vstd::prelude::*;

verus! {

pub struct StatusBar;

/// A triangle wave of the given period: rises from 0 to half the period and
/// falls back.
pub open spec fn triangle(phase: int, period: int) -> int {
    let t = phase % period;
    if t <= period / 2 {
        t
    } else {
        period - t
    }
}

/// The bar glyph for a height level (levels past the top use the top glyph).
pub open spec fn level_glyph(level: int) -> char {
    if level <= 0 {
        '⣀'
    } else if level == 1 {
        '⣤'
    } else if level == 2 {
        '⣶'
    } else {
        '⣿'
    }
}

/// The glyph of one cell of the wave at an animation frame: two ripples of
/// periods 6 and 14, shifted by 3 and 5 frames per cell, averaged.
pub open spec fn wave_cell(frame: int, cell: int) -> char {
    level_glyph((triangle(frame + cell * 3, 6) + triangle(frame + cell * 5, 14)) / 4)
}

/// The three-cell wave shown at an animation frame.
pub open spec fn radio_wave_at(frame: int) -> Seq<char> {
    seq![wave_cell(frame, 0), wave_cell(frame, 1), wave_cell(frame, 2)]
}

fn triangle_exec(phase: usize, period: usize) -> (r: usize)
    requires
        period > 0,
    ensures
        r == triangle(phase as int, period as int),
{
    let half = period / 2;
    let t = phase % period;
    if t <= half {
        t
    } else {
        period - t
    }
}

/// Build a subtle "radio wave" pattern: a row of short vertical bars whose
/// heights ripple sideways like the equalizer on a radio. Two ripples of
/// different periods are layered so crests land at uneven intervals, giving
/// the row an organic, irregular pulse rather than a uniform sweep.
pub fn radio_wave(frame: usize) -> (r: String)
    requires
        frame + 10 <= usize::MAX,
    ensures
        r@ == radio_wave_at(frame as int),
{
    let mut out: Vec<char> = Vec::new();
    let mut cell: usize = 0;
    while cell < 3
        invariant
            cell <= 3,
            frame + 10 <= usize::MAX,
            out@ == radio_wave_at(frame as int).take(cell as int),
        decreases 3 - cell,
    {
        let fast = triangle_exec(frame + cell * 3, 6);
        let slow = triangle_exec(frame + cell * 5, 14);
        let level = (fast + slow) / 4;
        let glyph = if level == 0 {
            '⣀'
        } else if level == 1 {
            '⣤'
        } else if level == 2 {
            '⣶'
        } else {
            '⣿'
        };
        out.push(glyph);
        assert(radio_wave_at(frame as int).take(cell + 1) =~= radio_wave_at(frame as int).take(
            cell as int,
        ).push(wave_cell(frame as int, cell as int)));
        cell += 1;
    }
    assert(radio_wave_at(frame as int).take(3) =~= radio_wave_at(frame as int));
    string_of(out.as_slice())
}

proof fn lemma_triangle_range(phase: int, period: int)
    requires
        period > 0,
    ensures
        0 <= triangle(phase, period) <= period / 2,
{
}

proof fn lemma_triangle_period(phase: int, period: int, k: int)
    requires
        period > 0,
    ensures
        triangle(phase + period * k, period) == triangle(phase, period),
{
    vstd::arithmetic::div_mod::lemma_mod_multiples_vanish(k, phase, period);
    assert(period * k + phase == phase + period * k);
}

/// The indicator is always three bars, none of them at the top height
/// (the two ripples together never reach it), and it repeats every 42
/// frames, the common period of its two ripples.
pub proof fn law_radio_wave_shape(frame: int)
    ensures
        radio_wave_at(frame).len() == 3,
        forall|i: int|
            0 <= i < 3 ==> #[trigger] radio_wave_at(frame)[i] == '⣀' || radio_wave_at(frame)[i] == '⣤'
                || radio_wave_at(frame)[i] == '⣶',
        radio_wave_at(frame + 42) == radio_wave_at(frame),
{
    assert forall|cell: int| 0 <= cell < 3 implies #[trigger] wave_cell(frame, cell) != '⣿' && wave_cell(
        frame + 42,
        cell,
    ) == wave_cell(frame, cell) by {
        lemma_triangle_range(frame + cell * 3, 6);
        lemma_triangle_range(frame + cell * 5, 14);
        lemma_triangle_period(frame + cell * 3, 6, 7);
        lemma_triangle_period(frame + cell * 5, 14, 3);
        assert(frame + 42 + cell * 3 == frame + cell * 3 + 6 * 7);
        assert(frame + 42 + cell * 5 == frame + cell * 5 + 14 * 3);
    }
    assert(wave_cell(frame, 0) != '⣿');
    assert(wave_cell(frame, 1) != '⣿');
    assert(wave_cell(frame, 2) != '⣿');
    assert(wave_cell(frame + 42, 0) == wave_cell(frame, 0));
    assert(wave_cell(frame + 42, 1) == wave_cell(frame, 1));
    assert(wave_cell(frame + 42, 2) == wave_cell(frame, 2));
    assert(radio_wave_at(frame + 42) =~= radio_wave_at(frame));
}

} // verus!
