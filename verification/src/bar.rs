//! The glyph bar: how far a bar of a given width is filled, and with what.
//!
//! A bar of `cells` columns shows the fraction `completed / total`, clamped
//! to `[0, 1]`. The fill position `p = cells * fraction` is kept as the exact
//! quotient `cells * completed / total`: its whole part counts the full
//! glyphs, and its fractional part picks the one partial glyph behind them.
//! A total of zero counts as complete.

use vstd::prelude::*;
use crate::text::{push_repeated, repeated};

verus! {

/// `completed`, held to at most `total`.
pub open spec fn clamped(completed: nat, total: nat) -> nat {
    if completed <= total {
        completed
    } else {
        total
    }
}

/// The whole percentage `floor(100 * completed / total)`, within `0..=100`.
pub open spec fn percent(completed: nat, total: nat) -> nat {
    if total == 0 {
        100
    } else {
        100 * clamped(completed, total) / total
    }
}

/// How many of `cells` columns are entirely full: `floor(p)`.
pub open spec fn full_cells(cells: nat, completed: nat, total: nat) -> nat {
    if total == 0 {
        cells
    } else {
        cells * clamped(completed, total) / total
    }
}

/// Which of `levels` glyphs stands in the first column that is not full:
/// `floor((p - floor(p)) * levels)`.
pub open spec fn partial_level(cells: nat, completed: nat, total: nat, levels: nat) -> nat {
    if total == 0 {
        0
    } else {
        (cells * clamped(completed, total) % total) * levels / total
    }
}

/// The glyph of a style at `level`; a blank where the style has none.
pub open spec fn glyph_at(glyphs: Seq<char>, level: int) -> char {
    if 0 <= level < glyphs.len() {
        glyphs[level]
    } else {
        ' '
    }
}

/// The bar itself: the full glyph `floor(p)` times; behind it, unless the
/// bar is full, the partial glyph; the empty glyph up to `cells` columns.
pub open spec fn glyph_bar(glyphs: Seq<char>, cells: nat, completed: nat, total: nat) -> Seq<char> {
    let full = full_cells(cells, completed, total);
    let level = partial_level(cells, completed, total, glyphs.len());
    Seq::new(
        cells,
        |i: int|
            if i < full {
                glyph_at(glyphs, glyphs.len() - 1)
            } else if i == full {
                glyph_at(glyphs, level as int)
            } else {
                glyph_at(glyphs, 0)
            },
    )
}

/// The percentage never leaves `0..=100`.
pub proof fn lemma_percent_range(completed: nat, total: nat)
    ensures
        percent(completed, total) <= 100,
{
    if total > 0 {
        let c = clamped(completed, total);
        assert(100 * c / total <= 100) by (nonlinear_arith)
            requires
                0 <= c <= total,
                total > 0,
        ;
    }
}

/// No more columns are full than there are, and all of them are exactly
/// when the work is complete.
pub proof fn lemma_full_cells_range(cells: nat, completed: nat, total: nat)
    ensures
        full_cells(cells, completed, total) <= cells,
        completed >= total ==> full_cells(cells, completed, total) == cells,
        completed < total && cells > 0 ==> full_cells(cells, completed, total) < cells,
{
    if total > 0 {
        let c = clamped(completed, total);
        assert(cells * c / total <= cells) by (nonlinear_arith)
            requires
                0 <= c <= total,
                total > 0,
                cells >= 0,
        ;
        if completed >= total {
            assert(cells * total / total == cells) by (nonlinear_arith)
                requires
                    total > 0,
            ;
        } else if cells > 0 {
            assert(cells * c / total < cells) by (nonlinear_arith)
                requires
                    0 <= c < total,
                    cells > 0,
            ;
        }
    }
}

/// The partial glyph is always one of the style's glyphs.
pub proof fn lemma_partial_level_range(cells: nat, completed: nat, total: nat, levels: nat)
    requires
        levels > 0,
    ensures
        partial_level(cells, completed, total, levels) < levels,
{
    if total > 0 {
        let r = cells * clamped(completed, total) % total;
        assert(r * levels / total < levels) by (nonlinear_arith)
            requires
                0 <= r < total,
                levels > 0,
        ;
    }
}

/// The bar is exactly as wide as asked, whatever the progress and the style.
pub proof fn lemma_glyph_bar_len(glyphs: Seq<char>, cells: nat, completed: nat, total: nat)
    ensures
        glyph_bar(glyphs, cells, completed, total).len() == cells,
{
}

/// Once the work is complete the bar is the full glyph in every column, with
/// no partial glyph.
pub proof fn lemma_complete_bar_is_full(glyphs: Seq<char>, cells: nat, completed: nat, total: nat)
    requires
        completed >= total,
    ensures
        glyph_bar(glyphs, cells, completed, total) == repeated(
            glyph_at(glyphs, glyphs.len() - 1),
            cells,
        ),
{
    lemma_full_cells_range(cells, completed, total);
    assert(glyph_bar(glyphs, cells, completed, total) =~= repeated(
        glyph_at(glyphs, glyphs.len() - 1),
        cells,
    ));
}

/// The product of two 64-bit numbers fits in 128 bits.
proof fn lemma_product_fits(a: nat, b: nat)
    requires
        a <= u64::MAX,
        b <= u64::MAX,
    ensures
        a * b <= u128::MAX,
{
    assert(a * b <= 0xffff_ffff_ffff_ffff * 0xffff_ffff_ffff_ffff) by (nonlinear_arith)
        requires
            0 <= a <= 0xffff_ffff_ffff_ffff,
            0 <= b <= 0xffff_ffff_ffff_ffff,
    ;
}

/// Computes the whole percentage of `completed` in `total`.
pub fn percent_of(completed: usize, total: usize) -> (pct: usize)
    ensures
        pct == percent(completed as nat, total as nat),
        pct <= 100,
{
    proof {
        lemma_percent_range(completed as nat, total as nat);
    }
    if total == 0 {
        100
    } else {
        let c: u128 = if completed <= total {
            completed as u128
        } else {
            total as u128
        };
        (100 * c / (total as u128)) as usize
    }
}

fn glyph(glyphs: &Vec<char>, level: usize) -> (c: char)
    ensures
        c == glyph_at(glyphs@, level as int),
{
    if level < glyphs.len() {
        glyphs[level]
    } else {
        ' '
    }
}

/// Appends a bar of `cells` columns showing `completed` out of `total`.
pub fn push_bar(out: &mut String, glyphs: &Vec<char>, cells: usize, completed: usize, total: usize)
    ensures
        final(out)@ == old(out)@ + glyph_bar(
            glyphs@,
            cells as nat,
            completed as nat,
            total as nat,
        ),
{
    let levels: usize = glyphs.len();
    let full_glyph: char = if levels > 0 {
        glyph(glyphs, levels - 1)
    } else {
        ' '
    };
    let empty_glyph: char = glyph(glyphs, 0);
    let ghost bar = glyph_bar(glyphs@, cells as nat, completed as nat, total as nat);
    proof {
        lemma_full_cells_range(cells as nat, completed as nat, total as nat);
    }
    if total == 0 {
        push_repeated(out, full_glyph, cells);
        assert(bar =~= repeated(full_glyph, cells as nat));
        return ;
    }
    let c: u128 = if completed <= total {
        completed as u128
    } else {
        total as u128
    };
    proof {
        lemma_product_fits(cells as nat, c as nat);
    }
    let position: u128 = (cells as u128) * c;
    let full: usize = (position / (total as u128)) as usize;
    push_repeated(out, full_glyph, full);
    if full < cells {
        let rest: u128 = position % (total as u128);
        proof {
            if levels > 0 {
                lemma_partial_level_range(
                    cells as nat,
                    completed as nat,
                    total as nat,
                    levels as nat,
                );
            }
            lemma_product_fits(rest as nat, levels as nat);
        }
        let level: u128 = rest * (levels as u128) / (total as u128);
        let partial: char = if level < levels as u128 {
            glyph(glyphs, level as usize)
        } else {
            ' '
        };
        out.push(partial);
        push_repeated(out, empty_glyph, cells - full - 1);
        assert(out@ =~= old(out)@ + bar);
    } else {
        assert(out@ =~= old(out)@ + bar);
    }
}

} // verus!
