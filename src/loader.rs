//! The frames of the progress indicator shown while a run goes on: a marker
//! that bounces along a bar, and the seconds left.
use vstd::prelude::*;
use vstd::string::StringExecFns;

verus! {

/// One cell of the bar: a blue block where the marker stands, a blank
/// elsewhere.
pub open spec fn bar_cell(marked: bool) -> Seq<char> {
    if marked {
        "\x1b[44m \x1b[0m"@
    } else {
        " "@
    }
}

/// The first `n` cells of a bar with the marker at `pos`.
pub open spec fn bar_text(pos: int, n: int) -> Seq<char>
    decreases n,
{
    if n <= 0 {
        Seq::empty()
    } else {
        bar_text(pos, n - 1) + bar_cell(n - 1 == pos)
    }
}

/// The bar of `bar_length` cells with the marker at `pos`.
pub fn loader_bar(pos: usize, bar_length: usize) -> (r: String)
    ensures
        r@ == bar_text(pos as int, bar_length as int),
{
    let mut bar = String::new();
    let mut i: usize = 0;
    while i < bar_length
        invariant
            i <= bar_length,
            bar@ == bar_text(pos as int, i as int),
        decreases bar_length - i,
    {
        if i == pos {
            bar.append("\x1b[44m \x1b[0m");
        } else {
            bar.append(" ");
        }
        i = i + 1;
    }
    bar
}

/// The seconds left of a run of `duration_secs` after `elapsed_secs`; none
/// once the time is up.
pub fn remaining_secs(elapsed_secs: u64, duration_secs: u64) -> (r: u64)
    ensures
        r == if elapsed_secs >= duration_secs {
            0
        } else {
            duration_secs - elapsed_secs
        },
{
    if elapsed_secs >= duration_secs {
        0
    } else {
        duration_secs - elapsed_secs
    }
}

/// The next position and heading of the marker: it turns back at either end
/// of the bar, and moves one cell.
pub fn bounce(pos: usize, forward: bool, bar_length: usize) -> (r: (usize, bool))
    requires
        bar_length >= 2,
        pos < bar_length,
    ensures
        r.1 == if pos == bar_length - 1 {
            false
        } else if pos == 0 {
            true
        } else {
            forward
        },
        r.0 == if r.1 {
            pos + 1
        } else {
            pos - 1
        },
        r.0 < bar_length,
{
    let heading = if pos == bar_length - 1 {
        false
    } else if pos == 0 {
        true
    } else {
        forward
    };
    if heading {
        (pos + 1, heading)
    } else {
        (pos - 1, heading)
    }
}

} // verus!
