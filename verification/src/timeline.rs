//! The year window's two-handled slider: what moving a handle does.
//!
//! The window is `(lo, hi)`. A handle moved past the other one stops at it,
//! so the window never turns inside out; an input that is not a year puts
//! the handle at the catalog's bound on its side.

use vstd::prelude::*;

verus! {

/// The window after the lower handle is moved to `input` (the catalog's
/// earliest year when the input is not a year); it stops at the upper
/// handle.
pub open spec fn spec_move_lo(range: (u16, u16), bounds: (u16, u16), input: Option<u16>) -> (u16, u16) {
    let v = match input {
        Some(v) => v,
        None => bounds.0,
    };
    (if v <= range.1 { v } else { range.1 }, range.1)
}

/// The window after the upper handle is moved to `input` (the catalog's
/// latest year when the input is not a year); it stops at the lower handle.
pub open spec fn spec_move_hi(range: (u16, u16), bounds: (u16, u16), input: Option<u16>) -> (u16, u16) {
    let v = match input {
        Some(v) => v,
        None => bounds.1,
    };
    (range.0, if v >= range.0 { v } else { range.0 })
}

/// Moves the lower handle of the year window `range`; `bounds` are the
/// catalog's year bounds and `input` the year read from the slider, if any.
pub fn move_year_lo(range: (u16, u16), bounds: (u16, u16), input: Option<u16>) -> (r: (u16, u16))
    ensures
        r == spec_move_lo(range, bounds, input),
        r.1 == range.1,
        input matches Some(v) ==> r.0 <= v && r.0 <= range.1 && (r.0 == v || r.0 == range.1),
        input is None ==> r.0 <= bounds.0 && r.0 <= range.1 && (r.0 == bounds.0 || r.0 == range.1),
{
    let v = match input {
        Some(v) => v,
        None => bounds.0,
    };
    let lo = if v <= range.1 { v } else { range.1 };
    (lo, range.1)
}

/// Moves the upper handle of the year window `range`; `bounds` are the
/// catalog's year bounds and `input` the year read from the slider, if any.
pub fn move_year_hi(range: (u16, u16), bounds: (u16, u16), input: Option<u16>) -> (r: (u16, u16))
    ensures
        r == spec_move_hi(range, bounds, input),
        r.0 == range.0,
        input matches Some(v) ==> r.1 >= v && r.1 >= range.0 && (r.1 == v || r.1 == range.0),
        input is None ==> r.1 >= bounds.1 && r.1 >= range.0 && (r.1 == bounds.1 || r.1 == range.0),
{
    let v = match input {
        Some(v) => v,
        None => bounds.1,
    };
    let hi = if v >= range.0 { v } else { range.0 };
    (range.0, hi)
}

/// Law: after either handle has moved, the window is ordered (`lo <= hi`),
/// whatever it was before; the other handle stays where it was.
pub proof fn lemma_moves_keep_window_ordered(range: (u16, u16), bounds: (u16, u16), input: Option<u16>)
    ensures
        spec_move_lo(range, bounds, input).0 <= spec_move_lo(range, bounds, input).1,
        spec_move_lo(range, bounds, input).1 == range.1,
        spec_move_hi(range, bounds, input).0 <= spec_move_hi(range, bounds, input).1,
        spec_move_hi(range, bounds, input).0 == range.0,
{
}

/// Law: the lower handle lands on the smaller of the chosen year (the
/// catalog's earliest year when none was read) and the upper handle; the
/// upper handle lands on the larger of its chosen year (the catalog's latest
/// year when none was read) and the lower handle.
pub proof fn lemma_moves_take_min_and_max(range: (u16, u16), bounds: (u16, u16), input: Option<u16>)
    ensures
        ({
            let v = if input is Some { input->0 } else { bounds.0 };
            let lo = spec_move_lo(range, bounds, input).0;
            lo <= v && lo <= range.1 && (lo == v || lo == range.1)
        }),
        ({
            let v = if input is Some { input->0 } else { bounds.1 };
            let hi = spec_move_hi(range, bounds, input).1;
            hi >= v && hi >= range.0 && (hi == v || hi == range.0)
        }),
{
}

} // verus!
