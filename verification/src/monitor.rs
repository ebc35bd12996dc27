//! Picking the monitor a window lives on.
//!
//! Among the connected monitors, the window belongs to the one its area
//! overlaps most; ties keep the earliest monitor in the enumeration. All
//! rectangles are in whole pixels.

use vstd::prelude::*;

verus! {

/// Largest coordinate or size of a screen rectangle, in pixels.
pub const SCREEN_LIMIT: i64 = 1_000_000;

/// A screen-space rectangle: origin and size, in pixels.
#[derive(Clone, Copy, PartialEq, Eq, Structural, Debug)]
pub struct ScreenRect {
    pub x: i64,
    pub y: i64,
    pub w: i64,
    pub h: i64,
}

impl ScreenRect {
    pub open spec fn wf(self) -> bool {
        &&& -SCREEN_LIMIT <= self.x <= SCREEN_LIMIT
        &&& -SCREEN_LIMIT <= self.y <= SCREEN_LIMIT
        &&& 0 <= self.w <= SCREEN_LIMIT
        &&& 0 <= self.h <= SCREEN_LIMIT
    }
}

pub open spec fn spec_max(a: int, b: int) -> int {
    if a >= b {
        a
    } else {
        b
    }
}

pub open spec fn spec_min(a: int, b: int) -> int {
    if a <= b {
        a
    } else {
        b
    }
}

/// The overlapping area of a window and a monitor, zero when they are apart.
pub open spec fn spec_overlap(win: ScreenRect, mon: ScreenRect) -> int {
    spec_max(
        0,
        spec_min(win.x + win.w, mon.x + mon.w) - spec_max(win.x as int, mon.x as int),
    ) * spec_max(
        0,
        spec_min(win.y + win.h, mon.y + mon.h) - spec_max(win.y as int, mon.y as int),
    )
}

fn overlap(win: &ScreenRect, mon: &ScreenRect) -> (r: i64)
    requires
        win.wf(),
        mon.wf(),
    ensures
        r == spec_overlap(*win, *mon),
        r >= 0,
{
    let x0 = if win.x >= mon.x {
        win.x
    } else {
        mon.x
    };
    let x1 = if win.x + win.w <= mon.x + mon.w {
        win.x + win.w
    } else {
        mon.x + mon.w
    };
    let y0 = if win.y >= mon.y {
        win.y
    } else {
        mon.y
    };
    let y1 = if win.y + win.h <= mon.y + mon.h {
        win.y + win.h
    } else {
        mon.y + mon.h
    };
    let dx = if x1 - x0 >= 0 {
        x1 - x0
    } else {
        0
    };
    let dy = if y1 - y0 >= 0 {
        y1 - y0
    } else {
        0
    };
    proof {
        assert(dx * dy <= 4_000_000i64 * 4_000_000 && dx * dy >= 0) by (nonlinear_arith)
            requires
                0 <= dx <= 4_000_000 && 0 <= dy <= 4_000_000,
        ;
    }
    dx * dy
}

/// The monitor the window overlaps most: the earliest index whose overlap
/// is positive and not beaten by any later one. Nothing is returned when
/// the window overlaps no monitor at all.
pub fn best_monitor(win: &ScreenRect, monitors: &Vec<ScreenRect>) -> (r: Option<usize>)
    requires
        win.wf(),
        forall|i: int| 0 <= i < monitors@.len() ==> (#[trigger] monitors@[i]).wf(),
    ensures
        match r {
            Option::Some(i) => {
                &&& i < monitors@.len()
                &&& spec_overlap(*win, monitors@[i as int]) > 0
                &&& forall|j: int|
                    0 <= j < monitors@.len() ==> spec_overlap(*win, #[trigger] monitors@[j])
                        <= spec_overlap(*win, monitors@[i as int])
                &&& forall|j: int|
                    0 <= j < i ==> spec_overlap(*win, #[trigger] monitors@[j]) < spec_overlap(
                        *win,
                        monitors@[i as int],
                    )
            },
            Option::None => forall|j: int|
                0 <= j < monitors@.len() ==> spec_overlap(*win, #[trigger] monitors@[j]) <= 0,
        },
{
    let mut best: Option<usize> = None;
    let mut best_overlap: i64 = 0;
    let mut i: usize = 0;
    while i < monitors.len()
        invariant
            win.wf(),
            forall|t: int| 0 <= t < monitors@.len() ==> (#[trigger] monitors@[t]).wf(),
            i <= monitors@.len(),
            best_overlap >= 0,
            match best {
                Option::Some(b) => {
                    &&& b < i
                    &&& best_overlap == spec_overlap(*win, monitors@[b as int])
                    &&& best_overlap > 0
                    &&& forall|j: int|
                        0 <= j < i ==> spec_overlap(*win, #[trigger] monitors@[j]) <= best_overlap
                    &&& forall|j: int|
                        0 <= j < b ==> spec_overlap(*win, #[trigger] monitors@[j]) < best_overlap
                },
                Option::None => {
                    &&& best_overlap == 0
                    &&& forall|j: int|
                        0 <= j < i ==> spec_overlap(*win, #[trigger] monitors@[j]) <= 0
                },
            },
        decreases monitors@.len() - i,
    {
        let cand = overlap(win, &monitors[i]);
        if best_overlap < cand {
            best = Some(i);
            best_overlap = cand;
        }
        i = i + 1;
    }
    best
}

} // verus!
