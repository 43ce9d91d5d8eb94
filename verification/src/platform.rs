//! Platform decisions that need no platform call: the Wayland warning, the
//! cursor position where no platform API gives it, and where to put a window
//! that ended up off screen.

use vstd::prelude::*;

verus! {

/// Whether to warn that the pet will not stay on top: a Wayland session
/// (`WAYLAND_DISPLAY` set) without X11 (`DISPLAY` unset).
pub fn init(wayland_display_set: bool, x_display_set: bool) -> (warn: bool)
    ensures
        warn == (wayland_display_set && !x_display_set),
{
    wayland_display_set && !x_display_set
}

/// Hides the Dock icon; there is no Dock on this platform, so nothing is done.
pub fn hide_dock() {
}

/// The cursor's absolute screen position. No platform API gives it here, so
/// the caller falls back to window-relative positions.
pub fn cursor_screen_position() -> (r: Option<(i32, i32)>)
    ensures
        r is None,
{
    None
}

/// A screen rectangle in physical pixels.
#[derive(Debug, Clone, Copy, PartialEq, Eq, Structural)]
pub struct Rect {
    pub left: i32,
    pub top: i32,
    pub right: i32,
    pub bottom: i32,
}

/// A display's work area and whether it is the primary display.
#[derive(Debug, Clone, Copy)]
pub struct MonitorArea {
    pub work: Rect,
    pub primary: bool,
}

pub open spec fn max_int(a: int, b: int) -> int {
    if a >= b {
        a
    } else {
        b
    }
}

pub open spec fn min_int(a: int, b: int) -> int {
    if a <= b {
        a
    } else {
        b
    }
}

/// Width of the overlap of two rectangles along x (possibly negative).
pub open spec fn span_x(a: Rect, b: Rect) -> int {
    min_int(a.right as int, b.right as int) - max_int(a.left as int, b.left as int)
}

/// Height of the overlap of two rectangles along y (possibly negative).
pub open spec fn span_y(a: Rect, b: Rect) -> int {
    min_int(a.bottom as int, b.bottom as int) - max_int(a.top as int, b.top as int)
}

/// The area two rectangles share.
pub open spec fn overlap(a: Rect, b: Rect) -> int {
    max_int(0, span_x(a, b)) * max_int(0, span_y(a, b))
}

/// The largest area the window shares with one work area (0 with none).
pub open spec fn max_overlap(win: Rect, ms: Seq<MonitorArea>) -> int
    decreases ms.len(),
{
    if ms.len() == 0 {
        0
    } else {
        max_int(max_overlap(win, ms.drop_last()), overlap(win, ms.last().work))
    }
}

/// The work area of the primary display (the last one marked primary).
pub open spec fn primary_work(ms: Seq<MonitorArea>) -> Option<Rect>
    decreases ms.len(),
{
    if ms.len() == 0 {
        None
    } else if ms.last().primary {
        Some(ms.last().work)
    } else {
        primary_work(ms.drop_last())
    }
}

/// Where to move a window that less than a quarter of is visible on any
/// work area: the bottom-right corner of the primary work area, 18 px from
/// the right and 24 px from the bottom. `None` when the window is visible
/// enough, has no area, or there is no primary display.
pub open spec fn offscreen_target_spec(win: Rect, ms: Seq<MonitorArea>) -> Option<(int, int)> {
    let w = win.right - win.left;
    let h = win.bottom - win.top;
    if w * h > 0 && max_overlap(win, ms) * 4 < w * h {
        match primary_work(ms) {
            Some(work) => Some((work.right - w - 18, work.bottom - h - 24)),
            None => None,
        }
    } else {
        None
    }
}

/// Every difference the computation takes in `i32` fits, and so does the
/// quadrupled overlap in `i64`.
pub open spec fn offscreen_fits(win: Rect, ms: Seq<MonitorArea>) -> bool {
    &&& i32::MIN <= win.right - win.left <= i32::MAX
    &&& i32::MIN <= win.bottom - win.top <= i32::MAX
    &&& forall|k: int|
        0 <= k < ms.len() ==> {
            &&& i32::MIN <= #[trigger] span_x(win, ms[k].work) <= i32::MAX
            &&& i32::MIN <= span_y(win, ms[k].work) <= i32::MAX
            &&& overlap(win, ms[k].work) * 4 <= i64::MAX
        }
    &&& match offscreen_target_spec(win, ms) {
        Some((x, y)) => i32::MIN <= x <= i32::MAX && i32::MIN <= y <= i32::MAX,
        None => true,
    }
}

fn max_i32(a: i32, b: i32) -> (r: i32)
    ensures
        r == max_int(a as int, b as int),
{
    if a >= b {
        a
    } else {
        b
    }
}

fn min_i32(a: i32, b: i32) -> (r: i32)
    ensures
        r == min_int(a as int, b as int),
{
    if a <= b {
        a
    } else {
        b
    }
}

/// Decides where to move a window that is (mostly) off screen, given the
/// window's rectangle and every display's work area.
pub fn offscreen_target(win: Rect, monitors: &Vec<MonitorArea>) -> (r: Option<(i32, i32)>)
    requires
        offscreen_fits(win, monitors@),
    ensures
        match r {
            Some((x, y)) => offscreen_target_spec(win, monitors@) == Some((x as int, y as int)),
            None => offscreen_target_spec(win, monitors@) is None,
        },
{
    let w: i32 = win.right - win.left;
    let h: i32 = win.bottom - win.top;
    assert(i64::MIN <= (w as int) * (h as int) <= i64::MAX) by (nonlinear_arith)
        requires
            i32::MIN <= w <= i32::MAX,
            i32::MIN <= h <= i32::MAX,
    ;
    let area: i64 = (w as i64) * (h as i64);
    let mut best: i64 = 0;
    let mut primary: Option<Rect> = None;
    let mut k: usize = 0;
    while k < monitors.len()
        invariant
            k <= monitors.len(),
            offscreen_fits(win, monitors@),
            best == max_overlap(win, monitors@.take(k as int)),
            0 <= best,
            best * 4 <= i64::MAX,
            primary == primary_work(monitors@.take(k as int)),
        decreases monitors.len() - k,
    {
        let b = monitors[k].work;
        assert(monitors@.take(k + 1).drop_last() =~= monitors@.take(k as int));
        assert(monitors@.take(k + 1).last() == monitors@[k as int]);
        let ghost sx = span_x(win, b);
        let ghost sy = span_y(win, b);
        assert(i32::MIN <= sx <= i32::MAX && i32::MIN <= sy <= i32::MAX && overlap(win, b) * 4
            <= i64::MAX);
        let ix: i32 = max_i32(0, min_i32(win.right, b.right) - max_i32(win.left, b.left));
        let iy: i32 = max_i32(0, min_i32(win.bottom, b.bottom) - max_i32(win.top, b.top));
        assert((ix as int) * (iy as int) == overlap(win, b));
        assert(0 <= (ix as int) * (iy as int) <= i64::MAX) by (nonlinear_arith)
            requires
                0 <= ix <= i32::MAX,
                0 <= iy <= i32::MAX,
        ;
        let o: i64 = (ix as i64) * (iy as i64);
        if o > best {
            best = o;
        }
        if monitors[k].primary {
            primary = Some(b);
        }
        k = k + 1;
    }
    assert(monitors@.take(monitors@.len() as int) =~= monitors@);
    if area > 0 && best * 4 < area {
        match primary {
            Some(work) => {
                let x = work.right as i64 - w as i64 - 18;
                let y = work.bottom as i64 - h as i64 - 24;
                Some((x as i32, y as i32))
            },
            None => None,
        }
    } else {
        None
    }
}

/// The top-left position that puts a `win_w` × `win_h` window in the
/// bottom-right corner of an area ending at (`right`, `bottom`), 18 px from
/// the right and 24 px from the bottom.
pub fn bottom_right(right: i32, bottom: i32, win_w: i32, win_h: i32) -> (r: (i32, i32))
    requires
        i32::MIN <= right - win_w - 18 <= i32::MAX,
        i32::MIN <= bottom - win_h - 24 <= i32::MAX,
    ensures
        r.0 == right - win_w - 18,
        r.1 == bottom - win_h - 24,
{
    ((right as i64 - win_w as i64 - 18) as i32, (bottom as i64 - win_h as i64 - 24) as i32)
}

} // verus!
