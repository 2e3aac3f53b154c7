//! Where the windows go on screen, in physical pixels. The monitor and
//! window sizes, and the margins scaled by the display factor, are read
//! from the windowing system around this module.
use vstd::prelude::*;

verus! {

/// `x` is a value of `i32`.
pub open spec fn in_i32(x: int) -> bool {
    i32::MIN <= x <= i32::MAX
}

/// The larger of two integers.
pub open spec fn max_int(a: int, b: int) -> int {
    if a >= b {
        a
    } else {
        b
    }
}

/// Every partial sum of the bottom-right position fits in `i32`.
pub open spec fn bottom_right_fits(
    mon_x: i32,
    mon_y: i32,
    mon_w: i32,
    mon_h: i32,
    win_w: i32,
    win_h: i32,
    right_margin: i32,
    taskbar_reserve: i32,
    bottom_gap: i32,
) -> bool {
    &&& in_i32(mon_x + mon_w)
    &&& in_i32(mon_x + mon_w - win_w)
    &&& in_i32(mon_x + mon_w - win_w - right_margin)
    &&& in_i32(mon_y + mon_h)
    &&& in_i32(mon_y + mon_h - win_h)
    &&& in_i32(mon_y + mon_h - win_h - taskbar_reserve)
    &&& in_i32(mon_y + mon_h - win_h - taskbar_reserve - bottom_gap)
}

/// The window's top-left corner for the bottom-right corner of the
/// monitor's work area: the monitor's far edge, less the window size, the
/// right margin, the task bar and the gap above it; never left of or above
/// the monitor's origin.
pub fn bottom_right_position(
    mon_x: i32,
    mon_y: i32,
    mon_w: i32,
    mon_h: i32,
    win_w: i32,
    win_h: i32,
    right_margin: i32,
    taskbar_reserve: i32,
    bottom_gap: i32,
) -> (r: (i32, i32))
    requires
        bottom_right_fits(
            mon_x,
            mon_y,
            mon_w,
            mon_h,
            win_w,
            win_h,
            right_margin,
            taskbar_reserve,
            bottom_gap,
        ),
    ensures
        r.0 == max_int(mon_x + mon_w - win_w - right_margin, mon_x as int),
        r.1 == max_int(mon_y + mon_h - win_h - taskbar_reserve - bottom_gap, mon_y as int),
{
    let x = mon_x + mon_w - win_w - right_margin;
    let y = mon_y + mon_h - win_h - taskbar_reserve - bottom_gap;
    let x = if x >= mon_x {
        x
    } else {
        mon_x
    };
    let y = if y >= mon_y {
        y
    } else {
        mon_y
    };
    (x, y)
}

/// The margin from the screen edges on macOS, in physical pixels.
pub const MAC_EDGE_MARGIN: i32 = 20;

/// Every partial sum of the top-right position fits in `i32`.
pub open spec fn top_right_fits(mon_x: i32, mon_y: i32, mon_w: i32, win_w: i32) -> bool {
    &&& in_i32(mon_x + mon_w)
    &&& in_i32(mon_x + mon_w - win_w)
    &&& in_i32(mon_x + mon_w - win_w - 20)
    &&& in_i32(mon_y + 25)
    &&& in_i32(mon_y + 29)
}

/// The window's top-left corner for the top-right corner of the screen on
/// macOS: right edge less the window width and the margin; just below the
/// 25-pixel menu bar, with 4 pixels to spare.
pub fn top_right_position(mon_x: i32, mon_y: i32, mon_w: i32, win_w: i32) -> (r: (i32, i32))
    requires
        top_right_fits(mon_x, mon_y, mon_w, win_w),
    ensures
        r.0 == mon_x + mon_w - win_w - 20,
        r.1 == mon_y + 29,
{
    let x = mon_x + mon_w - win_w - MAC_EDGE_MARGIN;
    let menu_bar_h: i32 = 25;
    let y = mon_y + menu_bar_h + 4;
    (x, y)
}

/// Division of an `i32` by 2, truncated toward zero.
pub open spec fn half(a: int) -> int {
    if a >= 0 {
        a / 2
    } else {
        -((-a) / 2)
    }
}

/// Every partial sum of the position below the tray icon fits in `i32`.
pub open spec fn near_tray_fits(
    icon_x: i32,
    icon_y: i32,
    icon_w: i32,
    icon_h: i32,
    win_w: i32,
    mon_x: i32,
    mon_w: i32,
) -> bool {
    &&& in_i32(icon_x + half(icon_w as int))
    &&& in_i32(icon_x + half(icon_w as int) - half(win_w as int))
    &&& in_i32(icon_y + icon_h)
    &&& in_i32(icon_y + icon_h + 4)
    &&& in_i32(mon_x + 20)
    &&& in_i32(mon_x + mon_w)
    &&& in_i32(mon_x + mon_w - win_w)
    &&& in_i32(mon_x + mon_w - win_w - 20)
}

/// The window's top-left corner below the tray icon on macOS: centred
/// under the icon, its top at the icon's bottom plus 4 pixels, kept between
/// the screen's left edge plus the margin and its right edge less the
/// window width and the margin (the left bound wins when they cross).
pub fn near_tray_position(
    icon_x: i32,
    icon_y: i32,
    icon_w: i32,
    icon_h: i32,
    win_w: i32,
    mon_x: i32,
    mon_w: i32,
) -> (r: (i32, i32))
    requires
        near_tray_fits(icon_x, icon_y, icon_w, icon_h, win_w, mon_x, mon_w),
    ensures
        ({
            let x0 = icon_x + half(icon_w as int) - half(win_w as int);
            let min_x = mon_x + 20;
            let max_x = max_int(mon_x + mon_w - win_w - 20, min_x);
            r.0 == (if x0 < min_x {
                min_x
            } else if x0 > max_x {
                max_x
            } else {
                x0
            })
        }),
        r.1 == icon_y + icon_h + 4,
{
    let icon_center_x = icon_x + icon_w / 2;
    let x = icon_center_x - win_w / 2;
    let y = icon_y + icon_h + 4;
    let min_x = mon_x + MAC_EDGE_MARGIN;
    let max_x = mon_x + mon_w - win_w - MAC_EDGE_MARGIN;
    let max_x = if max_x >= min_x {
        max_x
    } else {
        min_x
    };
    let x = if x < min_x {
        min_x
    } else if x > max_x {
        max_x
    } else {
        x
    };
    (x, y)
}

/// `x` (computed in `i64`) is a value of `i32`.
fn fits_i32(x: i64) -> (r: bool)
    ensures
        r == in_i32(x as int),
{
    -2147483648 <= x && x <= 2147483647
}

/// Whether [`bottom_right_position`] can be computed for these sizes.
pub fn bottom_right_in_range(
    mon_x: i32,
    mon_y: i32,
    mon_w: i32,
    mon_h: i32,
    win_w: i32,
    win_h: i32,
    right_margin: i32,
    taskbar_reserve: i32,
    bottom_gap: i32,
) -> (r: bool)
    ensures
        r == bottom_right_fits(
            mon_x,
            mon_y,
            mon_w,
            mon_h,
            win_w,
            win_h,
            right_margin,
            taskbar_reserve,
            bottom_gap,
        ),
{
    let a = mon_x as i64 + mon_w as i64;
    let b = a - win_w as i64;
    let c = b - right_margin as i64;
    let d = mon_y as i64 + mon_h as i64;
    let e = d - win_h as i64;
    let f = e - taskbar_reserve as i64;
    let g = f - bottom_gap as i64;
    fits_i32(a) && fits_i32(b) && fits_i32(c) && fits_i32(d) && fits_i32(e) && fits_i32(f)
        && fits_i32(g)
}

/// Whether [`top_right_position`] can be computed for these sizes.
pub fn top_right_in_range(mon_x: i32, mon_y: i32, mon_w: i32, win_w: i32) -> (r: bool)
    ensures
        r == top_right_fits(mon_x, mon_y, mon_w, win_w),
{
    let a = mon_x as i64 + mon_w as i64;
    let b = a - win_w as i64;
    let c = b - 20;
    fits_i32(a) && fits_i32(b) && fits_i32(c) && fits_i32(mon_y as i64 + 25) && fits_i32(
        mon_y as i64 + 29,
    )
}

/// Whether [`near_tray_position`] can be computed for these sizes.
pub fn near_tray_in_range(
    icon_x: i32,
    icon_y: i32,
    icon_w: i32,
    icon_h: i32,
    win_w: i32,
    mon_x: i32,
    mon_w: i32,
) -> (r: bool)
    ensures
        r == near_tray_fits(icon_x, icon_y, icon_w, icon_h, win_w, mon_x, mon_w),
{
    let hw = icon_w / 2;
    let hv = win_w / 2;
    assert(hw == half(icon_w as int));
    assert(hv == half(win_w as int));
    let a = icon_x as i64 + hw as i64;
    let b = a - hv as i64;
    let c = icon_y as i64 + icon_h as i64;
    let d = c + 4;
    let e = mon_x as i64 + 20;
    let f = mon_x as i64 + mon_w as i64;
    let g = f - win_w as i64;
    let h = g - 20;
    fits_i32(a) && fits_i32(b) && fits_i32(c) && fits_i32(d) && fits_i32(e) && fits_i32(f)
        && fits_i32(g) && fits_i32(h)
}

// ───────────────────────── waiting for the tray icon on macOS ─────────────────────────

/// How many times the tray icon's position is asked for before giving up.
pub const TRAY_POLL_ATTEMPTS: u32 = 15;

/// What to do after asking for the tray icon's position once.
pub enum TrayStep {
    /// The icon sits in the right half of the screen: drop the window down
    /// below it.
    Anchor,
    /// Not yet laid out: wait 100 ms and ask again.
    Retry,
    /// Still not laid out after the last attempt: wait 100 ms, then use the
    /// top-right corner.
    GiveUp,
}

/// The step after attempt number `attempt` (from 0) found the icon at
/// `icon_x` (`None` when the tray or its position was not available): the
/// position counts once it lies right of the middle of a screen `screen_w`
/// wide, since the menu bar reports a provisional position (such as 0)
/// before it has laid the icon out.
pub open spec fn tray_step_spec(attempt: u32, icon_x: Option<i32>, screen_w: i32) -> TrayStep {
    if icon_x is Some && icon_x->0 > half(screen_w as int) {
        TrayStep::Anchor
    } else if attempt + 1 < TRAY_POLL_ATTEMPTS {
        TrayStep::Retry
    } else {
        TrayStep::GiveUp
    }
}

/// The step after one attempt to find the tray icon.
pub fn tray_poll_step(attempt: u32, icon_x: Option<i32>, screen_w: i32) -> (r: TrayStep)
    ensures
        r == tray_step_spec(attempt, icon_x, screen_w),
{
    let mid = screen_w / 2;
    assert(mid == half(screen_w as int));
    match icon_x {
        Some(x) => {
            if x > mid {
                return TrayStep::Anchor;
            }
        },
        None => {},
    }
    if attempt < TRAY_POLL_ATTEMPTS - 1 {
        TrayStep::Retry
    } else {
        TrayStep::GiveUp
    }
}

} // verus!
