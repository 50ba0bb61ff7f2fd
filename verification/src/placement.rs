//! Where the pointer is put when control crosses an edge, stays on a screen or
//! comes back. Coordinates are in half pixels, so that the middle of a screen is
//! exact; a coordinate that is mapped between screens is left to the caller, who
//! holds it in the stated range.

use vstd::prelude::*;

use crate::capture::Span;
use crate::layout::{NativeRect, Screen};
use crate::switch::{center_of, screen_center_point, HalfPoint};
use crate::targets::{Edge, InputTarget};

verus! {

/// How far inside the shared edge the pointer comes back, in half pixels.
pub const RETURN_EDGE_INSET: i64 = 8;

/// The rule for one coordinate of the pointer.
#[derive(Debug, Clone, Copy, PartialEq, Eq, Structural)]
pub enum AxisPlace {
    /// Exactly here.
    At(i64),
    /// Where it is mapped to, held between the two.
    Within { low: i64, high: i64 },
    /// From `base` on by the movement, if that is positive, held between the
    /// two.
    Forward { base: i64, low: i64, high: i64 },
    /// From `base` on by the movement, if that is negative, held between the
    /// two.
    Backward { base: i64, low: i64, high: i64 },
}

/// The rules for both coordinates.
#[derive(Debug, Clone, Copy, PartialEq, Eq, Structural)]
pub struct Placement {
    pub x: AxisPlace,
    pub y: AxisPlace,
}

/// On the pixels of an axis that starts at `start` and has `size` of them.
pub open spec fn on_axis(start: i32, size: i32) -> AxisPlace {
    AxisPlace::Within { low: (2 * start) as i64, high: (2 * (start + size - 1)) as i64 }
}

fn axis(start: i32, size: i32) -> (place: AxisPlace)
    ensures
        place == on_axis(start, size),
{
    AxisPlace::Within {
        low: 2 * start as i64,
        high: 2 * (start as i64 + size as i64 - 1),
    }
}

/// Anywhere on the screen, in its own coordinates.
pub open spec fn held_on(screen: Screen) -> Placement {
    Placement { x: on_axis(0, screen.width), y: on_axis(0, screen.height) }
}

/// Where the pointer of the controlled machine is held.
pub fn hold_on_screen(screen: &Screen) -> (place: Placement)
    ensures
        place == held_on(*screen),
{
    Placement { x: axis(0, screen.width), y: axis(0, screen.height) }
}

/// Where the pointer enters the screen of a target: one pixel inside the shared
/// edge, carried on by the movement; along the edge where it was.
pub open spec fn entry_place(target: InputTarget) -> Placement {
    let width = target.remote_screen.width;
    let height = target.remote_screen.height;
    let held = held_on(target.remote_screen);
    match target.edge {
        Edge::Right => Placement {
            x: AxisPlace::Forward { base: 2, low: 0, high: (2 * (width - 1)) as i64 },
            ..held
        },
        Edge::Left => Placement {
            x: AxisPlace::Backward {
                base: (2 * (width - 2)) as i64,
                low: 0,
                high: (2 * (width - 1)) as i64,
            },
            ..held
        },
        Edge::Bottom => Placement {
            y: AxisPlace::Forward { base: 2, low: 0, high: (2 * (height - 1)) as i64 },
            ..held
        },
        Edge::Top => Placement {
            y: AxisPlace::Backward {
                base: (2 * (height - 2)) as i64,
                low: 0,
                high: (2 * (height - 1)) as i64,
            },
            ..held
        },
    }
}

pub fn place_entry(target: &InputTarget) -> (place: Placement)
    ensures
        place == entry_place(*target),
{
    let last_x: i64 = 2 * (target.remote_screen.width as i64 - 1);
    let last_y: i64 = 2 * (target.remote_screen.height as i64 - 1);
    let held = hold_on_screen(&target.remote_screen);
    match target.edge {
        Edge::Right => Placement {
            x: AxisPlace::Forward { base: 2, low: 0, high: last_x },
            y: held.y,
        },
        Edge::Left => Placement {
            x: AxisPlace::Backward { base: last_x - 2, low: 0, high: last_x },
            y: held.y,
        },
        Edge::Bottom => Placement {
            x: held.x,
            y: AxisPlace::Forward { base: 2, low: 0, high: last_y },
        },
        Edge::Top => Placement {
            x: held.x,
            y: AxisPlace::Backward { base: last_y - 2, low: 0, high: last_y },
        },
    }
}

/// Where the pointer of the controlled machine is left when control comes back:
/// at the edge that it came in by.
pub open spec fn pinned_place(edge: Edge, screen: Screen) -> Placement {
    let held = held_on(screen);
    match edge {
        Edge::Right => Placement { x: AxisPlace::At(0), ..held },
        Edge::Left => Placement { x: AxisPlace::At((2 * (screen.width - 1)) as i64), ..held },
        Edge::Bottom => Placement { y: AxisPlace::At(0), ..held },
        Edge::Top => Placement { y: AxisPlace::At((2 * (screen.height - 1)) as i64), ..held },
    }
}

pub fn pin_active_to_entry_edge(edge: Edge, screen: &Screen) -> (place: Placement)
    ensures
        place == pinned_place(edge, *screen),
{
    let held = hold_on_screen(screen);
    match edge {
        Edge::Right => Placement { x: AxisPlace::At(0), y: held.y },
        Edge::Left => Placement { x: AxisPlace::At(2 * (screen.width as i64 - 1)), y: held.y },
        Edge::Bottom => Placement { x: held.x, y: AxisPlace::At(0) },
        Edge::Top => Placement { x: held.x, y: AxisPlace::At(2 * (screen.height as i64 - 1)) },
    }
}

/// The inset on an axis of `size` pixels: at most half of it.
pub open spec fn return_inset(size: i32) -> int {
    let half = if size < 1 {
        0
    } else {
        size - 1
    };
    if half < RETURN_EDGE_INSET {
        half
    } else {
        RETURN_EDGE_INSET as int
    }
}

fn inset(size: i32) -> (half_pixels: i64)
    ensures
        half_pixels == return_inset(size),
        0 <= half_pixels <= RETURN_EDGE_INSET,
{
    let half: i64 = if size < 1 {
        0
    } else {
        size as i64 - 1
    };
    if half < RETURN_EDGE_INSET {
        half
    } else {
        RETURN_EDGE_INSET
    }
}

/// Where the pointer comes back on this machine: a little inside the shared
/// edge, so that it does not cross again at once; along the edge where it was.
pub open spec fn return_place(target: InputTarget) -> Placement {
    let local = target.local_screen;
    let x = on_axis(local.x, local.width);
    let y = on_axis(local.y, local.height);
    match target.edge {
        Edge::Right => Placement {
            x: AxisPlace::At(
                (2 * (local.x + local.width - 1) - return_inset(local.width)) as i64,
            ),
            y,
        },
        Edge::Left => Placement {
            x: AxisPlace::At((2 * local.x + return_inset(local.width)) as i64),
            y,
        },
        Edge::Bottom => Placement {
            x,
            y: AxisPlace::At(
                (2 * (local.y + local.height - 1) - return_inset(local.height)) as i64,
            ),
        },
        Edge::Top => Placement {
            x,
            y: AxisPlace::At((2 * local.y + return_inset(local.height)) as i64),
        },
    }
}

pub fn local_return_point(target: &InputTarget) -> (place: Placement)
    ensures
        place == return_place(*target),
{
    let local = &target.local_screen;
    let x = axis(local.x, local.width);
    let y = axis(local.y, local.height);
    match target.edge {
        Edge::Right => Placement {
            x: AxisPlace::At(
                2 * (local.x as i64 + local.width as i64 - 1) - inset(local.width),
            ),
            y,
        },
        Edge::Left => Placement {
            x: AxisPlace::At(2 * local.x as i64 + inset(local.width)),
            y,
        },
        Edge::Bottom => Placement {
            x,
            y: AxisPlace::At(
                2 * (local.y as i64 + local.height as i64 - 1) - inset(local.height),
            ),
        },
        Edge::Top => Placement { x, y: AxisPlace::At(2 * local.y as i64 + inset(local.height)) },
    }
}

/// The rectangle of a screen as it stands.
pub open spec fn rect_of(screen: Screen) -> NativeRect {
    NativeRect { x: screen.x, y: screen.y, width: screen.width, height: screen.height }
}

/// The middle of the screen that control left.
pub fn local_center_point(target: &InputTarget) -> (center: HalfPoint)
    ensures
        center == center_of(rect_of(target.local_screen)),
{
    screen_center_point(
        NativeRect {
            x: target.local_screen.x,
            y: target.local_screen.y,
            width: target.local_screen.width,
            height: target.local_screen.height,
        },
    )
}

/// Where the pointer of a Windows machine is pinned while it controls another:
/// in the middle, with room to move in every direction.
pub fn windows_remote_anchor_point(target: &InputTarget) -> (anchor: HalfPoint)
    ensures
        anchor == center_of(rect_of(target.local_screen)),
{
    local_center_point(target)
}

/// Where the pointer goes when a hotkey gives control back: where a hotkey took
/// it from, else where the shared edge maps it to.
pub fn local_hotkey_return_point<P>(recorded_point: Option<P>, edge_point: P) -> (point: P)
    ensures
        point == match recorded_point {
            Some(recorded) => recorded,
            None => edge_point,
        },
{
    match recorded_point {
        Some(recorded) => recorded,
        None => edge_point,
    }
}

/// Whether turning the vertical axis over leads anywhere else. `doubled` is
/// twice the distance between the two points, which counts from half a pixel.
pub fn mirror_differs(doubled: Span) -> (differs: bool)
    ensures
        differs == !(doubled.floor <= 0 && doubled.ceil >= 0),
{
    !(doubled.floor <= 0 && doubled.ceil >= 0)
}

/// The number that a rule fixes, or the one it starts from.
pub open spec fn fixed_part(place: AxisPlace) -> int {
    match place {
        AxisPlace::At(value) => value as int,
        AxisPlace::Within { low, .. } => low as int,
        AxisPlace::Forward { base, .. } => base as int,
        AxisPlace::Backward { base, .. } => base as int,
    }
}

/// The pointer comes back on the screen that it left, and inside the shared
/// edge by the inset wherever the screen has room for it.
pub proof fn law_return_lands_inside_the_edge(target: InputTarget)
    requires
        target.local_screen.width >= 1,
        target.local_screen.height >= 1,
    ensures
        ({
            let local = target.local_screen;
            let place = return_place(target);
            match target.edge {
                Edge::Right => {
                    &&& 2 * local.x <= fixed_part(place.x) <= 2 * (local.x + local.width - 1)
                    &&& local.width > 8 ==> fixed_part(place.x) == 2 * (local.x + local.width - 5)
                },
                Edge::Left => {
                    &&& 2 * local.x <= fixed_part(place.x) <= 2 * (local.x + local.width - 1)
                    &&& local.width > 8 ==> fixed_part(place.x) == 2 * (local.x + 4)
                },
                Edge::Bottom => {
                    &&& 2 * local.y <= fixed_part(place.y) <= 2 * (local.y + local.height - 1)
                    &&& local.height > 8 ==> fixed_part(place.y) == 2 * (local.y + local.height
                        - 5)
                },
                Edge::Top => {
                    &&& 2 * local.y <= fixed_part(place.y) <= 2 * (local.y + local.height - 1)
                    &&& local.height > 8 ==> fixed_part(place.y) == 2 * (local.y + 4)
                },
            }
        }),
{
}

/// The pointer enters on the entered screen: its start lies on it wherever the
/// screen has two pixels in that direction.
pub proof fn law_entry_starts_on_the_screen(target: InputTarget)
    requires
        target.remote_screen.width >= 2,
        target.remote_screen.height >= 2,
    ensures
        0 <= fixed_part(entry_place(target).x) <= 2 * (target.remote_screen.width - 1),
        0 <= fixed_part(entry_place(target).y) <= 2 * (target.remote_screen.height - 1),
{
}

/// `value`, held between `low` and `high`.
pub open spec fn held_between(value: int, low: int, high: int) -> int {
    if value < low {
        low
    } else if value > high {
        high
    } else {
        value
    }
}

/// Where a rule puts a coordinate that is mapped to `mapped` while the pointer
/// moves by `movement`, all in half pixels.
pub open spec fn placed(place: AxisPlace, mapped: int, movement: int) -> int {
    match place {
        AxisPlace::At(value) => value as int,
        AxisPlace::Within { low, high } => held_between(mapped, low as int, high as int),
        AxisPlace::Forward { base, low, high } => held_between(
            base + if movement > 0 {
                movement
            } else {
                0
            },
            low as int,
            high as int,
        ),
        AxisPlace::Backward { base, low, high } => held_between(
            base + if movement < 0 {
                movement
            } else {
                0
            },
            low as int,
            high as int,
        ),
    }
}

/// The pointer enters one pixel away from the side of the remote screen that is
/// shared with the local one: over the right edge that is the remote left side,
/// over the left edge the right side, over the bottom edge the top, and over the
/// top edge the bottom. A movement that goes on carries it away from that side
/// by just as much, as far as the screen goes, and none carries it back. Along
/// the edge it stays where it is mapped to, if that is on the screen.
pub proof fn law_entry_is_next_to_the_shared_side(
    target: InputTarget,
    mapped_x: int,
    mapped_y: int,
    dx: int,
    dy: int,
)
    requires
        target.remote_screen.width >= 2,
        target.remote_screen.height >= 2,
    ensures
        ({
            let right_side = 2 * (target.remote_screen.width - 1);
            let bottom_side = 2 * (target.remote_screen.height - 1);
            let x = placed(entry_place(target).x, mapped_x, dx);
            let y = placed(entry_place(target).y, mapped_y, dy);
            &&& 0 <= x <= right_side
            &&& 0 <= y <= bottom_side
            &&& (target.edge == Edge::Right || target.edge == Edge::Left) ==> {
                &&& 0 <= mapped_y <= bottom_side ==> y == mapped_y
                &&& mapped_y < 0 ==> y == 0
                &&& mapped_y > bottom_side ==> y == bottom_side
            }
            &&& (target.edge == Edge::Bottom || target.edge == Edge::Top) ==> {
                &&& 0 <= mapped_x <= right_side ==> x == mapped_x
                &&& mapped_x < 0 ==> x == 0
                &&& mapped_x > right_side ==> x == right_side
            }
            &&& match target.edge {
                Edge::Right => {
                    &&& dx <= 0 ==> x == 2
                    &&& 0 <= dx <= right_side - 2 ==> x - 2 == dx
                    &&& dx >= right_side - 2 ==> x == right_side
                },
                Edge::Left => {
                    &&& dx >= 0 ==> right_side - x == 2
                    &&& 0 <= -dx <= right_side - 2 ==> right_side - 2 - x == -dx
                    &&& -dx >= right_side - 2 ==> x == 0
                },
                Edge::Bottom => {
                    &&& dy <= 0 ==> y == 2
                    &&& 0 <= dy <= bottom_side - 2 ==> y - 2 == dy
                    &&& dy >= bottom_side - 2 ==> y == bottom_side
                },
                Edge::Top => {
                    &&& dy >= 0 ==> bottom_side - y == 2
                    &&& 0 <= -dy <= bottom_side - 2 ==> bottom_side - 2 - y == -dy
                    &&& -dy >= bottom_side - 2 ==> y == 0
                },
            }
        }),
{
}

/// A screen is entered the same way from either side: what enters over the left
/// edge is the mirror image of what enters over the right one, and so for top
/// and bottom.
pub proof fn law_entry_is_mirrored(
    target: InputTarget,
    opposite: InputTarget,
    mapped: int,
    movement: int,
)
    requires
        target.remote_screen == opposite.remote_screen,
        target.remote_screen.width >= 2,
        target.remote_screen.height >= 2,
    ensures
        target.edge == Edge::Right && opposite.edge == Edge::Left ==> placed(
            entry_place(target).x,
            mapped,
            movement,
        ) + placed(entry_place(opposite).x, mapped, -movement) == 2 * (target.remote_screen.width
            - 1),
        target.edge == Edge::Bottom && opposite.edge == Edge::Top ==> placed(
            entry_place(target).y,
            mapped,
            movement,
        ) + placed(entry_place(opposite).y, mapped, -movement) == 2 * (target.remote_screen.height
            - 1),
{
}

/// A pointer that roams another machine is moved only as far as it takes to be
/// on the pixels of the screen.
pub proof fn law_held_pointer_stays_on_the_screen(
    screen: Screen,
    mapped_x: int,
    mapped_y: int,
    dx: int,
    dy: int,
)
    requires
        screen.width >= 1,
        screen.height >= 1,
    ensures
        ({
            let x = placed(held_on(screen).x, mapped_x, dx);
            let y = placed(held_on(screen).y, mapped_y, dy);
            &&& 0 <= x <= 2 * (screen.width - 1)
            &&& 0 <= y <= 2 * (screen.height - 1)
            &&& 0 <= mapped_x <= 2 * (screen.width - 1) ==> x == mapped_x
            &&& 0 <= mapped_y <= 2 * (screen.height - 1) ==> y == mapped_y
            &&& mapped_x < 0 ==> x == 0
            &&& mapped_y < 0 ==> y == 0
            &&& mapped_x > 2 * (screen.width - 1) ==> x == 2 * (screen.width - 1)
            &&& mapped_y > 2 * (screen.height - 1) ==> y == 2 * (screen.height - 1)
        }),
{
}

/// The pointer that control leaves behind rests on the side of the remote screen
/// that is shared: the left one of a machine to the right, the right one of a
/// machine to the left, the top of one below, the bottom of one above. Along
/// that side it stays where it was, as far as the screen goes.
pub proof fn law_pinned_pointer_rests_on_the_shared_side(
    edge: Edge,
    screen: Screen,
    mapped_x: int,
    mapped_y: int,
    dx: int,
    dy: int,
)
    requires
        screen.width >= 1,
        screen.height >= 1,
    ensures
        ({
            let x = placed(pinned_place(edge, screen).x, mapped_x, dx);
            let y = placed(pinned_place(edge, screen).y, mapped_y, dy);
            let right_side = 2 * (screen.width - 1);
            let bottom_side = 2 * (screen.height - 1);
            match edge {
                Edge::Right => x == 0 && y == held_between(mapped_y, 0, bottom_side),
                Edge::Left => x == right_side && y == held_between(mapped_y, 0, bottom_side),
                Edge::Bottom => y == 0 && x == held_between(mapped_x, 0, right_side),
                Edge::Top => y == bottom_side && x == held_between(mapped_x, 0, right_side),
            }
        }),
{
}

/// The pointer comes back at the edge of the local screen that it left by, four
/// pixels inside of it or in the middle of a screen that is too small for that,
/// and along the edge on the pixels of that same screen, where it is mapped to.
pub proof fn law_return_is_at_the_edge_that_was_left(
    target: InputTarget,
    mapped_x: int,
    mapped_y: int,
    dx: int,
    dy: int,
)
    requires
        target.local_screen.width >= 1,
        target.local_screen.height >= 1,
    ensures
        ({
            let local = target.local_screen;
            let left = 2 * local.x;
            let top = 2 * local.y;
            let right = 2 * (local.x + local.width - 1);
            let bottom = 2 * (local.y + local.height - 1);
            let x = placed(return_place(target).x, mapped_x, dx);
            let y = placed(return_place(target).y, mapped_y, dy);
            let from_left = x - left;
            let from_right = right - x;
            let from_top = y - top;
            let from_bottom = bottom - y;
            &&& left <= x <= right && top <= y <= bottom
            &&& match target.edge {
                Edge::Right => if local.width >= 9 {
                    from_right == 8
                } else {
                    from_right == from_left
                },
                Edge::Left => if local.width >= 9 {
                    from_left == 8
                } else {
                    from_left == from_right
                },
                Edge::Bottom => if local.height >= 9 {
                    from_bottom == 8
                } else {
                    from_bottom == from_top
                },
                Edge::Top => if local.height >= 9 {
                    from_top == 8
                } else {
                    from_top == from_bottom
                },
            }
            &&& (target.edge == Edge::Right || target.edge == Edge::Left) ==> y == held_between(
                mapped_y,
                top,
                bottom,
            )
            &&& (target.edge == Edge::Bottom || target.edge == Edge::Top) ==> x == held_between(
                mapped_x,
                left,
                right,
            )
        }),
{
}

/// The middle of a screen is as far from its left as from its right border, and
/// as far from its top as from its bottom.
pub proof fn law_center_is_in_the_middle(screen: Screen)
    requires
        screen.width >= 2,
        screen.height >= 2,
    ensures
        ({
            let center = center_of(rect_of(screen));
            &&& center.x - 2 * screen.x == 2 * (screen.x + screen.width) - center.x
            &&& center.y - 2 * screen.y == 2 * (screen.y + screen.height) - center.y
        }),
{
}

} // verus!
