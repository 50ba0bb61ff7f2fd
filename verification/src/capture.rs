//! The controlling side: when control moves to another machine and back, and
//! what is sent while it is there.

use vstd::prelude::*;

use crate::layout::{device_with_id, find_device, LayoutState, Screen};
use crate::packets::layout_value;
use crate::targets::{
    own_screen_id, peer_screen_id, target_is_online, target_reachable, Edge, InputTarget,
};
use crate::text::same_text;

verus! {

/// The shortest time between two pointer positions that are sent.
pub const MOUSE_MOVE_SEND_INTERVAL: u64 = 4_000_000;

/// The same while a button is held.
pub const DRAG_MOVE_SEND_INTERVAL: u64 = 4_000_000;

/// How close to the last pixel the pointer has to be for a crossing.
pub const CROSSING_MARGIN: i64 = 1;

/// The smallest movement that counts as a push over an edge.
pub const MIN_CROSSING_DELTA: i64 = 1;

/// How close to the edge the pointer has to have been before a crossing. A
/// single jump from the middle of the screen is no crossing.
pub const CROSSING_ACTIVATION_BAND: i64 = 160;

/// The distance of the parked pointer from the corner of the screen, which may
/// carry an action of the system.
pub const PARK_CORNER_MARGIN: i64 = 64;

/// The whole numbers around a coordinate or a movement: both are the value
/// itself where it is whole.
#[derive(Debug, Clone, Copy, PartialEq, Eq, Structural)]
pub struct Span {
    pub floor: i64,
    pub ceil: i64,
}

/// One sample of the pointer: where it is, where it was, how it moved, and
/// whether the movement on each axis is at least half of that on the other.
#[derive(Debug, Clone, Copy, PartialEq, Eq, Structural)]
pub struct Motion {
    pub x: Span,
    pub y: Span,
    pub previous_x: Span,
    pub previous_y: Span,
    pub dx: Span,
    pub dy: Span,
    pub horizontal: bool,
    pub vertical: bool,
}

/// The control of another machine: the target that was entered and the screen
/// of it that the pointer is on, with the id that the other side knows it by.
#[derive(Debug, PartialEq, Eq)]
pub struct ActiveTarget {
    pub target: InputTarget,
    pub current_screen: Screen,
    pub current_screen_id: String,
    pub invert_y: bool,
}

impl Clone for ActiveTarget {
    fn clone(&self) -> (active: Self)
        ensures
            active == *self,
    {
        ActiveTarget {
            target: self.target.clone(),
            current_screen: self.current_screen.clone(),
            current_screen_id: self.current_screen_id.clone(),
            invert_y: self.invert_y,
        }
    }
}

/// The control that begins where a target is entered.
pub open spec fn entered(target: InputTarget, invert_y: bool) -> ActiveTarget {
    ActiveTarget {
        target,
        current_screen: Screen { id: target.screen_id, ..target.remote_screen },
        current_screen_id: target.screen_id,
        invert_y,
    }
}

pub fn enter_target(target: &InputTarget, invert_y: bool) -> (active: ActiveTarget)
    ensures
        active == entered(*target, invert_y),
{
    let mut current_screen = target.remote_screen.clone();
    current_screen.id = target.screen_id.clone();
    ActiveTarget {
        target: target.clone(),
        current_screen,
        current_screen_id: target.screen_id.clone(),
        invert_y,
    }
}

/// The pointer is within the rows of the screen, give or take the margin.
pub open spec fn beside_rows(screen: Screen, motion: Motion) -> bool {
    &&& motion.y.floor >= screen.y - CROSSING_MARGIN
    &&& motion.y.ceil <= screen.y + screen.height + CROSSING_MARGIN
}

/// The pointer is within the columns of the screen, give or take the margin.
pub open spec fn beside_columns(screen: Screen, motion: Motion) -> bool {
    &&& motion.x.floor >= screen.x - CROSSING_MARGIN
    &&& motion.x.ceil <= screen.x + screen.width + CROSSING_MARGIN
}

/// The pointer is pushed over `edge` of the screen: it moves outward, mostly
/// along that axis, was already near the edge and has reached it.
pub open spec fn crosses(screen: Screen, edge: Edge, motion: Motion) -> bool {
    match edge {
        Edge::Right => {
            &&& motion.dx.floor >= MIN_CROSSING_DELTA
            &&& motion.horizontal
            &&& motion.previous_x.floor >= screen.x + screen.width - CROSSING_ACTIVATION_BAND
            &&& motion.x.floor >= screen.x + screen.width - CROSSING_MARGIN
            &&& beside_rows(screen, motion)
        },
        Edge::Left => {
            &&& motion.dx.ceil <= -MIN_CROSSING_DELTA
            &&& motion.horizontal
            &&& motion.previous_x.ceil <= screen.x + CROSSING_ACTIVATION_BAND
            &&& motion.x.ceil <= screen.x + CROSSING_MARGIN
            &&& beside_rows(screen, motion)
        },
        Edge::Bottom => {
            &&& motion.dy.floor >= MIN_CROSSING_DELTA
            &&& motion.vertical
            &&& motion.previous_y.floor >= screen.y + screen.height - CROSSING_ACTIVATION_BAND
            &&& motion.y.floor >= screen.y + screen.height - CROSSING_MARGIN
            &&& beside_columns(screen, motion)
        },
        Edge::Top => {
            &&& motion.dy.ceil <= -MIN_CROSSING_DELTA
            &&& motion.vertical
            &&& motion.previous_y.ceil <= screen.y + CROSSING_ACTIVATION_BAND
            &&& motion.y.ceil <= screen.y + CROSSING_MARGIN
            &&& beside_columns(screen, motion)
        },
    }
}

pub fn is_crossing_screen(screen: &Screen, edge: Edge, motion: &Motion) -> (crossing: bool)
    ensures
        crossing == crosses(*screen, edge, *motion),
{
    let left: i64 = screen.x as i64;
    let right: i64 = screen.x as i64 + screen.width as i64;
    let top: i64 = screen.y as i64;
    let bottom: i64 = screen.y as i64 + screen.height as i64;
    let rows = motion.y.floor >= top - CROSSING_MARGIN && motion.y.ceil <= bottom + CROSSING_MARGIN;
    let columns = motion.x.floor >= left - CROSSING_MARGIN && motion.x.ceil <= right
        + CROSSING_MARGIN;
    match edge {
        Edge::Right => motion.dx.floor >= MIN_CROSSING_DELTA && motion.horizontal
            && motion.previous_x.floor >= right - CROSSING_ACTIVATION_BAND && motion.x.floor
            >= right - CROSSING_MARGIN && rows,
        Edge::Left => motion.dx.ceil <= -MIN_CROSSING_DELTA && motion.horizontal
            && motion.previous_x.ceil <= left + CROSSING_ACTIVATION_BAND && motion.x.ceil <= left
            + CROSSING_MARGIN && rows,
        Edge::Bottom => motion.dy.floor >= MIN_CROSSING_DELTA && motion.vertical
            && motion.previous_y.floor >= bottom - CROSSING_ACTIVATION_BAND && motion.y.floor
            >= bottom - CROSSING_MARGIN && columns,
        Edge::Top => motion.dy.ceil <= -MIN_CROSSING_DELTA && motion.vertical
            && motion.previous_y.ceil <= top + CROSSING_ACTIVATION_BAND && motion.y.ceil <= top
            + CROSSING_MARGIN && columns,
    }
}

/// One sample as a target sees it: in the native pixels of its local screen and
/// in layout coordinates.
#[derive(Debug, Clone, Copy, PartialEq, Eq, Structural)]
pub struct CrossingMotion {
    pub native: Motion,
    pub mapped: Motion,
}

/// The sample crosses over to the target, in native or in layout coordinates.
pub open spec fn crosses_to(target: InputTarget, motion: CrossingMotion) -> bool {
    crosses(target.local_screen, target.edge, motion.native) || crosses(
        target.layout_local_screen,
        target.edge,
        motion.mapped,
    )
}

pub fn crossing_layout_point(target: &InputTarget, motion: &CrossingMotion) -> (crossing: bool)
    ensures
        crossing == crosses_to(*target, *motion),
{
    is_crossing_screen(&target.local_screen, target.edge, &motion.native) || is_crossing_screen(
        &target.layout_local_screen,
        target.edge,
        &motion.mapped,
    )
}

/// Whether the target at `index` is entered by its sample: it is online and
/// crossed to.
pub open spec fn enters(
    targets: Seq<InputTarget>,
    motions: Seq<CrossingMotion>,
    layout: Option<LayoutState>,
    index: int,
) -> bool {
    &&& 0 <= index < targets.len()
    &&& index < motions.len()
    &&& layout matches Some(layout) && target_reachable(layout, targets[index].device_id@)
    &&& crosses_to(targets[index], motions[index])
}

/// `index` is the first target that is entered.
pub open spec fn first_entered(
    targets: Seq<InputTarget>,
    motions: Seq<CrossingMotion>,
    layout: Option<LayoutState>,
    index: int,
) -> bool {
    &&& enters(targets, motions, layout, index)
    &&& forall|i: int| 0 <= i < index ==> !#[trigger] enters(targets, motions, layout, i)
}

pub open spec fn none_entered(
    targets: Seq<InputTarget>,
    motions: Seq<CrossingMotion>,
    layout: Option<LayoutState>,
) -> bool {
    forall|i: int| 0 <= i < targets.len() ==> !#[trigger] enters(targets, motions, layout, i)
}

/// The first online target that the pointer crosses to. There is one sample for
/// each target.
pub fn crossing_target_with_transform(
    targets: &[InputTarget],
    motions: &[CrossingMotion],
    invert_y: bool,
    layout: Option<&LayoutState>,
) -> (found: Option<(usize, ActiveTarget)>)
    ensures
        match found {
            Some((index, active)) => {
                &&& first_entered(targets@, motions@, layout_value(layout), index as int)
                &&& active == entered(targets@[index as int], invert_y)
            },
            None => none_entered(targets@, motions@, layout_value(layout)),
        },
{
    let mut index: usize = 0;
    while index < targets.len()
        invariant
            index <= targets@.len(),
            forall|i: int|
                0 <= i < index ==> !#[trigger] enters(targets@, motions@, layout_value(layout), i),
        decreases targets@.len() - index,
    {
        let target = &targets[index];
        if index < motions.len() && target_is_online(target, layout) && crossing_layout_point(
            target,
            &motions[index],
        ) {
            assert(enters(targets@, motions@, layout_value(layout), index as int));
            return Some((index, enter_target(target, invert_y)));
        }
        index += 1;
    }
    None
}

/// The target that a macOS sample crosses to. Where the sample as it is leads
/// nowhere, the one with the vertical axis turned over is tried.
pub fn mac_crossing_target(
    targets: &[InputTarget],
    motions: &[CrossingMotion],
    mirrored: Option<&[CrossingMotion]>,
    layout: Option<&LayoutState>,
) -> (found: Option<(usize, ActiveTarget)>)
    ensures
        match found {
            Some((index, active)) => if active.invert_y {
                &&& none_entered(targets@, motions@, layout_value(layout))
                &&& mirrored matches Some(mirrored) && first_entered(
                    targets@,
                    mirrored@,
                    layout_value(layout),
                    index as int,
                )
                &&& active == entered(targets@[index as int], true)
            } else {
                &&& first_entered(targets@, motions@, layout_value(layout), index as int)
                &&& active == entered(targets@[index as int], false)
            },
            None => {
                &&& none_entered(targets@, motions@, layout_value(layout))
                &&& mirrored matches Some(mirrored) ==> none_entered(
                    targets@,
                    mirrored@,
                    layout_value(layout),
                )
            },
        },
{
    let found = crossing_target_with_transform(targets, motions, false, layout);
    if found.is_some() {
        return found;
    }
    match mirrored {
        Some(mirrored) => crossing_target_with_transform(targets, mirrored, true, layout),
        None => None,
    }
}

/// The movements that are tried for a pointer that keeps reporting the same
/// clamped point: one pixel in each direction.
pub fn clamped_probes() -> (probes: Vec<(i64, i64)>)
    ensures
        probes@ == seq![(1i64, 0i64), (-1i64, 0i64), (0i64, 1i64), (0i64, -1i64)],
{
    let probes: Vec<(i64, i64)> = vec![(1, 0), (-1, 0), (0, 1), (0, -1)];
    assert(probes@ =~= seq![(1i64, 0i64), (-1i64, 0i64), (0i64, 1i64), (0i64, -1i64)]);
    probes
}

/// The target that the first of several probes crosses to, and which probe that
/// is.
pub fn repeated_clamped_windows_crossing_target(
    targets: &[InputTarget],
    probes: &[Vec<CrossingMotion>],
    layout: Option<&LayoutState>,
) -> (found: Option<(usize, usize, ActiveTarget)>)
    ensures
        match found {
            Some((probe, index, active)) => {
                &&& probe < probes@.len()
                &&& first_entered(
                    targets@,
                    probes@[probe as int]@,
                    layout_value(layout),
                    index as int,
                )
                &&& active == entered(targets@[index as int], false)
                &&& forall|i: int|
                    0 <= i < probe ==> none_entered(
                        targets@,
                        (#[trigger] probes@[i])@,
                        layout_value(layout),
                    )
            },
            None => forall|i: int|
                0 <= i < probes@.len() ==> none_entered(
                    targets@,
                    (#[trigger] probes@[i])@,
                    layout_value(layout),
                ),
        },
{
    let mut probe: usize = 0;
    while probe < probes.len()
        invariant
            probe <= probes@.len(),
            forall|i: int|
                0 <= i < probe ==> none_entered(
                    targets@,
                    (#[trigger] probes@[i])@,
                    layout_value(layout),
                ),
        decreases probes@.len() - probe,
    {
        let found = crossing_target_with_transform(
            targets,
            probes[probe].as_slice(),
            false,
            layout,
        );
        if let Some((index, active)) = found {
            return Some((probe, index, active));
        }
        probe += 1;
    }
    None
}

/// Only an online machine is ever entered, and only by a movement outward over
/// the edge that it touches.
pub proof fn law_crossing_is_deliberate(
    targets: Seq<InputTarget>,
    motions: Seq<CrossingMotion>,
    layout: Option<LayoutState>,
    index: int,
)
    requires
        enters(targets, motions, layout, index),
    ensures
        layout matches Some(layout) && target_reachable(layout, targets[index].device_id@),
        ({
            let outward = |motion: Motion|
                match targets[index].edge {
                    Edge::Right => motion.dx.floor >= 1,
                    Edge::Left => motion.dx.ceil <= -1,
                    Edge::Bottom => motion.dy.floor >= 1,
                    Edge::Top => motion.dy.ceil <= -1,
                };
            outward(motions[index].native) || outward(motions[index].mapped)
        }),
{
}

/// Without a readable layout nothing is entered.
pub proof fn law_unknown_layout_blocks_crossing(
    targets: Seq<InputTarget>,
    motions: Seq<CrossingMotion>,
)
    ensures
        none_entered(targets, motions, None),
{
}

/// `bounds` spans the rows of every local screen of `targets`, and is no wider
/// than it has to be.
pub open spec fn spans_rows(targets: Seq<InputTarget>, bounds: (i64, i64)) -> bool {
    &&& forall|i: int|
        0 <= i < targets.len() ==> bounds.0 <= (#[trigger] targets[i]).local_screen.y
            && targets[i].local_screen.y + targets[i].local_screen.height <= bounds.1
    &&& exists|i: int|
        0 <= i < targets.len() && bounds.0 == (#[trigger] targets[i]).local_screen.y
    &&& exists|i: int|
        0 <= i < targets.len() && bounds.1 == (#[trigger] targets[i]).local_screen.y
            + targets[i].local_screen.height
}

/// The rows that the local screens of the targets span.
pub fn local_y_bounds(targets: &[InputTarget]) -> (bounds: Option<(i64, i64)>)
    ensures
        bounds is None <==> targets@.len() == 0,
        bounds matches Some(bounds) ==> spans_rows(targets@, bounds),
{
    if targets.len() == 0 {
        return None;
    }
    let mut min_y: i64 = targets[0].local_screen.y as i64;
    let mut max_y: i64 = targets[0].local_screen.y as i64 + targets[0].local_screen.height as i64;
    let mut index: usize = 1;
    let ghost mut lowest: int = 0;
    let ghost mut highest: int = 0;
    while index < targets.len()
        invariant
            1 <= index <= targets@.len(),
            0 <= lowest < index,
            0 <= highest < index,
            min_y == targets@[lowest].local_screen.y,
            max_y == targets@[highest].local_screen.y + targets@[highest].local_screen.height,
            forall|i: int|
                0 <= i < index ==> min_y <= (#[trigger] targets@[i]).local_screen.y
                    && targets@[i].local_screen.y + targets@[i].local_screen.height <= max_y,
        decreases targets@.len() - index,
    {
        let top: i64 = targets[index].local_screen.y as i64;
        let bottom: i64 = top + targets[index].local_screen.height as i64;
        if top < min_y {
            min_y = top;
            proof {
                lowest = index as int;
            }
        }
        if bottom > max_y {
            max_y = bottom;
            proof {
                highest = index as int;
            }
        }
        index += 1;
    }
    Some((min_y, max_y))
}

/// `copy` is `screen` under another id.
pub open spec fn renamed_screen(copy: Screen, screen: Screen, id: Seq<char>) -> bool {
    &&& copy.id@ == id
    &&& copy == (Screen { id: copy.id, ..screen })
}

/// `screens` are the screens of the device, under the ids that it knows them
/// by; there are none where the layout does not have the device.
pub open spec fn screens_of(layout: LayoutState, device_id: Seq<char>, screens: Seq<Screen>) -> bool {
    match device_with_id(layout, device_id) {
        Some(device) => {
            &&& screens.len() == device.screens@.len()
            &&& forall|i: int|
                0 <= i < screens.len() ==> renamed_screen(
                    #[trigger] screens[i],
                    device.screens@[i],
                    own_screen_id(device, device.screens@[i]),
                )
        },
        None => screens.len() == 0,
    }
}

pub fn remote_device_screens(layout: &LayoutState, device_id: &str) -> (screens: Vec<Screen>)
    ensures
        screens_of(*layout, device_id@, screens@),
{
    let mut screens: Vec<Screen> = Vec::new();
    let device = match find_device(layout, device_id) {
        Some(device) => device,
        None => return screens,
    };
    let mut index: usize = 0;
    while index < device.screens.len()
        invariant
            index <= device.screens@.len(),
            screens@.len() == index,
            forall|i: int|
                0 <= i < screens@.len() ==> renamed_screen(
                    #[trigger] screens@[i],
                    device.screens@[i],
                    own_screen_id(*device, device.screens@[i]),
                ),
        decreases device.screens@.len() - index,
    {
        let mut copy = device.screens[index].clone();
        copy.id = peer_screen_id(device, &device.screens[index]);
        screens.push(copy);
        index += 1;
    }
    screens
}

/// The point, relative to the screen, lies on it.
pub open spec fn within(screen: Screen, x: Span, y: Span) -> bool {
    0 <= x.floor && x.ceil <= screen.width - 1 && 0 <= y.floor && y.ceil <= screen.height - 1
}

pub fn point_in_local_bounds(screen: &Screen, x: Span, y: Span) -> (inside: bool)
    ensures
        inside == within(*screen, x, y),
{
    x.floor >= 0 && x.ceil <= screen.width as i64 - 1 && y.floor >= 0 && y.ceil
        <= screen.height as i64 - 1
}

/// The point of the layout lies on the screen.
pub open spec fn holds_point(screen: Screen, x: Span, y: Span) -> bool {
    &&& x.floor >= screen.x
    &&& x.ceil <= screen.x + screen.width - 1
    &&& y.floor >= screen.y
    &&& y.ceil <= screen.y + screen.height - 1
}

fn screen_holds_point(screen: &Screen, x: Span, y: Span) -> (holds: bool)
    ensures
        holds == holds_point(*screen, x, y),
{
    x.floor >= screen.x as i64 && x.ceil <= screen.x as i64 + screen.width as i64 - 1 && y.floor
        >= screen.y as i64 && y.ceil <= screen.y as i64 + screen.height as i64 - 1
}

pub open spec fn magnitude(value: int) -> int {
    if value < 0 {
        -value
    } else {
        value
    }
}

/// The pointer has left the entered screen over the edge that it came in by,
/// moving at least as much in that direction as across it.
pub open spec fn left_by_entry(
    edge: Edge,
    screen: Screen,
    x: Span,
    y: Span,
    dx: i64,
    dy: i64,
) -> bool {
    match edge {
        Edge::Right => x.ceil <= 0 && dx <= -MIN_CROSSING_DELTA && magnitude(dx as int)
            >= magnitude(dy as int),
        Edge::Left => x.floor >= screen.width - 1 && dx >= MIN_CROSSING_DELTA && magnitude(
            dx as int,
        ) >= magnitude(dy as int),
        Edge::Bottom => y.ceil <= 0 && dy <= -MIN_CROSSING_DELTA && magnitude(dy as int)
            >= magnitude(dx as int),
        Edge::Top => y.floor >= screen.height - 1 && dy >= MIN_CROSSING_DELTA && magnitude(
            dy as int,
        ) >= magnitude(dx as int),
    }
}

fn absolute(value: i64) -> (result: i128)
    ensures
        result == magnitude(value as int),
{
    let wide: i128 = value as i128;
    if wide < 0 {
        -wide
    } else {
        wide
    }
}

pub fn exited_entry_edge(edge: Edge, screen: &Screen, x: Span, y: Span, dx: i64, dy: i64) -> (exited:
    bool)
    ensures
        exited == left_by_entry(edge, *screen, x, y, dx, dy),
{
    match edge {
        Edge::Right => x.ceil <= 0 && dx <= -MIN_CROSSING_DELTA && absolute(dx) >= absolute(dy),
        Edge::Left => x.floor >= screen.width as i64 - 1 && dx >= MIN_CROSSING_DELTA && absolute(dx)
            >= absolute(dy),
        Edge::Bottom => y.ceil <= 0 && dy <= -MIN_CROSSING_DELTA && absolute(dy) >= absolute(dx),
        Edge::Top => y.floor >= screen.height as i64 - 1 && dy >= MIN_CROSSING_DELTA && absolute(
            dy,
        ) >= absolute(dx),
    }
}

/// A first movement back over the edge that was just crossed, as the warp to
/// the anchor causes it.
pub open spec fn undoes_entry(edge: Edge, dx: i64, dy: i64) -> bool {
    match edge {
        Edge::Right => dx <= -MIN_CROSSING_DELTA && 2 * magnitude(dx as int) >= magnitude(
            dy as int,
        ),
        Edge::Left => dx >= MIN_CROSSING_DELTA && 2 * magnitude(dx as int) >= magnitude(dy as int),
        Edge::Bottom => dy <= -MIN_CROSSING_DELTA && 2 * magnitude(dy as int) >= magnitude(
            dx as int,
        ),
        Edge::Top => dy >= MIN_CROSSING_DELTA && 2 * magnitude(dy as int) >= magnitude(dx as int),
    }
}

pub fn should_ignore_initial_anchor_warp_delta(edge: Edge, dx: i64, dy: i64) -> (ignore: bool)
    ensures
        ignore == undoes_entry(edge, dx, dy),
{
    let across: i128 = absolute(dx);
    let along: i128 = absolute(dy);
    match edge {
        Edge::Right => dx <= -MIN_CROSSING_DELTA && 2 * across >= along,
        Edge::Left => dx >= MIN_CROSSING_DELTA && 2 * across >= along,
        Edge::Bottom => dy <= -MIN_CROSSING_DELTA && 2 * along >= across,
        Edge::Top => dy >= MIN_CROSSING_DELTA && 2 * along >= across,
    }
}

/// Where a movement on a remote machine leads.
#[derive(Debug, PartialEq, Eq)]
pub enum RemoteStep {
    /// The pointer is still on its screen.
    Stay,
    /// The layout cannot be read now: the pointer is held on its screen.
    Hold,
    /// The pointer is on another screen of the machine.
    Roam,
    /// The pointer is back at this machine.
    Return,
    /// The pointer is beyond an outer edge.
    Outside,
}

/// The screen at `index` of the device is another one than the current one and
/// holds the point.
pub open spec fn roams_to(
    layout: LayoutState,
    active: ActiveTarget,
    x: Span,
    y: Span,
    index: int,
) -> bool {
    match device_with_id(layout, active.target.device_id@) {
        Some(device) => {
            &&& 0 <= index < device.screens@.len()
            &&& own_screen_id(device, device.screens@[index]) != active.current_screen.id@
            &&& holds_point(device.screens@[index], x, y)
        },
        None => false,
    }
}

/// Another screen of the device holds the point.
pub open spec fn can_roam(layout: LayoutState, active: ActiveTarget, x: Span, y: Span) -> bool {
    exists|index: int| roams_to(layout, active, x, y, index)
}

/// What a movement comes to that ended at the given point of the current screen
/// and of the layout.
pub open spec fn remote_step(
    active: ActiveTarget,
    x: Span,
    y: Span,
    global_x: Span,
    global_y: Span,
    dx: i64,
    dy: i64,
    layout: Option<LayoutState>,
) -> RemoteStep {
    if within(active.current_screen, x, y) {
        RemoteStep::Stay
    } else if layout is None {
        RemoteStep::Hold
    } else if can_roam(layout->0, active, global_x, global_y) {
        RemoteStep::Roam
    } else if active.current_screen_id@ == active.target.screen_id@ && left_by_entry(
        active.target.edge,
        active.current_screen,
        x,
        y,
        dx,
        dy,
    ) {
        RemoteStep::Return
    } else {
        RemoteStep::Outside
    }
}

/// `after` is the control that moved on to the screen at `index` of the device.
pub open spec fn moved_on(
    before: ActiveTarget,
    after: ActiveTarget,
    layout: LayoutState,
    index: int,
) -> bool {
    match device_with_id(layout, before.target.device_id@) {
        Some(device) => {
            let id = own_screen_id(device, device.screens@[index]);
            &&& renamed_screen(after.current_screen, device.screens@[index], id)
            &&& after.current_screen_id@ == id
            &&& after.target == before.target
            &&& after.invert_y == before.invert_y
        },
        None => false,
    }
}

/// The first screen of `screens` that is another one than the current one and
/// holds the point.
fn find_roaming_screen(screens: &Vec<Screen>, current_id: &str, x: Span, y: Span) -> (found: Option<
    usize,
>)
    ensures
        match found {
            Some(index) => {
                &&& index < screens@.len()
                &&& screens@[index as int].id@ != current_id@
                &&& holds_point(screens@[index as int], x, y)
                &&& forall|i: int|
                    0 <= i < index ==> !((#[trigger] screens@[i]).id@ != current_id@
                        && holds_point(screens@[i], x, y))
            },
            None => forall|i: int|
                0 <= i < screens@.len() ==> !((#[trigger] screens@[i]).id@ != current_id@
                    && holds_point(screens@[i], x, y)),
        },
{
    let mut index: usize = 0;
    while index < screens.len()
        invariant
            index <= screens@.len(),
            forall|i: int|
                0 <= i < index ==> !((#[trigger] screens@[i]).id@ != current_id@ && holds_point(
                    screens@[i],
                    x,
                    y,
                )),
        decreases screens@.len() - index,
    {
        let screen = &screens[index];
        if !same_text(screen.id.as_str(), current_id) && screen_holds_point(screen, x, y) {
            return Some(index);
        }
        index += 1;
    }
    None
}

/// Decides where a movement on a remote machine leads, and moves on to another
/// screen of the machine where the pointer is on one. Only the screen that was
/// entered borders on this machine, so only it gives control back.
pub fn update_active_remote_screen(
    active: &mut ActiveTarget,
    x: Span,
    y: Span,
    global_x: Span,
    global_y: Span,
    dx: i64,
    dy: i64,
    layout: Option<&LayoutState>,
) -> (step: RemoteStep)
    ensures
        step == remote_step(
            *old(active),
            x,
            y,
            global_x,
            global_y,
            dx,
            dy,
            layout_value(layout),
        ),
        step != RemoteStep::Roam ==> *final(active) == *old(active),
        step == RemoteStep::Roam ==> exists|i: int|
            {
                &&& #[trigger] roams_to(
                    layout_value(layout)->0,
                    *old(active),
                    global_x,
                    global_y,
                    i,
                )
                &&& forall|j: int|
                    0 <= j < i ==> !#[trigger] roams_to(
                        layout_value(layout)->0,
                        *old(active),
                        global_x,
                        global_y,
                        j,
                    )
                &&& moved_on(*old(active), *final(active), layout_value(layout)->0, i)
            },
{
    if point_in_local_bounds(&active.current_screen, x, y) {
        return RemoteStep::Stay;
    }
    let layout = match layout {
        Some(layout) => layout,
        None => return RemoteStep::Hold,
    };
    let ghost before = *active;
    let screens = remote_device_screens(layout, active.target.device_id.as_str());
    let found = find_roaming_screen(
        &screens,
        active.current_screen.id.as_str(),
        global_x,
        global_y,
    );
    proof {
        assert forall|i: int| #[trigger] roams_to(*layout, before, global_x, global_y, i) implies 0
            <= i < screens@.len() && screens@[i].id@ != before.current_screen.id@ && holds_point(
            screens@[i],
            global_x,
            global_y,
        ) by {
            let device = device_with_id(*layout, before.target.device_id@)->0;
            assert(renamed_screen(
                screens@[i],
                device.screens@[i],
                own_screen_id(device, device.screens@[i]),
            ));
        }
    }
    match found {
        Some(index) => {
            proof {
                let device = device_with_id(*layout, before.target.device_id@)->0;
                assert(renamed_screen(
                    screens@[index as int],
                    device.screens@[index as int],
                    own_screen_id(device, device.screens@[index as int]),
                ));
                assert(roams_to(*layout, before, global_x, global_y, index as int));
                assert(can_roam(*layout, before, global_x, global_y));
            }
            active.current_screen_id = screens[index].id.clone();
            active.current_screen = screens[index].clone();
            RemoteStep::Roam
        },
        None => {
            if same_text(active.current_screen_id.as_str(), active.target.screen_id.as_str())
                && exited_entry_edge(
                active.target.edge,
                &active.current_screen,
                x,
                y,
                dx,
                dy,
            ) {
                RemoteStep::Return
            } else {
                RemoteStep::Outside
            }
        },
    }
}

/// A movement on the controlled machine: where it ends on the current screen
/// and in the layout, and how far it goes.
#[derive(Debug, Clone, Copy, PartialEq, Eq, Structural)]
pub struct RemoteMotion {
    pub x: Span,
    pub y: Span,
    pub global_x: Span,
    pub global_y: Span,
    pub dx: i64,
    pub dy: i64,
}

pub open spec fn motion_step(
    active: ActiveTarget,
    motion: RemoteMotion,
    layout: Option<LayoutState>,
) -> RemoteStep {
    remote_step(
        active,
        motion.x,
        motion.y,
        motion.global_x,
        motion.global_y,
        motion.dx,
        motion.dy,
        layout,
    )
}

/// Control comes back only over the edge that it left by: on the entered
/// screen, in the direction of this machine.
pub proof fn law_return_is_deliberate(
    active: ActiveTarget,
    x: Span,
    y: Span,
    global_x: Span,
    global_y: Span,
    dx: i64,
    dy: i64,
    layout: Option<LayoutState>,
)
    requires
        remote_step(active, x, y, global_x, global_y, dx, dy, layout) == RemoteStep::Return,
    ensures
        active.current_screen_id@ == active.target.screen_id@,
        match active.target.edge {
            Edge::Right => dx <= -1,
            Edge::Left => dx >= 1,
            Edge::Bottom => dy <= -1,
            Edge::Top => dy >= 1,
        },
{
}

/// While the layout cannot be read, control neither returns nor moves on.
pub proof fn law_busy_layout_holds_control(
    active: ActiveTarget,
    x: Span,
    y: Span,
    global_x: Span,
    global_y: Span,
    dx: i64,
    dy: i64,
)
    ensures
        ({
            let step = remote_step(active, x, y, global_x, global_y, dx, dy, None);
            step == RemoteStep::Stay || step == RemoteStep::Hold
        }),
{
}

/// How far a movement goes in the direction of an edge.
pub open spec fn toward(edge: Edge, dx: int, dy: int) -> int {
    match edge {
        Edge::Left => -dx,
        Edge::Right => dx,
        Edge::Top => -dy,
        Edge::Bottom => dy,
    }
}

/// How far out in the direction of an edge a point surely lies.
pub open spec fn reach(edge: Edge, x: Span, y: Span) -> int {
    toward(
        edge,
        if edge == Edge::Left {
            x.ceil as int
        } else {
            x.floor as int
        },
        if edge == Edge::Top {
            y.ceil as int
        } else {
            y.floor as int
        },
    )
}

/// How far out the line of an edge lies.
pub open spec fn rim(edge: Edge, screen: Screen) -> int {
    match edge {
        Edge::Left => -screen.x,
        Edge::Right => screen.x + screen.width,
        Edge::Top => -screen.y,
        Edge::Bottom => screen.y + screen.height,
    }
}

/// Whether an edge runs from top to bottom.
pub open spec fn is_side(edge: Edge) -> bool {
    edge == Edge::Left || edge == Edge::Right
}

/// An edge is crossed exactly by a movement that goes outward by a pixel or
/// more, mostly along that axis, comes to within a pixel of the edge from within
/// a hundred and sixty, and passes the edge between its ends.
pub proof fn law_crossing_goes_out_over_the_edge(screen: Screen, edge: Edge, motion: Motion)
    ensures
        crosses(screen, edge, motion) <==> {
            &&& reach(edge, motion.dx, motion.dy) >= 1
            &&& reach(edge, motion.x, motion.y) >= rim(edge, screen) - 1
            &&& reach(edge, motion.previous_x, motion.previous_y) >= rim(edge, screen) - 160
            &&& if is_side(edge) {
                &&& motion.horizontal
                &&& reach(Edge::Bottom, motion.x, motion.y) >= screen.y - 1
                &&& reach(Edge::Top, motion.x, motion.y) >= -(screen.y + screen.height) - 1
            } else {
                &&& motion.vertical
                &&& reach(Edge::Right, motion.x, motion.y) >= screen.x - 1
                &&& reach(Edge::Left, motion.x, motion.y) >= -(screen.x + screen.width) - 1
            }
        },
{
}

/// A target is crossed to where its native or its layout screen is crossed, and
/// each is asked about the movement in its own coordinates.
pub proof fn law_targets_are_crossed_in_their_own_coordinates(
    target: InputTarget,
    motion: CrossingMotion,
)
    ensures
        crosses(target.local_screen, target.edge, motion.native) ==> crosses_to(target, motion),
        crosses(target.layout_local_screen, target.edge, motion.mapped) ==> crosses_to(
            target,
            motion,
        ),
        crosses_to(target, motion) && !crosses(target.local_screen, target.edge, motion.native)
            ==> crosses(target.layout_local_screen, target.edge, motion.mapped),
{
}

/// Control begins on the screen that was entered, under the id by which the
/// other machine knows it, and with the size and place of the remote screen.
pub proof fn law_control_begins_on_the_entered_screen(target: InputTarget, invert_y: bool)
    ensures
        ({
            let active = entered(target, invert_y);
            &&& active.target == target
            &&& active.current_screen_id == target.screen_id
            &&& active.current_screen.id == target.screen_id
            &&& active.current_screen.x == target.remote_screen.x
            &&& active.current_screen.y == target.remote_screen.y
            &&& active.current_screen.width == target.remote_screen.width
            &&& active.current_screen.height == target.remote_screen.height
            &&& active.invert_y == invert_y
        }),
{
}

/// A point is on a screen exactly where the whole pixels around it are pixels of
/// the screen, whether it is given relative to the screen or in the layout.
pub proof fn law_points_lie_on_their_screen(screen: Screen, x: Span, y: Span)
    requires
        x.floor <= x.ceil,
        y.floor <= y.ceil,
    ensures
        holds_point(screen, x, y) <==> {
            &&& crate::targets::pixel_of(screen, x.floor as int, y.floor as int)
            &&& crate::targets::pixel_of(screen, x.ceil as int, y.ceil as int)
        },
        within(screen, x, y) <==> {
            &&& crate::targets::pixel_of(screen, screen.x + x.floor, screen.y + y.floor)
            &&& crate::targets::pixel_of(screen, screen.x + x.ceil, screen.y + y.ceil)
        },
{
}

/// The outermost pixel of a screen in a direction, relative to the screen.
pub open spec fn outermost(edge: Edge, screen: Screen) -> int {
    match edge {
        Edge::Left => 0,
        Edge::Right => screen.width - 1,
        Edge::Top => 0,
        Edge::Bottom => screen.height - 1,
    }
}

/// The entered screen is left by the side that faces the edge it was entered
/// over: the pointer is at its outermost pixel there or beyond, and moves
/// outward by a pixel or more and at least as far as across.
pub proof fn law_control_returns_by_the_facing_side(
    edge: Edge,
    screen: Screen,
    x: Span,
    y: Span,
    dx: i64,
    dy: i64,
)
    ensures
        ({
            let side = crate::targets::opposite(edge);
            let along = toward(side, dx as int, dy as int);
            let across = if is_side(edge) {
                dy as int
            } else {
                dx as int
            };
            &&& left_by_entry(edge, screen, x, y, dx, dy) <==> {
                &&& reach(side, x, y) >= outermost(side, screen)
                &&& along >= 1
                &&& -along <= across <= along
            }
            &&& undoes_entry(edge, dx, dy) <==> {
                &&& along >= 1
                &&& -2 * along <= across <= 2 * along
            }
        }),
{
}

/// A pointer on its screen stays there. Beyond it, another screen of the machine
/// that holds the point is moved on to, then the way back is looked for, which
/// only the entered screen has; all else is an outer edge.
pub proof fn law_remote_movements_are_told_apart(
    active: ActiveTarget,
    motion: RemoteMotion,
    layout: LayoutState,
)
    ensures
        ({
            let step = motion_step(active, motion, Some(layout));
            let inside = within(active.current_screen, motion.x, motion.y);
            let roams = exists|index: int|
                #[trigger] roams_to(layout, active, motion.global_x, motion.global_y, index);
            let leaves = active.current_screen_id@ == active.target.screen_id@ && left_by_entry(
                active.target.edge,
                active.current_screen,
                motion.x,
                motion.y,
                motion.dx,
                motion.dy,
            );
            &&& step == RemoteStep::Stay <==> inside
            &&& step == RemoteStep::Roam <==> !inside && roams
            &&& step == RemoteStep::Return <==> !inside && !roams && leaves
            &&& step == RemoteStep::Outside <==> !inside && !roams && !leaves
            &&& motion_step(active, motion, None) == (if inside {
                RemoteStep::Stay
            } else {
                RemoteStep::Hold
            })
        }),
{
}

/// The screen that is moved on to is another one of the machine and holds the
/// point.
pub proof fn law_roaming_reaches_another_screen(
    layout: LayoutState,
    active: ActiveTarget,
    x: Span,
    y: Span,
    index: int,
)
    requires
        roams_to(layout, active, x, y, index),
    ensures
        device_with_id(layout, active.target.device_id@) matches Some(device) && device.id@
            == active.target.device_id@ && 0 <= index < device.screens@.len() && own_screen_id(
            device,
            device.screens@[index],
        ) != active.current_screen.id@ && holds_point(device.screens@[index], x, y),
{
    crate::layout::law_devices_are_found_by_their_id(layout, active.target.device_id@);
}

/// Control that moved on is on the screen that it moved on to, under the id by
/// which the machine knows it, and otherwise as it was.
pub proof fn law_roaming_moves_to_the_screen(
    before: ActiveTarget,
    after: ActiveTarget,
    layout: LayoutState,
    index: int,
)
    requires
        moved_on(before, after, layout, index),
    ensures
        device_with_id(layout, before.target.device_id@) matches Some(device) && {
            let screen = device.screens@[index];
            &&& after.current_screen.x == screen.x
            &&& after.current_screen.y == screen.y
            &&& after.current_screen.width == screen.width
            &&& after.current_screen.height == screen.height
            &&& after.current_screen.id@ == own_screen_id(device, screen)
            &&& after.current_screen_id@ == own_screen_id(device, screen)
            &&& after.target == before.target
            &&& after.invert_y == before.invert_y
        },
{
}

/// The rows that targets span begin with the topmost local screen and end with
/// the lowest end of one.
pub proof fn law_spanned_rows_are_those_of_the_screens(
    targets: Seq<InputTarget>,
    bounds: (i64, i64),
    index: int,
)
    requires
        spans_rows(targets, bounds),
        0 <= index < targets.len(),
    ensures
        bounds.0 <= targets[index].local_screen.y,
        targets[index].local_screen.y + targets[index].local_screen.height <= bounds.1,
        exists|i: int|
            0 <= i < targets.len() && #[trigger] targets[i].local_screen.y == bounds.0,
        exists|i: int|
            0 <= i < targets.len() && #[trigger] targets[i].local_screen.y
                + targets[i].local_screen.height == bounds.1,
{
    let top = choose|i: int|
        0 <= i < targets.len() && bounds.0 == (#[trigger] targets[i]).local_screen.y;
    let low = choose|i: int|
        0 <= i < targets.len() && bounds.1 == (#[trigger] targets[i]).local_screen.y
            + targets[i].local_screen.height;
    assert(targets[top].local_screen.y == bounds.0);
    assert(targets[low].local_screen.y + targets[low].local_screen.height == bounds.1);
}

/// The target that is entered is online and crossed to, and no target before it
/// is both.
pub proof fn law_first_crossed_target_is_entered(
    targets: Seq<InputTarget>,
    motions: Seq<CrossingMotion>,
    layout: LayoutState,
    index: int,
    earlier: int,
)
    requires
        first_entered(targets, motions, Some(layout), index),
        0 <= earlier < index,
    ensures
        target_reachable(layout, targets[index].device_id@),
        crosses_to(targets[index], motions[index]),
        0 <= index < targets.len(),
        !(target_reachable(layout, targets[earlier].device_id@) && crosses_to(
            targets[earlier],
            motions[earlier],
        )),
        !none_entered(targets, motions, Some(layout)),
{
    assert(!enters(targets, motions, Some(layout), earlier));
}

/// The screens of a machine are told under the ids by which it knows them, at
/// their places in the layout.
pub proof fn law_told_screens_are_those_of_the_machine(
    layout: LayoutState,
    device_id: Seq<char>,
    screens: Seq<Screen>,
    index: int,
)
    requires
        screens_of(layout, device_id, screens),
        0 <= index < screens.len(),
    ensures
        device_with_id(layout, device_id) matches Some(device) && screens.len()
            == device.screens@.len() && {
            let screen = device.screens@[index];
            &&& screens[index].id@ == own_screen_id(device, screen)
            &&& screens[index].x == screen.x
            &&& screens[index].y == screen.y
            &&& screens[index].width == screen.width
            &&& screens[index].height == screen.height
            &&& screens[index].native == screen.native
        },
{
}

/// Where nothing is entered, each target is out of reach or not crossed to.
pub proof fn law_nothing_entered_is_nothing_crossed(
    targets: Seq<InputTarget>,
    motions: Seq<CrossingMotion>,
    layout: LayoutState,
    index: int,
)
    requires
        none_entered(targets, motions, Some(layout)),
        0 <= index < targets.len(),
        index < motions.len(),
    ensures
        !target_reachable(layout, targets[index].device_id@) || !crosses_to(
            targets[index],
            motions[index],
        ),
{
    assert(!enters(targets, motions, Some(layout), index));
}

} // verus!
