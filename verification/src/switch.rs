//! Switching screens by hotkey.

use vstd::prelude::*;

use crate::layout::{
    default_screen, either, find_default_screen, find_first, find_screen, first_where,
    lemma_found, lemma_not_found, local_device, native_screen, own_device, platform_native_screen,
    same_option, screen_with_id, LayoutState, NativeRect, Screen,
};
use crate::origin_map::OriginMap;
use crate::packets::layout_value;
use crate::targets::{
    build_input_targets, input_targets, rectangles_overlap, screens_overlap, target_views,
    touched_edge, touching_edge, Edge, InputTarget, TargetView,
};
use crate::text::same_text;

verus! {

/// Direction requested by a screen switch hotkey, seen from the local screen.
#[derive(Debug, Clone, Copy, PartialEq, Eq, Structural)]
pub enum SwitchDirection {
    Left,
    Right,
    Up,
    Down,
}

/// The edge that a direction leads over.
pub open spec fn direction_edge(direction: SwitchDirection) -> Edge {
    match direction {
        SwitchDirection::Left => Edge::Left,
        SwitchDirection::Right => Edge::Right,
        SwitchDirection::Up => Edge::Top,
        SwitchDirection::Down => Edge::Bottom,
    }
}

impl SwitchDirection {
    pub fn matches_edge(self, edge: Edge) -> (matched: bool)
        ensures
            matched == (edge == direction_edge(self)),
    {
        match (self, edge) {
            (SwitchDirection::Left, Edge::Left) => true,
            (SwitchDirection::Right, Edge::Right) => true,
            (SwitchDirection::Up, Edge::Top) => true,
            (SwitchDirection::Down, Edge::Bottom) => true,
            _ => false,
        }
    }
}

/// The whole pixels next to a pointer position on both axes: the largest that
/// is not above it and the smallest that is not below it.
#[derive(Debug, Clone, Copy, PartialEq, Eq, Structural)]
pub struct PointCell {
    pub floor_x: i64,
    pub ceil_x: i64,
    pub floor_y: i64,
    pub ceil_y: i64,
}

/// A position in half pixels.
#[derive(Debug, Clone, Copy, PartialEq, Eq, Structural)]
pub struct HalfPoint {
    pub x: i64,
    pub y: i64,
}

/// Whether a position lies on the pixels of a screen.
pub open spec fn cell_in_screen(screen: Screen, cell: PointCell) -> bool {
    &&& cell.floor_x >= screen.x
    &&& cell.ceil_x <= screen.x + screen.width - 1
    &&& cell.floor_y >= screen.y
    &&& cell.ceil_y <= screen.y + screen.height - 1
}

pub fn point_in_screen(screen: &Screen, cell: PointCell) -> (inside: bool)
    ensures
        inside == cell_in_screen(*screen, cell),
{
    cell.floor_x >= screen.x as i64 && cell.ceil_x <= screen.x as i64 + screen.width as i64 - 1
        && cell.floor_y >= screen.y as i64 && cell.ceil_y <= screen.y as i64 + screen.height as i64
        - 1
}

/// Whether a native screen holds the position and is known to `screens`.
pub open spec fn leads_to(screens: Seq<Screen>, cell: PointCell) -> spec_fn(Screen) -> bool {
    |native: Screen|
        cell_in_screen(native_screen(native), cell) && screen_with_id(screens, native.id@) is Some
}

/// The screen that a position on the native screens belongs to.
pub open spec fn screen_under_native(
    screens: Seq<Screen>,
    natives: Seq<Screen>,
    cell: PointCell,
) -> Option<Screen> {
    match find_first(natives, leads_to(screens, cell)) {
        Some(native) => screen_with_id(screens, native.id@),
        None => None,
    }
}

pub open spec fn holds_cell(cell: PointCell) -> spec_fn(Screen) -> bool {
    |screen: Screen| cell_in_screen(screen, cell)
}

/// The local screen that a switch starts from: the one under the pointer by
/// native coordinates, else by layout coordinates, else the default one.
pub open spec fn source_screen(
    layout: LayoutState,
    native_layout: LayoutState,
    pointer: Option<PointCell>,
) -> Option<Screen> {
    match own_device(layout) {
        Some(local) => {
            let screens = local.screens@;
            let under = match pointer {
                Some(cell) => either(
                    match own_device(native_layout) {
                        Some(native) => screen_under_native(screens, native.screens@, cell),
                        None => None,
                    },
                    find_first(screens, holds_cell(cell)),
                ),
                None => None,
            };
            either(under, default_screen(screens))
        },
        None => None,
    }
}

fn find_under_native<'a>(
    screens: &'a Vec<Screen>,
    natives: &Vec<Screen>,
    cell: PointCell,
) -> (found: Option<&'a Screen>)
    ensures
        same_option(found, screen_under_native(screens@, natives@, cell)),
{
    let ghost holds = leads_to(screens@, cell);
    let mut index: usize = 0;
    while index < natives.len()
        invariant
            index <= natives@.len(),
            holds == leads_to(screens@, cell),
            forall|i: int| 0 <= i < index ==> !holds(#[trigger] natives@[i]),
        decreases natives@.len() - index,
    {
        let native = platform_native_screen(&natives[index]);
        if point_in_screen(&native, cell) {
            if let Some(screen) = find_screen(screens, native.id.as_str()) {
                proof {
                    lemma_found(natives@, holds, index as int);
                }
                return Some(screen);
            }
        }
        index += 1;
    }
    proof {
        lemma_not_found(natives@, holds);
    }
    None
}

fn find_under_layout(screens: &Vec<Screen>, cell: PointCell) -> (found: Option<&Screen>)
    ensures
        same_option(found, find_first(screens@, holds_cell(cell))),
{
    let ghost holds = holds_cell(cell);
    let mut index: usize = 0;
    while index < screens.len()
        invariant
            index <= screens@.len(),
            holds == holds_cell(cell),
            forall|i: int| 0 <= i < index ==> !holds(#[trigger] screens@[i]),
        decreases screens@.len() - index,
    {
        if point_in_screen(&screens[index], cell) {
            proof {
                lemma_found(screens@, holds, index as int);
            }
            return Some(&screens[index]);
        }
        index += 1;
    }
    proof {
        lemma_not_found(screens@, holds);
    }
    None
}

pub fn source_local_screen<'a>(
    layout: &'a LayoutState,
    native_layout: &LayoutState,
    pointer: Option<PointCell>,
) -> (found: Option<&'a Screen>)
    ensures
        same_option(found, source_screen(*layout, *native_layout, pointer)),
{
    let local = match local_device(layout) {
        Some(local) => local,
        None => {
            return None;
        },
    };
    if let Some(cell) = pointer {
        if let Some(native) = local_device(native_layout) {
            if let Some(screen) = find_under_native(&local.screens, &native.screens, cell) {
                return Some(screen);
            }
        }
        if let Some(screen) = find_under_layout(&local.screens, cell) {
            return Some(screen);
        }
    }
    find_default_screen(&local.screens)
}

pub open spec fn clamp_half(size: int, limit: int) -> int {
    if size < 0 {
        0
    } else if size > limit {
        limit
    } else {
        size
    }
}

/// The offset of the middle of an axis in half pixels. It never lies beyond the
/// last pixel.
pub open spec fn half_offset(size: i32) -> int {
    clamp_half(
        size as int,
        if size > 1 {
            2 * (size - 1)
        } else {
            0
        },
    )
}

/// The middle of a rectangle in half pixels.
pub open spec fn center_of(rect: NativeRect) -> HalfPoint {
    HalfPoint {
        x: (2 * rect.x + half_offset(rect.width)) as i64,
        y: (2 * rect.y + half_offset(rect.height)) as i64,
    }
}

fn middle(size: i32) -> (offset: i64)
    ensures
        offset == half_offset(size),
        0 <= offset <= 0x1_0000_0000,
{
    let size: i64 = size as i64;
    if size <= 1 {
        0
    } else {
        size
    }
}

/// The middle of a screen in half pixels.
pub fn screen_center_point(rect: NativeRect) -> (center: HalfPoint)
    ensures
        center == center_of(rect),
{
    HalfPoint {
        x: 2 * rect.x as i64 + middle(rect.width),
        y: 2 * rect.y as i64 + middle(rect.height),
    }
}

/// A jump between two local screens, to a point in half pixels.
#[derive(Debug, PartialEq, Eq)]
pub struct LocalScreenMove {
    pub from_screen_id: String,
    pub to_screen_id: String,
    pub point: HalfPoint,
}

/// Whether another screen lies next to `source` in a direction.
pub open spec fn neighbours(source: Screen, direction: SwitchDirection) -> spec_fn(Screen) -> bool {
    |screen: Screen|
        {
            &&& screen.id@ != source.id@
            &&& !rectangles_overlap(source, screen)
            &&& touched_edge(source, screen) == Some(direction_edge(direction))
        }
}

/// The screen that a local switch starts from.
pub open spec fn named_or_default(screens: Seq<Screen>, id: Option<Seq<char>>) -> Option<Screen> {
    either(
        match id {
            Some(id) => screen_with_id(screens, id),
            None => None,
        },
        default_screen(screens),
    )
}

/// The rectangle of a local screen by the native layout, else by its own.
pub open spec fn native_rect_of(native_layout: LayoutState, screen: Screen) -> NativeRect {
    match own_device(native_layout) {
        Some(device) => match screen_with_id(device.screens@, screen.id@) {
            Some(native) => native.native,
            None => screen.native,
        },
        None => screen.native,
    }
}

pub struct LocalMoveView {
    pub from_screen_id: Seq<char>,
    pub to_screen_id: Seq<char>,
    pub point: HalfPoint,
}

impl View for LocalScreenMove {
    type V = LocalMoveView;

    open spec fn view(&self) -> LocalMoveView {
        LocalMoveView {
            from_screen_id: self.from_screen_id@,
            to_screen_id: self.to_screen_id@,
            point: self.point,
        }
    }
}

/// The local jump in a direction, where there is a local screen.
pub open spec fn local_move(
    direction: SwitchDirection,
    layout: LayoutState,
    native_layout: LayoutState,
    source_id: Option<Seq<char>>,
) -> Option<LocalMoveView> {
    match own_device(layout) {
        Some(local) => match named_or_default(local.screens@, source_id) {
            Some(source) => match find_first(local.screens@, neighbours(source, direction)) {
                Some(target) => Some(
                    LocalMoveView {
                        from_screen_id: source.id@,
                        to_screen_id: target.id@,
                        point: center_of(native_rect_of(native_layout, target)),
                    },
                ),
                None => None,
            },
            None => None,
        },
        None => None,
    }
}

pub open spec fn move_view(jump: Option<LocalScreenMove>) -> Option<LocalMoveView> {
    match jump {
        Some(jump) => Some(jump@),
        None => None,
    }
}

fn find_neighbour<'a>(
    screens: &'a Vec<Screen>,
    source: &Screen,
    direction: SwitchDirection,
) -> (found: Option<&'a Screen>)
    ensures
        same_option(found, find_first(screens@, neighbours(*source, direction))),
{
    let ghost holds = neighbours(*source, direction);
    let mut index: usize = 0;
    while index < screens.len()
        invariant
            index <= screens@.len(),
            holds == neighbours(*source, direction),
            forall|i: int| 0 <= i < index ==> !holds(#[trigger] screens@[i]),
        decreases screens@.len() - index,
    {
        let screen = &screens[index];
        if !same_text(screen.id.as_str(), source.id.as_str()) && !screens_overlap(source, screen) {
            if let Some(edge) = touching_edge(source, screen) {
                if direction.matches_edge(edge) {
                    proof {
                        lemma_found(screens@, holds, index as int);
                    }
                    return Some(&screens[index]);
                }
            }
        }
        index += 1;
    }
    proof {
        lemma_not_found(screens@, holds);
    }
    None
}

pub open spec fn id_view(id: Option<&str>) -> Option<Seq<char>> {
    match id {
        Some(id) => Some(id@),
        None => None,
    }
}

pub fn local_screen_switch_point(
    direction: SwitchDirection,
    layout: &LayoutState,
    native_layout: &LayoutState,
    source_screen_id: Option<&str>,
) -> (jump: Option<LocalScreenMove>)
    ensures
        move_view(jump) == local_move(
            direction,
            *layout,
            *native_layout,
            id_view(source_screen_id),
        ),
{
    let local = match local_device(layout) {
        Some(local) => local,
        None => {
            return None;
        },
    };
    let named = match source_screen_id {
        Some(id) => find_screen(&local.screens, id),
        None => None,
    };
    let source = match named {
        Some(source) => source,
        None => match find_default_screen(&local.screens) {
            Some(source) => source,
            None => {
                return None;
            },
        },
    };
    let target = match find_neighbour(&local.screens, source, direction) {
        Some(target) => target,
        None => {
            return None;
        },
    };
    let rect = match local_device(native_layout) {
        Some(device) => match find_screen(&device.screens, target.id.as_str()) {
            Some(native) => native.native,
            None => target.native,
        },
        None => target.native,
    };
    Some(
        LocalScreenMove {
            from_screen_id: source.id.clone(),
            to_screen_id: target.id.clone(),
            point: screen_center_point(rect),
        },
    )
}

/// What a switch request comes to. An entry names the target and the point on
/// its screen, in half pixels.
#[derive(Debug, PartialEq, Eq)]
pub enum SwitchOutcome {
    Enter { target: InputTarget, point: HalfPoint },
    LocalMove(LocalScreenMove),
    Return,
    Noop,
}

pub enum SwitchView {
    Enter { target: TargetView, point: HalfPoint },
    LocalMove(LocalMoveView),
    Return,
    Noop,
}

impl View for SwitchOutcome {
    type V = SwitchView;

    open spec fn view(&self) -> SwitchView {
        match *self {
            SwitchOutcome::Enter { target, point } => SwitchView::Enter { target: target@, point },
            SwitchOutcome::LocalMove(jump) => SwitchView::LocalMove(jump@),
            SwitchOutcome::Return => SwitchView::Return,
            SwitchOutcome::Noop => SwitchView::Noop,
        }
    }
}

pub open spec fn leads_in(direction: SwitchDirection) -> spec_fn(TargetView) -> bool {
    |target: TargetView| target.edge == direction_edge(direction)
}

/// The remote screen in a direction: the first that lies that way, whichever
/// local screen it touches.
pub open spec fn switch_target(targets: Seq<TargetView>, direction: SwitchDirection) -> Option<
    TargetView,
> {
    find_first(targets, leads_in(direction))
}

/// The middle of a target's screen, relative to it.
pub open spec fn entry_point(screen: Screen) -> HalfPoint {
    HalfPoint {
        x: half_offset(screen.width) as i64,
        y: half_offset(screen.height) as i64,
    }
}

pub open spec fn screen_id_of(screen: Option<Screen>) -> Option<Seq<char>> {
    match screen {
        Some(screen) => Some(screen.id@),
        None => None,
    }
}

/// The answer to a switch request. From a remote screen it always leads back;
/// otherwise a local screen comes first, then a remote one.
pub open spec fn switch_outcome(
    direction: SwitchDirection,
    layout: Option<LayoutState>,
    native_layout: LayoutState,
    currently_remote: bool,
    pointer: Option<PointCell>,
) -> SwitchView {
    if currently_remote {
        SwitchView::Return
    } else {
        match layout {
            Some(layout) => {
                let source_id = screen_id_of(source_screen(layout, native_layout, pointer));
                match local_move(direction, layout, native_layout, source_id) {
                    Some(jump) => SwitchView::LocalMove(jump),
                    None => match switch_target(
                        input_targets(layout, native_layout),
                        direction,
                    ) {
                        Some(target) => SwitchView::Enter {
                            target,
                            point: entry_point(target.remote_screen),
                        },
                        None => SwitchView::Noop,
                    },
                }
            },
            None => SwitchView::Noop,
        }
    }
}

fn find_target(targets: &Vec<InputTarget>, direction: SwitchDirection) -> (found: Option<
    &InputTarget,
>)
    ensures
        match found {
            Some(target) => switch_target(target_views(targets@), direction) == Some(target@),
            None => switch_target(target_views(targets@), direction) is None,
        },
{
    let ghost views = target_views(targets@);
    let ghost holds = leads_in(direction);
    let mut index: usize = 0;
    while index < targets.len()
        invariant
            index <= targets@.len(),
            views == target_views(targets@),
            holds == leads_in(direction),
            forall|i: int| 0 <= i < index ==> !holds(#[trigger] views[i]),
        decreases targets@.len() - index,
    {
        let target = &targets[index];
        assert(views[index as int] == target@);
        if direction.matches_edge(target.edge) {
            proof {
                lemma_found(views, holds, index as int);
            }
            return Some(target);
        }
        index += 1;
    }
    proof {
        lemma_not_found(views, holds);
    }
    None
}

/// Answers a switch request. A layout that cannot be read (`None`) leads
/// nowhere.
pub fn request_screen_switch_from_point(
    direction: SwitchDirection,
    layout: Option<&LayoutState>,
    native_layout: &LayoutState,
    currently_remote: bool,
    pointer: Option<PointCell>,
) -> (outcome: SwitchOutcome)
    ensures
        outcome@ == switch_outcome(
            direction,
            layout_value(layout),
            *native_layout,
            currently_remote,
            pointer,
        ),
{
    if currently_remote {
        return SwitchOutcome::Return;
    }
    let layout = match layout {
        Some(layout) => layout,
        None => {
            return SwitchOutcome::Noop;
        },
    };
    let source = source_local_screen(layout, native_layout, pointer);
    let source_id: Option<&str> = match source {
        Some(screen) => Some(screen.id.as_str()),
        None => None,
    };
    assert(id_view(source_id) == screen_id_of(source_screen(*layout, *native_layout, pointer)));
    if let Some(jump) = local_screen_switch_point(direction, layout, native_layout, source_id) {
        return SwitchOutcome::LocalMove(jump);
    }
    let targets = build_input_targets(layout, native_layout);
    match find_target(&targets, direction) {
        Some(target) => SwitchOutcome::Enter {
            target: target.clone(),
            point: HalfPoint {
                x: middle(target.remote_screen.width),
                y: middle(target.remote_screen.height),
            },
        },
        None => SwitchOutcome::Noop,
    }
}

/// Answers a switch request without a pointer position.
pub fn request_screen_switch(
    direction: SwitchDirection,
    layout: Option<&LayoutState>,
    native_layout: &LayoutState,
    currently_remote: bool,
) -> (outcome: SwitchOutcome)
    ensures
        outcome@ == switch_outcome(
            direction,
            layout_value(layout),
            *native_layout,
            currently_remote,
            None,
        ),
{
    request_screen_switch_from_point(direction, layout, native_layout, currently_remote, None)
}

/// Takes a pending switch request and answers it.
pub fn drain_switch_request(
    request: &mut Option<SwitchDirection>,
    layout: Option<&LayoutState>,
    native_layout: &LayoutState,
    currently_remote: bool,
    pointer: Option<PointCell>,
) -> (outcome: Option<SwitchOutcome>)
    ensures
        *final(request) is None,
        match *old(request) {
            Some(direction) => outcome matches Some(outcome) && outcome@ == switch_outcome(
                direction,
                layout_value(layout),
                *native_layout,
                currently_remote,
                pointer,
            ),
            None => outcome is None,
        },
{
    match request.take() {
        Some(direction) => Some(
            request_screen_switch_from_point(
                direction,
                layout,
                native_layout,
                currently_remote,
                pointer,
            ),
        ),
        None => None,
    }
}

/// Remembers where the pointer left a screen, and says where it was left on
/// the screen that is switched to.
pub fn remembered_local_screen_point<P: Copy>(
    points: &mut OriginMap<P>,
    from_screen_id: &str,
    to_screen_id: &str,
    current_point: Option<P>,
    fallback: P,
) -> (point: P)
    ensures
        final(points)@ == match current_point {
            Some(point) => old(points)@.insert(from_screen_id@, point),
            None => old(points)@,
        },
        point == if final(points)@.contains_key(to_screen_id@) {
            final(points)@[to_screen_id@]
        } else {
            fallback
        },
{
    if let Some(point) = current_point {
        points.insert(from_screen_id, point);
    }
    match points.get(to_screen_id) {
        Some(point) => *point,
        None => fallback,
    }
}

/// Whatever the request, control of a remote machine is given back.
pub proof fn law_remote_switch_returns(
    direction: SwitchDirection,
    layout: Option<LayoutState>,
    native_layout: LayoutState,
    pointer: Option<PointCell>,
)
    ensures
        switch_outcome(direction, layout, native_layout, true, pointer) is Return,
{
}

/// A switch that enters a machine leads over the edge of its direction, and a
/// switch to a local screen never leads to the screen it started from.
pub proof fn law_switch_follows_its_direction(
    direction: SwitchDirection,
    layout: LayoutState,
    native_layout: LayoutState,
    pointer: Option<PointCell>,
)
    ensures
        match switch_outcome(direction, Some(layout), native_layout, false, pointer) {
            SwitchView::Enter { target, .. } => target.edge == direction_edge(direction),
            SwitchView::LocalMove(jump) => jump.from_screen_id != jump.to_screen_id,
            _ => true,
        },
{
    let source_id = screen_id_of(source_screen(layout, native_layout, pointer));
    let targets = input_targets(layout, native_layout);
    let holds = leads_in(direction);
    if exists|i: int| first_where(targets, holds, i) {
        let i = choose|i: int| first_where(targets, holds, i);
        lemma_found(targets, holds, i);
        assert(holds(targets[i]));
    }
    if let Some(local) = own_device(layout) {
        if let Some(source) = named_or_default(local.screens@, source_id) {
            let near = neighbours(source, direction);
            if exists|i: int| first_where(local.screens@, near, i) {
                let i = choose|i: int| first_where(local.screens@, near, i);
                lemma_found(local.screens@, near, i);
                assert(near(local.screens@[i]));
            }
        }
    }
}

/// Whether `screen` lies next to `source` on the side of a direction: the two
/// facing sides are at most eighty units apart.
pub open spec fn lies_towards(source: Screen, direction: SwitchDirection, screen: Screen) -> bool {
    match direction {
        SwitchDirection::Left => -80 <= source.x - (screen.x + screen.width) <= 80,
        SwitchDirection::Right => -80 <= screen.x - (source.x + source.width) <= 80,
        SwitchDirection::Up => -80 <= source.y - (screen.y + screen.height) <= 80,
        SwitchDirection::Down => -80 <= screen.y - (source.y + source.height) <= 80,
    }
}

/// The middle of a screen is half its size away from its origin on each axis; a
/// screen of one pixel is its own middle.
pub proof fn law_centers_are_in_the_middle(rect: NativeRect, screen: Screen)
    ensures
        rect.width >= 2 ==> center_of(rect).x == 2 * rect.x + rect.width,
        rect.height >= 2 ==> center_of(rect).y == 2 * rect.y + rect.height,
        rect.width <= 1 ==> center_of(rect).x == 2 * rect.x,
        rect.height <= 1 ==> center_of(rect).y == 2 * rect.y,
        screen.width >= 2 ==> entry_point(screen).x == screen.width,
        screen.height >= 2 ==> entry_point(screen).y == screen.height,
        screen.width <= 1 ==> entry_point(screen).x == 0,
        screen.height <= 1 ==> entry_point(screen).y == 0,
{
}

/// A jump between local screens goes from the screen that it started from to
/// another one that lies in its direction without covering it, and ends in the
/// middle of that one.
pub proof fn law_local_jumps_follow_their_direction(
    direction: SwitchDirection,
    layout: LayoutState,
    native_layout: LayoutState,
    source_id: Option<Seq<char>>,
)
    ensures
        local_move(direction, layout, native_layout, source_id) matches Some(jump) ==> exists|
            source: Screen,
            screen: Screen,
        |
            {
                &&& #[trigger] lies_towards(source, direction, screen)
                &&& own_device(layout)->0.screens@.contains(source)
                &&& own_device(layout)->0.screens@.contains(screen)
                &&& jump.from_screen_id == source.id@
                &&& jump.to_screen_id == screen.id@
                &&& jump.from_screen_id != jump.to_screen_id
                &&& !rectangles_overlap(source, screen)
                &&& jump.point == center_of(native_rect_of(native_layout, screen))
                &&& source_id matches Some(id) ==> (exists|i: int|
                    0 <= i < own_device(layout)->0.screens@.len() && #[trigger] own_device(
                        layout,
                    )->0.screens@[i].id@ == id) ==> source.id@ == id
            },
{
    if let Some(jump) = local_move(direction, layout, native_layout, source_id) {
        let screens = own_device(layout)->0.screens@;
        let source = named_or_default(screens, source_id)->0;
        let screen = find_first(screens, neighbours(source, direction))->0;
        crate::layout::law_search_finds_the_first(screens, neighbours(source, direction));
        crate::layout::law_default_screen_is_primary(screens);
        if let Some(id) = source_id {
            crate::layout::law_screens_are_found_by_their_id(screens, id);
        }
        assert(neighbours(source, direction)(screen));
        crate::targets::law_touching_screens_face_each_other(source, screen);
        assert(lies_towards(source, direction, screen));
    }
}

/// From a remote screen a request leads back. At home a local screen in the
/// direction comes first, then a remote one over the edge of that direction; the
/// pointer enters it in the middle. Otherwise nothing happens.
pub proof fn law_switch_prefers_local_screens(
    direction: SwitchDirection,
    layout: LayoutState,
    native_layout: LayoutState,
    pointer: Option<PointCell>,
)
    ensures
        ({
            let outcome = switch_outcome(direction, Some(layout), native_layout, false, pointer);
            let source_id = screen_id_of(source_screen(layout, native_layout, pointer));
            let jump = local_move(direction, layout, native_layout, source_id);
            let targets = input_targets(layout, native_layout);
            let edge = match direction {
                SwitchDirection::Left => Edge::Left,
                SwitchDirection::Right => Edge::Right,
                SwitchDirection::Up => Edge::Top,
                SwitchDirection::Down => Edge::Bottom,
            };
            let reaches = exists|i: int|
                0 <= i < targets.len() && (#[trigger] targets[i]).edge == edge;
            &&& jump is Some <==> outcome is LocalMove
            &&& jump matches Some(jump) ==> outcome == SwitchView::LocalMove(jump)
            &&& outcome is Enter <==> jump is None && reaches
            &&& outcome is Noop <==> jump is None && !reaches
            &&& outcome matches SwitchView::Enter { target, point } ==> targets.contains(target)
                && target.edge == edge && point == entry_point(target.remote_screen)
            &&& outcome !is Return
            &&& switch_outcome(direction, None, native_layout, false, pointer) is Noop
        }),
{
    let targets = input_targets(layout, native_layout);
    crate::layout::law_search_finds_the_first(targets, leads_in(direction));
    let edge = direction_edge(direction);
    if exists|i: int| 0 <= i < targets.len() && (#[trigger] targets[i]).edge == edge {
        let i = choose|i: int| 0 <= i < targets.len() && (#[trigger] targets[i]).edge == edge;
        assert(leads_in(direction)(targets[i]));
    }
    if let Some(target) = switch_target(targets, direction) {
        assert(leads_in(direction)(target));
    }
}

/// A position is on a screen exactly where the whole pixels around it are pixels
/// of the screen.
pub proof fn law_cells_lie_on_their_screen(screen: Screen, cell: PointCell)
    requires
        cell.floor_x <= cell.ceil_x,
        cell.floor_y <= cell.ceil_y,
    ensures
        cell_in_screen(screen, cell) <==> {
            &&& crate::targets::pixel_of(screen, cell.floor_x as int, cell.floor_y as int)
            &&& crate::targets::pixel_of(screen, cell.ceil_x as int, cell.ceil_y as int)
        },
{
}

/// A switch starts from the own screen under the pointer. Native rectangles
/// decide, then those of the layout; a pointer that is on none of them and a
/// missing one lead to the default screen.
pub proof fn law_switch_starts_under_the_pointer(
    layout: LayoutState,
    native_layout: LayoutState,
    pointer: Option<PointCell>,
)
    requires
        own_device(layout) is Some,
    ensures
        ({
            let screens = own_device(layout)->0.screens@;
            let source = source_screen(layout, native_layout, pointer);
            &&& source is None <==> screens.len() == 0
            &&& source matches Some(screen) ==> screens.contains(screen)
            &&& pointer is None ==> source == default_screen(screens)
            &&& pointer matches Some(cell) ==> own_device(native_layout) is None ==> (exists|i: int|
                0 <= i < screens.len() && cell_in_screen(#[trigger] screens[i], cell))
                ==> cell_in_screen(source->0, cell)
            &&& pointer matches Some(cell) ==> own_device(native_layout) matches Some(native) ==> (
            exists|i: int|
                {
                    &&& 0 <= i < native.screens@.len()
                    &&& cell_in_screen(native_screen(#[trigger] native.screens@[i]), cell)
                    &&& screen_with_id(screens, native.screens@[i].id@) is Some
                }) ==> exists|i: int|
                {
                    &&& 0 <= i < native.screens@.len()
                    &&& cell_in_screen(native_screen(#[trigger] native.screens@[i]), cell)
                    &&& source->0.id@ == native.screens@[i].id@
                }
        }),
{
    let screens = own_device(layout)->0.screens@;
    crate::layout::law_default_screen_is_primary(screens);
    if let Some(cell) = pointer {
        crate::layout::law_search_finds_the_first(screens, holds_cell(cell));
        if exists|i: int| 0 <= i < screens.len() && cell_in_screen(#[trigger] screens[i], cell) {
            let i = choose|i: int|
                0 <= i < screens.len() && cell_in_screen(#[trigger] screens[i], cell);
            assert(holds_cell(cell)(screens[i]));
        }
        if let Some(native) = own_device(native_layout) {
            let natives = native.screens@;
            let holds = leads_to(screens, cell);
            crate::layout::law_search_finds_the_first(natives, holds);
            if let Some(found) = find_first(natives, holds) {
                assert(holds(found));
                crate::layout::law_screens_are_found_by_their_id(screens, found.id@);
            } else {
                assert forall|i: int| 0 <= i < natives.len() implies !(cell_in_screen(
                    native_screen(#[trigger] natives[i]),
                    cell,
                ) && screen_with_id(screens, natives[i].id@) is Some) by {
                    assert(!holds(natives[i]));
                }
            }
        }
    }
}

} // verus!
