//! Where the pointer may leave this machine: pairs of touching screens.

use vstd::prelude::*;
use vstd::string::*;

use crate::layout::{
    address, device_with_id, effective_port, find_device, find_local_role, find_screen,
    local_device, local_role_device, native_screen, normalize_quic_port, own_device,
    platform_native_screen, screen_with_id, Device, LayoutState, ModifierMap, Screen,
    PROTOCOL_VERSION,
};
use crate::text::{
    after_prefix, append_decimal, blank, is_blank, same_text, strip_prefix, whitespace,
};

verus! {

/// Gaps and overlaps up to this many layout units still count as touching.
pub const EDGE_TOLERANCE: i32 = 80;

#[derive(Debug, Clone, Copy, PartialEq, Eq, Structural)]
pub enum Edge {
    Left,
    Right,
    Top,
    Bottom,
}

/// A remote screen that can be entered over one edge of a local screen, with
/// everything that sending to it takes.
#[derive(Debug, PartialEq, Eq)]
pub struct InputTarget {
    pub device_id: String,
    pub origin_device_id: String,
    pub cluster_id: String,
    pub pair_secret: String,
    pub target_addr: String,
    pub target_platform: String,
    pub modifier_remap: bool,
    pub modifier_control: String,
    pub modifier_alt: String,
    pub modifier_meta: String,
    pub transport_public_key: String,
    pub protocol_version: u16,
    pub screen_id: String,
    pub local_screen: Screen,
    pub layout_local_screen: Screen,
    pub remote_screen: Screen,
    pub edge: Edge,
}

impl Clone for InputTarget {
    fn clone(&self) -> (target: Self)
        ensures
            target == *self,
    {
        InputTarget {
            device_id: self.device_id.clone(),
            origin_device_id: self.origin_device_id.clone(),
            cluster_id: self.cluster_id.clone(),
            pair_secret: self.pair_secret.clone(),
            target_addr: self.target_addr.clone(),
            target_platform: self.target_platform.clone(),
            modifier_remap: self.modifier_remap,
            modifier_control: self.modifier_control.clone(),
            modifier_alt: self.modifier_alt.clone(),
            modifier_meta: self.modifier_meta.clone(),
            transport_public_key: self.transport_public_key.clone(),
            protocol_version: self.protocol_version,
            screen_id: self.screen_id.clone(),
            local_screen: self.local_screen.clone(),
            layout_local_screen: self.layout_local_screen.clone(),
            remote_screen: self.remote_screen.clone(),
            edge: self.edge,
        }
    }
}

pub struct TargetView {
    pub device_id: Seq<char>,
    pub origin_device_id: Seq<char>,
    pub cluster_id: Seq<char>,
    pub pair_secret: Seq<char>,
    pub target_addr: Seq<char>,
    pub target_platform: Seq<char>,
    pub modifier_remap: bool,
    pub modifier_control: Seq<char>,
    pub modifier_alt: Seq<char>,
    pub modifier_meta: Seq<char>,
    pub transport_public_key: Seq<char>,
    pub protocol_version: u16,
    pub screen_id: Seq<char>,
    pub local_screen: Screen,
    pub layout_local_screen: Screen,
    pub remote_screen: Screen,
    pub edge: Edge,
}

impl View for InputTarget {
    type V = TargetView;

    open spec fn view(&self) -> TargetView {
        TargetView {
            device_id: self.device_id@,
            origin_device_id: self.origin_device_id@,
            cluster_id: self.cluster_id@,
            pair_secret: self.pair_secret@,
            target_addr: self.target_addr@,
            target_platform: self.target_platform@,
            modifier_remap: self.modifier_remap,
            modifier_control: self.modifier_control@,
            modifier_alt: self.modifier_alt@,
            modifier_meta: self.modifier_meta@,
            transport_public_key: self.transport_public_key@,
            protocol_version: self.protocol_version,
            screen_id: self.screen_id@,
            local_screen: self.local_screen,
            layout_local_screen: self.layout_local_screen,
            remote_screen: self.remote_screen,
            edge: self.edge,
        }
    }
}

/// Two coordinates are close enough to count as one edge.
pub open spec fn nearby(a: int, b: int) -> bool {
    -EDGE_TOLERANCE <= a - b <= EDGE_TOLERANCE
}

fn near(a: i64, b: i64) -> (is: bool)
    requires
        -0x1_0000_0000 <= a <= 0x1_0000_0000,
        -0x1_0000_0000 <= b <= 0x1_0000_0000,
    ensures
        is == nearby(a as int, b as int),
{
    let distance: i64 = a - b;
    -(EDGE_TOLERANCE as i64) <= distance && distance <= EDGE_TOLERANCE as i64
}

/// Two ranges share more than the tolerance.
pub open spec fn overlapping(a_start: int, a_end: int, b_start: int, b_end: int) -> bool {
    &&& a_end - a_start > EDGE_TOLERANCE
    &&& a_end - b_start > EDGE_TOLERANCE
    &&& b_end - a_start > EDGE_TOLERANCE
    &&& b_end - b_start > EDGE_TOLERANCE
}

fn ranges_overlap(a_start: i64, a_end: i64, b_start: i64, b_end: i64) -> (is: bool)
    requires
        -0x1_0000_0000 <= a_start <= 0x1_0000_0000,
        -0x1_0000_0000 <= a_end <= 0x1_0000_0000,
        -0x1_0000_0000 <= b_start <= 0x1_0000_0000,
        -0x1_0000_0000 <= b_end <= 0x1_0000_0000,
    ensures
        is == overlapping(a_start as int, a_end as int, b_start as int, b_end as int),
{
    let end: i64 = if a_end < b_end {
        a_end
    } else {
        b_end
    };
    let start: i64 = if a_start > b_start {
        a_start
    } else {
        b_start
    };
    end - start > EDGE_TOLERANCE as i64
}

pub open spec fn right_of(screen: Screen) -> int {
    screen.x + screen.width
}

pub open spec fn bottom_of(screen: Screen) -> int {
    screen.y + screen.height
}

pub open spec fn share_rows(local: Screen, remote: Screen) -> bool {
    overlapping(local.y as int, bottom_of(local), remote.y as int, bottom_of(remote))
}

pub open spec fn share_columns(local: Screen, remote: Screen) -> bool {
    overlapping(local.x as int, right_of(local), remote.x as int, right_of(remote))
}

/// Whether `remote` lies along the given edge of `local`.
pub open spec fn touches_at(local: Screen, remote: Screen, edge: Edge) -> bool {
    match edge {
        Edge::Right => nearby(right_of(local), remote.x as int) && share_rows(local, remote),
        Edge::Left => nearby(local.x as int, right_of(remote)) && share_rows(local, remote),
        Edge::Bottom => nearby(bottom_of(local), remote.y as int) && share_columns(local, remote),
        Edge::Top => nearby(local.y as int, bottom_of(remote)) && share_columns(local, remote),
    }
}

/// The edge of `local` that `remote` touches. Where several do, right wins over
/// left, left over bottom and bottom over top.
pub open spec fn touched_edge(local: Screen, remote: Screen) -> Option<Edge> {
    if touches_at(local, remote, Edge::Right) {
        Some(Edge::Right)
    } else if touches_at(local, remote, Edge::Left) {
        Some(Edge::Left)
    } else if touches_at(local, remote, Edge::Bottom) {
        Some(Edge::Bottom)
    } else if touches_at(local, remote, Edge::Top) {
        Some(Edge::Top)
    } else {
        None
    }
}

pub fn touching_edge(local: &Screen, remote: &Screen) -> (edge: Option<Edge>)
    ensures
        edge == touched_edge(*local, *remote),
{
    let local_left: i64 = local.x as i64;
    let local_right: i64 = local.x as i64 + local.width as i64;
    let local_top: i64 = local.y as i64;
    let local_bottom: i64 = local.y as i64 + local.height as i64;
    let remote_left: i64 = remote.x as i64;
    let remote_right: i64 = remote.x as i64 + remote.width as i64;
    let remote_top: i64 = remote.y as i64;
    let remote_bottom: i64 = remote.y as i64 + remote.height as i64;
    let rows = ranges_overlap(local_top, local_bottom, remote_top, remote_bottom);
    let columns = ranges_overlap(local_left, local_right, remote_left, remote_right);
    if near(local_right, remote_left) && rows {
        Some(Edge::Right)
    } else if near(local_left, remote_right) && rows {
        Some(Edge::Left)
    } else if near(local_bottom, remote_top) && columns {
        Some(Edge::Bottom)
    } else if near(local_top, remote_bottom) && columns {
        Some(Edge::Top)
    } else {
        None
    }
}

/// Whether the two rectangles have an area in common.
pub open spec fn rectangles_overlap(local: Screen, remote: Screen) -> bool {
    &&& local.x < right_of(remote)
    &&& right_of(local) > remote.x
    &&& local.y < bottom_of(remote)
    &&& bottom_of(local) > remote.y
}

pub fn screens_overlap(local: &Screen, remote: &Screen) -> (overlap: bool)
    ensures
        overlap == rectangles_overlap(*local, *remote),
{
    (local.x as i64) < remote.x as i64 + remote.width as i64 && local.x as i64
        + local.width as i64 > remote.x as i64 && (local.y as i64) < remote.y as i64
        + remote.height as i64 && local.y as i64 + local.height as i64 > remote.y as i64
}

/// The id under which `device` itself knows one of its screens.
pub open spec fn own_screen_id(device: Device, screen: Screen) -> Seq<char> {
    match after_prefix(screen.id@, device.id@ + "-"@) {
        Some(rest) => rest,
        None => screen.id@,
    }
}

pub fn peer_screen_id(device: &Device, screen: &Screen) -> (id: String)
    ensures
        id@ == own_screen_id(*device, *screen),
{
    let prefix = device.id.clone().concat("-");
    match strip_prefix(screen.id.as_str(), prefix.as_str()) {
        Some(rest) => rest.to_owned(),
        None => screen.id.clone(),
    }
}

/// Whether input may be sent to the device at all.
pub open spec fn accepts_input(device: Device) -> bool {
    &&& device.role@ != "local"@
    &&& device.online
    &&& device.input_ready
    &&& device.protocol_version == PROTOCOL_VERSION
    &&& !blank(device.transport_public_key@)
}

/// The remap that applies to a device: its own, else that of the layout.
pub open spec fn effective_map(layout: LayoutState, device: Device) -> ModifierMap {
    match device.modifier_map {
        Some(map) => map,
        None => layout.modifier_map,
    }
}

/// The native counterpart of a local screen.
pub open spec fn native_counterpart(native_layout: LayoutState, screen: Screen) -> Screen {
    let known = match own_device(native_layout) {
        Some(device) => screen_with_id(device.screens@, screen.id@),
        None => None,
    };
    native_screen(
        match known {
            Some(native) => native,
            None => screen,
        },
    )
}

/// The target that crossing from `local` onto `remote` of `device` leads to.
pub open spec fn target_for(
    layout: LayoutState,
    native_layout: LayoutState,
    device: Device,
    local: Screen,
    remote: Screen,
    edge: Edge,
) -> TargetView {
    let map = effective_map(layout, device);
    TargetView {
        device_id: device.id@,
        origin_device_id: layout.local_peer_id@,
        cluster_id: layout.cluster_id@,
        pair_secret: layout.pair_secret@,
        target_addr: address(
            device.host@,
            effective_port(device.transport_port, device.quic_port),
        ),
        target_platform: device.platform@,
        modifier_remap: match device.modifier_remap {
            Some(remap) => remap,
            None => layout.modifier_remap,
        },
        modifier_control: map.control@,
        modifier_alt: map.alt@,
        modifier_meta: map.meta@,
        transport_public_key: device.transport_public_key@,
        protocol_version: device.protocol_version,
        screen_id: own_screen_id(device, remote),
        local_screen: native_counterpart(native_layout, local),
        layout_local_screen: local,
        remote_screen: remote,
        edge,
    }
}

/// The targets on the screens of `device` that touch `local`.
pub open spec fn targets_at(
    layout: LayoutState,
    native_layout: LayoutState,
    device: Device,
    local: Screen,
    remotes: Seq<Screen>,
) -> Seq<TargetView>
    decreases remotes.len(),
{
    if remotes.len() == 0 {
        Seq::empty()
    } else {
        let rest = targets_at(layout, native_layout, device, local, remotes.drop_last());
        let remote = remotes.last();
        match touched_edge(local, remote) {
            Some(edge) if !rectangles_overlap(local, remote) => rest.push(
                target_for(layout, native_layout, device, local, remote, edge),
            ),
            _ => rest,
        }
    }
}

/// The targets on `device` over the given local screens.
pub open spec fn targets_on(
    layout: LayoutState,
    native_layout: LayoutState,
    device: Device,
    locals: Seq<Screen>,
) -> Seq<TargetView>
    decreases locals.len(),
{
    if locals.len() == 0 {
        Seq::empty()
    } else {
        targets_on(layout, native_layout, device, locals.drop_last()) + targets_at(
            layout,
            native_layout,
            device,
            locals.last(),
            device.screens@,
        )
    }
}

/// The targets on the given devices.
pub open spec fn targets_among(
    layout: LayoutState,
    native_layout: LayoutState,
    locals: Seq<Screen>,
    devices: Seq<Device>,
) -> Seq<TargetView>
    decreases devices.len(),
{
    if devices.len() == 0 {
        Seq::empty()
    } else {
        let rest = targets_among(layout, native_layout, locals, devices.drop_last());
        if accepts_input(devices.last()) {
            rest + targets_on(layout, native_layout, devices.last(), locals)
        } else {
            rest
        }
    }
}

/// Every way off this machine: for each device that accepts input, each of its
/// screens that touches a local screen without covering it.
pub open spec fn input_targets(layout: LayoutState, native_layout: LayoutState) -> Seq<
    TargetView,
> {
    match local_role_device(layout) {
        Some(local) => targets_among(layout, native_layout, local.screens@, layout.devices@),
        None => Seq::empty(),
    }
}

/// The views of a list of targets.
pub open spec fn target_views(targets: Seq<InputTarget>) -> Seq<TargetView> {
    targets.map_values(|target: InputTarget| target@)
}

fn device_accepts_input(device: &Device) -> (accepts: bool)
    ensures
        accepts == accepts_input(*device),
{
    !same_text(device.role.as_str(), "local") && device.online && device.input_ready
        && device.protocol_version == PROTOCOL_VERSION && !is_blank(
        device.transport_public_key.as_str(),
    )
}

pub fn device_address(device: &Device) -> (text: String)
    ensures
        text@ == address(device.host@, effective_port(device.transport_port, device.quic_port)),
{
    let port: u16 = normalize_quic_port(device.transport_port, device.quic_port);
    let mut text = device.host.clone().concat(":");
    append_decimal(&mut text, port as u64);
    text
}

fn make_target(
    layout: &LayoutState,
    device: &Device,
    native_local: &Screen,
    local: &Screen,
    remote: &Screen,
    edge: Edge,
    native_layout: &LayoutState,
) -> (target: InputTarget)
    requires
        *native_local == native_counterpart(*native_layout, *local),
    ensures
        target@ == target_for(*layout, *native_layout, *device, *local, *remote, edge),
{
    let map = match &device.modifier_map {
        Some(map) => map,
        None => &layout.modifier_map,
    };
    InputTarget {
        device_id: device.id.clone(),
        origin_device_id: layout.local_peer_id.clone(),
        cluster_id: layout.cluster_id.clone(),
        pair_secret: layout.pair_secret.clone(),
        target_addr: device_address(device),
        target_platform: device.platform.clone(),
        modifier_remap: match device.modifier_remap {
            Some(remap) => remap,
            None => layout.modifier_remap,
        },
        modifier_control: map.control.clone(),
        modifier_alt: map.alt.clone(),
        modifier_meta: map.meta.clone(),
        transport_public_key: device.transport_public_key.clone(),
        protocol_version: device.protocol_version,
        screen_id: peer_screen_id(device, remote),
        local_screen: native_local.clone(),
        layout_local_screen: local.clone(),
        remote_screen: remote.clone(),
        edge,
    }
}

fn native_local_screen(native_layout: &LayoutState, screen: &Screen) -> (native: Screen)
    ensures
        native == native_counterpart(*native_layout, *screen),
{
    match local_device(native_layout) {
        Some(device) => match find_screen(&device.screens, screen.id.as_str()) {
            Some(native) => platform_native_screen(native),
            None => platform_native_screen(screen),
        },
        None => platform_native_screen(screen),
    }
}

fn push_targets_at(
    layout: &LayoutState,
    native_layout: &LayoutState,
    device: &Device,
    local: &Screen,
    targets: &mut Vec<InputTarget>,
)
    ensures
        target_views(final(targets)@) == target_views(old(targets)@) + targets_at(
            *layout,
            *native_layout,
            *device,
            *local,
            device.screens@,
        ),
{
    let ghost before = target_views(targets@);
    let native_local = native_local_screen(native_layout, local);
    let mut index: usize = 0;
    assert(device.screens@.take(0) =~= Seq::<Screen>::empty());
    assert(target_views(targets@) =~= before + Seq::<TargetView>::empty());
    while index < device.screens.len()
        invariant
            index <= device.screens@.len(),
            native_local == native_counterpart(*native_layout, *local),
            target_views(targets@) == before + targets_at(
                *layout,
                *native_layout,
                *device,
                *local,
                device.screens@.take(index as int),
            ),
        decreases device.screens@.len() - index,
    {
        let remote = &device.screens[index];
        let ghost so_far = targets@;
        proof {
            assert(device.screens@.take(index + 1).drop_last() =~= device.screens@.take(
                index as int,
            ));
        }
        if !screens_overlap(local, remote) {
            if let Some(edge) = touching_edge(local, remote) {
                targets.push(
                    make_target(layout, device, &native_local, local, remote, edge, native_layout),
                );
                proof {
                    assert(target_views(targets@) =~= target_views(so_far).push(
                        target_for(*layout, *native_layout, *device, *local, *remote, edge),
                    ));
                    assert(target_views(targets@) =~= before + targets_at(
                        *layout,
                        *native_layout,
                        *device,
                        *local,
                        device.screens@.take(index + 1),
                    ));
                }
            }
        }
        index += 1;
    }
    assert(device.screens@.take(device.screens@.len() as int) =~= device.screens@);
}

fn push_targets_on(
    layout: &LayoutState,
    native_layout: &LayoutState,
    device: &Device,
    locals: &Vec<Screen>,
    targets: &mut Vec<InputTarget>,
)
    ensures
        target_views(final(targets)@) == target_views(old(targets)@) + targets_on(
            *layout,
            *native_layout,
            *device,
            locals@,
        ),
{
    let ghost before = target_views(targets@);
    let mut index: usize = 0;
    assert(locals@.take(0) =~= Seq::<Screen>::empty());
    assert(target_views(targets@) =~= before + Seq::<TargetView>::empty());
    while index < locals.len()
        invariant
            index <= locals@.len(),
            target_views(targets@) == before + targets_on(
                *layout,
                *native_layout,
                *device,
                locals@.take(index as int),
            ),
        decreases locals@.len() - index,
    {
        proof {
            assert(locals@.take(index + 1).drop_last() =~= locals@.take(index as int));
        }
        push_targets_at(layout, native_layout, device, &locals[index], targets);
        proof {
            assert(target_views(targets@) =~= before + targets_on(
                *layout,
                *native_layout,
                *device,
                locals@.take(index + 1),
            ));
        }
        index += 1;
    }
    assert(locals@.take(locals@.len() as int) =~= locals@);
}

pub fn build_input_targets(layout: &LayoutState, native_layout: &LayoutState) -> (targets: Vec<
    InputTarget,
>)
    ensures
        target_views(targets@) == input_targets(*layout, *native_layout),
{
    let mut targets: Vec<InputTarget> = Vec::new();
    let local = match find_local_role(layout) {
        Some(local) => local,
        None => {
            assert(target_views(targets@) =~= Seq::empty());
            return targets;
        },
    };
    let mut index: usize = 0;
    assert(layout.devices@.take(0) =~= Seq::<Device>::empty());
    assert(target_views(targets@) =~= Seq::<TargetView>::empty());
    while index < layout.devices.len()
        invariant
            index <= layout.devices@.len(),
            target_views(targets@) == targets_among(
                *layout,
                *native_layout,
                local.screens@,
                layout.devices@.take(index as int),
            ),
        decreases layout.devices@.len() - index,
    {
        let device = &layout.devices[index];
        proof {
            assert(layout.devices@.take(index + 1).drop_last() =~= layout.devices@.take(
                index as int,
            ));
        }
        if device_accepts_input(device) {
            push_targets_on(layout, native_layout, device, &local.screens, &mut targets);
        }
        index += 1;
    }
    assert(layout.devices@.take(layout.devices@.len() as int) =~= layout.devices@);
    targets
}

/// Whether the device of a target is known to be reachable.
pub open spec fn target_reachable(layout: LayoutState, device_id: Seq<char>) -> bool {
    device_with_id(layout, device_id) matches Some(device) && device.online && device.input_ready
}

/// Whether the device of `target` is reachable; a layout that is busy (`None`)
/// answers no.
pub fn target_is_online(target: &InputTarget, layout: Option<&LayoutState>) -> (online: bool)
    ensures
        online == (layout matches Some(layout) && target_reachable(*layout, target.device_id@)),
{
    match layout {
        Some(layout) => match find_device(layout, target.device_id.as_str()) {
            Some(device) => device.online && device.input_ready,
            None => false,
        },
        None => false,
    }
}

/// The targets of a layout, or nothing while the layout is busy.
pub fn try_current_input_targets(
    layout: Option<&LayoutState>,
    native_layout: &LayoutState,
) -> (targets: Option<Vec<InputTarget>>)
    ensures
        targets is Some <==> layout is Some,
        targets matches Some(targets) ==> target_views(targets@) == input_targets(
            *layout->0,
            *native_layout,
        ),
{
    match layout {
        Some(layout) => Some(build_input_targets(layout, native_layout)),
        None => None,
    }
}

/// The targets of a layout; a layout that cannot be read has none.
pub fn current_input_targets(
    layout: Option<&LayoutState>,
    native_layout: &LayoutState,
) -> (targets: Vec<InputTarget>)
    ensures
        target_views(targets@) == match layout {
            Some(layout) => input_targets(*layout, *native_layout),
            None => Seq::empty(),
        },
{
    match layout {
        Some(layout) => build_input_targets(layout, native_layout),
        None => {
            let targets: Vec<InputTarget> = Vec::new();
            assert(target_views(targets@) =~= Seq::empty());
            targets
        },
    }
}

/// Touching is mutual: the other screen is touched at the opposite edge.
pub open spec fn opposite(edge: Edge) -> Edge {
    match edge {
        Edge::Left => Edge::Right,
        Edge::Right => Edge::Left,
        Edge::Top => Edge::Bottom,
        Edge::Bottom => Edge::Top,
    }
}

/// If one screen touches another at an edge, the other touches it back at the
/// opposite edge, and overlap does not depend on the order either.
pub proof fn law_touching_is_mutual(local: Screen, remote: Screen, edge: Edge)
    ensures
        touches_at(local, remote, edge) == touches_at(remote, local, opposite(edge)),
        rectangles_overlap(local, remote) == rectangles_overlap(remote, local),
{
}

/// Every target belongs to a device that accepts input, lies on one of its
/// screens and touches the named local screen at the named edge without
/// covering it.
pub open spec fn target_is_sound(
    layout: LayoutState,
    native_layout: LayoutState,
    target: TargetView,
) -> bool {
    exists|device: Device|
        {
            &&& layout.devices@.contains(device)
            &&& accepts_input(device)
            &&& device.screens@.contains(target.remote_screen)
            &&& touched_edge(target.layout_local_screen, target.remote_screen) == Some(target.edge)
            &&& !rectangles_overlap(target.layout_local_screen, target.remote_screen)
            &&& #[trigger] target_for(
                layout,
                native_layout,
                device,
                target.layout_local_screen,
                target.remote_screen,
                target.edge,
            ) == target
        }
}

proof fn lemma_targets_at_sound(
    layout: LayoutState,
    native_layout: LayoutState,
    device: Device,
    local: Screen,
    remotes: Seq<Screen>,
)
    requires
        layout.devices@.contains(device),
        accepts_input(device),
        forall|i: int| 0 <= i < remotes.len() ==> device.screens@.contains(#[trigger] remotes[i]),
    ensures
        forall|i: int|
            0 <= i < targets_at(layout, native_layout, device, local, remotes).len()
                ==> target_is_sound(
                layout,
                native_layout,
                #[trigger] targets_at(layout, native_layout, device, local, remotes)[i],
            ),
    decreases remotes.len(),
{
    if remotes.len() > 0 {
        let rest = remotes.drop_last();
        assert forall|i: int| 0 <= i < rest.len() implies device.screens@.contains(
            #[trigger] rest[i],
        ) by {
            assert(rest[i] == remotes[i]);
        }
        lemma_targets_at_sound(layout, native_layout, device, local, rest);
        let remote = remotes.last();
        assert(remotes[remotes.len() - 1] == remote);
        let all = targets_at(layout, native_layout, device, local, remotes);
        let some = targets_at(layout, native_layout, device, local, rest);
        assert forall|i: int| 0 <= i < all.len() implies target_is_sound(
            layout,
            native_layout,
            #[trigger] all[i],
        ) by {
            if i < some.len() {
                assert(all[i] == some[i]);
            } else {
                let edge = touched_edge(local, remote)->0;
                assert(all[i] == target_for(layout, native_layout, device, local, remote, edge));
            }
        }
    }
}

proof fn lemma_targets_on_sound(
    layout: LayoutState,
    native_layout: LayoutState,
    device: Device,
    locals: Seq<Screen>,
)
    requires
        layout.devices@.contains(device),
        accepts_input(device),
    ensures
        forall|i: int|
            0 <= i < targets_on(layout, native_layout, device, locals).len() ==> target_is_sound(
                layout,
                native_layout,
                #[trigger] targets_on(layout, native_layout, device, locals)[i],
            ),
    decreases locals.len(),
{
    if locals.len() > 0 {
        lemma_targets_on_sound(layout, native_layout, device, locals.drop_last());
        lemma_targets_at_sound(layout, native_layout, device, locals.last(), device.screens@);
        let first = targets_on(layout, native_layout, device, locals.drop_last());
        let second = targets_at(layout, native_layout, device, locals.last(), device.screens@);
        let all = targets_on(layout, native_layout, device, locals);
        assert forall|i: int| 0 <= i < all.len() implies target_is_sound(
            layout,
            native_layout,
            #[trigger] all[i],
        ) by {
            if i < first.len() {
                assert(all[i] == first[i]);
            } else {
                assert(all[i] == second[i - first.len()]);
            }
        }
    }
}

proof fn lemma_targets_among_sound(
    layout: LayoutState,
    native_layout: LayoutState,
    locals: Seq<Screen>,
    devices: Seq<Device>,
)
    requires
        forall|i: int| 0 <= i < devices.len() ==> layout.devices@.contains(#[trigger] devices[i]),
    ensures
        forall|i: int|
            0 <= i < targets_among(layout, native_layout, locals, devices).len()
                ==> target_is_sound(
                layout,
                native_layout,
                #[trigger] targets_among(layout, native_layout, locals, devices)[i],
            ),
    decreases devices.len(),
{
    if devices.len() > 0 {
        let rest = devices.drop_last();
        assert forall|i: int| 0 <= i < rest.len() implies layout.devices@.contains(
            #[trigger] rest[i],
        ) by {
            assert(rest[i] == devices[i]);
        }
        lemma_targets_among_sound(layout, native_layout, locals, rest);
        let device = devices.last();
        assert(devices[devices.len() - 1] == device);
        let first = targets_among(layout, native_layout, locals, rest);
        let second = targets_on(layout, native_layout, device, locals);
        let all = targets_among(layout, native_layout, locals, devices);
        if accepts_input(device) {
            lemma_targets_on_sound(layout, native_layout, device, locals);
        }
        assert forall|i: int| 0 <= i < all.len() implies target_is_sound(
            layout,
            native_layout,
            #[trigger] all[i],
        ) by {
            if i < first.len() {
                assert(all[i] == first[i]);
            } else {
                assert(all[i] == second[i - first.len()]);
            }
        }
    }
}

/// Every target of a layout is sound.
pub proof fn law_targets_are_sound(layout: LayoutState, native_layout: LayoutState)
    ensures
        forall|i: int|
            0 <= i < input_targets(layout, native_layout).len() ==> target_is_sound(
                layout,
                native_layout,
                #[trigger] input_targets(layout, native_layout)[i],
            ),
{
    if let Some(local) = local_role_device(layout) {
        lemma_targets_among_sound(layout, native_layout, local.screens@, layout.devices@);
    }
}

/// The larger of two coordinates.
pub open spec fn later_of(a: int, b: int) -> int {
    if a < b {
        b
    } else {
        a
    }
}

/// The smaller of two coordinates.
pub open spec fn earlier_of(a: int, b: int) -> int {
    if a < b {
        a
    } else {
        b
    }
}

/// The stretch that two ranges have in common.
pub open spec fn shared_length(a_start: int, a_end: int, b_start: int, b_end: int) -> int {
    earlier_of(a_end, b_end) - later_of(a_start, b_start)
}

/// A screen touches another at an edge exactly where the two facing sides are at
/// most eighty units apart and run along each other for more than eighty.
pub proof fn law_touching_screens_face_each_other(local: Screen, remote: Screen)
    ensures
        ({
            let rows = shared_length(
                local.y as int,
                local.y + local.height,
                remote.y as int,
                remote.y + remote.height,
            );
            let columns = shared_length(
                local.x as int,
                local.x + local.width,
                remote.x as int,
                remote.x + remote.width,
            );
            &&& touches_at(local, remote, Edge::Right) <==> -80 <= remote.x - (local.x
                + local.width) <= 80 && rows > 80
            &&& touches_at(local, remote, Edge::Left) <==> -80 <= local.x - (remote.x
                + remote.width) <= 80 && rows > 80
            &&& touches_at(local, remote, Edge::Bottom) <==> -80 <= remote.y - (local.y
                + local.height) <= 80 && columns > 80
            &&& touches_at(local, remote, Edge::Top) <==> -80 <= local.y - (remote.y
                + remote.height) <= 80 && columns > 80
        }),
{
}

/// A screen that adjoins another on one side without a gap, along more than
/// eighty units, is touched at that side.
pub proof fn law_adjoining_screens_touch_where_they_lie(local: Screen, remote: Screen)
    requires
        local.width > 80,
        local.height > 80,
        remote.width > 0,
        remote.height > 0,
    ensures
        ({
            let rows = shared_length(
                local.y as int,
                local.y + local.height,
                remote.y as int,
                remote.y + remote.height,
            );
            let columns = shared_length(
                local.x as int,
                local.x + local.width,
                remote.x as int,
                remote.x + remote.width,
            );
            &&& remote.x == local.x + local.width && rows > 80 ==> touched_edge(local, remote)
                == Some(Edge::Right) && !rectangles_overlap(local, remote)
            &&& remote.x + remote.width == local.x && rows > 80 ==> touched_edge(local, remote)
                == Some(Edge::Left) && !rectangles_overlap(local, remote)
            &&& remote.y == local.y + local.height && columns > 80 ==> touched_edge(local, remote)
                == Some(Edge::Bottom) && !rectangles_overlap(local, remote)
            &&& remote.y + remote.height == local.y && columns > 80 ==> touched_edge(local, remote)
                == Some(Edge::Top) && !rectangles_overlap(local, remote)
        }),
{
}

/// Where an edge is touched at all one is named, and the named one is touched.
/// Right is named before left, the sides before bottom and top, bottom before
/// top.
pub proof fn law_named_edge_is_touched(local: Screen, remote: Screen, edge: Edge)
    ensures
        touched_edge(local, remote) matches Some(named) ==> touches_at(local, remote, named),
        touches_at(local, remote, edge) ==> touched_edge(local, remote) is Some,
        touches_at(local, remote, Edge::Right) ==> touched_edge(local, remote) == Some(Edge::Right),
        touches_at(local, remote, Edge::Left) ==> touched_edge(local, remote) == Some(Edge::Left)
            || touched_edge(local, remote) == Some(Edge::Right),
        touches_at(local, remote, Edge::Bottom) ==> touched_edge(local, remote) != Some(Edge::Top),
{
}

/// Two screens overlap exactly where they have a row and a column of pixels in
/// common.
pub proof fn law_overlap_is_a_common_area(local: Screen, remote: Screen)
    requires
        local.width > 0,
        local.height > 0,
        remote.width > 0,
        remote.height > 0,
    ensures
        rectangles_overlap(local, remote) <==> exists|x: int, y: int|
            {
                &&& #[trigger] pixel_of(local, x, y)
                &&& pixel_of(remote, x, y)
            },
{
    if rectangles_overlap(local, remote) {
        let x = later_of(local.x as int, remote.x as int);
        let y = later_of(local.y as int, remote.y as int);
        assert(pixel_of(local, x, y) && pixel_of(remote, x, y));
    }
}

/// The screen has a pixel at the point.
pub open spec fn pixel_of(screen: Screen, x: int, y: int) -> bool {
    screen.x <= x < screen.x + screen.width && screen.y <= y < screen.y + screen.height
}

/// A screen id that starts with the id of its device and a hyphen goes by the
/// rest there; any other goes by its full id.
pub proof fn law_own_screen_ids_drop_the_device(device: Device, screen: Screen, rest: Seq<char>)
    ensures
        screen.id@ == device.id@.push('-') + rest ==> own_screen_id(device, screen) == rest,
        (forall|tail: Seq<char>| screen.id@ != #[trigger] (device.id@.push('-') + tail))
            ==> own_screen_id(device, screen) == screen.id@,
{
    reveal_strlit("-");
    let prefix = device.id@ + "-"@;
    assert(prefix =~= device.id@.push('-'));
    if screen.id@ == device.id@.push('-') + rest {
        assert(prefix.is_prefix_of(screen.id@));
        assert(screen.id@.skip(prefix.len() as int) =~= rest);
    }
    if prefix.is_prefix_of(screen.id@) {
        let tail = screen.id@.skip(prefix.len() as int);
        assert(screen.id@ =~= device.id@.push('-') + tail);
    }
}

/// Input goes to a device that is not this one, is online and ready, speaks the
/// third version of the protocol and has a key; to no other.
pub proof fn law_input_goes_to_ready_devices(device: Device)
    ensures
        accepts_input(device) <==> {
            &&& device.role@ != "local"@
            &&& device.online
            &&& device.input_ready
            &&& device.protocol_version == 3
            &&& exists|i: int|
                0 <= i < device.transport_public_key@.len() && !whitespace(
                    #[trigger] device.transport_public_key@[i],
                )
        },
{
}

/// What a device says of modifiers overrides the layout, and a device that says
/// nothing follows it.
pub proof fn law_device_overrides_the_modifier_map(layout: LayoutState, device: Device)
    ensures
        device.modifier_map matches Some(map) ==> effective_map(layout, device) == map,
        device.modifier_map is None ==> effective_map(layout, device) == layout.modifier_map,
{
}

/// Whether a target tells of `device` what sending to it takes, and of this
/// machine what the other side has to know.
pub open spec fn tells_of(layout: LayoutState, device: Device, target: TargetView) -> bool {
    let map = effective_map(layout, device);
    &&& target.device_id == device.id@
    &&& target.origin_device_id == layout.local_peer_id@
    &&& target.cluster_id == layout.cluster_id@
    &&& target.pair_secret == layout.pair_secret@
    &&& device.quic_port != 0 ==> target.target_addr == address(device.host@, device.quic_port)
    &&& device.quic_port == 0 ==> target.target_addr == address(
        device.host@,
        device.transport_port,
    )
    &&& target.target_platform == device.platform@
    &&& device.modifier_remap matches Some(remap) ==> target.modifier_remap == remap
    &&& device.modifier_remap is None ==> target.modifier_remap == layout.modifier_remap
    &&& target.modifier_control == map.control@
    &&& target.modifier_alt == map.alt@
    &&& target.modifier_meta == map.meta@
    &&& target.transport_public_key == device.transport_public_key@
    &&& target.protocol_version == device.protocol_version
    &&& target.screen_id == own_screen_id(device, target.remote_screen)
}

/// The native screen that a crossing is measured on is the own screen of the
/// same id, at its native rectangle; only one that the native layout lacks is
/// taken from the layout.
pub proof fn law_native_counterpart_has_the_same_id(native_layout: LayoutState, screen: Screen)
    ensures
        native_counterpart(native_layout, screen).id@ == screen.id@,
        own_device(native_layout) matches Some(device) ==> (exists|i: int|
            0 <= i < device.screens@.len() && #[trigger] device.screens@[i].id@ == screen.id@)
            ==> exists|i: int|
            {
                &&& 0 <= i < device.screens@.len()
                &&& (#[trigger] device.screens@[i]).id@ == screen.id@
                &&& native_counterpart(native_layout, screen).x == device.screens@[i].native.x
                &&& native_counterpart(native_layout, screen).y == device.screens@[i].native.y
                &&& native_counterpart(native_layout, screen).width
                    == device.screens@[i].native.width
                &&& native_counterpart(native_layout, screen).height
                    == device.screens@[i].native.height
            },
{
    if let Some(device) = own_device(native_layout) {
        crate::layout::law_screens_are_found_by_their_id(device.screens@, screen.id@);
        if let Some(native) = screen_with_id(device.screens@, screen.id@) {
            let i = choose|i: int| 0 <= i < device.screens@.len() && device.screens@[i] == native;
            assert(device.screens@[i].id@ == screen.id@);
        }
    }
}

/// Every target leads from an own screen onto a screen of a device that accepts
/// input, over an edge at which the two touch, and tells of that device.
pub proof fn law_targets_tell_of_their_device(
    layout: LayoutState,
    native_layout: LayoutState,
    index: int,
)
    requires
        0 <= index < input_targets(layout, native_layout).len(),
    ensures
        ({
            let target = input_targets(layout, native_layout)[index];
            &&& touches_at(target.layout_local_screen, target.remote_screen, target.edge)
            &&& !rectangles_overlap(target.layout_local_screen, target.remote_screen)
            &&& target.local_screen == native_counterpart(native_layout, target.layout_local_screen)
            &&& exists|i: int|
                {
                    &&& 0 <= i < layout.devices@.len()
                    &&& tells_of(layout, #[trigger] layout.devices@[i], target)
                    &&& accepts_input(layout.devices@[i])
                    &&& layout.devices@[i].screens@.contains(target.remote_screen)
                }
        }),
{
    law_targets_are_sound(layout, native_layout);
    let target = input_targets(layout, native_layout)[index];
    assert(target_is_sound(layout, native_layout, target));
    let device = choose|device: Device|
        {
            &&& layout.devices@.contains(device)
            &&& accepts_input(device)
            &&& device.screens@.contains(target.remote_screen)
            &&& touched_edge(target.layout_local_screen, target.remote_screen) == Some(target.edge)
            &&& !rectangles_overlap(target.layout_local_screen, target.remote_screen)
            &&& #[trigger] target_for(
                layout,
                native_layout,
                device,
                target.layout_local_screen,
                target.remote_screen,
                target.edge,
            ) == target
        };
    let i = choose|i: int| 0 <= i < layout.devices@.len() && layout.devices@[i] == device;
    assert(tells_of(layout, layout.devices@[i], target));
}

/// Whether a target leads from one screen onto another of a device.
pub open spec fn leads_onto(
    target: TargetView,
    device: Device,
    local: Screen,
    remote: Screen,
) -> bool {
    &&& target.device_id == device.id@
    &&& target.layout_local_screen == local
    &&& target.remote_screen == remote
    &&& touched_edge(local, remote) == Some(target.edge)
}

proof fn lemma_target_at(
    layout: LayoutState,
    native_layout: LayoutState,
    device: Device,
    local: Screen,
    remotes: Seq<Screen>,
    r: int,
)
    requires
        0 <= r < remotes.len(),
        touched_edge(local, remotes[r]) is Some,
        !rectangles_overlap(local, remotes[r]),
    ensures
        exists|i: int|
            0 <= i < targets_at(layout, native_layout, device, local, remotes).len() && leads_onto(
                #[trigger] targets_at(layout, native_layout, device, local, remotes)[i],
                device,
                local,
                remotes[r],
            ),
    decreases remotes.len(),
{
    let all = targets_at(layout, native_layout, device, local, remotes);
    let rest = targets_at(layout, native_layout, device, local, remotes.drop_last());
    if r == remotes.len() - 1 {
        assert(leads_onto(all[rest.len() as int], device, local, remotes[r]));
    } else {
        assert(remotes.drop_last()[r] == remotes[r]);
        lemma_target_at(layout, native_layout, device, local, remotes.drop_last(), r);
        let i = choose|i: int|
            0 <= i < rest.len() && leads_onto(#[trigger] rest[i], device, local, remotes[r]);
        assert(all[i] == rest[i]);
    }
}

proof fn lemma_target_on(
    layout: LayoutState,
    native_layout: LayoutState,
    device: Device,
    locals: Seq<Screen>,
    l: int,
    r: int,
)
    requires
        0 <= l < locals.len(),
        0 <= r < device.screens@.len(),
        touched_edge(locals[l], device.screens@[r]) is Some,
        !rectangles_overlap(locals[l], device.screens@[r]),
    ensures
        exists|i: int|
            0 <= i < targets_on(layout, native_layout, device, locals).len() && leads_onto(
                #[trigger] targets_on(layout, native_layout, device, locals)[i],
                device,
                locals[l],
                device.screens@[r],
            ),
    decreases locals.len(),
{
    let all = targets_on(layout, native_layout, device, locals);
    let rest = targets_on(layout, native_layout, device, locals.drop_last());
    let last = targets_at(layout, native_layout, device, locals.last(), device.screens@);
    if l == locals.len() - 1 {
        lemma_target_at(layout, native_layout, device, locals[l], device.screens@, r);
        let i = choose|i: int|
            0 <= i < last.len() && leads_onto(
                #[trigger] last[i],
                device,
                locals[l],
                device.screens@[r],
            );
        assert(all[rest.len() + i] == last[i]);
    } else {
        assert(locals.drop_last()[l] == locals[l]);
        lemma_target_on(layout, native_layout, device, locals.drop_last(), l, r);
        let i = choose|i: int|
            0 <= i < rest.len() && leads_onto(
                #[trigger] rest[i],
                device,
                locals[l],
                device.screens@[r],
            );
        assert(all[i] == rest[i]);
    }
}

proof fn lemma_target_among(
    layout: LayoutState,
    native_layout: LayoutState,
    locals: Seq<Screen>,
    devices: Seq<Device>,
    d: int,
    l: int,
    r: int,
)
    requires
        0 <= d < devices.len(),
        accepts_input(devices[d]),
        0 <= l < locals.len(),
        0 <= r < devices[d].screens@.len(),
        touched_edge(locals[l], devices[d].screens@[r]) is Some,
        !rectangles_overlap(locals[l], devices[d].screens@[r]),
    ensures
        exists|i: int|
            0 <= i < targets_among(layout, native_layout, locals, devices).len() && leads_onto(
                #[trigger] targets_among(layout, native_layout, locals, devices)[i],
                devices[d],
                locals[l],
                devices[d].screens@[r],
            ),
    decreases devices.len(),
{
    let all = targets_among(layout, native_layout, locals, devices);
    let rest = targets_among(layout, native_layout, locals, devices.drop_last());
    let last = targets_on(layout, native_layout, devices.last(), locals);
    let remote = devices[d].screens@[r];
    if d == devices.len() - 1 {
        lemma_target_on(layout, native_layout, devices[d], locals, l, r);
        let i = choose|i: int|
            0 <= i < last.len() && leads_onto(#[trigger] last[i], devices[d], locals[l], remote);
        assert(all[rest.len() + i] == last[i]);
    } else {
        assert(devices.drop_last()[d] == devices[d]);
        lemma_target_among(layout, native_layout, locals, devices.drop_last(), d, l, r);
        let i = choose|i: int|
            0 <= i < rest.len() && leads_onto(#[trigger] rest[i], devices[d], locals[l], remote);
        assert(all[i] == rest[i]);
    }
}

/// Every screen of a device that accepts input is a target over every local
/// screen that it touches without covering it.
pub proof fn law_touching_screens_are_targets(
    layout: LayoutState,
    native_layout: LayoutState,
    d: int,
    l: int,
    r: int,
)
    requires
        local_role_device(layout) is Some,
        0 <= d < layout.devices@.len(),
        0 <= l < local_role_device(layout)->0.screens@.len(),
        0 <= r < layout.devices@[d].screens@.len(),
        accepts_input(layout.devices@[d]),
        touched_edge(
            local_role_device(layout)->0.screens@[l],
            layout.devices@[d].screens@[r],
        ) is Some,
        !rectangles_overlap(
            local_role_device(layout)->0.screens@[l],
            layout.devices@[d].screens@[r],
        ),
    ensures
        exists|i: int|
            0 <= i < input_targets(layout, native_layout).len() && leads_onto(
                #[trigger] input_targets(layout, native_layout)[i],
                layout.devices@[d],
                local_role_device(layout)->0.screens@[l],
                layout.devices@[d].screens@[r],
            ),
{
    let locals = local_role_device(layout)->0.screens@;
    lemma_target_among(layout, native_layout, locals, layout.devices@, d, l, r);
    let targets = targets_among(layout, native_layout, locals, layout.devices@);
    assert(input_targets(layout, native_layout) == targets);
    let i = choose|i: int|
        0 <= i < targets.len() && leads_onto(
            #[trigger] targets[i],
            layout.devices@[d],
            locals[l],
            layout.devices@[d].screens@[r],
        );
    assert(leads_onto(
        input_targets(layout, native_layout)[i],
        layout.devices@[d],
        locals[l],
        layout.devices@[d].screens@[r],
    ));
}

/// A machine is reachable exactly where the layout has it, online and ready.
pub proof fn law_reachable_machines_are_online(layout: LayoutState, device_id: Seq<char>)
    ensures
        target_reachable(layout, device_id) ==> exists|i: int|
            {
                &&& 0 <= i < layout.devices@.len()
                &&& (#[trigger] layout.devices@[i]).id@ == device_id
                &&& layout.devices@[i].online
                &&& layout.devices@[i].input_ready
            },
        (forall|i: int|
            0 <= i < layout.devices@.len() && #[trigger] layout.devices@[i].id@ == device_id
                ==> layout.devices@[i].online && layout.devices@[i].input_ready) && (exists|i: int|
            0 <= i < layout.devices@.len() && #[trigger] layout.devices@[i].id@ == device_id)
            ==> target_reachable(layout, device_id),
{
    crate::layout::law_devices_are_found_by_their_id(layout, device_id);
    if let Some(device) = device_with_id(layout, device_id) {
        let i = choose|i: int| 0 <= i < layout.devices@.len() && layout.devices@[i] == device;
        assert(layout.devices@[i].id@ == device_id);
    }
}

} // verus!
