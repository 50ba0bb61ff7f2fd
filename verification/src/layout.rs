//! The arrangement of machines and screens that sharing is based on.

use vstd::prelude::*;

use crate::text::{decimal, same_text};

verus! {

/// The wire protocol that this build speaks.
pub const PROTOCOL_VERSION: u16 = 3;

/// The operating system family that a decision is made for.
#[derive(Debug, Clone, Copy, PartialEq, Eq, Structural)]
pub enum Platform {
    MacOs,
    Windows,
    Linux,
    Other,
}

/// A screen rectangle in the pixels of its own machine.
#[derive(Debug, Clone, Copy, PartialEq, Eq, Structural)]
pub struct NativeRect {
    pub x: i32,
    pub y: i32,
    pub width: i32,
    pub height: i32,
}

/// One screen. `x`, `y`, `width` and `height` are layout coordinates, `native`
/// is the same screen after its scale factor was applied.
#[derive(Debug, PartialEq, Eq)]
pub struct Screen {
    pub id: String,
    pub device_id: String,
    pub name: String,
    pub x: i32,
    pub y: i32,
    pub width: i32,
    pub height: i32,
    pub native: NativeRect,
    pub is_primary: bool,
}

impl Clone for Screen {
    fn clone(&self) -> (screen: Self)
        ensures
            screen == *self,
    {
        Screen {
            id: self.id.clone(),
            device_id: self.device_id.clone(),
            name: self.name.clone(),
            x: self.x,
            y: self.y,
            width: self.width,
            height: self.height,
            native: self.native,
            is_primary: self.is_primary,
        }
    }
}

/// The logical modifier that each physical one stands for on another platform.
#[derive(Debug, PartialEq, Eq)]
pub struct ModifierMap {
    pub control: String,
    pub alt: String,
    pub meta: String,
}

#[derive(Debug, PartialEq, Eq)]
pub struct ScreenSwitchHotkeys {
    pub left: String,
    pub right: String,
    pub up: String,
    pub down: String,
}

#[derive(Debug, PartialEq, Eq)]
pub struct Device {
    pub id: String,
    pub name: String,
    pub platform: String,
    pub host: String,
    pub transport_port: u16,
    pub quic_port: u16,
    pub transport_public_key: String,
    pub protocol_version: u16,
    pub online: bool,
    pub input_ready: bool,
    pub role: String,
    pub screens: Vec<Screen>,
    pub modifier_remap: Option<bool>,
    pub modifier_map: Option<ModifierMap>,
}

/// A controller that this machine was paired with.
#[derive(Debug, PartialEq, Eq)]
pub struct PairedController {
    pub id: String,
    pub transport_public_key: String,
}

#[derive(Debug, PartialEq, Eq)]
pub struct LayoutState {
    pub devices: Vec<Device>,
    /// The id under which this machine appears to its peers.
    pub local_peer_id: String,
    pub input_mode: String,
    pub machine_role: String,
    pub cluster_id: String,
    pub pair_secret: String,
    pub paired_controllers: Vec<PairedController>,
    pub transport_port: u16,
    pub quic_port: u16,
    pub modifier_remap: bool,
    pub modifier_map: ModifierMap,
    pub screen_switch_hotkeys: ScreenSwitchHotkeys,
}

/// Control and the platform's command key change places, the rest stays.
pub fn default_modifier_map() -> (map: ModifierMap)
    ensures
        map.control@ == "meta"@,
        map.alt@ == "same"@,
        map.meta@ == "control"@,
{
    ModifierMap {
        control: "meta".to_owned(),
        alt: "same".to_owned(),
        meta: "control".to_owned(),
    }
}

/// The screen with its native rectangle in place of the layout rectangle.
pub open spec fn native_screen(screen: Screen) -> Screen {
    Screen {
        x: screen.native.x,
        y: screen.native.y,
        width: screen.native.width,
        height: screen.native.height,
        ..screen
    }
}

pub fn platform_native_screen(screen: &Screen) -> (native: Screen)
    ensures
        native == native_screen(*screen),
{
    let rect = screen.native;
    let mut native = screen.clone();
    native.x = rect.x;
    native.y = rect.y;
    native.width = rect.width;
    native.height = rect.height;
    native
}

/// The port that a peer is reached at.
pub open spec fn effective_port(transport_port: u16, quic_port: u16) -> u16 {
    if quic_port == 0 {
        transport_port
    } else {
        quic_port
    }
}

pub fn normalize_quic_port(transport_port: u16, quic_port: u16) -> (port: u16)
    ensures
        port == effective_port(transport_port, quic_port),
{
    if quic_port == 0 {
        transport_port
    } else {
        quic_port
    }
}

/// The first index of `devices` with the local role.
pub open spec fn is_local_role(device: Device) -> bool {
    device.role@ == "local"@
}

/// `index` is the first position of `items` that `holds` accepts.
pub open spec fn first_where<T>(items: Seq<T>, holds: spec_fn(T) -> bool, index: int) -> bool {
    &&& 0 <= index < items.len()
    &&& holds(items[index])
    &&& forall|i: int| 0 <= i < index ==> !holds(#[trigger] items[i])
}

/// `holds` accepts no item.
pub open spec fn none_where<T>(items: Seq<T>, holds: spec_fn(T) -> bool) -> bool {
    forall|i: int| 0 <= i < items.len() ==> !holds(#[trigger] items[i])
}

/// The first item that `holds` accepts.
pub open spec fn find_first<T>(items: Seq<T>, holds: spec_fn(T) -> bool) -> Option<T> {
    if exists|index: int| first_where(items, holds, index) {
        Some(items[choose|index: int| first_where(items, holds, index)])
    } else {
        None
    }
}

/// The first accepted item is found at the position where it stands.
pub proof fn lemma_found<T>(items: Seq<T>, holds: spec_fn(T) -> bool, index: int)
    requires
        first_where(items, holds, index),
    ensures
        find_first(items, holds) == Some(items[index]),
{
    let chosen = choose|i: int| first_where(items, holds, i);
    assert(first_where(items, holds, chosen));
    if chosen < index {
        assert(!holds(items[chosen]));
    }
    if index < chosen {
        assert(!holds(items[index]));
    }
}

/// Nothing is found where nothing is accepted.
pub proof fn lemma_not_found<T>(items: Seq<T>, holds: spec_fn(T) -> bool)
    requires
        none_where(items, holds),
    ensures
        find_first(items, holds) is None,
{
    if exists|index: int| first_where(items, holds, index) {
        let index = choose|index: int| first_where(items, holds, index);
        assert(!holds(items[index]));
    }
}

pub open spec fn first_item<T>(items: Seq<T>) -> Option<T> {
    if items.len() > 0 {
        Some(items[0])
    } else {
        None
    }
}

/// The first of two options that holds a value.
pub open spec fn either<T>(first: Option<T>, second: Option<T>) -> Option<T> {
    if first is Some {
        first
    } else {
        second
    }
}

/// The device with the local role.
pub open spec fn local_role_device(layout: LayoutState) -> Option<Device> {
    find_first(layout.devices@, |device: Device| is_local_role(device))
}

/// The device that stands for this machine: the one with the local role, else
/// the first one.
pub open spec fn own_device(layout: LayoutState) -> Option<Device> {
    either(local_role_device(layout), first_item(layout.devices@))
}

pub open spec fn same_option<T>(found: Option<&T>, expected: Option<T>) -> bool {
    match found {
        Some(value) => expected == Some(*value),
        None => expected is None,
    }
}

pub fn find_local_role(layout: &LayoutState) -> (found: Option<&Device>)
    ensures
        same_option(found, local_role_device(*layout)),
{
    let ghost holds = |device: Device| is_local_role(device);
    let mut index: usize = 0;
    while index < layout.devices.len()
        invariant
            index <= layout.devices@.len(),
            holds == (|device: Device| is_local_role(device)),
            forall|i: int| 0 <= i < index ==> !holds(#[trigger] layout.devices@[i]),
        decreases layout.devices@.len() - index,
    {
        if same_text(layout.devices[index].role.as_str(), "local") {
            proof {
                lemma_found(layout.devices@, holds, index as int);
            }
            return Some(&layout.devices[index]);
        }
        index += 1;
    }
    proof {
        lemma_not_found(layout.devices@, holds);
    }
    None
}

pub fn local_device(layout: &LayoutState) -> (found: Option<&Device>)
    ensures
        same_option(found, own_device(*layout)),
{
    match find_local_role(layout) {
        Some(device) => Some(device),
        None => {
            if layout.devices.len() > 0 {
                Some(&layout.devices[0])
            } else {
                None
            }
        },
    }
}

/// Whether a device has the given id.
pub open spec fn device_named(id: Seq<char>) -> spec_fn(Device) -> bool {
    |device: Device| device.id@ == id
}

/// The device with the given id.
pub open spec fn device_with_id(layout: LayoutState, id: Seq<char>) -> Option<Device> {
    find_first(layout.devices@, device_named(id))
}

pub fn find_device<'a>(layout: &'a LayoutState, id: &str) -> (found: Option<&'a Device>)
    ensures
        same_option(found, device_with_id(*layout, id@)),
{
    let ghost holds = device_named(id@);
    let mut index: usize = 0;
    while index < layout.devices.len()
        invariant
            index <= layout.devices@.len(),
            holds == device_named(id@),
            forall|i: int| 0 <= i < index ==> !holds(#[trigger] layout.devices@[i]),
        decreases layout.devices@.len() - index,
    {
        if same_text(layout.devices[index].id.as_str(), id) {
            proof {
                lemma_found(layout.devices@, holds, index as int);
            }
            return Some(&layout.devices[index]);
        }
        index += 1;
    }
    proof {
        lemma_not_found(layout.devices@, holds);
    }
    None
}

/// Whether a screen has the given id.
pub open spec fn screen_named(id: Seq<char>) -> spec_fn(Screen) -> bool {
    |screen: Screen| screen.id@ == id
}

/// The screen with the given id.
pub open spec fn screen_with_id(screens: Seq<Screen>, id: Seq<char>) -> Option<Screen> {
    find_first(screens, screen_named(id))
}

pub fn find_screen<'a>(screens: &'a Vec<Screen>, id: &str) -> (found: Option<&'a Screen>)
    ensures
        same_option(found, screen_with_id(screens@, id@)),
{
    let ghost holds = screen_named(id@);
    let mut index: usize = 0;
    while index < screens.len()
        invariant
            index <= screens@.len(),
            holds == screen_named(id@),
            forall|i: int| 0 <= i < index ==> !holds(#[trigger] screens@[i]),
        decreases screens@.len() - index,
    {
        if same_text(screens[index].id.as_str(), id) {
            proof {
                lemma_found(screens@, holds, index as int);
            }
            return Some(&screens[index]);
        }
        index += 1;
    }
    proof {
        lemma_not_found(screens@, holds);
    }
    None
}

/// The screen to fall back to: the primary one, else the first one.
pub open spec fn default_screen(screens: Seq<Screen>) -> Option<Screen> {
    either(find_first(screens, |screen: Screen| screen.is_primary), first_item(screens))
}

pub fn find_default_screen(screens: &Vec<Screen>) -> (found: Option<&Screen>)
    ensures
        same_option(found, default_screen(screens@)),
{
    let ghost holds = |screen: Screen| screen.is_primary;
    let mut index: usize = 0;
    while index < screens.len()
        invariant
            index <= screens@.len(),
            holds == (|screen: Screen| screen.is_primary),
            forall|i: int| 0 <= i < index ==> !holds(#[trigger] screens@[i]),
        decreases screens@.len() - index,
    {
        if screens[index].is_primary {
            proof {
                lemma_found(screens@, holds, index as int);
            }
            return Some(&screens[index]);
        }
        index += 1;
    }
    proof {
        lemma_not_found(screens@, holds);
    }
    if screens.len() > 0 {
        Some(&screens[0])
    } else {
        None
    }
}

/// The own screen that an event for `screen_id` falls on.
pub open spec fn event_screen(layout: LayoutState, screen_id: Seq<char>) -> Option<Screen> {
    match own_device(layout) {
        Some(device) => either(
            screen_with_id(device.screens@, screen_id),
            default_screen(device.screens@),
        ),
        None => None,
    }
}

pub fn local_screen_for_event<'a>(layout: &'a LayoutState, screen_id: &str) -> (found: Option<
    &'a Screen,
>)
    ensures
        same_option(found, event_screen(*layout, screen_id@)),
{
    match local_device(layout) {
        Some(device) => match find_screen(&device.screens, screen_id) {
            Some(screen) => Some(screen),
            None => find_default_screen(&device.screens),
        },
        None => None,
    }
}

/// How a point of one axis travels from layout to native pixels.
#[derive(Debug, Clone, Copy, PartialEq, Eq, Structural)]
pub struct PointMapping {
    pub logical_width: i32,
    pub logical_height: i32,
    pub native: NativeRect,
}

/// How a screen-relative point of an event is placed on this machine. The
/// native layout decides the rectangle where it knows the screen.
pub open spec fn point_mapping(
    layout: LayoutState,
    native_layout: LayoutState,
    screen_id: Seq<char>,
) -> Option<PointMapping> {
    match event_screen(layout, screen_id) {
        Some(screen) => Some(
            PointMapping {
                logical_width: screen.width,
                logical_height: screen.height,
                native: match event_screen(native_layout, screen_id) {
                    Some(native) => native.native,
                    None => screen.native,
                },
            },
        ),
        None => None,
    }
}

/// The scaling that a point on `screen_id` undergoes, if this machine has any
/// screen.
pub fn map_event_point_to_native(
    layout: &LayoutState,
    native_layout: &LayoutState,
    screen_id: &str,
) -> (mapping: Option<PointMapping>)
    ensures
        mapping == point_mapping(*layout, *native_layout, screen_id@),
{
    match local_screen_for_event(layout, screen_id) {
        Some(screen) => {
            let native = match local_screen_for_event(native_layout, screen_id) {
                Some(native) => native.native,
                None => screen.native,
            };
            Some(
                PointMapping { logical_width: screen.width, logical_height: screen.height, native },
            )
        },
        None => None,
    }
}

/// A network address: host, colon, port.
pub open spec fn address(host: Seq<char>, port: u16) -> Seq<char> {
    host + ":"@ + decimal(port as nat)
}

/// On its own machine a screen lies where its native rectangle says, and is
/// otherwise the same screen.
pub proof fn law_native_screen_lies_in_its_rectangle(screen: Screen)
    ensures
        native_screen(screen).x == screen.native.x,
        native_screen(screen).y == screen.native.y,
        native_screen(screen).width == screen.native.width,
        native_screen(screen).height == screen.native.height,
        native_screen(screen).id == screen.id,
        native_screen(screen).device_id == screen.device_id,
        native_screen(screen).native == screen.native,
        native_screen(screen).is_primary == screen.is_primary,
{
}

/// The port of the encrypted transport is used wherever there is one.
pub proof fn law_encrypted_port_comes_first(transport_port: u16, quic_port: u16)
    ensures
        quic_port != 0 ==> effective_port(transport_port, quic_port) == quic_port,
        effective_port(transport_port, 0) == transport_port,
{
}

/// A search finds an item that is accepted, before which none is, and fails only
/// where none is accepted.
pub proof fn law_search_finds_the_first<T>(items: Seq<T>, holds: spec_fn(T) -> bool)
    ensures
        match find_first(items, holds) {
            Some(item) => exists|index: int|
                {
                    &&& 0 <= index < items.len()
                    &&& #[trigger] items[index] == item
                    &&& holds(item)
                    &&& forall|i: int| 0 <= i < index ==> !holds(#[trigger] items[i])
                },
            None => forall|i: int| 0 <= i < items.len() ==> !holds(#[trigger] items[i]),
        },
    decreases items.len(),
{
    if exists|index: int| first_where(items, holds, index) {
        let index = choose|index: int| first_where(items, holds, index);
        assert(items[index] == find_first(items, holds)->0);
    } else if items.len() > 0 {
        let rest = items.drop_last();
        law_search_finds_the_first(rest, holds);
        if let Some(item) = find_first(rest, holds) {
            let index = choose|index: int|
                {
                    &&& 0 <= index < rest.len()
                    &&& #[trigger] rest[index] == item
                    &&& holds(item)
                    &&& forall|i: int| 0 <= i < index ==> !holds(#[trigger] rest[i])
                };
            assert forall|i: int| 0 <= i < index implies !holds(#[trigger] items[i]) by {
                assert(rest[i] == items[i]);
            }
            assert(items[index] == item);
            assert(first_where(items, holds, index));
        } else {
            assert forall|i: int| 0 <= i < items.len() implies !holds(#[trigger] items[i]) by {
                if i < items.len() - 1 {
                    assert(rest[i] == items[i]);
                } else if holds(items[i]) {
                    assert forall|j: int| 0 <= j < i implies !holds(#[trigger] items[j]) by {
                        assert(rest[j] == items[j]);
                    }
                    assert(first_where(items, holds, i));
                }
            }
        }
    }
}

/// This machine is the first device with the local role; only where there is
/// none it is the first device of all.
pub proof fn law_own_device_has_the_local_role(layout: LayoutState)
    ensures
        own_device(layout) is None <==> layout.devices@.len() == 0,
        own_device(layout) matches Some(device) ==> layout.devices@.contains(device),
        (exists|i: int| 0 <= i < layout.devices@.len() && #[trigger] layout.devices@[i].role@
            == "local"@) ==> own_device(layout)->0.role@ == "local"@ && local_role_device(layout)
            == own_device(layout),
        (forall|i: int| 0 <= i < layout.devices@.len() ==> #[trigger] layout.devices@[i].role@
            != "local"@) && layout.devices@.len() > 0 ==> own_device(layout) == Some(
            layout.devices@[0],
        ) && local_role_device(layout) is None,
{
    let holds = |device: Device| is_local_role(device);
    law_search_finds_the_first(layout.devices@, holds);
    if exists|i: int| 0 <= i < layout.devices@.len() && #[trigger] layout.devices@[i].role@
        == "local"@ {
        let i = choose|i: int|
            0 <= i < layout.devices@.len() && #[trigger] layout.devices@[i].role@ == "local"@;
        assert(holds(layout.devices@[i]));
    }
}

/// The screen to fall back to is a primary one wherever there is one.
pub proof fn law_default_screen_is_primary(screens: Seq<Screen>)
    ensures
        default_screen(screens) is None <==> screens.len() == 0,
        default_screen(screens) matches Some(screen) ==> screens.contains(screen),
        (exists|i: int| 0 <= i < screens.len() && (#[trigger] screens[i]).is_primary)
            ==> default_screen(screens)->0.is_primary,
        screens.len() > 0 && (forall|i: int|
            0 <= i < screens.len() ==> !(#[trigger] screens[i]).is_primary) ==> default_screen(
            screens,
        ) == Some(screens[0]),
{
    let holds = |screen: Screen| screen.is_primary;
    law_search_finds_the_first(screens, holds);
    if exists|i: int| 0 <= i < screens.len() && (#[trigger] screens[i]).is_primary {
        let i = choose|i: int| 0 <= i < screens.len() && (#[trigger] screens[i]).is_primary;
        assert(holds(screens[i]));
    }
}

/// A screen that is looked up has the id that it was looked up by, and none is
/// found only where none has it.
pub proof fn law_screens_are_found_by_their_id(screens: Seq<Screen>, id: Seq<char>)
    ensures
        screen_with_id(screens, id) matches Some(screen) ==> screens.contains(screen) && screen.id@
            == id,
        screen_with_id(screens, id) is None ==> forall|i: int|
            0 <= i < screens.len() ==> #[trigger] screens[i].id@ != id,
{
    law_search_finds_the_first(screens, screen_named(id));
    if screen_with_id(screens, id) is None {
        assert forall|i: int| 0 <= i < screens.len() implies #[trigger] screens[i].id@ != id by {
            assert(!screen_named(id)(screens[i]));
        }
    }
}

/// A device that is looked up has the id that it was looked up by, and none is
/// found only where none has it.
pub proof fn law_devices_are_found_by_their_id(layout: LayoutState, id: Seq<char>)
    ensures
        device_with_id(layout, id) matches Some(device) ==> layout.devices@.contains(device)
            && device.id@ == id,
        device_with_id(layout, id) is None ==> forall|i: int|
            0 <= i < layout.devices@.len() ==> #[trigger] layout.devices@[i].id@ != id,
{
    law_search_finds_the_first(layout.devices@, device_named(id));
    if device_with_id(layout, id) is None {
        assert forall|i: int| 0 <= i < layout.devices@.len() implies #[trigger]
            layout.devices@[i].id@ != id by {
            assert(!device_named(id)(layout.devices@[i]));
        }
    }
}

/// An event falls on the own screen that it names; only where this machine has
/// no such screen it falls on the default one.
pub proof fn law_events_fall_on_the_named_screen(layout: LayoutState, screen_id: Seq<char>)
    ensures
        match own_device(layout) {
            None => event_screen(layout, screen_id) is None,
            Some(device) => {
                let screens = device.screens@;
                &&& screens.len() > 0 ==> (event_screen(layout, screen_id) matches Some(screen)
                    && screens.contains(screen))
                &&& (exists|i: int| 0 <= i < screens.len() && #[trigger] screens[i].id@ == screen_id)
                    ==> event_screen(layout, screen_id)->0.id@ == screen_id
                &&& (forall|i: int|
                    0 <= i < screens.len() ==> #[trigger] screens[i].id@ != screen_id)
                    ==> event_screen(layout, screen_id) == default_screen(screens)
            },
        },
{
    if let Some(device) = own_device(layout) {
        law_screens_are_found_by_their_id(device.screens@, screen_id);
        law_default_screen_is_primary(device.screens@);
    }
}

/// A point is scaled from the size of its screen in the layout to the rectangle
/// that the native layout knows for it.
pub proof fn law_points_are_scaled_from_layout_to_native(
    layout: LayoutState,
    native_layout: LayoutState,
    screen_id: Seq<char>,
)
    ensures
        point_mapping(layout, native_layout, screen_id) is Some <==> event_screen(
            layout,
            screen_id,
        ) is Some,
        point_mapping(layout, native_layout, screen_id) matches Some(mapping) ==> {
            let screen = event_screen(layout, screen_id)->0;
            &&& mapping.logical_width == screen.width
            &&& mapping.logical_height == screen.height
            &&& event_screen(native_layout, screen_id) matches Some(native) ==> mapping.native
                == native.native
            &&& event_screen(native_layout, screen_id) is None ==> mapping.native == screen.native
        },
{
}

/// An address is the host, a colon and the port in decimal.
pub proof fn law_addresses_name_host_and_port(host: Seq<char>, port: u16)
    ensures
        address(host, port).take(host.len() as int) == host,
        address(host, port)[host.len() as int] == ':',
        address(host, port).skip(host.len() as int + 1) == decimal(port as nat),
{
    reveal_strlit(":");
    assert(address(host, port).take(host.len() as int) =~= host);
    assert(address(host, port).skip(host.len() as int + 1) =~= decimal(port as nat));
}

} // verus!
