//! The packets that carry input between two paired machines.

use vstd::prelude::*;
use vstd::string::*;

use crate::clipboard_target::{peer_view, ClipboardPeer, ClipboardPeerView};
use crate::layout::{
    address, device_with_id, effective_port, find_device, find_first, is_local_role, lemma_found,
    lemma_not_found, same_option, Device, LayoutState, PairedController, Platform, PROTOCOL_VERSION,
};
use crate::modifiers::{remap_modifier_mask, remap_modifier_vk, remapped_key, remapped_mask};
use crate::shared_input::InputEvent;
use crate::targets::{device_address, InputTarget};
use crate::text::{append_decimal, blank, is_blank, same_text, whitespace};

verus! {

/// The name of the input protocol.
pub fn input_protocol() -> (name: &'static str)
    ensures
        name@ == "mykvm.input.v1"@,
{
    "mykvm.input.v1"
}

/// The name of the control protocol.
pub fn input_control_protocol() -> (name: &'static str)
    ensures
        name@ == "mykvm.input-control.v1"@,
{
    "mykvm.input-control.v1"
}

#[derive(Debug, PartialEq, Eq)]
pub struct InputPacket {
    pub protocol: String,
    pub target_device_id: String,
    pub origin_device_id: String,
    pub origin_port: u16,
    pub origin_transport_public_key: String,
    pub origin_protocol_version: u16,
    pub cluster_id: String,
    pub pair_secret: String,
    /// The modifiers that are held on the target's terms; `Some(0)` is none.
    pub modifier_snapshot: Option<u8>,
    /// Zero is reserved for peers that do not number their frames.
    pub key_sequence: u64,
    /// A liveness frame of an active session.
    pub heartbeat: bool,
    pub event: InputEvent,
}

#[derive(Debug, Clone, Copy, PartialEq, Eq, Structural)]
pub enum InputControlCommand {
    SecureAttention,
}

#[derive(Debug, PartialEq, Eq)]
pub struct InputControlPacket {
    pub protocol: String,
    pub target_device_id: String,
    pub origin_device_id: String,
    pub origin_transport_public_key: String,
    pub origin_protocol_version: u16,
    pub cluster_id: String,
    pub pair_secret: String,
    pub command: InputControlCommand,
}

/// Whether an encoder leaves the number out.
pub fn is_zero(value: &u64) -> (zero: bool)
    ensures
        zero == (*value == 0),
{
    *value == 0
}

/// Whether an encoder leaves the flag out.
pub fn is_false(value: &bool) -> (not_set: bool)
    ensures
        not_set == !*value,
{
    !*value
}

/// The credentials that a packet presents.
pub struct Credentials {
    pub protocol_version: u16,
    pub cluster_id: Seq<char>,
    pub pair_secret: Seq<char>,
    pub public_key: Seq<char>,
    pub device_id: Seq<char>,
}

pub open spec fn input_credentials(packet: InputPacket) -> Credentials {
    Credentials {
        protocol_version: packet.origin_protocol_version,
        cluster_id: packet.cluster_id@,
        pair_secret: packet.pair_secret@,
        public_key: packet.origin_transport_public_key@,
        device_id: packet.origin_device_id@,
    }
}

pub open spec fn control_credentials(packet: InputControlPacket) -> Credentials {
    Credentials {
        protocol_version: packet.origin_protocol_version,
        cluster_id: packet.cluster_id@,
        pair_secret: packet.pair_secret@,
        public_key: packet.origin_transport_public_key@,
        device_id: packet.origin_device_id@,
    }
}

/// A controller is recognised by its transport key or by its id.
pub open spec fn controller_matches(
    controller: PairedController,
    credentials: Credentials,
) -> bool {
    ||| !blank(credentials.public_key) && controller.transport_public_key@
        == credentials.public_key
    ||| !blank(credentials.device_id) && controller.id@ == credentials.device_id
}

pub open spec fn is_paired_controller(layout: LayoutState, credentials: Credentials) -> bool {
    exists|i: int|
        0 <= i < layout.paired_controllers@.len() && controller_matches(
            #[trigger] layout.paired_controllers@[i],
            credentials,
        )
}

/// A client with exactly one controller also accepts the unnamed local origin
/// that older controllers send, whatever key it presents.
pub open spec fn legacy_origin_allowed(layout: LayoutState, credentials: Credentials) -> bool {
    &&& layout.machine_role@ == "client"@
    &&& layout.paired_controllers@.len() == 1
    &&& credentials.device_id == "local-device"@
    &&& !blank(credentials.public_key)
}

/// This machine has pairing credentials at all.
pub open spec fn pairing_configured(layout: LayoutState) -> bool {
    !blank(layout.cluster_id@) && !blank(layout.pair_secret@)
}

/// The packet presents the credentials of this machine's pairing.
pub open spec fn pairing_agrees(layout: LayoutState, credentials: Credentials) -> bool {
    credentials.cluster_id == layout.cluster_id@ && credentials.pair_secret == layout.pair_secret@
}

/// A packet is authorized by protocol, pairing secret and controller together.
pub open spec fn authorized(layout: LayoutState, credentials: Credentials) -> bool {
    &&& credentials.protocol_version == PROTOCOL_VERSION
    &&& pairing_configured(layout)
    &&& pairing_agrees(layout, credentials)
    &&& is_paired_controller(layout, credentials) || legacy_origin_allowed(layout, credentials)
}

pub fn legacy_local_device_origin_allowed(
    layout: &LayoutState,
    origin_device_id: &str,
    origin_transport_public_key: &str,
) -> (allowed: bool)
    ensures
        forall|credentials: Credentials|
            credentials.device_id == origin_device_id@ && credentials.public_key
                == origin_transport_public_key@ ==> allowed == #[trigger] legacy_origin_allowed(
                *layout,
                credentials,
            ),
{
    same_text(layout.machine_role.as_str(), "client") && layout.paired_controllers.len() == 1
        && same_text(origin_device_id, "local-device") && !is_blank(origin_transport_public_key)
}

pub fn packet_authorized_fields(
    layout: &LayoutState,
    origin_protocol_version: u16,
    cluster_id: &str,
    pair_secret: &str,
    origin_transport_public_key: &str,
    origin_device_id: &str,
) -> (allowed: bool)
    ensures
        allowed == authorized(
            *layout,
            Credentials {
                protocol_version: origin_protocol_version,
                cluster_id: cluster_id@,
                pair_secret: pair_secret@,
                public_key: origin_transport_public_key@,
                device_id: origin_device_id@,
            },
        ),
{
    let ghost credentials = Credentials {
        protocol_version: origin_protocol_version,
        cluster_id: cluster_id@,
        pair_secret: pair_secret@,
        public_key: origin_transport_public_key@,
        device_id: origin_device_id@,
    };
    if origin_protocol_version != PROTOCOL_VERSION {
        return false;
    }
    if is_blank(layout.cluster_id.as_str()) || is_blank(layout.pair_secret.as_str()) {
        return false;
    }
    if !same_text(cluster_id, layout.cluster_id.as_str()) || !same_text(
        pair_secret,
        layout.pair_secret.as_str(),
    ) {
        return false;
    }
    let has_key = !is_blank(origin_transport_public_key);
    let has_id = !is_blank(origin_device_id);
    let mut index: usize = 0;
    while index < layout.paired_controllers.len()
        invariant
            index <= layout.paired_controllers@.len(),
            has_key == !blank(credentials.public_key),
            has_id == !blank(credentials.device_id),
            credentials == (Credentials {
                protocol_version: origin_protocol_version,
                cluster_id: cluster_id@,
                pair_secret: pair_secret@,
                public_key: origin_transport_public_key@,
                device_id: origin_device_id@,
            }),
            origin_protocol_version == PROTOCOL_VERSION,
            pairing_configured(*layout),
            pairing_agrees(*layout, credentials),
            forall|i: int|
                0 <= i < index ==> !controller_matches(
                    #[trigger] layout.paired_controllers@[i],
                    credentials,
                ),
        decreases layout.paired_controllers@.len() - index,
    {
        let controller = &layout.paired_controllers[index];
        if (has_key && same_text(
            controller.transport_public_key.as_str(),
            origin_transport_public_key,
        )) || (has_id && same_text(controller.id.as_str(), origin_device_id)) {
            assert(controller_matches(layout.paired_controllers@[index as int], credentials));
            return true;
        }
        index += 1;
    }
    assert(!is_paired_controller(*layout, credentials));
    let legacy = legacy_local_device_origin_allowed(
        layout,
        origin_device_id,
        origin_transport_public_key,
    );
    assert(legacy == legacy_origin_allowed(*layout, credentials));
    legacy
}

pub fn packet_authorized(layout: &LayoutState, packet: &InputPacket) -> (allowed: bool)
    ensures
        allowed == authorized(*layout, input_credentials(*packet)),
{
    packet_authorized_fields(
        layout,
        packet.origin_protocol_version,
        packet.cluster_id.as_str(),
        packet.pair_secret.as_str(),
        packet.origin_transport_public_key.as_str(),
        packet.origin_device_id.as_str(),
    )
}

pub fn control_packet_authorized(layout: &LayoutState, packet: &InputControlPacket) -> (allowed:
    bool)
    ensures
        allowed == authorized(*layout, control_credentials(*packet)),
{
    packet_authorized_fields(
        layout,
        packet.origin_protocol_version,
        packet.cluster_id.as_str(),
        packet.pair_secret.as_str(),
        packet.origin_transport_public_key.as_str(),
        packet.origin_device_id.as_str(),
    )
}

/// Why a packet was not authorized.
#[derive(Debug, Clone, Copy, PartialEq, Eq, Structural)]
pub enum Rejection {
    ProtocolMismatch,
    NotPaired,
    PairingMismatch,
    UnknownController,
}

/// The first of the conditions that an unauthorized packet misses.
pub open spec fn rejection(layout: LayoutState, credentials: Credentials) -> Rejection {
    if credentials.protocol_version != PROTOCOL_VERSION {
        Rejection::ProtocolMismatch
    } else if !pairing_configured(layout) {
        Rejection::NotPaired
    } else if !pairing_agrees(layout, credentials) {
        Rejection::PairingMismatch
    } else {
        Rejection::UnknownController
    }
}

fn rejection_of(
    layout: &LayoutState,
    origin_protocol_version: u16,
    cluster_id: &str,
    pair_secret: &str,
) -> (reason: Rejection)
    ensures
        forall|credentials: Credentials|
            credentials.protocol_version == origin_protocol_version && credentials.cluster_id
                == cluster_id@ && credentials.pair_secret == pair_secret@ ==> reason
                == #[trigger] rejection(*layout, credentials),
{
    if origin_protocol_version != PROTOCOL_VERSION {
        Rejection::ProtocolMismatch
    } else if is_blank(layout.cluster_id.as_str()) || is_blank(layout.pair_secret.as_str()) {
        Rejection::NotPaired
    } else if !same_text(cluster_id, layout.cluster_id.as_str()) || !same_text(
        pair_secret,
        layout.pair_secret.as_str(),
    ) {
        Rejection::PairingMismatch
    } else {
        Rejection::UnknownController
    }
}

/// What the log says of a rejected input packet.
pub fn warn_unauthorized_packet(layout: &LayoutState, packet: &InputPacket) -> (reason: &'static str)
    ensures
        reason@ == match rejection(*layout, input_credentials(*packet)) {
            Rejection::ProtocolMismatch => "input protocol mismatch — update MyKVM on both devices"@,
            Rejection::NotPaired => "this device has no pairing configured (empty cluster/secret) — pair it with the controller"@,
            Rejection::PairingMismatch => "pairing secret/cluster mismatch — controller and this device are not paired with the same credentials; re-pair them (removing/re-adding the device does NOT re-pair)"@,
            Rejection::UnknownController => "controller is not in this device's paired-controllers list (likely a rotated transport key) — re-pair"@,
        },
{
    let reason = rejection_of(
        layout,
        packet.origin_protocol_version,
        packet.cluster_id.as_str(),
        packet.pair_secret.as_str(),
    );
    assert(reason == rejection(*layout, input_credentials(*packet)));
    match reason {
        Rejection::ProtocolMismatch => "input protocol mismatch — update MyKVM on both devices",
        Rejection::NotPaired => "this device has no pairing configured (empty cluster/secret) — pair it with the controller",
        Rejection::PairingMismatch => "pairing secret/cluster mismatch — controller and this device are not paired with the same credentials; re-pair them (removing/re-adding the device does NOT re-pair)",
        Rejection::UnknownController => "controller is not in this device's paired-controllers list (likely a rotated transport key) — re-pair",
    }
}

/// What the log says of a rejected control packet.
pub fn warn_unauthorized_control_packet(
    layout: &LayoutState,
    packet: &InputControlPacket,
) -> (reason: &'static str)
    ensures
        reason@ == match rejection(*layout, control_credentials(*packet)) {
            Rejection::ProtocolMismatch => "input protocol mismatch — update MyKVM on both devices"@,
            Rejection::NotPaired => "this device has no pairing configured"@,
            Rejection::PairingMismatch => "pairing secret/cluster mismatch"@,
            Rejection::UnknownController => "controller is not in this device's paired-controllers list"@,
        },
{
    let reason = rejection_of(
        layout,
        packet.origin_protocol_version,
        packet.cluster_id.as_str(),
        packet.pair_secret.as_str(),
    );
    assert(reason == rejection(*layout, control_credentials(*packet)));
    match reason {
        Rejection::ProtocolMismatch => "input protocol mismatch — update MyKVM on both devices",
        Rejection::NotPaired => "this device has no pairing configured",
        Rejection::PairingMismatch => "pairing secret/cluster mismatch",
        Rejection::UnknownController => "controller is not in this device's paired-controllers list",
    }
}

/// Whether an event that recurs faster than `interval` may be reported again.
pub open spec fn report_due(last: Option<u64>, now: u64, interval: u64) -> bool {
    last matches Some(last) ==> now - last >= interval
}

/// Rate limit of a log line: whether it is due now, and if so it counts as
/// written.
pub fn take_report(last: &mut Option<u64>, now: u64, interval: u64) -> (due: bool)
    ensures
        due == report_due(*old(last), now, interval),
        *final(last) == if due {
            Some(now)
        } else {
            *old(last)
        },
{
    if let Some(reported) = *last {
        if now < reported || now - reported < interval {
            return false;
        }
    }
    *last = Some(now);
    true
}

/// Whether a packet is meant for this machine: unaddressed, addressed to its
/// peer id, or to a local device.
pub open spec fn targets_local(
    layout: LayoutState,
    target_device_id: Seq<char>,
    local_peer_id: Seq<char>,
) -> bool {
    ||| blank(target_device_id)
    ||| target_device_id == local_peer_id
    ||| exists|i: int|
        0 <= i < layout.devices@.len() && is_local_role(#[trigger] layout.devices@[i])
            && layout.devices@[i].id@ == target_device_id
}

pub fn packet_targets_local(
    layout: &LayoutState,
    target_device_id: &str,
    local_peer_id: &str,
) -> (is_target: bool)
    ensures
        is_target == targets_local(*layout, target_device_id@, local_peer_id@),
{
    if is_blank(target_device_id) || same_text(target_device_id, local_peer_id) {
        return true;
    }
    let mut index: usize = 0;
    while index < layout.devices.len()
        invariant
            index <= layout.devices@.len(),
            forall|i: int|
                0 <= i < index ==> !(is_local_role(#[trigger] layout.devices@[i])
                    && layout.devices@[i].id@ == target_device_id@),
        decreases layout.devices@.len() - index,
    {
        let device = &layout.devices[index];
        if same_text(device.role.as_str(), "local") && same_text(
            device.id.as_str(),
            target_device_id,
        ) {
            assert(is_local_role(layout.devices@[index as int]));
            return true;
        }
        index += 1;
    }
    false
}

/// The reliability that the transport gives an input frame.
#[derive(Debug, Clone, Copy, PartialEq, Eq, Structural)]
pub enum ReliableInputClass {
    State,
    Release,
    ResetBoundary,
    Transient,
}

/// The reliable class of an event; moves have none and are latest-wins.
pub open spec fn event_class(event: InputEvent) -> Option<ReliableInputClass> {
    match event {
        InputEvent::Key { down, .. } => if down {
            Some(ReliableInputClass::State)
        } else {
            Some(ReliableInputClass::Release)
        },
        InputEvent::MouseButton { down, .. } => if down {
            Some(ReliableInputClass::State)
        } else {
            Some(ReliableInputClass::Release)
        },
        InputEvent::CursorPark { .. } => Some(ReliableInputClass::ResetBoundary),
        InputEvent::Scroll { .. } => Some(ReliableInputClass::Transient),
        InputEvent::MouseMove { .. } => None,
    }
}

pub fn input_event_reliable_class(event: &InputEvent) -> (class: Option<ReliableInputClass>)
    ensures
        class == event_class(*event),
{
    match event {
        InputEvent::Key { down, .. } => {
            if *down {
                Some(ReliableInputClass::State)
            } else {
                Some(ReliableInputClass::Release)
            }
        },
        InputEvent::MouseButton { down, .. } => {
            if *down {
                Some(ReliableInputClass::State)
            } else {
                Some(ReliableInputClass::Release)
            }
        },
        InputEvent::CursorPark { .. } => Some(ReliableInputClass::ResetBoundary),
        InputEvent::Scroll { .. } => Some(ReliableInputClass::Transient),
        InputEvent::MouseMove { .. } => None,
    }
}

/// The reliable class of a packet: a heartbeat is state, whatever it carries.
pub open spec fn packet_class(event: InputEvent, heartbeat: bool) -> Option<ReliableInputClass> {
    if heartbeat {
        Some(ReliableInputClass::State)
    } else {
        event_class(event)
    }
}

pub fn input_packet_reliable_class(event: &InputEvent, heartbeat: bool) -> (class: Option<
    ReliableInputClass,
>)
    ensures
        class == packet_class(*event, heartbeat),
{
    if heartbeat {
        Some(ReliableInputClass::State)
    } else {
        input_event_reliable_class(event)
    }
}

/// Keys, parks and everything with a modifier snapshot share one numbering.
pub open spec fn needs_key_sequence(event: InputEvent, modifier_snapshot: Option<u8>) -> bool {
    event is Key || event is CursorPark || modifier_snapshot is Some
}

pub fn input_packet_needs_key_sequence(
    event: &InputEvent,
    modifier_snapshot: Option<u8>,
) -> (needs: bool)
    ensures
        needs == needs_key_sequence(*event, modifier_snapshot),
{
    matches!(event, InputEvent::Key { .. } | InputEvent::CursorPark { .. })
        || modifier_snapshot.is_some()
}

/// Whether modifiers are renamed for a target: only between the two platforms
/// whose conventions are known to differ.
pub open spec fn remap_applies(
    target_platform: Seq<char>,
    current_platform: Seq<char>,
    modifier_remap: bool,
) -> bool {
    &&& modifier_remap
    &&& target_platform == "macos"@ || target_platform == "windows"@
    &&& target_platform != current_platform
}

/// The event that is sent in place of `event`.
pub open spec fn remapped_event(
    event: InputEvent,
    applies: bool,
    control: Seq<char>,
    alt: Seq<char>,
    meta: Seq<char>,
) -> InputEvent {
    match event {
        InputEvent::Key { key_code, down } if applies => InputEvent::Key {
            key_code: remapped_key(key_code, control, alt, meta),
            down,
        },
        _ => event,
    }
}

fn remap_is_on(target: &InputTarget, current_platform: &str, modifier_remap: bool) -> (applies: bool)
    ensures
        applies == remap_applies(target.target_platform@, current_platform@, modifier_remap),
{
    let platform = target.target_platform.as_str();
    modifier_remap && (same_text(platform, "macos") || same_text(platform, "windows"))
        && !same_text(platform, current_platform)
}

pub fn remap_event_for_target_config(
    event: InputEvent,
    target: &InputTarget,
    current_platform: &str,
    modifier_remap: bool,
    control: &str,
    alt: &str,
    meta: &str,
) -> (sent: InputEvent)
    ensures
        sent == remapped_event(
            event,
            remap_applies(target.target_platform@, current_platform@, modifier_remap),
            control@,
            alt@,
            meta@,
        ),
{
    if !remap_is_on(target, current_platform, modifier_remap) {
        return event;
    }
    match event {
        InputEvent::Key { key_code, down } => InputEvent::Key {
            key_code: remap_modifier_vk(key_code, control, alt, meta),
            down,
        },
        other => other,
    }
}

/// Renames modifiers by the settings of the live layout.
pub fn remap_event_for_target_layout(
    event: InputEvent,
    target: &InputTarget,
    current_platform: &str,
    layout: &LayoutState,
) -> (sent: InputEvent)
    ensures
        sent == remapped_event(
            event,
            remap_applies(target.target_platform@, current_platform@, layout.modifier_remap),
            layout.modifier_map.control@,
            layout.modifier_map.alt@,
            layout.modifier_map.meta@,
        ),
{
    remap_event_for_target_config(
        event,
        target,
        current_platform,
        layout.modifier_remap,
        layout.modifier_map.control.as_str(),
        layout.modifier_map.alt.as_str(),
        layout.modifier_map.meta.as_str(),
    )
}

/// The event after the remap that was captured with the target.
pub open spec fn cached_event(
    event: InputEvent,
    target: InputTarget,
    current_platform: Seq<char>,
) -> InputEvent {
    remapped_event(
        event,
        remap_applies(target.target_platform@, current_platform, target.modifier_remap),
        target.modifier_control@,
        target.modifier_alt@,
        target.modifier_meta@,
    )
}

/// Renames modifiers by the settings that were captured with the target.
pub fn remap_event_for_target_cached(
    event: InputEvent,
    target: &InputTarget,
    current_platform: &str,
) -> (sent: InputEvent)
    ensures
        sent == cached_event(event, *target, current_platform@),
{
    remap_event_for_target_config(
        event,
        target,
        current_platform,
        target.modifier_remap,
        target.modifier_control.as_str(),
        target.modifier_alt.as_str(),
        target.modifier_meta.as_str(),
    )
}

pub fn remap_modifier_snapshot_for_target_config(
    mask: u8,
    target: &InputTarget,
    current_platform: &str,
    modifier_remap: bool,
    control: &str,
    alt: &str,
    meta: &str,
) -> (sent: u8)
    ensures
        sent == if remap_applies(target.target_platform@, current_platform@, modifier_remap) {
            remapped_mask(mask, control@, alt@, meta@)
        } else {
            mask
        },
{
    if remap_is_on(target, current_platform, modifier_remap) {
        remap_modifier_mask(mask, control, alt, meta)
    } else {
        mask
    }
}

/// The snapshot by the settings of the live layout.
pub fn remap_modifier_snapshot_for_target_layout(
    mask: u8,
    target: &InputTarget,
    current_platform: &str,
    layout: &LayoutState,
) -> (sent: u8)
    ensures
        sent == if remap_applies(
            target.target_platform@,
            current_platform@,
            layout.modifier_remap,
        ) {
            remapped_mask(
                mask,
                layout.modifier_map.control@,
                layout.modifier_map.alt@,
                layout.modifier_map.meta@,
            )
        } else {
            mask
        },
{
    remap_modifier_snapshot_for_target_config(
        mask,
        target,
        current_platform,
        layout.modifier_remap,
        layout.modifier_map.control.as_str(),
        layout.modifier_map.alt.as_str(),
        layout.modifier_map.meta.as_str(),
    )
}

/// The snapshot after the remap that was captured with the target.
pub open spec fn cached_snapshot(
    mask: u8,
    target: InputTarget,
    current_platform: Seq<char>,
) -> u8 {
    if remap_applies(target.target_platform@, current_platform, target.modifier_remap) {
        remapped_mask(
            mask,
            target.modifier_control@,
            target.modifier_alt@,
            target.modifier_meta@,
        )
    } else {
        mask
    }
}

/// The snapshot by the settings that were captured with the target.
pub fn remap_modifier_snapshot_for_target_cached(
    mask: u8,
    target: &InputTarget,
    current_platform: &str,
) -> (sent: u8)
    ensures
        sent == cached_snapshot(mask, *target, current_platform@),
{
    remap_modifier_snapshot_for_target_config(
        mask,
        target,
        current_platform,
        target.modifier_remap,
        target.modifier_control.as_str(),
        target.modifier_alt.as_str(),
        target.modifier_meta.as_str(),
    )
}

/// Where a packet is sent.
#[derive(Debug, PartialEq, Eq)]
pub struct PeerEndpoint {
    pub addr: String,
    pub public_key: String,
    pub protocol_version: u16,
}

pub struct PeerView {
    pub addr: Seq<char>,
    pub public_key: Seq<char>,
    pub protocol_version: u16,
}

impl View for PeerEndpoint {
    type V = PeerView;

    open spec fn view(&self) -> PeerView {
        PeerView {
            addr: self.addr@,
            public_key: self.public_key@,
            protocol_version: self.protocol_version,
        }
    }
}

pub open spec fn device_peer(device: Device) -> PeerView {
    PeerView {
        addr: address(device.host@, effective_port(device.transport_port, device.quic_port)),
        public_key: device.transport_public_key@,
        protocol_version: device.protocol_version,
    }
}

fn peer_of_device(device: &Device) -> (peer: PeerEndpoint)
    ensures
        peer@ == device_peer(*device),
{
    PeerEndpoint {
        addr: device_address(device),
        public_key: device.transport_public_key.clone(),
        protocol_version: device.protocol_version,
    }
}

/// The peer of a target: by the live layout where it can be read, else as
/// captured with the target.
pub open spec fn packet_peer(target: InputTarget, layout: Option<LayoutState>) -> Option<
    PeerView,
> {
    match layout {
        Some(layout) => match device_with_id(layout, target.device_id@) {
            Some(device) if device.online && device.input_ready => Some(device_peer(device)),
            _ => None,
        },
        None => Some(
            PeerView {
                addr: target.target_addr@,
                public_key: target.transport_public_key@,
                protocol_version: target.protocol_version,
            },
        ),
    }
}

pub open spec fn option_peer(peer: Option<PeerEndpoint>) -> Option<PeerView> {
    match peer {
        Some(peer) => Some(peer@),
        None => None,
    }
}

/// What a packet takes from the session and the layout.
#[derive(Debug, PartialEq, Eq)]
pub struct InputPacketContext {
    pub origin_device_id: String,
    pub cluster_id: String,
    pub pair_secret: String,
    pub peer: Option<PeerEndpoint>,
    pub modifier_snapshot: Option<u8>,
    pub event: InputEvent,
}

pub open spec fn context_origin(target: InputTarget, layout: Option<LayoutState>) -> Seq<char> {
    match layout {
        Some(layout) => layout.local_peer_id@,
        None => target.origin_device_id@,
    }
}

pub open spec fn context_cluster(target: InputTarget, layout: Option<LayoutState>) -> Seq<char> {
    match layout {
        Some(layout) => layout.cluster_id@,
        None => target.cluster_id@,
    }
}

pub open spec fn context_secret(target: InputTarget, layout: Option<LayoutState>) -> Seq<char> {
    match layout {
        Some(layout) => layout.pair_secret@,
        None => target.pair_secret@,
    }
}

pub open spec fn context_snapshot(
    target: InputTarget,
    current_platform: Seq<char>,
    modifier_snapshot: Option<u8>,
) -> Option<u8> {
    match modifier_snapshot {
        Some(mask) => Some(cached_snapshot(mask, target, current_platform)),
        None => None,
    }
}

/// The layout behind an optional reference.
pub open spec fn layout_value(layout: Option<&LayoutState>) -> Option<LayoutState> {
    match layout {
        Some(layout) => Some(*layout),
        None => None,
    }
}

/// Gathers what a packet needs. The remap is that of the crossing; a layout
/// that is busy (`None`) is replaced by what was captured with the target.
pub fn input_packet_context(
    target: &InputTarget,
    event: InputEvent,
    modifier_snapshot: Option<u8>,
    layout: Option<&LayoutState>,
    current_platform: &str,
) -> (context: InputPacketContext)
    ensures
        context.event == cached_event(event, *target, current_platform@),
        context.modifier_snapshot == context_snapshot(
            *target,
            current_platform@,
            modifier_snapshot,
        ),
        context.origin_device_id@ == context_origin(*target, layout_value(layout)),
        context.cluster_id@ == context_cluster(*target, layout_value(layout)),
        context.pair_secret@ == context_secret(*target, layout_value(layout)),
        option_peer(context.peer) == packet_peer(*target, layout_value(layout)),
{
    let event = remap_event_for_target_cached(event, target, current_platform);
    let modifier_snapshot = match modifier_snapshot {
        Some(mask) => Some(
            remap_modifier_snapshot_for_target_cached(mask, target, current_platform),
        ),
        None => None,
    };
    match layout {
        Some(layout) => {
            let peer = match find_device(layout, target.device_id.as_str()) {
                Some(device) => {
                    if device.online && device.input_ready {
                        Some(peer_of_device(device))
                    } else {
                        None
                    }
                },
                None => None,
            };
            InputPacketContext {
                origin_device_id: layout.local_peer_id.clone(),
                cluster_id: layout.cluster_id.clone(),
                pair_secret: layout.pair_secret.clone(),
                peer,
                modifier_snapshot,
                event,
            }
        },
        None => InputPacketContext {
            origin_device_id: target.origin_device_id.clone(),
            cluster_id: target.cluster_id.clone(),
            pair_secret: target.pair_secret.clone(),
            peer: Some(
                PeerEndpoint {
                    addr: target.target_addr.clone(),
                    public_key: target.transport_public_key.clone(),
                    protocol_version: target.protocol_version,
                },
            ),
            modifier_snapshot,
            event,
        },
    }
}

/// The numbering of outgoing frames.
#[derive(Debug, PartialEq, Eq)]
pub struct SequenceCounter {
    pub next: u64,
}

/// The first number of a counter that was started at `micros` microseconds of
/// the epoch: never zero, and never the last number.
pub open spec fn sequence_seed(micros: u128) -> u64 {
    if micros == 0 {
        1
    } else if micros >= u64::MAX {
        (u64::MAX - 1) as u64
    } else {
        micros as u64
    }
}

impl SequenceCounter {
    /// A counter seeded by the clock, so that a restarted sender continues
    /// above the numbers of its last run.
    pub fn seeded(micros: u128) -> (counter: Self)
        ensures
            counter.next == sequence_seed(micros),
    {
        let next: u64 = if micros == 0 {
            1
        } else if micros >= u64::MAX as u128 {
            u64::MAX - 1
        } else {
            micros as u64
        };
        SequenceCounter { next }
    }

    /// The next number.
    pub fn take(&mut self) -> (sequence: u64)
        ensures
            sequence == old(self).next,
            final(self).next == if sequence == u64::MAX {
                0
            } else {
                (sequence + 1) as u64
            },
    {
        let sequence: u64 = self.next;
        self.next = sequence.wrapping_add(1);
        sequence
    }
}

/// How the transport takes a frame.
#[derive(Debug, Clone, Copy, PartialEq, Eq, Structural)]
pub enum SendChannel {
    Reliable(ReliableInputClass),
    LatestDatagram,
    Datagram,
}

/// Whether the sender waits for the transport to take a frame.
#[derive(Debug, Clone, Copy, PartialEq, Eq, Structural)]
pub enum InputSendAdmission {
    Confirmed,
    Nonblocking,
}

/// An event tap callback must not block.
pub fn platform_input_send_admission(platform: Platform) -> (admission: InputSendAdmission)
    ensures
        admission == if platform == Platform::MacOs {
            InputSendAdmission::Nonblocking
        } else {
            InputSendAdmission::Confirmed
        },
{
    match platform {
        Platform::MacOs => InputSendAdmission::Nonblocking,
        _ => InputSendAdmission::Confirmed,
    }
}

pub open spec fn packet_channel(event: InputEvent, heartbeat: bool) -> SendChannel {
    match packet_class(event, heartbeat) {
        Some(class) => SendChannel::Reliable(class),
        None => if event is MouseMove {
            SendChannel::LatestDatagram
        } else {
            SendChannel::Datagram
        },
    }
}

/// A packet that is ready to be encoded and sent.
#[derive(Debug, PartialEq, Eq)]
pub struct OutgoingPacket {
    pub packet: InputPacket,
    pub peer: PeerEndpoint,
    pub channel: SendChannel,
    pub admission: InputSendAdmission,
}

/// The identity of this machine's transport.
#[derive(Debug, PartialEq, Eq)]
pub struct LocalTransport {
    pub port: u16,
    pub public_key: String,
}

/// What stands in a packet for `target`.
pub open spec fn packet_is_composed(
    packet: InputPacket,
    target: InputTarget,
    event: InputEvent,
    modifier_snapshot: Option<u8>,
    heartbeat: bool,
    layout: Option<LayoutState>,
    current_platform: Seq<char>,
    transport: LocalTransport,
    key_sequence: u64,
) -> bool {
    &&& packet.protocol@ == "mykvm.input.v1"@
    &&& packet.target_device_id@ == target.device_id@
    &&& packet.origin_device_id@ == context_origin(target, layout)
    &&& packet.origin_port == transport.port
    &&& packet.origin_transport_public_key@ == transport.public_key@
    &&& packet.origin_protocol_version == PROTOCOL_VERSION
    &&& packet.cluster_id@ == context_cluster(target, layout)
    &&& packet.pair_secret@ == context_secret(target, layout)
    &&& packet.modifier_snapshot == context_snapshot(target, current_platform, modifier_snapshot)
    &&& packet.key_sequence == if needs_key_sequence(event, modifier_snapshot) {
        key_sequence
    } else {
        0
    }
    &&& packet.heartbeat == heartbeat
    &&& packet.event == cached_event(event, target, current_platform)
}

/// Composes the packet that carries `event` to `target`. A target without a
/// reachable peer gets none; its key number is spent all the same.
pub fn send_packet_with_options(
    target: &InputTarget,
    event: InputEvent,
    modifier_snapshot: Option<u8>,
    heartbeat: bool,
    layout: Option<&LayoutState>,
    platform: Platform,
    current_platform: &str,
    transport: &LocalTransport,
    key_sequences: &mut SequenceCounter,
) -> (outgoing: Option<OutgoingPacket>)
    ensures
        outgoing is Some <==> packet_peer(*target, layout_value(layout)) is Some,
        outgoing matches Some(outgoing) ==> {
            &&& Some(outgoing.peer@) == packet_peer(*target, layout_value(layout))
            &&& outgoing.channel == packet_channel(
                cached_event(event, *target, current_platform@),
                heartbeat,
            )
            &&& outgoing.admission == if platform == Platform::MacOs {
                InputSendAdmission::Nonblocking
            } else {
                InputSendAdmission::Confirmed
            }
            &&& packet_is_composed(
                outgoing.packet,
                *target,
                event,
                modifier_snapshot,
                heartbeat,
                layout_value(layout),
                current_platform@,
                *transport,
                old(key_sequences).next,
            )
        },
        final(key_sequences).next == if !needs_key_sequence(event, modifier_snapshot) {
            old(key_sequences).next
        } else if old(key_sequences).next == u64::MAX {
            0
        } else {
            (old(key_sequences).next + 1) as u64
        },
{
    let context = input_packet_context(target, event, modifier_snapshot, layout, current_platform);
    let event = context.event;
    let channel = match input_packet_reliable_class(&event, heartbeat) {
        Some(class) => SendChannel::Reliable(class),
        None => {
            if matches!(event, InputEvent::MouseMove { .. }) {
                SendChannel::LatestDatagram
            } else {
                SendChannel::Datagram
            }
        },
    };
    let key_sequence: u64 = if input_packet_needs_key_sequence(&event, context.modifier_snapshot) {
        key_sequences.take()
    } else {
        0
    };
    let packet = InputPacket {
        protocol: input_protocol().to_owned(),
        target_device_id: target.device_id.clone(),
        origin_device_id: context.origin_device_id,
        origin_port: transport.port,
        origin_transport_public_key: transport.public_key.clone(),
        origin_protocol_version: PROTOCOL_VERSION,
        cluster_id: context.cluster_id,
        pair_secret: context.pair_secret,
        modifier_snapshot: context.modifier_snapshot,
        key_sequence,
        heartbeat,
        event,
    };
    match context.peer {
        Some(peer) => Some(
            OutgoingPacket {
                packet,
                peer,
                channel,
                admission: platform_input_send_admission(platform),
            },
        ),
        None => None,
    }
}

/// A control request that is ready to be encoded and sent.
#[derive(Debug, PartialEq, Eq)]
pub struct OutgoingControl {
    pub packet: InputControlPacket,
    pub peer: PeerEndpoint,
}

/// Whether a device has the given id and is not this machine.
pub open spec fn remote_named(device_id: Seq<char>) -> spec_fn(Device) -> bool {
    |device: Device| device.id@ == device_id && !is_local_role(device)
}

/// The remote device with the given id.
pub open spec fn remote_device(layout: LayoutState, device_id: Seq<char>) -> Option<Device> {
    find_first(layout.devices@, remote_named(device_id))
}

fn find_remote_device<'a>(layout: &'a LayoutState, device_id: &str) -> (found: Option<&'a Device>)
    ensures
        same_option(found, remote_device(*layout, device_id@)),
{
    let ghost holds = remote_named(device_id@);
    let mut index: usize = 0;
    while index < layout.devices.len()
        invariant
            index <= layout.devices@.len(),
            holds == remote_named(device_id@),
            forall|i: int| 0 <= i < index ==> !holds(#[trigger] layout.devices@[i]),
        decreases layout.devices@.len() - index,
    {
        let device = &layout.devices[index];
        if same_text(device.id.as_str(), device_id) && !same_text(device.role.as_str(), "local") {
            proof {
                lemma_found(layout.devices@, holds, index as int);
            }
            return Some(&layout.devices[index]);
        }
        index += 1;
    }
    proof {
        lemma_not_found(layout.devices@, holds);
    }
    None
}

/// Why the secure attention sequence cannot be requested from a device.
pub open spec fn secure_attention_refusal(
    layout: LayoutState,
    device_id: Seq<char>,
) -> Option<Seq<char>> {
    match remote_device(layout, device_id) {
        None => Some("target device is not in the layout"@),
        Some(device) => if device.platform@ != "windows"@ {
            Some("Ctrl+Alt+Del control is only available for Windows targets."@)
        } else if !device.online || !device.input_ready {
            Some("target device is not online and input-ready"@)
        } else if blank(device.transport_public_key@) {
            Some("target device has no QUIC transport key; re-pair it first"@)
        } else if !pairing_configured(layout) {
            Some("this device is not paired with the target"@)
        } else {
            None
        },
    }
}

/// Composes the request for the secure attention sequence of a Windows device.
pub fn send_secure_attention_control(
    layout: &LayoutState,
    transport: &LocalTransport,
    device_id: &str,
) -> (request: Result<OutgoingControl, String>)
    ensures
        match secure_attention_refusal(*layout, device_id@) {
            Some(refusal) => request matches Err(error) && error@ == refusal,
            None => request matches Ok(request) && remote_device(*layout, device_id@) matches Some(
                device,
            ) && {
                &&& request.peer@ == device_peer(device)
                &&& request.packet.protocol@ == "mykvm.input-control.v1"@
                &&& request.packet.target_device_id@ == device.id@
                &&& request.packet.origin_device_id@ == layout.local_peer_id@
                &&& request.packet.origin_transport_public_key@ == transport.public_key@
                &&& request.packet.origin_protocol_version == PROTOCOL_VERSION
                &&& request.packet.cluster_id@ == layout.cluster_id@
                &&& request.packet.pair_secret@ == layout.pair_secret@
                &&& request.packet.command == InputControlCommand::SecureAttention
            },
        },
{
    let target = match find_remote_device(layout, device_id) {
        Some(target) => target,
        None => {
            return Err("target device is not in the layout".to_owned());
        },
    };
    if !same_text(target.platform.as_str(), "windows") {
        return Err("Ctrl+Alt+Del control is only available for Windows targets.".to_owned());
    }
    if !target.online || !target.input_ready {
        return Err("target device is not online and input-ready".to_owned());
    }
    if is_blank(target.transport_public_key.as_str()) {
        return Err("target device has no QUIC transport key; re-pair it first".to_owned());
    }
    if is_blank(layout.cluster_id.as_str()) || is_blank(layout.pair_secret.as_str()) {
        return Err("this device is not paired with the target".to_owned());
    }
    Ok(
        OutgoingControl {
            packet: InputControlPacket {
                protocol: input_control_protocol().to_owned(),
                target_device_id: target.id.clone(),
                origin_device_id: layout.local_peer_id.clone(),
                origin_transport_public_key: transport.public_key.clone(),
                origin_protocol_version: PROTOCOL_VERSION,
                cluster_id: layout.cluster_id.clone(),
                pair_secret: layout.pair_secret.clone(),
                command: InputControlCommand::SecureAttention,
            },
            peer: peer_of_device(target),
        },
    )
}

/// The id that a frame is attributed to: its own, else the address it came
/// from.
pub open spec fn frame_origin(packet: InputPacket, source_ip: Seq<char>) -> Seq<char> {
    if blank(packet.origin_device_id@) {
        source_ip
    } else {
        packet.origin_device_id@
    }
}

pub fn packet_origin_id(packet: &InputPacket, source_ip: &str) -> (origin: String)
    ensures
        origin@ == frame_origin(*packet, source_ip@),
{
    if is_blank(packet.origin_device_id.as_str()) {
        source_ip.to_owned()
    } else {
        packet.origin_device_id.clone()
    }
}

/// A controller that names its port and key can be sent clipboard content.
pub open spec fn offers_clipboard(packet: InputPacket) -> bool {
    packet.origin_port != 0 && !blank(packet.origin_transport_public_key@)
}

/// The clipboard peer that a packet offers.
pub open spec fn offered_peer(packet: InputPacket, source_ip: Seq<char>) -> Option<
    ClipboardPeerView,
> {
    if offers_clipboard(packet) {
        Some(
            ClipboardPeerView {
                device_id: frame_origin(packet, source_ip),
                addr: address(source_ip, packet.origin_port),
                public_key: packet.origin_transport_public_key@,
                protocol_version: packet.origin_protocol_version,
            },
        )
    } else {
        None
    }
}

pub fn packet_clipboard_peer(packet: &InputPacket, source_ip: &str) -> (peer: Option<ClipboardPeer>)
    ensures
        peer_view(peer) == offered_peer(*packet, source_ip@),
{
    if packet.origin_port != 0 && !is_blank(packet.origin_transport_public_key.as_str()) {
        let mut addr = source_ip.to_owned().concat(":");
        append_decimal(&mut addr, packet.origin_port as u64);
        Some(
            ClipboardPeer {
                device_id: packet_origin_id(packet, source_ip),
                addr,
                public_key: packet.origin_transport_public_key.clone(),
                protocol_version: packet.origin_protocol_version,
            },
        )
    } else {
        None
    }
}

/// Without the right protocol, the right secret or a known controller there is
/// no authorization.
pub proof fn law_authorization_needs_every_credential(
    layout: LayoutState,
    credentials: Credentials,
)
    ensures
        credentials.protocol_version != PROTOCOL_VERSION ==> !authorized(layout, credentials),
        credentials.pair_secret != layout.pair_secret@ ==> !authorized(layout, credentials),
        credentials.cluster_id != layout.cluster_id@ ==> !authorized(layout, credentials),
        !pairing_configured(layout) ==> !authorized(layout, credentials),
        layout.paired_controllers@.len() == 0 ==> !authorized(layout, credentials),
        blank(credentials.public_key) && blank(credentials.device_id) ==> !authorized(
            layout,
            credentials,
        ),
{
    reveal_strlit("local-device");
    if blank(credentials.device_id) && credentials.device_id == "local-device"@ {
        assert(whitespace(credentials.device_id[0]));
    }
}

/// Down and Up of one key are renamed alike, and other events pass untouched.
pub proof fn law_remap_is_uniform(
    event: InputEvent,
    key_code: u16,
    target: InputTarget,
    current_platform: Seq<char>,
)
    ensures
        cached_event(InputEvent::Key { key_code, down: true }, target, current_platform) is Key,
        cached_event(InputEvent::Key { key_code, down: true }, target, current_platform)->key_code
            == cached_event(
            InputEvent::Key { key_code, down: false },
            target,
            current_platform,
        )->key_code,
        !(event is Key) ==> cached_event(event, target, current_platform) == event,
        target.target_platform@ == current_platform ==> cached_event(
            event,
            target,
            current_platform,
        ) == event,
{
}

/// A heartbeat always rides the reliable channel, a plain move never does.
pub proof fn law_heartbeats_are_reliable(event: InputEvent)
    ensures
        packet_channel(event, true) == SendChannel::Reliable(ReliableInputClass::State),
        event is MouseMove ==> packet_channel(event, false) == SendChannel::LatestDatagram,
        !(event is MouseMove) ==> packet_channel(event, false) is Reliable,
{
}

/// What a paired sender composes is accepted where it arrives: a machine that
/// has the same pairing and knows the sender by its id or by its transport key
/// authorizes the packet and takes it for its own, attributes it to the sender,
/// and answers to the port and the key that the sender listens with.
pub proof fn law_composed_packets_are_accepted(
    packet: InputPacket,
    target: InputTarget,
    event: InputEvent,
    modifier_snapshot: Option<u8>,
    heartbeat: bool,
    sender: LayoutState,
    current_platform: Seq<char>,
    transport: LocalTransport,
    key_sequence: u64,
    receiver: LayoutState,
    controller: int,
    source_ip: Seq<char>,
)
    requires
        packet_is_composed(
            packet,
            target,
            event,
            modifier_snapshot,
            heartbeat,
            Some(sender),
            current_platform,
            transport,
            key_sequence,
        ),
        receiver.cluster_id@ == sender.cluster_id@,
        receiver.pair_secret@ == sender.pair_secret@,
        !blank(receiver.cluster_id@),
        !blank(receiver.pair_secret@),
        !blank(sender.local_peer_id@),
        !blank(transport.public_key@),
        transport.port != 0,
        0 <= controller < receiver.paired_controllers@.len(),
        receiver.paired_controllers@[controller].id@ == sender.local_peer_id@
            || receiver.paired_controllers@[controller].transport_public_key@
            == transport.public_key@,
    ensures
        authorized(receiver, input_credentials(packet)),
        targets_local(receiver, packet.target_device_id@, target.device_id@),
        frame_origin(packet, source_ip) == sender.local_peer_id@,
        packet.heartbeat == heartbeat,
        offered_peer(packet, source_ip) matches Some(peer) && peer.device_id
            == sender.local_peer_id@ && peer.addr == address(source_ip, transport.port)
            && peer.public_key == transport.public_key@ && peer.protocol_version == 3,
{
    assert(controller_matches(
        receiver.paired_controllers@[controller],
        input_credentials(packet),
    ));
}

/// A packet and a control request present what they were sent with: the secret
/// as the secret, the cluster as the cluster, the key as the key, the id as the
/// id. With one of them replaced by another value the packet is refused or has
/// to be known by what is left.
pub proof fn law_credentials_are_presented_as_sent(packet: InputPacket, control: InputControlPacket)
    ensures
        input_credentials(packet).cluster_id == packet.cluster_id@,
        input_credentials(packet).pair_secret == packet.pair_secret@,
        input_credentials(packet).public_key == packet.origin_transport_public_key@,
        input_credentials(packet).device_id == packet.origin_device_id@,
        input_credentials(packet).protocol_version == packet.origin_protocol_version,
        control_credentials(control).cluster_id == control.cluster_id@,
        control_credentials(control).pair_secret == control.pair_secret@,
        control_credentials(control).public_key == control.origin_transport_public_key@,
        control_credentials(control).device_id == control.origin_device_id@,
        control_credentials(control).protocol_version == control.origin_protocol_version,
{
}

/// A known controller is one that has the presented transport key or the
/// presented id; what is left blank identifies nobody. Besides, a client with a
/// single controller takes the nameless origin of old controllers.
pub proof fn law_controllers_are_known_by_key_or_id(layout: LayoutState, credentials: Credentials)
    requires
        credentials.protocol_version == 3,
        credentials.cluster_id == layout.cluster_id@,
        credentials.pair_secret == layout.pair_secret@,
        !blank(layout.cluster_id@),
        !blank(layout.pair_secret@),
    ensures
        authorized(layout, credentials) <==> {
            ||| exists|i: int|
                0 <= i < layout.paired_controllers@.len() && !blank(credentials.public_key)
                    && #[trigger] layout.paired_controllers@[i].transport_public_key@
                    == credentials.public_key
            ||| exists|i: int|
                0 <= i < layout.paired_controllers@.len() && !blank(credentials.device_id)
                    && #[trigger] layout.paired_controllers@[i].id@ == credentials.device_id
            ||| layout.machine_role@ == "client"@ && layout.paired_controllers@.len() == 1
                && credentials.device_id == "local-device"@ && !blank(credentials.public_key)
        },
{
    if is_paired_controller(layout, credentials) {
        let i = choose|i: int|
            0 <= i < layout.paired_controllers@.len() && controller_matches(
                #[trigger] layout.paired_controllers@[i],
                credentials,
            );
        assert(layout.paired_controllers@[i].transport_public_key@ == credentials.public_key
            || layout.paired_controllers@[i].id@ == credentials.device_id);
    }
    if exists|i: int|
        0 <= i < layout.paired_controllers@.len() && !blank(credentials.public_key)
            && #[trigger] layout.paired_controllers@[i].transport_public_key@
            == credentials.public_key {
        let i = choose|i: int|
            0 <= i < layout.paired_controllers@.len() && !blank(credentials.public_key)
                && #[trigger] layout.paired_controllers@[i].transport_public_key@
                == credentials.public_key;
        assert(controller_matches(layout.paired_controllers@[i], credentials));
    }
    if exists|i: int|
        0 <= i < layout.paired_controllers@.len() && !blank(credentials.device_id)
            && #[trigger] layout.paired_controllers@[i].id@ == credentials.device_id {
        let i = choose|i: int|
            0 <= i < layout.paired_controllers@.len() && !blank(credentials.device_id)
                && #[trigger] layout.paired_controllers@[i].id@ == credentials.device_id;
        assert(controller_matches(layout.paired_controllers@[i], credentials));
    }
}

/// The reason that is given for a refusal is one that applies, and the first of
/// them: another protocol, no pairing here, another pairing, an unknown
/// controller.
pub proof fn law_refusals_give_their_reason(layout: LayoutState, credentials: Credentials)
    ensures
        rejection(layout, credentials) == Rejection::ProtocolMismatch
            <==> credentials.protocol_version != 3,
        rejection(layout, credentials) == Rejection::NotPaired <==> credentials.protocol_version
            == 3 && (blank(layout.cluster_id@) || blank(layout.pair_secret@)),
        rejection(layout, credentials) == Rejection::PairingMismatch
            <==> credentials.protocol_version == 3 && !blank(layout.cluster_id@) && !blank(
            layout.pair_secret@,
        ) && (credentials.cluster_id != layout.cluster_id@ || credentials.pair_secret
            != layout.pair_secret@),
{
}

/// Presses are state, releases are releases, a park is a boundary and a scroll
/// is passing; a move is not sent reliably.
pub proof fn law_events_have_their_class(event: InputEvent)
    ensures
        event_class(event) == Some(ReliableInputClass::State) <==> (event is Key
            && event->Key_down) || (event is MouseButton && event->MouseButton_down),
        event_class(event) == Some(ReliableInputClass::Release) <==> (event is Key
            && !event->Key_down) || (event is MouseButton && !event->MouseButton_down),
        event_class(event) == Some(ReliableInputClass::ResetBoundary) <==> event is CursorPark,
        event_class(event) == Some(ReliableInputClass::Transient) <==> event is Scroll,
        event_class(event) is None <==> event is MouseMove,
{
}

/// A frame is numbered on the keyboard channel exactly where it is a key or a
/// park or tells the modifiers.
pub proof fn law_keyboard_frames_are_numbered(event: InputEvent, modifier_snapshot: Option<u8>)
    ensures
        event is Key || event is CursorPark ==> needs_key_sequence(event, modifier_snapshot),
        modifier_snapshot is Some ==> needs_key_sequence(event, modifier_snapshot),
        (event is MouseMove || event is MouseButton || event is Scroll) && modifier_snapshot is None
            ==> !needs_key_sequence(event, modifier_snapshot),
{
}

/// Modifiers are renamed where that is switched on, between Windows and macOS
/// and from another system to either; never on the way to a third system and
/// never between equals.
pub proof fn law_renaming_is_for_the_other_platform(
    target_platform: Seq<char>,
    current_platform: Seq<char>,
)
    ensures
        !remap_applies(target_platform, current_platform, false),
        !remap_applies(current_platform, current_platform, true),
        target_platform != "macos"@ && target_platform != "windows"@ ==> !remap_applies(
            target_platform,
            current_platform,
            true,
        ),
        current_platform != "macos"@ ==> remap_applies("macos"@, current_platform, true),
        current_platform != "windows"@ ==> remap_applies("windows"@, current_platform, true),
{
}

/// Renaming applies to the key as it applies to the snapshot that goes with it,
/// and only keys are renamed: up stays up, down stays down.
pub proof fn law_sent_keys_keep_their_direction(
    key_code: u16,
    down: bool,
    target: InputTarget,
    current_platform: Seq<char>,
    mask: u8,
)
    ensures
        cached_event(InputEvent::Key { key_code, down }, target, current_platform) matches
            InputEvent::Key { key_code: sent, down: sent_down } && sent_down == down && (if
            remap_applies(target.target_platform@, current_platform, target.modifier_remap) {
            sent == remapped_key(
                key_code,
                target.modifier_control@,
                target.modifier_alt@,
                target.modifier_meta@,
            )
        } else {
            sent == key_code
        }),
        !remap_applies(target.target_platform@, current_platform, target.modifier_remap)
            ==> cached_snapshot(mask, target, current_platform) == mask,
        context_snapshot(target, current_platform, None) is None,
{
}

/// A packet goes to the device as the live layout knows it, and to none that is
/// not online and ready; only a layout that cannot be read leaves what was known
/// when control began.
pub proof fn law_packets_go_to_the_live_peer(target: InputTarget, layout: LayoutState)
    ensures
        packet_peer(target, Some(layout)) matches Some(peer) ==> exists|i: int|
            {
                &&& 0 <= i < layout.devices@.len()
                &&& (#[trigger] layout.devices@[i]).id@ == target.device_id@
                &&& layout.devices@[i].online
                &&& layout.devices@[i].input_ready
                &&& peer.public_key == layout.devices@[i].transport_public_key@
                &&& peer.protocol_version == layout.devices@[i].protocol_version
                &&& layout.devices@[i].quic_port != 0 ==> peer.addr == address(
                    layout.devices@[i].host@,
                    layout.devices@[i].quic_port,
                )
                &&& layout.devices@[i].quic_port == 0 ==> peer.addr == address(
                    layout.devices@[i].host@,
                    layout.devices@[i].transport_port,
                )
            },
        packet_peer(target, None) matches Some(peer) && peer.addr == target.target_addr@
            && peer.public_key == target.transport_public_key@ && peer.protocol_version
            == target.protocol_version,
        context_origin(target, Some(layout)) == layout.local_peer_id@,
        context_cluster(target, Some(layout)) == layout.cluster_id@,
        context_secret(target, Some(layout)) == layout.pair_secret@,
        context_origin(target, None) == target.origin_device_id@,
        context_cluster(target, None) == target.cluster_id@,
        context_secret(target, None) == target.pair_secret@,
{
    crate::layout::law_devices_are_found_by_their_id(layout, target.device_id@);
    if let Some(device) = device_with_id(layout, target.device_id@) {
        let i = choose|i: int| 0 <= i < layout.devices@.len() && layout.devices@[i] == device;
        assert(layout.devices@[i].id@ == target.device_id@);
    }
}

/// A counter starts at the microseconds of the clock: a later start begins
/// higher, and neither with zero nor with the last number.
pub proof fn law_counters_start_with_the_clock(micros: u128, later: u128)
    ensures
        1 <= sequence_seed(micros) < u64::MAX,
        1 <= micros < u64::MAX ==> sequence_seed(micros) == micros,
        micros <= later ==> sequence_seed(micros) <= sequence_seed(later),
{
}

/// A packet is for this machine where it names nobody, its peer id or one of its
/// local devices; for a machine of another name it is not.
pub proof fn law_packets_name_their_machine(
    layout: LayoutState,
    target_device_id: Seq<char>,
    local_peer_id: Seq<char>,
    device: int,
)
    ensures
        blank(target_device_id) || target_device_id == local_peer_id ==> targets_local(
            layout,
            target_device_id,
            local_peer_id,
        ),
        0 <= device < layout.devices@.len() && layout.devices@[device].role@ == "local"@
            ==> targets_local(layout, layout.devices@[device].id@, local_peer_id),
        !blank(target_device_id) && target_device_id != local_peer_id && (forall|i: int|
            0 <= i < layout.devices@.len() && #[trigger] layout.devices@[i].id@ == target_device_id
                ==> layout.devices@[i].role@ != "local"@) ==> !targets_local(
            layout,
            target_device_id,
            local_peer_id,
        ),
{
}

/// The secure attention sequence is requested exactly from a known remote
/// Windows machine that is online, ready and has a key, by a machine that is
/// paired.
pub proof fn law_secure_attention_is_for_windows(layout: LayoutState, device_id: Seq<char>)
    ensures
        secure_attention_refusal(layout, device_id) is None <==> (remote_device(layout, device_id)
            matches Some(device) && device.platform@ == "windows"@ && device.online
            && device.input_ready && !blank(device.transport_public_key@) && !blank(
            layout.cluster_id@,
        ) && !blank(layout.pair_secret@)),
        remote_device(layout, device_id) is None ==> secure_attention_refusal(layout, device_id)
            == Some("target device is not in the layout"@),
        remote_device(layout, device_id) matches Some(device) ==> {
            let refusal = secure_attention_refusal(layout, device_id);
            let windows = device.platform@ == "windows"@;
            let ready = device.online && device.input_ready;
            let keyed = !blank(device.transport_public_key@);
            &&& !windows ==> refusal == Some(
                "Ctrl+Alt+Del control is only available for Windows targets."@,
            )
            &&& windows && !ready ==> refusal == Some(
                "target device is not online and input-ready"@,
            )
            &&& windows && ready && !keyed ==> refusal == Some(
                "target device has no QUIC transport key; re-pair it first"@,
            )
            &&& windows && ready && keyed && refusal is Some ==> refusal == Some(
                "this device is not paired with the target"@,
            )
        },
{
}

/// A frame that names its sender is that sender's; one that does not is
/// attributed to the address that it came from. Only a sender that names its
/// port and its key can be sent clipboard content.
pub proof fn law_frames_belong_to_their_sender(packet: InputPacket, source_ip: Seq<char>)
    ensures
        !blank(packet.origin_device_id@) ==> frame_origin(packet, source_ip)
            == packet.origin_device_id@,
        blank(packet.origin_device_id@) ==> frame_origin(packet, source_ip) == source_ip,
        offered_peer(packet, source_ip) is Some <==> packet.origin_port != 0 && !blank(
            packet.origin_transport_public_key@,
        ),
        offered_peer(packet, source_ip) matches Some(peer) ==> peer.addr == address(
            source_ip,
            packet.origin_port,
        ) && peer.public_key == packet.origin_transport_public_key@ && peer.device_id
            == frame_origin(packet, source_ip) && peer.protocol_version
            == packet.origin_protocol_version,
{
}

/// Two reports of the same kind are at least the interval apart.
pub proof fn law_reports_are_spaced(last: u64, now: u64, interval: u64)
    ensures
        report_due(None, now, interval),
        report_due(Some(last), now, interval) <==> now >= last + interval,
{
}

/// The remote device of an id has that id and is not this machine; none is found
/// only where no such device is known.
pub proof fn law_remote_devices_are_found_by_their_id(layout: LayoutState, device_id: Seq<char>)
    ensures
        remote_device(layout, device_id) matches Some(device) ==> layout.devices@.contains(device)
            && device.id@ == device_id && device.role@ != "local"@,
        remote_device(layout, device_id) is None ==> forall|i: int|
            0 <= i < layout.devices@.len() && #[trigger] layout.devices@[i].id@ == device_id
                ==> layout.devices@[i].role@ == "local"@,
{
    crate::layout::law_search_finds_the_first(layout.devices@, remote_named(device_id));
    if remote_device(layout, device_id) is None {
        assert forall|i: int|
            0 <= i < layout.devices@.len() && #[trigger] layout.devices@[i].id@
                == device_id implies layout.devices@[i].role@ == "local"@ by {
            assert(!remote_named(device_id)(layout.devices@[i]));
        }
    }
}

/// A device is reached at its host and port with its own key.
pub proof fn law_devices_are_reached_at_their_host(device: Device)
    ensures
        device.quic_port != 0 ==> device_peer(device).addr == address(
            device.host@,
            device.quic_port,
        ),
        device.quic_port == 0 ==> device_peer(device).addr == address(
            device.host@,
            device.transport_port,
        ),
        device_peer(device).public_key == device.transport_public_key@,
        device_peer(device).protocol_version == device.protocol_version,
{
}

} // verus!
