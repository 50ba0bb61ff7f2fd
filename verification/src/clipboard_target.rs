//! Which peer the clipboard is currently exchanged with.

use vstd::prelude::*;

use crate::layout::LayoutState;
use crate::session::{outcome_renews, RemoteInputOutcome};
use crate::targets::InputTarget;
use crate::text::same_text;

verus! {

/// A peer that clipboard content is sent to. Times are monotonic nanoseconds.
#[derive(Debug, PartialEq, Eq)]
pub struct ClipboardTarget {
    pub device_id: String,
    pub addr: String,
    pub transport_public_key: String,
    pub protocol_version: u16,
    pub cluster_id: String,
    pub pair_secret: String,
    /// Controller crossings push their current clipboard immediately. The
    /// controlled side first takes its own content as the baseline, so that
    /// the peers do not overwrite each other with unrelated content.
    pub push_on_bind: bool,
    pub expires_at: Option<u64>,
}

impl Clone for ClipboardTarget {
    fn clone(&self) -> (target: Self)
        ensures
            target == *self,
    {
        ClipboardTarget {
            device_id: self.device_id.clone(),
            addr: self.addr.clone(),
            transport_public_key: self.transport_public_key.clone(),
            protocol_version: self.protocol_version,
            cluster_id: self.cluster_id.clone(),
            pair_secret: self.pair_secret.clone(),
            push_on_bind: self.push_on_bind,
            expires_at: self.expires_at,
        }
    }
}

pub struct ClipboardTargetView {
    pub device_id: Seq<char>,
    pub addr: Seq<char>,
    pub transport_public_key: Seq<char>,
    pub protocol_version: u16,
    pub cluster_id: Seq<char>,
    pub pair_secret: Seq<char>,
    pub push_on_bind: bool,
    pub expires_at: Option<u64>,
}

impl View for ClipboardTarget {
    type V = ClipboardTargetView;

    open spec fn view(&self) -> ClipboardTargetView {
        ClipboardTargetView {
            device_id: self.device_id@,
            addr: self.addr@,
            transport_public_key: self.transport_public_key@,
            protocol_version: self.protocol_version,
            cluster_id: self.cluster_id@,
            pair_secret: self.pair_secret@,
            push_on_bind: self.push_on_bind,
            expires_at: self.expires_at,
        }
    }
}

fn same_target(left: &ClipboardTarget, right: &ClipboardTarget) -> (same: bool)
    ensures
        same == (left@ == right@),
{
    let same_expiry = match (left.expires_at, right.expires_at) {
        (Some(left), Some(right)) => left == right,
        (None, None) => true,
        _ => false,
    };
    same_text(left.device_id.as_str(), right.device_id.as_str()) && same_text(
        left.addr.as_str(),
        right.addr.as_str(),
    ) && same_text(
        left.transport_public_key.as_str(),
        right.transport_public_key.as_str(),
    ) && left.protocol_version == right.protocol_version && same_text(
        left.cluster_id.as_str(),
        right.cluster_id.as_str(),
    ) && same_text(left.pair_secret.as_str(), right.pair_secret.as_str()) && left.push_on_bind
        == right.push_on_bind && same_expiry
}

/// The current target and a counter that moves with every announced change, so
/// that a waiting thread can tell that it has to look again.
#[derive(Debug, PartialEq, Eq)]
pub struct ClipboardBinding {
    pub target: Option<ClipboardTarget>,
    pub generation: u64,
}

pub struct BindingView {
    pub target: Option<ClipboardTargetView>,
    pub generation: u64,
}

impl View for ClipboardBinding {
    type V = BindingView;

    open spec fn view(&self) -> BindingView {
        BindingView {
            target: match self.target {
                Some(target) => Some(target@),
                None => None,
            },
            generation: self.generation,
        }
    }
}

impl Default for ClipboardBinding {
    fn default() -> (binding: Self)
        ensures
            binding@ == (BindingView { target: None, generation: 0 }),
    {
        ClipboardBinding { target: None, generation: 0 }
    }
}

pub open spec fn next_generation(generation: u64) -> u64 {
    if generation == u64::MAX {
        0
    } else {
        (generation + 1) as u64
    }
}

fn notify_clipboard_target_changed(binding: &mut ClipboardBinding)
    ensures
        final(binding).target == old(binding).target,
        final(binding).generation == next_generation(old(binding).generation),
{
    binding.generation = binding.generation.wrapping_add(1);
}

/// How long to go on waiting for the binding to change: not at all once its
/// generation is another than at the start, or the time is up.
pub fn wait_for_clipboard_target_change(
    start_generation: u64,
    generation: u64,
    elapsed: u64,
    timeout: u64,
) -> (remaining: Option<u64>)
    ensures
        remaining == if generation != start_generation || elapsed >= timeout {
            None
        } else {
            Some((timeout - elapsed) as u64)
        },
{
    if generation != start_generation || elapsed >= timeout {
        None
    } else {
        Some(timeout - elapsed)
    }
}

/// Forgets the target and announces it.
pub fn clear_clipboard_target(binding: &mut ClipboardBinding)
    ensures
        final(binding)@ == cleared(old(binding)@),
{
    binding.target = None;
    notify_clipboard_target_changed(binding);
}

pub open spec fn cleared(binding: BindingView) -> BindingView {
    BindingView { target: None, generation: next_generation(binding.generation) }
}

pub open spec fn bound_to(binding: BindingView, device_id: Seq<char>) -> bool {
    binding.target matches Some(target) && target.device_id == device_id
}

/// The binding after the session with `device_id` ended.
pub open spec fn cleared_if_bound(binding: BindingView, device_id: Seq<char>) -> BindingView {
    if bound_to(binding, device_id) {
        cleared(binding)
    } else {
        binding
    }
}

/// Forgets the target if it is `device_id`.
pub fn clear_clipboard_target_if_device(
    binding: &mut ClipboardBinding,
    device_id: &str,
) -> (changed: bool)
    ensures
        changed == bound_to(old(binding)@, device_id@),
        final(binding)@ == cleared_if_bound(old(binding)@, device_id@),
{
    let bound = match &binding.target {
        Some(target) => same_text(target.device_id.as_str(), device_id),
        None => false,
    };
    if bound {
        clear_clipboard_target(binding);
    }
    bound
}

pub open spec fn target_has_expired(target: ClipboardTargetView, now: u64) -> bool {
    target.expires_at matches Some(expires_at) && now >= expires_at
}

/// The target at `now`. One that has expired is dropped without announcement.
pub fn current_clipboard_target(binding: &mut ClipboardBinding, now: u64) -> (current: Option<
    ClipboardTarget,
>)
    ensures
        match old(binding)@.target {
            Some(target) if !target_has_expired(target, now) => current matches Some(current)
                && current@ == target && final(binding)@ == old(binding)@,
            _ => current is None && final(binding)@ == (BindingView {
                target: None,
                ..old(binding)@
            }),
        },
{
    let expired = match &binding.target {
        Some(target) => match target.expires_at {
            Some(expires_at) => now >= expires_at,
            None => false,
        },
        None => false,
    };
    if expired {
        binding.target = None;
        return None;
    }
    match &binding.target {
        Some(target) => Some(target.clone()),
        None => None,
    }
}

/// The binding after `next` was bound: an equal target changes nothing.
pub open spec fn bound(binding: BindingView, next: ClipboardTargetView) -> BindingView {
    if binding.target == Some(next) {
        binding
    } else {
        BindingView { target: Some(next), generation: next_generation(binding.generation) }
    }
}

pub open spec fn expiry_in_range(now: u64, expires_in: Option<u64>) -> bool {
    expires_in matches Some(duration) ==> now + duration <= u64::MAX
}

pub open spec fn expiry_at(now: u64, expires_in: Option<u64>) -> Option<u64> {
    match expires_in {
        Some(duration) => Some((now + duration) as u64),
        None => None,
    }
}

/// Binds the clipboard to a peer; says whether that is news.
pub fn set_clipboard_target(
    binding: &mut ClipboardBinding,
    device_id: String,
    addr: String,
    transport_public_key: String,
    protocol_version: u16,
    cluster_id: String,
    pair_secret: String,
    push_on_bind: bool,
    expires_in: Option<u64>,
    now: u64,
) -> (changed: bool)
    requires
        expiry_in_range(now, expires_in),
    ensures
        ({
            let next = ClipboardTargetView {
                device_id: device_id@,
                addr: addr@,
                transport_public_key: transport_public_key@,
                protocol_version,
                cluster_id: cluster_id@,
                pair_secret: pair_secret@,
                push_on_bind,
                expires_at: expiry_at(now, expires_in),
            };
            &&& changed == (old(binding)@.target != Some(next))
            &&& final(binding)@ == bound(old(binding)@, next)
        }),
{
    let next = ClipboardTarget {
        device_id,
        addr,
        transport_public_key,
        protocol_version,
        cluster_id,
        pair_secret,
        push_on_bind,
        expires_at: match expires_in {
            Some(duration) => Some(now + duration),
            None => None,
        },
    };
    let unchanged = match &binding.target {
        Some(target) => same_target(target, &next),
        None => false,
    };
    if unchanged {
        return false;
    }
    binding.target = Some(next);
    notify_clipboard_target_changed(binding);
    true
}

/// The clipboard peer of a controlled machine.
pub open spec fn control_target(target: InputTarget) -> ClipboardTargetView {
    ClipboardTargetView {
        device_id: target.device_id@,
        addr: target.target_addr@,
        transport_public_key: target.transport_public_key@,
        protocol_version: target.protocol_version,
        cluster_id: target.cluster_id@,
        pair_secret: target.pair_secret@,
        push_on_bind: true,
        expires_at: None,
    }
}

/// Binds the clipboard to the machine that control crossed to, as the target
/// was captured at the crossing.
pub fn set_control_clipboard_target(binding: &mut ClipboardBinding, target: &InputTarget)
    ensures
        final(binding)@ == bound(old(binding)@, control_target(*target)),
{
    set_clipboard_target(
        binding,
        target.device_id.clone(),
        target.target_addr.clone(),
        target.transport_public_key.clone(),
        target.protocol_version,
        target.cluster_id.clone(),
        target.pair_secret.clone(),
        true,
        None,
        0,
    );
}

/// How the controller of a frame can be reached for clipboard exchange.
#[derive(Debug, PartialEq, Eq)]
pub struct ClipboardPeer {
    pub device_id: String,
    pub addr: String,
    pub public_key: String,
    pub protocol_version: u16,
}

pub struct ClipboardPeerView {
    pub device_id: Seq<char>,
    pub addr: Seq<char>,
    pub public_key: Seq<char>,
    pub protocol_version: u16,
}

impl View for ClipboardPeer {
    type V = ClipboardPeerView;

    open spec fn view(&self) -> ClipboardPeerView {
        ClipboardPeerView {
            device_id: self.device_id@,
            addr: self.addr@,
            public_key: self.public_key@,
            protocol_version: self.protocol_version,
        }
    }
}

/// The view of a peer, where there is one.
pub open spec fn peer_view(peer: Option<ClipboardPeer>) -> Option<ClipboardPeerView> {
    match peer {
        Some(peer) => Some(peer@),
        None => None,
    }
}

/// The clipboard peer of a controller.
pub open spec fn controller_target(
    peer: ClipboardPeerView,
    layout: LayoutState,
) -> ClipboardTargetView {
    ClipboardTargetView {
        device_id: peer.device_id,
        addr: peer.addr,
        transport_public_key: peer.public_key,
        protocol_version: peer.protocol_version,
        cluster_id: layout.cluster_id@,
        pair_secret: layout.pair_secret@,
        push_on_bind: false,
        expires_at: None,
    }
}

/// The binding after one received frame of `origin`.
pub open spec fn binding_after_outcome(
    binding: BindingView,
    origin: Seq<char>,
    outcome: RemoteInputOutcome,
    peer: Option<ClipboardPeerView>,
    layout: LayoutState,
) -> BindingView {
    if outcome.session_ended {
        cleared_if_bound(binding, origin)
    } else if outcome_renews(outcome) {
        match peer {
            Some(peer) => bound(binding, controller_target(peer, layout)),
            None => binding,
        }
    } else {
        binding
    }
}

/// Lets the clipboard follow the session: only the controller that owns the
/// input owns the clipboard return path.
pub fn apply_remote_input_clipboard_outcome(
    binding: &mut ClipboardBinding,
    origin_id: &str,
    outcome: RemoteInputOutcome,
    clipboard_peer: Option<ClipboardPeer>,
    layout: &LayoutState,
)
    ensures
        final(binding)@ == binding_after_outcome(
            old(binding)@,
            origin_id@,
            outcome,
            peer_view(clipboard_peer),
            *layout,
        ),
{
    if outcome.session_ended {
        clear_clipboard_target_if_device(binding, origin_id);
    } else if outcome.renews_session() {
        if let Some(peer) = clipboard_peer {
            set_clipboard_target(
                binding,
                peer.device_id,
                peer.addr,
                peer.public_key,
                peer.protocol_version,
                layout.cluster_id.clone(),
                layout.pair_secret.clone(),
                false,
                None,
                0,
            );
        }
    }
}

/// Binding the same peer twice is binding it once.
pub proof fn law_rebinding_is_silent(binding: BindingView, next: ClipboardTargetView)
    ensures
        bound(bound(binding, next), next) == bound(binding, next),
        bound(binding, next).target == Some(next),
{
}

/// The end of one controller's session leaves the binding to another alone.
pub proof fn law_session_end_is_scoped(binding: BindingView, origin: Seq<char>)
    requires
        !bound_to(binding, origin),
    ensures
        cleared_if_bound(binding, origin) == binding,
{
}

/// A frame that neither renews nor ends its session cannot redirect the
/// clipboard.
pub proof fn law_stale_frames_do_not_rebind(
    binding: BindingView,
    origin: Seq<char>,
    outcome: RemoteInputOutcome,
    peer: Option<ClipboardPeerView>,
    layout: LayoutState,
)
    requires
        !outcome.session_ended,
        !outcome_renews(outcome),
    ensures
        binding_after_outcome(binding, origin, outcome, peer, layout) == binding,
{
}

/// Control that crosses to a machine binds the clipboard to it with the address,
/// key and pairing of the crossing: at once, and for as long as control lasts.
pub proof fn law_crossing_binds_the_entered_machine(binding: BindingView, target: InputTarget)
    ensures
        bound(binding, control_target(target)).target matches Some(bound_target)
            && bound_target.device_id == target.device_id@ && bound_target.addr
            == target.target_addr@ && bound_target.transport_public_key
            == target.transport_public_key@ && bound_target.protocol_version
            == target.protocol_version && bound_target.cluster_id == target.cluster_id@
            && bound_target.pair_secret == target.pair_secret@ && bound_target.push_on_bind
            && bound_target.expires_at is None,
        cleared_if_bound(bound(binding, control_target(target)), target.device_id@).target is None,
{
}

/// A frame that keeps the session of its controller alive binds the clipboard
/// to the controller that it offers, under the pairing of this machine and
/// without pushing; the end of that session clears it again.
pub proof fn law_clipboard_follows_the_owner(
    binding: BindingView,
    origin: Seq<char>,
    outcome: RemoteInputOutcome,
    peer: ClipboardPeerView,
    layout: LayoutState,
    ended: RemoteInputOutcome,
)
    requires
        outcome.admitted,
        outcome.current_session_owner,
        !outcome.session_ended,
        ended.session_ended,
    ensures
        ({
            let after = binding_after_outcome(binding, origin, outcome, Some(peer), layout);
            &&& after.target matches Some(target) && target.device_id == peer.device_id
                && target.addr == peer.addr && target.transport_public_key == peer.public_key
                && target.protocol_version == peer.protocol_version && target.cluster_id
                == layout.cluster_id@ && target.pair_secret == layout.pair_secret@
                && !target.push_on_bind && target.expires_at is None
            &&& binding_after_outcome(binding, origin, outcome, None, layout) == binding
            &&& binding_after_outcome(after, peer.device_id, ended, Some(peer), layout).target
                is None
        }),
{
}

/// Every change of the binding moves its generation, and nothing else does.
pub proof fn law_changes_of_the_binding_are_announced(
    binding: BindingView,
    next: ClipboardTargetView,
    device_id: Seq<char>,
)
    ensures
        binding.target == Some(next) ==> bound(binding, next) == binding,
        binding.target != Some(next) ==> bound(binding, next).generation != binding.generation,
        cleared(binding).target is None,
        cleared(binding).generation != binding.generation,
        binding.generation < u64::MAX ==> cleared(binding).generation == binding.generation + 1,
        (binding.target matches Some(target) && target.device_id == device_id)
            ==> cleared_if_bound(binding, device_id) == cleared(binding),
{
}

/// A binding for a time is over once that time has passed since it was made, and
/// not before; one without a time is never over.
pub proof fn law_bindings_last_their_time(
    target: ClipboardTargetView,
    made_at: u64,
    duration: u64,
    now: u64,
)
    requires
        made_at + duration <= u64::MAX,
    ensures
        target.expires_at == expiry_at(made_at, Some(duration)) ==> (target_has_expired(target, now)
            <==> now - made_at >= duration),
        target.expires_at == expiry_at(made_at, None) ==> !target_has_expired(target, now),
{
}

} // verus!
