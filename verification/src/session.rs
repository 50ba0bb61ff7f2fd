//! Which remote controller owns this machine's input, and for how long.

use vstd::prelude::*;
use vstd::string::*;

use crate::key_sequence::{
    boundary_is_fresh, key_is_fresh, key_marks_of, keys_after_boundary, keys_after_close,
    keys_after_key, keys_after_snapshot, snapshot_is_fresh, KeyMarks, RemoteKeySequenceState,
};
use crate::remote_mouse::{
    authoritative_mouse_button_state_for_packet, button_reconciliation, can_claim_origin,
    carried_by_switch, event_after_buttons, input_event_can_claim_origin,
    input_event_mouse_sequence, mouse_after_buttons, mouse_after_switch, mouse_marks_after_close,
    mouse_sequence, park_applies, prepare_accepts, prepare_remote_mouse_event_for_origin,
    prepared_carry, prepared_event, prepared_mouse, switch_remote_mouse_origin, EventView,
    MouseView, RemoteMouseState,
};
use crate::shared_input::InputEvent;
use crate::text::same_text;

verus! {

/// Nanoseconds that a session survives without activity of its owner.
pub const REMOTE_INPUT_LEASE_TIMEOUT: u64 = 5_000_000_000;

/// Nanoseconds between two heartbeats of an active controller.
pub const REMOTE_INPUT_HEARTBEAT_INTERVAL: u64 = 1_000_000_000;

/// The claim of one origin on this machine. Times are monotonic nanoseconds.
#[derive(Debug)]
pub struct RemoteInputLease {
    pub origin_id: String,
    pub expires_at: Option<u64>,
}

pub struct LeaseView {
    pub origin: Seq<char>,
    pub expires_at: Option<u64>,
}

impl View for RemoteInputLease {
    type V = LeaseView;

    open spec fn view(&self) -> LeaseView {
        LeaseView { origin: self.origin_id@, expires_at: self.expires_at }
    }
}

pub open spec fn no_lease() -> LeaseView {
    LeaseView { origin: Seq::empty(), expires_at: None }
}

impl Default for RemoteInputLease {
    fn default() -> (lease: Self)
        ensures
            lease@ == no_lease(),
    {
        RemoteInputLease { origin_id: String::new(), expires_at: None }
    }
}

/// The lease of `origin` after activity at `now`.
pub open spec fn renewed_lease(origin: Seq<char>, now: u64) -> LeaseView {
    LeaseView { origin, expires_at: Some((now + REMOTE_INPUT_LEASE_TIMEOUT) as u64) }
}

pub open spec fn lease_has_expired(lease: LeaseView, now: u64) -> bool {
    lease.expires_at matches Some(expires_at) && now >= expires_at
}

/// Whether `origin` is the holder of a running lease.
pub open spec fn lease_held_by(lease: LeaseView, origin: Seq<char>) -> bool {
    lease.expires_at is Some && lease.origin == origin
}

pub open spec fn lease_after_end(lease: LeaseView, origin: Seq<char>) -> LeaseView {
    if lease_held_by(lease, origin) {
        no_lease()
    } else {
        lease
    }
}

/// The clock still leaves room for one lease.
pub open spec fn clock_in_range(now: u64) -> bool {
    now + REMOTE_INPUT_LEASE_TIMEOUT <= u64::MAX
}

impl RemoteInputLease {
    /// Gives the lease to `origin_id` for the full timeout.
    pub fn renew(&mut self, origin_id: &str, now: u64)
        requires
            clock_in_range(now),
        ensures
            final(self)@ == renewed_lease(origin_id@, now),
    {
        self.origin_id = origin_id.to_owned();
        self.expires_at = Some(now + REMOTE_INPUT_LEASE_TIMEOUT);
    }

    /// The holder whose lease has run out.
    pub fn expired_origin(&self, now: u64) -> (origin: Option<&str>)
        ensures
            origin is Some <==> lease_has_expired(self@, now),
            origin matches Some(origin) ==> origin@ == self@.origin,
    {
        match self.expires_at {
            Some(expires_at) => {
                if now >= expires_at {
                    Some(self.origin_id.as_str())
                } else {
                    None
                }
            },
            None => None,
        }
    }

    /// Ends the lease if `origin_id` holds it.
    pub fn end(&mut self, origin_id: &str) -> (ended: bool)
        ensures
            ended == lease_held_by(old(self)@, origin_id@),
            final(self)@ == lease_after_end(old(self)@, origin_id@),
    {
        if self.expires_at.is_none() || !same_text(self.origin_id.as_str(), origin_id) {
            return false;
        }
        self.origin_id = String::new();
        self.expires_at = None;
        true
    }
}

/// What has to be released after a lease ran out.
#[derive(Debug, PartialEq, Eq)]
pub struct RemoteInputExpiration {
    pub origin_id: String,
    pub buttons: u64,
    pub x: i32,
    pub y: i32,
}

/// Everything that decides on one machine who may drive it.
#[verifier::ext_equal]
pub struct SessionView {
    pub keys: Map<Seq<char>, KeyMarks>,
    pub mouse: MouseView,
    pub active: Seq<char>,
}

/// Whether the clock ends the session of the lease holder.
pub open spec fn session_expires(session: SessionView, lease: LeaseView, now: u64) -> bool {
    lease_has_expired(lease, now) && session.active == lease.origin
}

/// The session after the clock ended it: its holder gives up the input, its
/// buttons are released and nothing it sent so far is accepted again.
pub open spec fn session_after_expiry(session: SessionView, origin: Seq<char>) -> SessionView {
    SessionView {
        keys: keys_after_close(session.keys, origin),
        mouse: MouseView {
            buttons: 0,
            last_origin: if session.mouse.last_origin == origin {
                Seq::empty()
            } else {
                session.mouse.last_origin
            },
            marks: mouse_marks_after_close(session.mouse.marks, origin),
            ..session.mouse
        },
        active: Seq::empty(),
    }
}

/// Ends the session if its lease has run out.
pub fn expire_remote_input_session_with_state(
    lease: &mut RemoteInputLease,
    key_state: &mut RemoteKeySequenceState,
    mouse_state: &mut RemoteMouseState,
    active_origin: &mut String,
    now: u64,
) -> (expired: Option<RemoteInputExpiration>)
    ensures
        ({
            let before = SessionView {
                keys: old(key_state)@,
                mouse: old(mouse_state)@,
                active: old(active_origin)@,
            };
            let after = SessionView {
                keys: final(key_state)@,
                mouse: final(mouse_state)@,
                active: final(active_origin)@,
            };
            &&& expired is Some <==> session_expires(before, old(lease)@, now)
            &&& expired matches Some(expired) ==> expired.origin_id@ == old(lease)@.origin
                && expired.buttons == old(mouse_state)@.buttons && expired.x == old(mouse_state)@.x
                && expired.y == old(mouse_state)@.y && after == session_after_expiry(
                before,
                old(lease)@.origin,
            )
            &&& expired is None ==> after == before
            &&& final(lease)@ == if lease_has_expired(old(lease)@, now) {
                no_lease()
            } else {
                old(lease)@
            }
        }),
{
    let origin_id: String = match lease.expired_origin(now) {
        Some(origin_id) => origin_id.to_owned(),
        None => {
            return None;
        },
    };
    if !same_text(active_origin.as_str(), origin_id.as_str()) {
        lease.end(origin_id.as_str());
        return None;
    }
    key_state.close_origin(origin_id.as_str());
    mouse_state.close_origin(origin_id.as_str());
    *active_origin = String::new();
    lease.end(origin_id.as_str());
    if same_text(mouse_state.last_origin_id.as_str(), origin_id.as_str()) {
        mouse_state.last_origin_id = String::new();
    }
    let expired = RemoteInputExpiration {
        origin_id,
        buttons: mouse_state.buttons,
        x: mouse_state.x,
        y: mouse_state.y,
    };
    mouse_state.buttons = 0;
    Some(expired)
}

#[derive(Debug, Clone, Copy, PartialEq, Eq)]
pub struct RemoteMouseAdmission {
    pub button_reconciliation: Option<(u64, u64, i32, i32)>,
    pub park_accepted: bool,
}

/// What may be done with one received event.
#[derive(Debug, Clone, Copy, PartialEq, Eq)]
pub struct RemoteInputAdmission {
    pub inject_event: bool,
    pub current_session_owner: bool,
    pub effective_modifier_snapshot: Option<u8>,
    pub origin_changed: bool,
    pub release_keys: bool,
    pub carried_buttons: Option<(u64, i32, i32)>,
    pub mouse: Option<RemoteMouseAdmission>,
}

/// What became of one received event.
#[derive(Debug, Clone, Copy, PartialEq, Eq)]
pub struct RemoteInputOutcome {
    pub injected: bool,
    pub admitted: bool,
    pub current_session_owner: bool,
    pub session_ended: bool,
}

pub open spec fn outcome_renews(outcome: RemoteInputOutcome) -> bool {
    outcome.admitted && outcome.current_session_owner && !outcome.session_ended
}

impl RemoteInputOutcome {
    pub fn renews_session(self) -> (renews: bool)
        ensures
            renews == outcome_renews(self),
    {
        self.admitted && self.current_session_owner && !self.session_ended
    }
}

/// The lease after one event of `origin`.
pub open spec fn lease_after_outcome(
    lease: LeaseView,
    origin: Seq<char>,
    outcome: RemoteInputOutcome,
    now: u64,
) -> LeaseView {
    if outcome.session_ended {
        lease_after_end(lease, origin)
    } else if outcome_renews(outcome) {
        renewed_lease(origin, now)
    } else {
        lease
    }
}

pub fn apply_remote_input_lease_outcome(
    lease: &mut RemoteInputLease,
    origin_id: &str,
    outcome: RemoteInputOutcome,
    now: u64,
)
    requires
        clock_in_range(now),
    ensures
        final(lease)@ == lease_after_outcome(old(lease)@, origin_id@, outcome, now),
{
    if outcome.session_ended {
        lease.end(origin_id);
    } else if outcome.renews_session() {
        lease.renew(origin_id, now);
    }
}

pub open spec fn admission_ends_session(admission: RemoteInputAdmission) -> bool {
    admission.inject_event && (admission.mouse matches Some(mouse) && mouse.park_accepted)
}

pub fn remote_input_session_ended(admission: &RemoteInputAdmission) -> (ended: bool)
    ensures
        ended == admission_ends_session(*admission),
{
    match admission.mouse {
        Some(mouse) => admission.inject_event && mouse.park_accepted,
        None => false,
    }
}

/// The outcome of an admitted event. An event that was to be injected and was
/// not keeps no session alive.
pub open spec fn outcome_of(admission: RemoteInputAdmission, injected: bool) -> RemoteInputOutcome {
    RemoteInputOutcome {
        injected,
        admitted: true,
        current_session_owner: admission.current_session_owner && (injected
            || !admission.inject_event),
        session_ended: admission_ends_session(admission),
    }
}

pub fn remote_input_outcome_for_admission(
    admission: &RemoteInputAdmission,
    injected: bool,
) -> (outcome: RemoteInputOutcome)
    ensures
        outcome == outcome_of(*admission, injected),
{
    RemoteInputOutcome {
        injected,
        admitted: true,
        current_session_owner: admission.current_session_owner && (injected
            || !admission.inject_event),
        session_ended: remote_input_session_ended(admission),
    }
}

/// Settles an admitted event: its outcome, and the lease it leaves behind.
pub fn finish_remote_input_outcome(
    lease: &mut RemoteInputLease,
    origin_id: &str,
    admission: &RemoteInputAdmission,
    injected: bool,
    now: u64,
) -> (outcome: RemoteInputOutcome)
    requires
        clock_in_range(now),
    ensures
        outcome == outcome_of(*admission, injected),
        final(lease)@ == lease_after_outcome(old(lease)@, origin_id@, outcome, now),
{
    let outcome = remote_input_outcome_for_admission(admission, injected);
    apply_remote_input_lease_outcome(lease, origin_id, outcome, now);
    outcome
}

/// One received frame of `origin`.
pub struct FrameView {
    pub origin: Seq<char>,
    pub modifier_snapshot: Option<u8>,
    pub key_sequence: u64,
    pub heartbeat: bool,
    pub event: EventView,
}

/// The session, the event and the verdict after a frame was considered.
pub struct AdmissionStep {
    pub session: SessionView,
    pub event: EventView,
    pub admission: Option<RemoteInputAdmission>,
}

/// Whether the keyboard channel lets the frame through. Only keys and parks
/// are ordered there.
pub open spec fn key_channel_accepts(
    keys: Map<Seq<char>, KeyMarks>,
    frame: FrameView,
) -> bool {
    let marks = key_marks_of(keys, frame.origin);
    match frame.event {
        EventView::Key { key_code, .. } => frame.key_sequence == 0 || key_is_fresh(
            marks,
            key_code,
            frame.key_sequence,
        ),
        EventView::CursorPark { .. } => frame.key_sequence == 0 || boundary_is_fresh(
            marks,
            frame.key_sequence,
        ),
        _ => true,
    }
}

/// The keyboard channel after the frame.
pub open spec fn key_channel_after(
    keys: Map<Seq<char>, KeyMarks>,
    frame: FrameView,
) -> Map<Seq<char>, KeyMarks> {
    match frame.event {
        EventView::Key { key_code, .. } => keys_after_key(
            keys,
            frame.origin,
            key_code,
            frame.key_sequence,
        ),
        EventView::CursorPark { .. } => keys_after_boundary(
            keys,
            frame.origin,
            frame.key_sequence,
        ),
        _ => keys,
    }
}

/// An idle machine is claimed by the first move or press that is no heartbeat.
pub open spec fn frame_claims(active: Seq<char>, frame: FrameView) -> bool {
    !frame.heartbeat && active.len() == 0 && can_claim_origin(frame.event)
}

/// The frame comes from the session owner, or makes its sender the owner.
pub open spec fn frame_owns(active: Seq<char>, frame: FrameView) -> bool {
    active == frame.origin || frame_claims(active, frame)
}

/// A park of the session owner releases its keys, whatever becomes of the
/// pointer.
pub open spec fn frame_releases_keys(active: Seq<char>, frame: FrameView) -> bool {
    frame.event is CursorPark && active == frame.origin
}

/// The pointer after the ordering check and, for an owner, the button state.
pub open spec fn admitted_mouse(session: SessionView, frame: FrameView) -> MouseView {
    let owns = frame_owns(session.active, frame);
    let ordered = prepared_mouse(
        session.mouse,
        frame.origin,
        frame.event,
        owns,
        !frame.heartbeat,
    );
    let event = prepared_event(session.mouse, frame.origin, frame.event);
    if owns && prepare_accepts(session.mouse, frame.origin, frame.event) {
        mouse_after_buttons(ordered, frame.origin, event, frame.heartbeat)
    } else {
        ordered
    }
}

/// The event after the ordering check and, for an owner, the button state.
pub open spec fn admitted_event(session: SessionView, frame: FrameView) -> EventView {
    let owns = frame_owns(session.active, frame);
    let ordered = prepared_mouse(
        session.mouse,
        frame.origin,
        frame.event,
        owns,
        !frame.heartbeat,
    );
    let event = prepared_event(session.mouse, frame.origin, frame.event);
    if owns && prepare_accepts(session.mouse, frame.origin, frame.event) {
        event_after_buttons(ordered, frame.origin, event, frame.heartbeat)
    } else {
        event
    }
}

/// The mouse part of the verdict on an accepted mouse frame.
pub open spec fn mouse_verdict(session: SessionView, frame: FrameView) -> RemoteMouseAdmission {
    let owns = frame_owns(session.active, frame);
    let ordered = prepared_mouse(
        session.mouse,
        frame.origin,
        frame.event,
        owns,
        !frame.heartbeat,
    );
    let event = prepared_event(session.mouse, frame.origin, frame.event);
    if owns {
        RemoteMouseAdmission {
            button_reconciliation: button_reconciliation(
                ordered,
                frame.origin,
                event,
                frame.heartbeat,
            ),
            park_accepted: park_applies(ordered, frame.origin, event, frame.heartbeat),
        }
    } else {
        RemoteMouseAdmission { button_reconciliation: None, park_accepted: false }
    }
}

/// The verdict on a park that is new to the keyboard channel and old to the
/// mouse channel: its keys go up, its coordinates are ignored.
pub open spec fn keys_only_verdict() -> RemoteInputAdmission {
    RemoteInputAdmission {
        inject_event: false,
        current_session_owner: false,
        effective_modifier_snapshot: None,
        origin_changed: false,
        release_keys: true,
        carried_buttons: None,
        mouse: Some(RemoteMouseAdmission { button_reconciliation: None, park_accepted: false }),
    }
}

/// Whether the event itself is to be injected: never a heartbeat, only for the
/// owner, and a park only if it ends that owner's session.
pub open spec fn frame_injects(
    active: Seq<char>,
    frame: FrameView,
    mouse: Option<RemoteMouseAdmission>,
) -> bool {
    &&& !frame.heartbeat
    &&& frame_owns(active, frame)
    &&& frame.event is CursorPark ==> active == frame.origin && (mouse matches Some(mouse)
        && mouse.park_accepted)
}

pub open spec fn snapshot_accepted(keys: Map<Seq<char>, KeyMarks>, frame: FrameView) -> bool {
    frame.modifier_snapshot is Some && (frame.key_sequence == 0 || snapshot_is_fresh(
        key_marks_of(keys, frame.origin),
        frame.key_sequence,
    ))
}

pub open spec fn snapshot_channel_after(
    keys: Map<Seq<char>, KeyMarks>,
    frame: FrameView,
) -> Map<Seq<char>, KeyMarks> {
    if frame.modifier_snapshot is Some {
        keys_after_snapshot(keys, frame.origin, frame.key_sequence)
    } else {
        keys
    }
}

/// What becomes of a frame that both channels accept.
pub open spec fn admit_accepted(session: SessionView, frame: FrameView) -> AdmissionStep {
    let is_mouse = mouse_sequence(frame.event) is Some;
    let claims = frame_claims(session.active, frame);
    let verdict: Option<RemoteMouseAdmission> = if is_mouse {
        Some(mouse_verdict(session, frame))
    } else {
        None
    };
    let injects = frame_injects(session.active, frame, verdict);
    let owner = injects || (frame.heartbeat && session.active == frame.origin);
    let changed = injects && claims;
    let ends = injects && (verdict matches Some(mouse) && mouse.park_accepted);
    AdmissionStep {
        session: SessionView {
            keys: snapshot_channel_after(session.keys, frame),
            mouse: if is_mouse {
                admitted_mouse(session, frame)
            } else if changed {
                mouse_after_switch(session.mouse, frame.origin)
            } else {
                session.mouse
            },
            active: if ends {
                Seq::empty()
            } else if changed {
                frame.origin
            } else {
                session.active
            },
        },
        event: if is_mouse {
            admitted_event(session, frame)
        } else {
            frame.event
        },
        admission: Some(
            RemoteInputAdmission {
                inject_event: injects,
                current_session_owner: owner,
                effective_modifier_snapshot: if owner && snapshot_accepted(session.keys, frame) {
                    frame.modifier_snapshot
                } else {
                    None
                },
                origin_changed: changed,
                release_keys: frame_releases_keys(session.active, frame),
                carried_buttons: if is_mouse {
                    prepared_carry(
                        session.mouse,
                        frame.origin,
                        frame.event,
                        frame_owns(session.active, frame),
                    )
                } else if changed {
                    carried_by_switch(session.mouse, frame.origin)
                } else {
                    None
                },
                mouse: verdict,
            },
        ),
    }
}

/// What becomes of one received frame.
pub open spec fn considered(session: SessionView, frame: FrameView) -> AdmissionStep {
    let keys = key_channel_after(session.keys, frame);
    let keyed = SessionView { keys, ..session };
    if !key_channel_accepts(session.keys, frame) {
        AdmissionStep { session: keyed, event: frame.event, admission: None }
    } else if mouse_sequence(frame.event) is Some && !prepare_accepts(
        session.mouse,
        frame.origin,
        frame.event,
    ) {
        AdmissionStep {
            session: SessionView { mouse: admitted_mouse(session, frame), ..keyed },
            event: frame.event,
            admission: if frame_releases_keys(session.active, frame) {
                Some(keys_only_verdict())
            } else {
                None
            },
        }
    } else {
        admit_accepted(keyed, frame)
    }
}

/// Considers an ordinary event of `origin_id`.
pub fn admit_remote_input_with_state(
    sequence_state: &mut RemoteKeySequenceState,
    mouse_state: &mut RemoteMouseState,
    active_origin: &mut String,
    origin_id: &str,
    modifier_snapshot: Option<u8>,
    key_sequence: u64,
    event: &mut InputEvent,
) -> (admission: Option<RemoteInputAdmission>)
    ensures
        ({
            let step = considered(
                SessionView {
                    keys: old(sequence_state)@,
                    mouse: old(mouse_state)@,
                    active: old(active_origin)@,
                },
                FrameView {
                    origin: origin_id@,
                    modifier_snapshot,
                    key_sequence,
                    heartbeat: false,
                    event: old(event)@,
                },
            );
            &&& admission == step.admission
            &&& final(sequence_state)@ == step.session.keys
            &&& final(mouse_state)@ == step.session.mouse
            &&& final(active_origin)@ == step.session.active
            &&& final(event)@ == step.event
        }),
{
    admit_remote_input_packet_with_state(
        sequence_state,
        mouse_state,
        active_origin,
        origin_id,
        modifier_snapshot,
        key_sequence,
        false,
        event,
    )
}

/// Considers one received frame of `origin_id`: whether it is new, whether its
/// sender owns or may claim the input, and what follows from it.
pub fn admit_remote_input_packet_with_state(
    sequence_state: &mut RemoteKeySequenceState,
    mouse_state: &mut RemoteMouseState,
    active_origin: &mut String,
    origin_id: &str,
    modifier_snapshot: Option<u8>,
    key_sequence: u64,
    heartbeat: bool,
    event: &mut InputEvent,
) -> (admission: Option<RemoteInputAdmission>)
    ensures
        ({
            let step = considered(
                SessionView {
                    keys: old(sequence_state)@,
                    mouse: old(mouse_state)@,
                    active: old(active_origin)@,
                },
                FrameView {
                    origin: origin_id@,
                    modifier_snapshot,
                    key_sequence,
                    heartbeat,
                    event: old(event)@,
                },
            );
            &&& admission == step.admission
            &&& final(sequence_state)@ == step.session.keys
            &&& final(mouse_state)@ == step.session.mouse
            &&& final(active_origin)@ == step.session.active
            &&& final(event)@ == step.event
        }),
{
    let is_park = matches!(event, InputEvent::CursorPark { .. });
    let accepted_by_keys: bool = match &*event {
        InputEvent::Key { key_code, .. } => sequence_state.accept_key(
            origin_id,
            *key_code,
            key_sequence,
        ),
        InputEvent::CursorPark { .. } => sequence_state.accept_boundary(origin_id, key_sequence),
        _ => true,
    };
    if !accepted_by_keys {
        return None;
    }
    let active_is_current = same_text(active_origin.as_str(), origin_id);
    let can_claim = !heartbeat && active_origin.as_str().is_empty()
        && input_event_can_claim_origin(event);
    let owns_event = active_is_current || can_claim;
    let release_keys = is_park && active_is_current;
    let mut mouse: Option<RemoteMouseAdmission> = None;
    let mut carried_buttons: Option<(u64, i32, i32)> = None;
    if input_event_mouse_sequence(event).is_some() {
        let (accepted, carried) = prepare_remote_mouse_event_for_origin(
            mouse_state,
            origin_id,
            event,
            owns_event,
            !heartbeat,
        );
        if !accepted {
            if !release_keys {
                return None;
            }
            return Some(
                RemoteInputAdmission {
                    inject_event: false,
                    current_session_owner: false,
                    effective_modifier_snapshot: None,
                    origin_changed: false,
                    release_keys: true,
                    carried_buttons: None,
                    mouse: Some(
                        RemoteMouseAdmission { button_reconciliation: None, park_accepted: false },
                    ),
                },
            );
        }
        if owns_event {
            let (button_reconciliation, park_accepted) =
                authoritative_mouse_button_state_for_packet(
                mouse_state,
                origin_id,
                event,
                true,
                heartbeat,
            );
            mouse = Some(RemoteMouseAdmission { button_reconciliation, park_accepted });
            carried_buttons = carried;
        } else {
            mouse =
            Some(RemoteMouseAdmission { button_reconciliation: None, park_accepted: false });
        }
    }
    let accepted_snapshot: Option<u8> = match modifier_snapshot {
        Some(mask) => if sequence_state.accept_snapshot(origin_id, key_sequence) {
            Some(mask)
        } else {
            None
        },
        None => None,
    };
    let park_accepted = match mouse {
        Some(mouse) => mouse.park_accepted,
        None => false,
    };
    let inject_event = !heartbeat && owns_event && (!is_park || (active_is_current
        && park_accepted));
    let current_session_owner = inject_event || (heartbeat && active_is_current);
    let origin_changed = inject_event && can_claim;
    if origin_changed && mouse.is_none() {
        carried_buttons = switch_remote_mouse_origin(mouse_state, origin_id);
    }
    if inject_event && park_accepted {
        *active_origin = String::new();
    } else if origin_changed {
        *active_origin = origin_id.to_owned();
    }
    Some(
        RemoteInputAdmission {
            inject_event,
            current_session_owner,
            effective_modifier_snapshot: if current_session_owner {
                accepted_snapshot
            } else {
                None
            },
            origin_changed,
            release_keys,
            carried_buttons,
            mouse,
        },
    )
}

/// Whether the next heartbeat is due; if so it counts as sent.
pub fn remote_input_heartbeat_due(last_sent: &mut Option<u64>, now: u64) -> (due: bool)
    ensures
        due == heartbeat_due(*old(last_sent), now),
        *final(last_sent) == if due {
            Some(now)
        } else {
            *old(last_sent)
        },
{
    if let Some(sent) = *last_sent {
        if now < sent || now - sent < REMOTE_INPUT_HEARTBEAT_INTERVAL {
            return false;
        }
    }
    *last_sent = Some(now);
    true
}

/// A heartbeat is due at once, and then once per interval.
pub open spec fn heartbeat_due(last_sent: Option<u64>, now: u64) -> bool {
    last_sent matches Some(sent) ==> now - sent >= REMOTE_INPUT_HEARTBEAT_INTERVAL
}

/// A lease runs for five seconds from the last activity of its owner, and a
/// heartbeat comes every second: four may be lost.
pub proof fn law_lease_outlasts_lost_heartbeats(origin: Seq<char>, active_at: u64, now: u64)
    requires
        clock_in_range(active_at),
        active_at <= now,
    ensures
        lease_has_expired(renewed_lease(origin, active_at), now) <==> now - active_at
            >= 5_000_000_000,
        renewed_lease(origin, active_at).origin == origin,
        !lease_has_expired(no_lease(), now),
        heartbeat_due(None, now),
        heartbeat_due(Some(active_at), now) <==> now - active_at >= 1_000_000_000,
{
}

/// Only the holder of a lease ends it.
pub proof fn law_leases_are_ended_by_their_holder(origin: Seq<char>, other: Seq<char>, now: u64)
    ensures
        lease_after_end(renewed_lease(origin, now), origin) == no_lease(),
        other != origin ==> lease_after_end(renewed_lease(origin, now), other) == renewed_lease(
            origin,
            now,
        ),
        lease_after_end(no_lease(), origin) == no_lease(),
{
}

/// A session that the clock ends leaves nobody in control and no button held;
/// the pointer stays where it is. It ends only the session of the lease holder.
pub proof fn law_expiry_lets_go(
    session: SessionView,
    lease: LeaseView,
    now: u64,
)
    ensures
        ({
            let after = session_after_expiry(session, lease.origin);
            &&& after.active.len() == 0
            &&& after.mouse.buttons == 0
            &&& after.mouse.x == session.mouse.x
            &&& after.mouse.y == session.mouse.y
            &&& after.mouse.last_origin != lease.origin || lease.origin.len() == 0
            &&& session.mouse.last_origin != lease.origin ==> after.mouse.last_origin
                == session.mouse.last_origin
        }),
        session.active != lease.origin ==> !session_expires(session, lease, now),
        session.active == lease.origin ==> (session_expires(session, lease, now)
            <==> lease_has_expired(lease, now)),
{
}

/// An admitted event is reported as such. Its sender counts as the owner where it
/// is one and the event, if it was to be injected, was; an injected park that was
/// applied ends the session.
pub proof fn law_outcomes_tell_what_became_of_an_event(
    admission: RemoteInputAdmission,
    injected: bool,
    lease: LeaseView,
    origin: Seq<char>,
    now: u64,
)
    ensures
        ({
            let outcome = outcome_of(admission, injected);
            &&& outcome.admitted
            &&& outcome.injected == injected
            &&& outcome.session_ended <==> admission.inject_event && (admission.mouse matches Some(
                mouse,
            ) && mouse.park_accepted)
            &&& !admission.current_session_owner ==> !outcome.current_session_owner
            &&& admission.current_session_owner && injected ==> outcome.current_session_owner
            &&& admission.inject_event && !injected ==> !outcome.current_session_owner
            &&& admission.current_session_owner && injected && !outcome.session_ended
                ==> lease_after_outcome(lease, origin, outcome, now) == renewed_lease(origin, now)
            &&& !outcome.current_session_owner && !outcome.session_ended ==> lease_after_outcome(
                lease,
                origin,
                outcome,
                now,
            ) == lease
        }),
{
}

/// A new event of the owner is injected, together with the modifiers that it was
/// sent with where they are new; a heartbeat of the owner is not injected and
/// keeps the session.
pub proof fn law_owners_are_admitted(session: SessionView, frame: FrameView)
    requires
        session.active == frame.origin,
        session.active.len() > 0,
        key_channel_accepts(session.keys, frame),
        prepare_accepts(session.mouse, frame.origin, frame.event),
    ensures
        considered(session, frame).admission matches Some(admission) && (!frame.heartbeat
            ==> admission.inject_event && admission.current_session_owner) && (frame.heartbeat
            ==> !admission.inject_event && admission.current_session_owner) && (
        frame.modifier_snapshot is None ==> admission.effective_modifier_snapshot is None) && (
        frame.key_sequence == 0 ==> admission.effective_modifier_snapshot
            == frame.modifier_snapshot) && !admission.origin_changed && (admission.release_keys
            <==> frame.event is CursorPark),
        !(frame.event is CursorPark) || frame.heartbeat ==> considered(session, frame).session.active
            == session.active,
{
}

/// A frame of somebody who neither owns the machine nor comes to own it changes
/// no button, and nothing of its event.
pub proof fn law_strangers_touch_no_button(session: SessionView, frame: FrameView)
    requires
        !frame_owns(session.active, frame),
        mouse_sequence(frame.event) is Some,
    ensures
        admitted_mouse(session, frame).buttons == session.mouse.buttons,
        admitted_mouse(session, frame).last_origin == session.mouse.last_origin,
        admitted_event(session, frame) == prepared_event(session.mouse, frame.origin, frame.event),
        mouse_verdict(session, frame).button_reconciliation is None,
        !mouse_verdict(session, frame).park_accepted,
{
}

/// A move of the owner that tells of its buttons takes effect, and a park lets go
/// of all of them; both as far as nothing newer is known.
pub proof fn law_owners_set_the_buttons(session: SessionView, frame: FrameView)
    requires
        session.active == frame.origin,
        session.mouse.last_origin == frame.origin,
        prepare_accepts(session.mouse, frame.origin, frame.event),
        mouse_sequence(frame.event) matches Some(sequence) && (sequence == 0 || sequence
            > crate::remote_mouse::mouse_marks_of(session.mouse.marks, frame.origin).snapshot),
    ensures
        ({
            let after = admitted_mouse(session, frame);
            let change = mouse_verdict(session, frame).button_reconciliation;
            &&& frame.event matches EventView::MouseMove { button_mask: Some(mask), .. }
                ==> after.buttons == mask && admitted_event(session, frame) == frame.event
            &&& frame.event is CursorPark ==> after.buttons == 0 && mouse_verdict(
                session,
                frame,
            ).park_accepted
            &&& frame.event is Scroll || frame.event is MouseButton ==> after.buttons
                == session.mouse.buttons
            &&& change is Some <==> after.buttons != session.mouse.buttons
            &&& change matches Some(change) ==> change == (
                session.mouse.buttons,
                after.buttons,
                session.mouse.x,
                session.mouse.y,
            )
        }),
{
}

/// The keyboard channel holds up keys and parks that are not newer than what was
/// accepted; frames without a number and other events pass it.
pub proof fn law_keyboard_channel_orders_keys(
    keys: Map<Seq<char>, KeyMarks>,
    frame: FrameView,
)
    ensures
        frame.key_sequence == 0 ==> key_channel_accepts(keys, frame) && key_channel_after(
            keys,
            frame,
        ) == keys,
        frame.event !is Key && frame.event !is CursorPark ==> key_channel_accepts(keys, frame)
            && key_channel_after(keys, frame) == keys,
        frame.event matches EventView::Key { key_code, .. } ==> frame.key_sequence > 0 ==> (
        key_channel_accepts(keys, frame) <==> key_is_fresh(
            key_marks_of(keys, frame.origin),
            key_code,
            frame.key_sequence,
        )),
        frame.event is CursorPark && frame.key_sequence > 0 ==> (key_channel_accepts(keys, frame)
            <==> boundary_is_fresh(key_marks_of(keys, frame.origin), frame.key_sequence)),
        frame.modifier_snapshot is None ==> !snapshot_accepted(keys, frame)
            && snapshot_channel_after(keys, frame) == keys,
        frame.modifier_snapshot is Some ==> (snapshot_accepted(keys, frame) <==> frame.key_sequence
            == 0 || snapshot_is_fresh(key_marks_of(keys, frame.origin), frame.key_sequence)),
{
}

/// A park that only the keyboard channel has not seen yet lets the keys go and
/// does nothing else.
pub proof fn law_overtaken_parks_release_keys_only()
    ensures
        keys_only_verdict().release_keys,
        !keys_only_verdict().inject_event,
        !keys_only_verdict().current_session_owner,
        !keys_only_verdict().origin_changed,
        keys_only_verdict().effective_modifier_snapshot is None,
        keys_only_verdict().carried_buttons is None,
        !admission_ends_session(keys_only_verdict()),
        keys_only_verdict().mouse matches Some(mouse) && !mouse.park_accepted
            && mouse.button_reconciliation is None,
{
}

} // verus!
