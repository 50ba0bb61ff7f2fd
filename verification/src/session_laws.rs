//! What holds of every session, whatever frames arrive.

use vstd::prelude::*;

use crate::key_sequence::{key_marks_advance, key_marks_of, semantic_key};
use crate::remote_mouse::{
    boundary_covered, can_claim_origin, highest_mark, mouse_marks_advance, mouse_marks_of,
    mouse_sequence, numbered, prepare_accepts, same_order, EventView,
};
use crate::session::{
    admission_ends_session, considered, frame_claims, key_channel_accepts, keys_only_verdict,
    lease_after_outcome, lease_has_expired, outcome_of, outcome_renews, session_after_expiry,
    FrameView, LeaseView, RemoteInputAdmission, RemoteInputOutcome, SessionView,
    REMOTE_INPUT_LEASE_TIMEOUT,
};

verus! {

/// Both channels consider the frame new.
pub open spec fn frame_is_new(session: SessionView, frame: FrameView) -> bool {
    key_channel_accepts(session.keys, frame) && prepare_accepts(
        session.mouse,
        frame.origin,
        frame.event,
    )
}

/// A heartbeat is never injected, claims nothing and ends nothing.
pub proof fn law_heartbeats_are_passive(session: SessionView, frame: FrameView)
    requires
        frame.heartbeat,
    ensures
        considered(session, frame).session.active == session.active,
        considered(session, frame).admission matches Some(admission) ==> !admission.inject_event
            && !admission.origin_changed && !admission_ends_session(admission),
{
}

/// While one controller owns the input, a frame of another one moves nothing
/// but that other controller's own marks.
pub proof fn law_foreign_frames_are_inert(session: SessionView, frame: FrameView, other: Seq<char>)
    requires
        session.active.len() > 0,
        session.active != frame.origin,
        other != frame.origin,
    ensures
        ({
            let step = considered(session, frame);
            &&& step.session.active == session.active
            &&& step.session.mouse.x == session.mouse.x
            &&& step.session.mouse.y == session.mouse.y
            &&& step.session.mouse.buttons == session.mouse.buttons
            &&& step.session.mouse.last_origin == session.mouse.last_origin
            &&& key_marks_of(step.session.keys, other) == key_marks_of(session.keys, other)
            &&& mouse_marks_of(step.session.mouse.marks, other) == mouse_marks_of(
                session.mouse.marks,
                other,
            )
            &&& step.admission matches Some(admission) ==> !admission.inject_event
                && !admission.current_session_owner && !admission.origin_changed
                && !admission.release_keys && admission.effective_modifier_snapshot is None
                && admission.carried_buttons is None && (admission.mouse matches Some(mouse)
                ==> mouse.button_reconciliation is None && !mouse.park_accepted)
        }),
{
}

/// Ownership moves in two ways only: a claim of an idle machine, or the park
/// of its owner.
pub proof fn law_ownership_moves_by_claim_or_park(session: SessionView, frame: FrameView)
    requires
        considered(session, frame).session.active != session.active,
    ensures
        ({
            let step = considered(session, frame);
            ||| frame_claims(session.active, frame) && step.session.active == frame.origin
            ||| session.active == frame.origin && frame.event is CursorPark
                && step.session.active.len() == 0
        }),
{
}

/// A new move or press claims an idle machine and is injected.
pub proof fn law_entry_claims_an_idle_machine(session: SessionView, frame: FrameView)
    requires
        session.active.len() == 0,
        !frame.heartbeat,
        can_claim_origin(frame.event),
        frame_is_new(session, frame),
    ensures
        ({
            let step = considered(session, frame);
            &&& step.session.active == frame.origin
            &&& step.session.mouse.last_origin == frame.origin
            &&& step.admission matches Some(admission) && admission.inject_event
                && admission.origin_changed && admission.current_session_owner
        }),
{
}

/// A release, scroll or park never starts a session.
pub proof fn law_remains_never_claim(session: SessionView, frame: FrameView)
    requires
        session.active.len() == 0,
        frame.origin.len() > 0,
        !can_claim_origin(frame.event),
    ensures
        considered(session, frame).session.active == session.active,
        considered(session, frame).admission matches Some(admission) ==> !admission.inject_event,
{
}

/// A new park of the owner ends its session: no owner, no held button, and
/// its keys go up.
pub proof fn law_park_ends_the_session(session: SessionView, frame: FrameView)
    requires
        frame.event is CursorPark,
        !frame.heartbeat,
        session.active == frame.origin,
        frame_is_new(session, frame),
    ensures
        ({
            let step = considered(session, frame);
            &&& step.session.active.len() == 0
            &&& step.session.mouse.buttons == 0
            &&& step.admission matches Some(admission) && admission.inject_event
                && admission.release_keys && admission_ends_session(admission)
        }),
{
}

/// A frame of an ended epoch is refused: after the owner's park nothing it
/// numbered earlier on the mouse channel is admitted, from it or in its name.
pub proof fn law_parked_epoch_stays_closed(
    session: SessionView,
    park: FrameView,
    late: FrameView,
)
    requires
        park.event is CursorPark,
        !park.heartbeat,
        session.active == park.origin,
        park.origin.len() > 0,
        frame_is_new(session, park),
        numbered(park.event),
        late.origin == park.origin,
        numbered(late.event),
        mouse_sequence(late.event)->0 <= mouse_sequence(park.event)->0,
    ensures
        considered(considered(session, park).session, late).admission is None,
        considered(considered(session, park).session, late).session.active.len() == 0,
{
}

/// The marks of no sender ever move backwards.
pub proof fn law_marks_never_regress(session: SessionView, frame: FrameView, other: Seq<char>)
    requires
        boundary_covered(mouse_marks_of(session.mouse.marks, other)),
    ensures
        ({
            let after = considered(session, frame).session;
            &&& key_marks_advance(
                key_marks_of(session.keys, other),
                key_marks_of(after.keys, other),
            )
            &&& mouse_marks_advance(
                mouse_marks_of(session.mouse.marks, other),
                mouse_marks_of(after.mouse.marks, other),
            )
            &&& boundary_covered(mouse_marks_of(after.mouse.marks, other))
        }),
{
}

/// Whether `later` comes from the sender of `frame`, is ordered by the same
/// number, and is not newer.
pub open spec fn is_overdue(frame: FrameView, later: FrameView) -> bool {
    later.origin == frame.origin && match (frame.event, later.event) {
        (EventView::Key { key_code, .. }, EventView::Key { key_code: other, .. }) => {
            semantic_key(other) == semantic_key(key_code) && 0 < later.key_sequence
                <= frame.key_sequence
        },
        _ => same_order(frame.event, later.event) && numbered(later.event) && mouse_sequence(
            later.event,
        )->0 <= mouse_sequence(frame.event)->0,
    }
}

/// An injected or merely recorded numbered frame is refused when it arrives
/// again, and an admitted one blocks every frame of its order that is not newer,
/// unless it is a heartbeat. A park that was overtaken on the mouse channel may
/// still release keys.
pub proof fn law_replays_are_refused(session: SessionView, frame: FrameView, later: FrameView)
    requires
        !frame.heartbeat,
        frame.event is Key ==> frame.key_sequence != 0,
        !(frame.event is Key) ==> numbered(frame.event) && !(frame.event is CursorPark),
    ensures
        considered(considered(session, frame).session, frame).admission is None,
        considered(session, frame).admission is Some && is_overdue(frame, later) && !(
        later.event is CursorPark) ==> considered(
            considered(session, frame).session,
            later,
        ).admission is None,
{
}

/// A key frame numbered at or below the newest frame of an expired session, and
/// a mouse frame numbered at or below its newest mouse frame, are refused; the
/// machine is idle and no button stays held.
pub proof fn law_expired_session_stays_closed(
    session: SessionView,
    origin: Seq<char>,
    late: FrameView,
)
    requires
        late.origin == origin,
        late.event is Key ==> session.keys.contains_key(origin) && 0 < late.key_sequence
            <= session.keys[origin].latest,
        !(late.event is Key) ==> session.mouse.marks.contains_key(origin) && numbered(late.event)
            && mouse_sequence(late.event)->0 <= highest_mark(session.mouse.marks[origin])
            && origin.len() > 0,
    ensures
        ({
            let closed = session_after_expiry(session, origin);
            &&& closed.active.len() == 0
            &&& closed.mouse.buttons == 0
            &&& considered(closed, late).admission is None
        }),
{
}

/// Only the owner's activity keeps a lease: an outcome that neither renews nor
/// ends leaves it as it was, and a renewed one runs for exactly the timeout.
pub proof fn law_lease_follows_its_owner(
    lease: LeaseView,
    origin: Seq<char>,
    outcome: RemoteInputOutcome,
    now: u64,
    later: u64,
)
    requires
        now + REMOTE_INPUT_LEASE_TIMEOUT <= u64::MAX,
    ensures
        !outcome.session_ended && !outcome_renews(outcome) ==> lease_after_outcome(
            lease,
            origin,
            outcome,
            now,
        ) == lease,
        outcome_renews(outcome) ==> lease_has_expired(
            lease_after_outcome(lease, origin, outcome, now),
            later,
        ) == (later >= now + REMOTE_INPUT_LEASE_TIMEOUT),
        outcome.session_ended && lease.origin == origin ==> !lease_has_expired(
            lease_after_outcome(lease, origin, outcome, now),
            later,
        ),
{
}

/// A park that only the keyboard channel accepted renews nothing.
pub proof fn law_keys_only_boundary_renews_nothing(injected: bool)
    ensures
        !outcome_renews(outcome_of(keys_only_verdict(), injected)),
{
}

/// An event that was to be injected and was not renews nothing; a heartbeat of
/// the owner renews without injection.
pub proof fn law_failed_injection_renews_nothing(admission: RemoteInputAdmission)
    ensures
        admission.inject_event ==> !outcome_renews(outcome_of(admission, false)),
        !admission.inject_event && admission.current_session_owner ==> outcome_renews(
            outcome_of(admission, false),
        ),
{
}

} // verus!
