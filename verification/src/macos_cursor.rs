//! The macOS pointer while another machine is controlled, or while another
//! machine controlled this one: when it is hidden, shown, and pinned again.

use vstd::prelude::*;

use crate::capture::Span;
use crate::macos_inject::MacClickTracker;
use crate::packets::{report_due, take_report};

verus! {

/// The capture loop's turn while nothing is controlled, in milliseconds.
pub const MACOS_IDLE_CAPTURE_LOOP_MS: u64 = 100;

pub const MACOS_VISIBLE_REMOTE_CAPTURE_LOOP_MS: u64 = 16;

pub const MACOS_HIDDEN_REMOTE_CAPTURE_LOOP_MS: u64 = 16;

/// How often the hidden pointer is painted transparent again.
pub const HIDE_REASSERT_INTERVAL: u64 = 250_000_000;

/// How far a parked pointer may drift by itself.
pub const RECEIVE_CURSOR_DRIFT: i64 = 24;

/// Who keeps the pointer transparent.
pub const MACOS_CURSOR_HIDE_OWNER_RECEIVE: u64 = 1;

pub const MACOS_CURSOR_HIDE_OWNER_CAPTURE: u64 = 2;

/// What happens to the stack of pointer images.
#[derive(Debug, Clone, Copy, PartialEq, Eq, Structural)]
pub enum MacCursorStackAction {
    Keep,
    Push,
    Pop,
}

/// The owners after one of them hides or shows the pointer.
pub open spec fn owners_after(current: u64, owner: u64, hidden: bool) -> u64 {
    if hidden {
        current | owner
    } else {
        current & !owner
    }
}

/// The image goes on the stack with the first owner and off it with the last.
pub open spec fn stack_action(current: u64, next: u64) -> MacCursorStackAction {
    if current == 0 && next != 0 {
        MacCursorStackAction::Push
    } else if current != 0 && next == 0 {
        MacCursorStackAction::Pop
    } else {
        MacCursorStackAction::Keep
    }
}

pub fn macos_cursor_hide_owner_transition(current: u64, owner: u64, hidden: bool) -> (transition: (
    u64,
    MacCursorStackAction,
))
    ensures
        transition.0 == owners_after(current, owner, hidden),
        transition.1 == stack_action(current, transition.0),
{
    let next: u64 = if hidden {
        current | owner
    } else {
        current & !owner
    };
    let action = if current == 0 && next != 0 {
        MacCursorStackAction::Push
    } else if current != 0 && next == 0 {
        MacCursorStackAction::Pop
    } else {
        MacCursorStackAction::Keep
    };
    (next, action)
}

/// Hides or shows the pointer for one owner. An owner only counts once the
/// stack has followed; a change that the stack has no part in counts at once.
pub fn set_macos_cursor_transparent<F: FnOnce(MacCursorStackAction) -> bool>(
    owners: &mut u64,
    owner: u64,
    transparent: bool,
    apply: F,
)
    requires
        forall|action: MacCursorStackAction| apply.requires((action,)),
    ensures
        ({
            let next = owners_after(*old(owners), owner, transparent);
            let action = stack_action(*old(owners), next);
            if action is Keep {
                *final(owners) == next
            } else {
                exists|applied: bool|
                    #[trigger] apply.ensures((action,), applied) && *final(owners) == if applied {
                        next
                    } else {
                        *old(owners)
                    }
            }
        }),
{
    let (next, action) = macos_cursor_hide_owner_transition(*owners, owner, transparent);
    if next == *owners {
        return;
    }
    let applied = match action {
        MacCursorStackAction::Keep => true,
        _ => apply(action),
    };
    if applied {
        *owners = next;
    }
}

/// The pointer of the capturing side. `depth` counts the hides that were not
/// yet undone.
#[derive(Debug, Clone, Copy, PartialEq, Eq, Structural)]
pub struct MacCursor {
    pub hidden: bool,
    pub depth: u32,
    pub last_reassert: Option<u64>,
    pub last_repin: Option<u64>,
}

impl Default for MacCursor {
    fn default() -> (cursor: Self)
        ensures
            cursor.well_formed(),
            cursor == (MacCursor { hidden: false, depth: 0, last_reassert: None, last_repin: None }),
    {
        MacCursor { hidden: false, depth: 0, last_reassert: None, last_repin: None }
    }
}

impl MacCursor {
    /// The pointer is hidden by exactly one hide, or shown.
    pub open spec fn well_formed(self) -> bool {
        self.depth == if self.hidden {
            1u32
        } else {
            0
        }
    }
}

/// The pointer after it was hidden.
pub open spec fn hidden_cursor(cursor: MacCursor) -> MacCursor {
    if cursor.hidden {
        cursor
    } else {
        MacCursor {
            hidden: true,
            depth: if cursor.depth == u32::MAX {
                u32::MAX
            } else {
                (cursor.depth + 1) as u32
            },
            last_reassert: None,
            ..cursor
        }
    }
}

/// Hides the pointer, once: the hides of the system are counted. The result
/// says whether the system is to hide it.
pub fn hide_macos_cursor_if_needed(cursor: &mut MacCursor) -> (hide: bool)
    ensures
        hide == !old(cursor).hidden,
        *final(cursor) == hidden_cursor(*old(cursor)),
        old(cursor).well_formed() ==> final(cursor).well_formed(),
{
    if cursor.hidden {
        return false;
    }
    if cursor.depth < u32::MAX {
        cursor.depth = cursor.depth + 1;
    }
    cursor.last_reassert = None;
    cursor.hidden = true;
    true
}

/// The pointer after it was shown.
pub open spec fn shown_cursor(cursor: MacCursor) -> MacCursor {
    if cursor.hidden {
        MacCursor { hidden: false, depth: 0, last_reassert: None, ..cursor }
    } else {
        cursor
    }
}

/// Shows the pointer. The result says how many hides the system is to undo;
/// there is none where the pointer was not hidden.
pub fn show_macos_cursor_if_needed(cursor: &mut MacCursor) -> (undo: Option<u32>)
    ensures
        undo == if old(cursor).hidden {
            Some(old(cursor).depth)
        } else {
            None
        },
        *final(cursor) == shown_cursor(*old(cursor)),
        old(cursor).well_formed() ==> final(cursor).well_formed(),
{
    if !cursor.hidden {
        return None;
    }
    let count: u32 = cursor.depth;
    cursor.depth = 0;
    cursor.last_reassert = None;
    cursor.hidden = false;
    Some(count)
}

/// Every hide is undone exactly once: a pointer that was shown, hidden any
/// number of times and shown again is undone by one show.
pub proof fn law_hides_and_shows_balance(cursor: MacCursor)
    requires
        cursor.well_formed(),
        !cursor.hidden,
    ensures
        hidden_cursor(hidden_cursor(cursor)) == hidden_cursor(cursor),
        hidden_cursor(cursor).depth == 1,
        shown_cursor(hidden_cursor(cursor)) == (MacCursor { last_reassert: None, ..cursor }),
        shown_cursor(shown_cursor(hidden_cursor(cursor))) == shown_cursor(hidden_cursor(cursor)),
{
}

proof fn lemma_owner_bits(current: u64, owner: u64)
    by (bit_vector)
    requires
        owner != 0,
    ensures
        current | owner != 0,
        (current | owner) | owner == current | owner,
        current & owner == 0 ==> current & !owner == current,
        current & owner == 0 ==> (current | owner) & !owner == current,
{
}

/// A pointer that one owner hides stays hidden while another does: hiding and
/// showing again leaves the owners as they were, the image goes on the stack
/// only where nobody held it, and comes off only where nobody is left.
pub proof fn law_pointer_waits_for_its_last_owner(current: u64, owner: u64)
    requires
        owner != 0,
        current & owner == 0,
    ensures
        ({
            let hidden = owners_after(current, owner, true);
            let shown = owners_after(hidden, owner, false);
            &&& shown == current
            &&& stack_action(current, hidden) is Push <==> current == 0
            &&& stack_action(hidden, shown) is Pop <==> current == 0
            &&& owners_after(hidden, owner, true) == hidden
            &&& stack_action(hidden, hidden) is Keep
            &&& owners_after(shown, owner, false) == shown
        }),
{
    lemma_owner_bits(current, owner);
}

/// How long the capture loop waits for events.
pub fn macos_capture_loop_ms(remote_active: bool, main_window_visible: bool) -> (turn: u64)
    ensures
        turn == if !remote_active {
            MACOS_IDLE_CAPTURE_LOOP_MS
        } else if main_window_visible {
            MACOS_VISIBLE_REMOTE_CAPTURE_LOOP_MS
        } else {
            MACOS_HIDDEN_REMOTE_CAPTURE_LOOP_MS
        },
{
    if !remote_active {
        return MACOS_IDLE_CAPTURE_LOOP_MS;
    }
    if main_window_visible {
        MACOS_VISIBLE_REMOTE_CAPTURE_LOOP_MS
    } else {
        MACOS_HIDDEN_REMOTE_CAPTURE_LOOP_MS
    }
}

/// A picture of one clear pixel, in the PNG format.
pub open spec fn clear_pixel_png() -> Seq<u8> {
    seq![
        0x89u8, 0x50u8, 0x4eu8, 0x47u8, 0x0du8, 0x0au8, 0x1au8, 0x0au8, 0x00u8, 0x00u8, 0x00u8, 0x0du8,
        0x49u8, 0x48u8, 0x44u8, 0x52u8, 0x00u8, 0x00u8, 0x00u8, 0x01u8, 0x00u8, 0x00u8, 0x00u8, 0x01u8,
        0x08u8, 0x06u8, 0x00u8, 0x00u8, 0x00u8, 0x1fu8, 0x15u8, 0xc4u8, 0x89u8, 0x00u8, 0x00u8, 0x00u8,
        0x0bu8, 0x49u8, 0x44u8, 0x41u8, 0x54u8, 0x78u8, 0xdau8, 0x63u8, 0x60u8, 0x00u8, 0x02u8, 0x00u8,
        0x00u8, 0x05u8, 0x00u8, 0x01u8, 0xe9u8, 0xfau8, 0xdcu8, 0xd8u8, 0x00u8, 0x00u8, 0x00u8, 0x00u8,
        0x49u8, 0x45u8, 0x4eu8, 0x44u8, 0xaeu8, 0x42u8, 0x60u8, 0x82u8,
    ]
}

/// The picture that stands in for a hidden pointer.
pub fn macos_transparent_png() -> (png: Vec<u8>)
    ensures
        png@ == clear_pixel_png(),
{
    vec![
        0x89u8, 0x50u8, 0x4eu8, 0x47u8, 0x0du8, 0x0au8, 0x1au8, 0x0au8, 0x00u8, 0x00u8, 0x00u8, 0x0du8,
        0x49u8, 0x48u8, 0x44u8, 0x52u8, 0x00u8, 0x00u8, 0x00u8, 0x01u8, 0x00u8, 0x00u8, 0x00u8, 0x01u8,
        0x08u8, 0x06u8, 0x00u8, 0x00u8, 0x00u8, 0x1fu8, 0x15u8, 0xc4u8, 0x89u8, 0x00u8, 0x00u8, 0x00u8,
        0x0bu8, 0x49u8, 0x44u8, 0x41u8, 0x54u8, 0x78u8, 0xdau8, 0x63u8, 0x60u8, 0x00u8, 0x02u8, 0x00u8,
        0x00u8, 0x05u8, 0x00u8, 0x01u8, 0xe9u8, 0xfau8, 0xdcu8, 0xd8u8, 0x00u8, 0x00u8, 0x00u8, 0x00u8,
        0x49u8, 0x45u8, 0x4eu8, 0x44u8, 0xaeu8, 0x42u8, 0x60u8, 0x82u8,
    ]
}

/// How far the pointer may drift before it is pinned again, in half pixels, and
/// how many milliseconds pass between two pins. A hidden window sees the
/// pointer wobble all the time, so only more counts there.
pub open spec fn repin_policy(main_window_visible: bool) -> (i64, u64) {
    if main_window_visible {
        (3, 8)
    } else {
        (96, 50)
    }
}

pub fn macos_cursor_repin_policy(main_window_visible: bool) -> (policy: (i64, u64))
    ensures
        policy == repin_policy(main_window_visible),
{
    if main_window_visible {
        (3, 8)
    } else {
        (96, 50)
    }
}

/// Whether a distance exceeds `limit` on either side.
pub open spec fn exceeds(distance: Span, limit: i64) -> bool {
    distance.ceil > limit || distance.floor < -limit
}

fn beyond(distance: Span, limit: i64) -> (is: bool)
    requires
        0 <= limit,
    ensures
        is == exceeds(distance, limit),
{
    distance.ceil > limit || distance.floor < -limit
}

/// Whether the parked pointer was moved by hand: WindowServer drifts it by less.
pub fn macos_receive_cursor_drifted(dx: Span, dy: Span) -> (drifted: bool)
    ensures
        drifted == (exceeds(dx, RECEIVE_CURSOR_DRIFT) || exceeds(dy, RECEIVE_CURSOR_DRIFT)),
{
    beyond(dx, RECEIVE_CURSOR_DRIFT) || beyond(dy, RECEIVE_CURSOR_DRIFT)
}

/// Whether the pointer is pinned again. `drift` is its distance from the anchor
/// in half pixels, where there is an anchor.
pub open spec fn repins(
    cursor: MacCursor,
    drift: Option<(Span, Span)>,
    main_window_visible: bool,
    now: u64,
) -> bool {
    let (limit, interval) = repin_policy(main_window_visible);
    match drift {
        Some((dx, dy)) => (exceeds(dx, limit) || exceeds(dy, limit)) && report_due(
            cursor.last_repin,
            now,
            (interval * 1_000_000) as u64,
        ),
        None => false,
    }
}

/// The pointer after that decision.
pub open spec fn after_repin(cursor: MacCursor, repinned: bool, now: u64) -> MacCursor {
    if repinned {
        MacCursor { last_repin: Some(now), ..cursor }
    } else {
        cursor
    }
}

pub fn repin_macos_cursor_if_drifted(
    cursor: &mut MacCursor,
    drift: Option<(Span, Span)>,
    main_window_visible: bool,
    now: u64,
) -> (repin: bool)
    ensures
        repin == repins(*old(cursor), drift, main_window_visible, now),
        *final(cursor) == after_repin(*old(cursor), repin, now),
{
    let (limit, interval) = macos_cursor_repin_policy(main_window_visible);
    match drift {
        Some((dx, dy)) => {
            if !beyond(dx, limit) && !beyond(dy, limit) {
                return false;
            }
            take_report(&mut cursor.last_repin, now, interval * 1_000_000)
        },
        None => false,
    }
}

/// Whether the transparent image is set again: at once after the pointer was
/// moved, else from time to time, and never while the pointer is shown.
pub open spec fn reasserts(cursor: MacCursor, moved: bool, now: u64) -> bool {
    cursor.hidden && (moved || report_due(cursor.last_reassert, now, HIDE_REASSERT_INTERVAL))
}

/// The pointer after that decision.
pub open spec fn after_reassert(cursor: MacCursor, now: u64) -> MacCursor {
    if cursor.hidden && report_due(cursor.last_reassert, now, HIDE_REASSERT_INTERVAL) {
        MacCursor { last_reassert: Some(now), ..cursor }
    } else {
        cursor
    }
}

pub fn reassert_macos_hidden_window_cursor(cursor: &mut MacCursor, moved: bool, now: u64) -> (set:
    bool)
    ensures
        set == reasserts(*old(cursor), moved, now),
        *final(cursor) == after_reassert(*old(cursor), now),
{
    if !cursor.hidden {
        return false;
    }
    let due = take_report(&mut cursor.last_reassert, now, HIDE_REASSERT_INTERVAL);
    moved || due
}

/// What keeps the pointer in its place while another machine is controlled.
#[derive(Debug, Clone, Copy, PartialEq, Eq, Structural)]
pub struct RepinStep {
    /// Move the pointer to the anchor, if there is one.
    pub repin: bool,
    /// Set the transparent image again.
    pub set_transparent: bool,
}

/// What keeps the pointer in its place, and the pointer after that. While the
/// window is hidden, an unknown place is pinned.
pub open spec fn kept_in_place(
    cursor: MacCursor,
    known: bool,
    drift: Option<(Span, Span)>,
    main_window_visible: bool,
    now: u64,
) -> (RepinStep, MacCursor) {
    let repinned = known && repins(cursor, drift, main_window_visible, now);
    let pinned = after_repin(cursor, repinned, now);
    if main_window_visible {
        (RepinStep { repin: repinned, set_transparent: false }, pinned)
    } else {
        (
            RepinStep {
                repin: repinned || !known,
                set_transparent: reasserts(pinned, repinned || !known, now),
            },
            after_reassert(pinned, now),
        )
    }
}

/// Keeps the pointer in its place. `known` says whether the pointer's place
/// could be read.
pub fn repin_macos_cursor_while_remote(
    cursor: &mut MacCursor,
    known: bool,
    drift: Option<(Span, Span)>,
    main_window_visible: bool,
    now: u64,
) -> (step: RepinStep)
    ensures
        (step, *final(cursor)) == kept_in_place(
            *old(cursor),
            known,
            drift,
            main_window_visible,
            now,
        ),
{
    if !main_window_visible {
        let repin = if known {
            repin_macos_cursor_if_drifted(cursor, drift, main_window_visible, now)
        } else {
            true
        };
        let set_transparent = reassert_macos_hidden_window_cursor(cursor, repin, now);
        return RepinStep { repin, set_transparent };
    }
    if known {
        let repin = repin_macos_cursor_if_drifted(cursor, drift, main_window_visible, now);
        return RepinStep { repin, set_transparent: false };
    }
    RepinStep { repin: false, set_transparent: false }
}

pub fn reset_cursor_repin_timer(cursor: &mut MacCursor)
    ensures
        *final(cursor) == (MacCursor { last_repin: None, ..*old(cursor) }),
{
    cursor.last_repin = None;
}

/// Hides the pointer of a machine that control has left, once, and ends a
/// multi-click. The result says whether the system is to hide it, where it is.
pub fn macos_receive_hide_cursor(hidden: &mut bool, clicks: &mut MacClickTracker) -> (hide: bool)
    ensures
        hide == !*old(hidden),
        *final(hidden),
        *final(clicks) == if hide {
            MacClickTracker { last_down: None, left: None, right: None, middle: None }
        } else {
            *old(clicks)
        },
{
    if *hidden {
        return false;
    }
    *hidden = true;
    *clicks = MacClickTracker::default();
    true
}

/// Shows that pointer again, once.
pub fn macos_receive_show_cursor_if_hidden(hidden: &mut bool) -> (show: bool)
    ensures
        show == *old(hidden),
        !*final(hidden),
{
    let show = *hidden;
    *hidden = false;
    show
}

/// Whether the watch over a hidden pointer shows it: where its place and the
/// place it was parked at are known, and the user moved it from there.
pub fn receive_monitor_shows(hidden: bool, drift: Option<(Span, Span)>) -> (show: bool)
    ensures
        show == (hidden && match drift {
            Some((dx, dy)) => exceeds(dx, RECEIVE_CURSOR_DRIFT) || exceeds(
                dy,
                RECEIVE_CURSOR_DRIFT,
            ),
            None => false,
        }),
{
    if !hidden {
        return false;
    }
    match drift {
        Some((dx, dy)) => macos_receive_cursor_drifted(dx, dy),
        None => false,
    }
}

/// A drift counts alike to either side.
pub proof fn law_drift_counts_to_either_side(distance: Span, mirrored: Span, limit: i64)
    requires
        mirrored.floor == -distance.ceil,
        mirrored.ceil == -distance.floor,
        distance.floor <= distance.ceil,
        limit >= 0,
    ensures
        exceeds(distance, limit) == exceeds(mirrored, limit),
        distance.floor == distance.ceil ==> (exceeds(distance, limit) <==> !(-limit <= distance.floor
            <= limit)),
{
}

/// With the window in sight the pointer is pinned again beyond three half
/// pixels, at most every eight milliseconds; out of sight beyond ninety-six, at
/// most every fifty. Without an anchor it is not.
pub proof fn law_pointer_is_pinned_by_policy(
    cursor: MacCursor,
    dx: Span,
    dy: Span,
    main_window_visible: bool,
    now: u64,
)
    ensures
        ({
            let limit: int = if main_window_visible {
                3
            } else {
                96
            };
            let interval: int = if main_window_visible {
                8_000_000
            } else {
                50_000_000
            };
            let off = dx.ceil > limit || dx.floor < -limit || dy.ceil > limit || dy.floor < -limit;
            &&& repins(cursor, Some((dx, dy)), main_window_visible, now) <==> off && (
            cursor.last_repin matches Some(last) ==> now - last >= interval)
            &&& !repins(cursor, None, main_window_visible, now)
            &&& after_repin(cursor, true, now).last_repin == Some(now)
            &&& after_repin(cursor, false, now) == cursor
        }),
{
}

/// A hidden pointer is painted clear again at once after it was moved and four
/// times a second otherwise; one that is shown never is.
pub proof fn law_hidden_pointer_stays_clear(cursor: MacCursor, moved: bool, now: u64)
    ensures
        !cursor.hidden ==> !reasserts(cursor, moved, now) && after_reassert(cursor, now) == cursor,
        cursor.hidden && moved ==> reasserts(cursor, moved, now),
        cursor.hidden && !moved ==> (reasserts(cursor, moved, now) <==> (cursor.last_reassert
            matches Some(last) ==> now - last >= 250_000_000)),
        cursor.hidden && cursor.last_reassert is None ==> after_reassert(cursor, now).last_reassert
            == Some(now),
{
}

/// A pointer whose place cannot be read is pinned where the window is out of
/// sight, and left alone where it is in sight.
pub proof fn law_unknown_places_are_pinned_out_of_sight(
    cursor: MacCursor,
    drift: Option<(Span, Span)>,
    main_window_visible: bool,
    now: u64,
)
    ensures
        kept_in_place(cursor, false, drift, main_window_visible, now).0.repin
            == !main_window_visible,
        kept_in_place(cursor, true, drift, main_window_visible, now).0.repin == repins(
            cursor,
            drift,
            main_window_visible,
            now,
        ),
        main_window_visible ==> !kept_in_place(
            cursor,
            true,
            drift,
            main_window_visible,
            now,
        ).0.set_transparent,
        kept_in_place(cursor, true, drift, main_window_visible, now).1.hidden == cursor.hidden,
{
}

/// The picture for a hidden pointer is a PNG of one by one pixel with eight bits
/// for each of red, green, blue and alpha.
pub proof fn law_clear_picture_is_one_pixel()
    ensures
        ({
            let png = clear_pixel_png();
            &&& png.take(8) == seq![
                0x89u8,
                0x50u8,
                0x4eu8,
                0x47u8,
                0x0du8,
                0x0au8,
                0x1au8,
                0x0au8,
            ]
            &&& png.subrange(12, 16) == seq![0x49u8, 0x48u8, 0x44u8, 0x52u8]
            &&& png.subrange(16, 20) == seq![0u8, 0u8, 0u8, 1u8]
            &&& png.subrange(20, 24) == seq![0u8, 0u8, 0u8, 1u8]
            &&& png[24] == 8
            &&& png[25] == 6
            &&& png[26] == 0 && png[27] == 0 && png[28] == 0
            &&& png.len() == 68
            &&& png.subrange(60, 64) == seq![0x49u8, 0x45u8, 0x4eu8, 0x44u8]
        }),
{
    let png = clear_pixel_png();
    assert(png.take(8) =~= seq![0x89u8, 0x50u8, 0x4eu8, 0x47u8, 0x0du8, 0x0au8, 0x1au8, 0x0au8]);
    assert(png.subrange(12, 16) =~= seq![0x49u8, 0x48u8, 0x44u8, 0x52u8]);
    assert(png.subrange(16, 20) =~= seq![0u8, 0u8, 0u8, 1u8]);
    assert(png.subrange(20, 24) =~= seq![0u8, 0u8, 0u8, 1u8]);
    assert(png.subrange(60, 64) =~= seq![0x49u8, 0x45u8, 0x4eu8, 0x44u8]);
}

} // verus!
