//! Per-origin ordering of keyboard frames.
//!
//! Frames of one sender may arrive over several streams, so each carries a
//! sequence number. Zero marks a sender that does not number its frames.

use std::collections::HashMap;

use vstd::prelude::*;

use crate::origin_map::OriginMap;
use crate::shared_input::{
    modifier_family, modifier_mask_for_key, ALT_MODIFIER_MASK, CONTROL_MODIFIER_MASK,
    META_MODIFIER_MASK, SHIFT_MODIFIER_MASK,
};

verus! {

broadcast use vstd::std_specs::hash::group_hash_axioms;

pub struct RemoteOriginKeySequenceState {
    /// Frames up to here belong to an ended session.
    pub boundary_sequence: u64,
    pub latest_event_sequence: u64,
    /// Modifier transitions up to here are covered by a modifier snapshot.
    pub snapshot_sequence: u64,
    pub last_by_key: HashMap<u16, u64>,
}

/// The high-water marks of one origin.
#[verifier::ext_equal]
pub struct KeyMarks {
    pub boundary: u64,
    pub latest: u64,
    pub snapshot: u64,
    pub last_by_key: Map<u16, u64>,
}

impl View for RemoteOriginKeySequenceState {
    type V = KeyMarks;

    open spec fn view(&self) -> KeyMarks {
        KeyMarks {
            boundary: self.boundary_sequence,
            latest: self.latest_event_sequence,
            snapshot: self.snapshot_sequence,
            last_by_key: self.last_by_key@,
        }
    }
}

impl Default for RemoteOriginKeySequenceState {
    fn default() -> (state: Self)
        ensures
            state@ == no_key_marks(),
    {
        let state = RemoteOriginKeySequenceState {
            boundary_sequence: 0,
            latest_event_sequence: 0,
            snapshot_sequence: 0,
            last_by_key: HashMap::new(),
        };
        assert(state@ =~= no_key_marks());
        state
    }
}

/// The marks of an origin that was never heard of.
pub open spec fn no_key_marks() -> KeyMarks {
    KeyMarks { boundary: 0, latest: 0, snapshot: 0, last_by_key: Map::empty() }
}

/// The marks of `origin`.
pub open spec fn key_marks_of(keys: Map<Seq<char>, KeyMarks>, origin: Seq<char>) -> KeyMarks {
    if keys.contains_key(origin) {
        keys[origin]
    } else {
        no_key_marks()
    }
}

/// The key under which a transition is ordered: all variants of a modifier
/// share one.
pub open spec fn semantic_key(key_code: u16) -> u16 {
    match modifier_family(key_code) {
        Some(family) => if family == SHIFT_MODIFIER_MASK {
            0x10
        } else if family == CONTROL_MODIFIER_MASK {
            0x11
        } else if family == ALT_MODIFIER_MASK {
            0x12
        } else {
            0x5B
        },
        None => key_code,
    }
}

pub fn remote_semantic_key(key_code: u16) -> (key: u16)
    ensures
        key == semantic_key(key_code),
{
    match modifier_mask_for_key(key_code) {
        Some(family) => {
            if family == SHIFT_MODIFIER_MASK {
                0x10
            } else if family == CONTROL_MODIFIER_MASK {
                0x11
            } else if family == ALT_MODIFIER_MASK {
                0x12
            } else if family == META_MODIFIER_MASK {
                0x5B
            } else {
                key_code
            }
        },
        None => key_code,
    }
}

pub open spec fn last_of_key(marks: KeyMarks, key_code: u16) -> u64 {
    if marks.last_by_key.contains_key(semantic_key(key_code)) {
        marks.last_by_key[semantic_key(key_code)]
    } else {
        0
    }
}

pub open spec fn larger(left: u64, right: u64) -> u64 {
    if left >= right {
        left
    } else {
        right
    }
}

/// Whether a numbered key transition is newer than everything it has to follow.
pub open spec fn key_is_fresh(marks: KeyMarks, key_code: u16, sequence: u64) -> bool {
    &&& sequence > marks.boundary
    &&& sequence > last_of_key(marks, key_code)
    &&& modifier_family(key_code) is Some ==> sequence > marks.snapshot
}

pub open spec fn marks_after_key(marks: KeyMarks, key_code: u16, sequence: u64) -> KeyMarks {
    KeyMarks {
        latest: larger(marks.latest, sequence),
        last_by_key: marks.last_by_key.insert(semantic_key(key_code), sequence),
        ..marks
    }
}

/// Whether a numbered session boundary is newer than every accepted frame.
pub open spec fn boundary_is_fresh(marks: KeyMarks, sequence: u64) -> bool {
    sequence > marks.boundary && sequence > marks.latest
}

pub open spec fn marks_after_boundary(marks: KeyMarks, sequence: u64) -> KeyMarks {
    KeyMarks { boundary: sequence, latest: sequence, ..marks }
}

/// Whether a numbered modifier snapshot is newer than the last one and the
/// session boundary.
pub open spec fn snapshot_is_fresh(marks: KeyMarks, sequence: u64) -> bool {
    sequence > marks.boundary && sequence > marks.snapshot
}

pub open spec fn marks_after_snapshot(marks: KeyMarks, sequence: u64) -> KeyMarks {
    KeyMarks { snapshot: sequence, latest: larger(marks.latest, sequence), ..marks }
}

/// The table after one numbered frame of `origin`, which moves to `after` when
/// the frame is fresh and is only recorded otherwise.
pub open spec fn keys_after_frame(
    keys: Map<Seq<char>, KeyMarks>,
    origin: Seq<char>,
    sequence: u64,
    fresh: bool,
    after: KeyMarks,
) -> Map<Seq<char>, KeyMarks> {
    if sequence == 0 {
        keys
    } else if fresh {
        keys.insert(origin, after)
    } else {
        keys.insert(origin, key_marks_of(keys, origin))
    }
}

/// The table after a key transition of `origin`.
pub open spec fn keys_after_key(
    keys: Map<Seq<char>, KeyMarks>,
    origin: Seq<char>,
    key_code: u16,
    sequence: u64,
) -> Map<Seq<char>, KeyMarks> {
    let marks = key_marks_of(keys, origin);
    keys_after_frame(
        keys,
        origin,
        sequence,
        key_is_fresh(marks, key_code, sequence),
        marks_after_key(marks, key_code, sequence),
    )
}

/// The table after a session boundary of `origin`.
pub open spec fn keys_after_boundary(
    keys: Map<Seq<char>, KeyMarks>,
    origin: Seq<char>,
    sequence: u64,
) -> Map<Seq<char>, KeyMarks> {
    let marks = key_marks_of(keys, origin);
    keys_after_frame(
        keys,
        origin,
        sequence,
        boundary_is_fresh(marks, sequence),
        marks_after_boundary(marks, sequence),
    )
}

/// The table after a modifier snapshot of `origin`.
pub open spec fn keys_after_snapshot(
    keys: Map<Seq<char>, KeyMarks>,
    origin: Seq<char>,
    sequence: u64,
) -> Map<Seq<char>, KeyMarks> {
    let marks = key_marks_of(keys, origin);
    keys_after_frame(
        keys,
        origin,
        sequence,
        snapshot_is_fresh(marks, sequence),
        marks_after_snapshot(marks, sequence),
    )
}

pub struct RemoteKeySequenceState {
    pub by_origin: OriginMap<RemoteOriginKeySequenceState>,
}

impl View for RemoteKeySequenceState {
    type V = Map<Seq<char>, KeyMarks>;

    open spec fn view(&self) -> Map<Seq<char>, KeyMarks> {
        self.by_origin@.map_values(|state: RemoteOriginKeySequenceState| state@)
    }
}

impl Default for RemoteKeySequenceState {
    fn default() -> (state: Self)
        ensures
            state@ == Map::<Seq<char>, KeyMarks>::empty(),
    {
        let state = RemoteKeySequenceState { by_origin: OriginMap::new() };
        assert(state@ =~= Map::empty());
        state
    }
}

impl RemoteKeySequenceState {
    fn take(&mut self, origin_id: &str) -> (state: RemoteOriginKeySequenceState)
        ensures
            state@ == key_marks_of(old(self)@, origin_id@),
            final(self)@ == old(self)@.remove(origin_id@),
    {
        let ghost before = self.by_origin@;
        let taken = self.by_origin.remove(origin_id);
        proof {
            assert(self@ =~= before.map_values(
                |state: RemoteOriginKeySequenceState| state@,
            ).remove(origin_id@));
        }
        match taken {
            Some(state) => state,
            None => RemoteOriginKeySequenceState::default(),
        }
    }

    fn put(&mut self, origin_id: &str, state: RemoteOriginKeySequenceState)
        ensures
            final(self)@ == old(self)@.insert(origin_id@, state@),
    {
        let ghost before = self.by_origin@;
        self.by_origin.insert(origin_id, state);
        proof {
            assert(self@ =~= before.map_values(
                |state: RemoteOriginKeySequenceState| state@,
            ).insert(origin_id@, state@));
        }
    }

    /// Decides whether a key transition may be applied and records it.
    pub fn accept_key(&mut self, origin_id: &str, key_code: u16, sequence: u64) -> (accepted: bool)
        ensures
            accepted == (sequence == 0 || key_is_fresh(
                key_marks_of(old(self)@, origin_id@),
                key_code,
                sequence,
            )),
            final(self)@ == keys_after_key(old(self)@, origin_id@, key_code, sequence),
    {
        if sequence == 0 {
            return true;
        }
        let ghost before = self@;
        let mut state = self.take(origin_id);
        let is_modifier = modifier_mask_for_key(key_code).is_some();
        let key = remote_semantic_key(key_code);
        let last: u64 = match state.last_by_key.get(&key) {
            Some(last) => *last,
            None => 0,
        };
        let stale = sequence <= state.boundary_sequence || sequence <= last || (is_modifier
            && sequence <= state.snapshot_sequence);
        if !stale {
            state.last_by_key.insert(key, sequence);
            if sequence > state.latest_event_sequence {
                state.latest_event_sequence = sequence;
            }
        }
        self.put(origin_id, state);
        proof {
            let marks = key_marks_of(before, origin_id@);
            if stale {
                assert(state@ =~= marks);
            } else {
                assert(state@ =~= marks_after_key(marks, key_code, sequence));
            }
            assert(before.remove(origin_id@).insert(origin_id@, state@) =~= before.insert(
                origin_id@,
                state@,
            ));
        }
        !stale
    }

    /// Decides whether a session boundary may be applied and records it.
    pub fn accept_boundary(&mut self, origin_id: &str, sequence: u64) -> (accepted: bool)
        ensures
            accepted == (sequence == 0 || boundary_is_fresh(
                key_marks_of(old(self)@, origin_id@),
                sequence,
            )),
            final(self)@ == keys_after_boundary(old(self)@, origin_id@, sequence),
    {
        if sequence == 0 {
            return true;
        }
        let ghost before = self@;
        let mut state = self.take(origin_id);
        let stale = sequence <= state.boundary_sequence || sequence <= state.latest_event_sequence;
        if !stale {
            state.boundary_sequence = sequence;
            state.latest_event_sequence = sequence;
        }
        self.put(origin_id, state);
        proof {
            let marks = key_marks_of(before, origin_id@);
            if stale {
                assert(state@ =~= marks);
            } else {
                assert(state@ =~= marks_after_boundary(marks, sequence));
            }
            assert(before.remove(origin_id@).insert(origin_id@, state@) =~= before.insert(
                origin_id@,
                state@,
            ));
        }
        !stale
    }

    /// Decides whether a modifier snapshot may be applied and records it.
    pub fn accept_snapshot(&mut self, origin_id: &str, sequence: u64) -> (accepted: bool)
        ensures
            accepted == (sequence == 0 || snapshot_is_fresh(
                key_marks_of(old(self)@, origin_id@),
                sequence,
            )),
            final(self)@ == keys_after_snapshot(old(self)@, origin_id@, sequence),
    {
        if sequence == 0 {
            return true;
        }
        let ghost before = self@;
        let mut state = self.take(origin_id);
        let stale = sequence <= state.boundary_sequence || sequence <= state.snapshot_sequence;
        if !stale {
            state.snapshot_sequence = sequence;
            if sequence > state.latest_event_sequence {
                state.latest_event_sequence = sequence;
            }
        }
        self.put(origin_id, state);
        proof {
            let marks = key_marks_of(before, origin_id@);
            if stale {
                assert(state@ =~= marks);
            } else {
                assert(state@ =~= marks_after_snapshot(marks, sequence));
            }
            assert(before.remove(origin_id@).insert(origin_id@, state@) =~= before.insert(
                origin_id@,
                state@,
            ));
        }
        !stale
    }

    /// Ends the session of `origin_id`: everything accepted so far moves
    /// behind its boundary.
    pub fn close_origin(&mut self, origin_id: &str)
        ensures
            final(self)@ == keys_after_close(old(self)@, origin_id@),
    {
        let ghost before = self@;
        let ghost raw = self.by_origin@;
        match self.by_origin.remove(origin_id) {
            Some(mut state) => {
                if state.latest_event_sequence > state.boundary_sequence {
                    state.boundary_sequence = state.latest_event_sequence;
                }
                self.by_origin.insert(origin_id, state);
                proof {
                    assert(before[origin_id@] == raw[origin_id@]@);
                    assert(state@ =~= marks_after_close(before[origin_id@]));
                    assert(self@ =~= before.insert(origin_id@, state@));
                }
            },
            None => {
                assert(self@ =~= before);
            },
        }
    }
}

pub open spec fn marks_after_close(marks: KeyMarks) -> KeyMarks {
    KeyMarks { boundary: larger(marks.boundary, marks.latest), ..marks }
}

/// The table after the session of `origin` was closed.
pub open spec fn keys_after_close(
    keys: Map<Seq<char>, KeyMarks>,
    origin: Seq<char>,
) -> Map<Seq<char>, KeyMarks> {
    if keys.contains_key(origin) {
        keys.insert(origin, marks_after_close(keys[origin]))
    } else {
        keys
    }
}

/// No mark of `after` lies below its counterpart in `before`.
pub open spec fn key_marks_advance(before: KeyMarks, after: KeyMarks) -> bool {
    &&& before.boundary <= after.boundary
    &&& before.latest <= after.latest
    &&& before.snapshot <= after.snapshot
    &&& forall|key_code: u16| #[trigger]
        last_of_key(before, key_code) <= last_of_key(after, key_code)
}

/// Marks never move backwards, whatever frame arrives.
pub proof fn law_key_marks_never_regress(
    keys: Map<Seq<char>, KeyMarks>,
    origin: Seq<char>,
    other: Seq<char>,
    key_code: u16,
    sequence: u64,
)
    ensures
        key_marks_advance(
            key_marks_of(keys, other),
            key_marks_of(keys_after_key(keys, origin, key_code, sequence), other),
        ),
        key_marks_advance(
            key_marks_of(keys, other),
            key_marks_of(keys_after_boundary(keys, origin, sequence), other),
        ),
        key_marks_advance(
            key_marks_of(keys, other),
            key_marks_of(keys_after_snapshot(keys, origin, sequence), other),
        ),
        key_marks_advance(
            key_marks_of(keys, other),
            key_marks_of(keys_after_close(keys, origin), other),
        ),
{
    assert forall|other_key: u16| #[trigger]
        last_of_key(key_marks_of(keys, other), other_key) <= last_of_key(
            key_marks_of(keys_after_key(keys, origin, key_code, sequence), other),
            other_key,
        ) by {}
}

/// A frame of one origin leaves the marks of every other origin alone.
pub proof fn law_key_marks_are_per_origin(
    keys: Map<Seq<char>, KeyMarks>,
    origin: Seq<char>,
    other: Seq<char>,
    key_code: u16,
    sequence: u64,
)
    requires
        origin != other,
    ensures
        key_marks_of(keys_after_key(keys, origin, key_code, sequence), other) == key_marks_of(
            keys,
            other,
        ),
        key_marks_of(keys_after_boundary(keys, origin, sequence), other) == key_marks_of(
            keys,
            other,
        ),
        key_marks_of(keys_after_snapshot(keys, origin, sequence), other) == key_marks_of(
            keys,
            other,
        ),
        key_marks_of(keys_after_close(keys, origin), other) == key_marks_of(keys, other),
{
}

/// A numbered key transition is accepted at most once: neither the same nor an
/// older number of that semantic key passes afterwards.
pub proof fn law_replayed_keys_are_rejected(
    keys: Map<Seq<char>, KeyMarks>,
    origin: Seq<char>,
    key_code: u16,
    sequence: u64,
    later_key: u16,
    later_sequence: u64,
)
    requires
        key_is_fresh(key_marks_of(keys, origin), key_code, sequence),
        semantic_key(later_key) == semantic_key(key_code),
        later_sequence <= sequence,
    ensures
        !key_is_fresh(
            key_marks_of(keys_after_key(keys, origin, key_code, sequence), origin),
            later_key,
            later_sequence,
        ),
{
}

/// Nothing numbered up to an accepted boundary passes afterwards, and a key
/// numbered beyond both the boundary and the earlier marks does.
pub proof fn law_boundary_blocks_older_keys(
    keys: Map<Seq<char>, KeyMarks>,
    origin: Seq<char>,
    sequence: u64,
    key_code: u16,
    later_sequence: u64,
)
    requires
        boundary_is_fresh(key_marks_of(keys, origin), sequence),
    ensures
        later_sequence <= sequence ==> !key_is_fresh(
            key_marks_of(keys_after_boundary(keys, origin, sequence), origin),
            key_code,
            later_sequence,
        ),
        later_sequence > sequence && key_is_fresh(
            key_marks_of(keys, origin),
            key_code,
            later_sequence,
        ) ==> key_is_fresh(
            key_marks_of(keys_after_boundary(keys, origin, sequence), origin),
            key_code,
            later_sequence,
        ),
{
}

/// An accepted snapshot blocks older modifier transitions and no plain key.
pub proof fn law_snapshot_blocks_only_modifiers(
    keys: Map<Seq<char>, KeyMarks>,
    origin: Seq<char>,
    sequence: u64,
    key_code: u16,
    later_sequence: u64,
)
    requires
        snapshot_is_fresh(key_marks_of(keys, origin), sequence),
    ensures
        modifier_family(key_code) is Some && later_sequence <= sequence ==> !key_is_fresh(
            key_marks_of(keys_after_snapshot(keys, origin, sequence), origin),
            key_code,
            later_sequence,
        ),
        modifier_family(key_code) is None ==> key_is_fresh(
            key_marks_of(keys_after_snapshot(keys, origin, sequence), origin),
            key_code,
            later_sequence,
        ) == key_is_fresh(key_marks_of(keys, origin), key_code, later_sequence),
{
}

/// One report about an origin.
pub enum KeyFrame {
    Key { key_code: u16, sequence: u64 },
    Boundary { sequence: u64 },
    Snapshot { sequence: u64 },
    Close,
}

/// The table after one report.
pub open spec fn keys_after_report(
    keys: Map<Seq<char>, KeyMarks>,
    origin: Seq<char>,
    frame: KeyFrame,
) -> Map<Seq<char>, KeyMarks> {
    match frame {
        KeyFrame::Key { key_code, sequence } => keys_after_key(keys, origin, key_code, sequence),
        KeyFrame::Boundary { sequence } => keys_after_boundary(keys, origin, sequence),
        KeyFrame::Snapshot { sequence } => keys_after_snapshot(keys, origin, sequence),
        KeyFrame::Close => keys_after_close(keys, origin),
    }
}

/// The table that reports lead to from an empty one.
pub open spec fn keys_after_history(history: Seq<(Seq<char>, KeyFrame)>) -> Map<
    Seq<char>,
    KeyMarks,
>
    decreases history.len(),
{
    if history.len() == 0 {
        Map::empty()
    } else {
        keys_after_report(
            keys_after_history(history.drop_last()),
            history.last().0,
            history.last().1,
        )
    }
}

/// No mark lies beyond the latest accepted frame.
pub open spec fn within_latest(marks: KeyMarks) -> bool {
    &&& marks.boundary <= marks.latest
    &&& marks.snapshot <= marks.latest
    &&& forall|key_code: u16| #[trigger] last_of_key(marks, key_code) <= marks.latest
}

/// Whatever was reported, no mark of any origin lies beyond its latest accepted
/// frame.
pub proof fn law_marks_stay_within_the_latest(
    history: Seq<(Seq<char>, KeyFrame)>,
    origin: Seq<char>,
)
    ensures
        within_latest(key_marks_of(keys_after_history(history), origin)),
    decreases history.len(),
{
    if history.len() > 0 {
        law_marks_stay_within_the_latest(history.drop_last(), origin);
        let before = key_marks_of(keys_after_history(history.drop_last()), origin);
        let after = key_marks_of(keys_after_history(history), origin);
        assert forall|key_code: u16| #[trigger] last_of_key(after, key_code) <= after.latest by {
            assert(last_of_key(before, key_code) <= before.latest);
        }
    }
}

/// Whatever was reported before, an accepted boundary divides the numbers of
/// its origin: no key, boundary or snapshot at or below it passes afterwards,
/// and every one above it does.
pub proof fn law_boundary_divides_the_sequence(
    history: Seq<(Seq<char>, KeyFrame)>,
    origin: Seq<char>,
    sequence: u64,
    key_code: u16,
    later_sequence: u64,
)
    requires
        boundary_is_fresh(key_marks_of(keys_after_history(history), origin), sequence),
    ensures
        ({
            let after = key_marks_of(
                keys_after_boundary(keys_after_history(history), origin, sequence),
                origin,
            );
            &&& key_is_fresh(after, key_code, later_sequence) == (later_sequence > sequence)
            &&& boundary_is_fresh(after, later_sequence) == (later_sequence > sequence)
            &&& snapshot_is_fresh(after, later_sequence) == (later_sequence > sequence)
        }),
{
    law_marks_stay_within_the_latest(history, origin);
    let before = key_marks_of(keys_after_history(history), origin);
    let after = key_marks_of(
        keys_after_boundary(keys_after_history(history), origin, sequence),
        origin,
    );
    assert(last_of_key(after, key_code) == last_of_key(before, key_code));
}

/// Two keys are ordered by the same number exactly where they are the same key
/// or two variants of one modifier.
pub proof fn law_variants_of_a_modifier_share_their_order(left: u16, right: u16)
    ensures
        semantic_key(left) == semantic_key(right) <==> left == right || (modifier_family(left)
            is Some && modifier_family(left) == modifier_family(right)),
        modifier_family(semantic_key(left)) == modifier_family(left),
{
}

/// A key of an unknown origin passes with any number; zero is no number.
pub proof fn law_first_frames_pass(
    keys: Map<Seq<char>, KeyMarks>,
    origin: Seq<char>,
    key_code: u16,
    sequence: u64,
)
    requires
        !keys.contains_key(origin),
    ensures
        key_is_fresh(key_marks_of(keys, origin), key_code, sequence) <==> sequence > 0,
        boundary_is_fresh(key_marks_of(keys, origin), sequence) <==> sequence > 0,
        snapshot_is_fresh(key_marks_of(keys, origin), sequence) <==> sequence > 0,
        keys_after_key(keys, origin, key_code, 0) == keys,
{
}

/// After the session of an origin was closed, nothing that was numbered up to
/// its latest frame passes.
pub proof fn law_closed_sessions_stay_closed(
    keys: Map<Seq<char>, KeyMarks>,
    origin: Seq<char>,
    key_code: u16,
    sequence: u64,
)
    requires
        keys.contains_key(origin),
        sequence <= keys[origin].latest || sequence <= keys[origin].boundary,
    ensures
        ({
            let after = key_marks_of(keys_after_close(keys, origin), origin);
            &&& !key_is_fresh(after, key_code, sequence)
            &&& !boundary_is_fresh(after, sequence)
            &&& !snapshot_is_fresh(after, sequence)
        }),
{
}

/// A newer key of another kind is not held up by one that was accepted before.
pub proof fn law_keys_do_not_hold_each_other_up(
    keys: Map<Seq<char>, KeyMarks>,
    origin: Seq<char>,
    key_code: u16,
    sequence: u64,
    other_key: u16,
    other_sequence: u64,
)
    requires
        sequence > 0,
        semantic_key(key_code) != semantic_key(other_key),
    ensures
        key_is_fresh(
            key_marks_of(keys_after_key(keys, origin, key_code, sequence), origin),
            other_key,
            other_sequence,
        ) == key_is_fresh(key_marks_of(keys, origin), other_key, other_sequence),
{
}

/// A numbered snapshot or boundary is accepted at most once: neither the same
/// nor an older number of it passes afterwards, and a snapshot above both the
/// boundary and the last snapshot does.
pub proof fn law_replayed_snapshots_are_rejected(
    keys: Map<Seq<char>, KeyMarks>,
    origin: Seq<char>,
    sequence: u64,
    later_sequence: u64,
)
    requires
        sequence > 0,
    ensures
        snapshot_is_fresh(key_marks_of(keys, origin), sequence) ==> (snapshot_is_fresh(
            key_marks_of(keys_after_snapshot(keys, origin, sequence), origin),
            later_sequence,
        ) <==> later_sequence > sequence),
        boundary_is_fresh(key_marks_of(keys, origin), sequence) ==> (boundary_is_fresh(
            key_marks_of(keys_after_boundary(keys, origin, sequence), origin),
            later_sequence,
        ) <==> later_sequence > sequence),
        !snapshot_is_fresh(key_marks_of(keys, origin), sequence) ==> sequence <= key_marks_of(
            keys,
            origin,
        ).boundary || sequence <= key_marks_of(keys, origin).snapshot,
{
}

/// A key is newer than what it has to follow exactly where its number is above
/// the boundary, above the last of its own and, for a modifier, above the last
/// snapshot.
pub proof fn law_keys_follow_their_marks(
    keys: Map<Seq<char>, KeyMarks>,
    origin: Seq<char>,
    key_code: u16,
    sequence: u64,
    later_sequence: u64,
)
    requires
        key_is_fresh(key_marks_of(keys, origin), key_code, sequence),
        later_sequence > sequence,
    ensures
        key_is_fresh(key_marks_of(keys, origin), key_code, later_sequence),
        key_is_fresh(
            key_marks_of(keys_after_key(keys, origin, key_code, sequence), origin),
            key_code,
            later_sequence,
        ),
        sequence > key_marks_of(keys, origin).boundary,
        modifier_family(key_code) is Some ==> sequence > key_marks_of(keys, origin).snapshot,
{
}

} // verus!
