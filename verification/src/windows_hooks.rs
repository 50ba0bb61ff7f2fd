//! The Windows low level hooks: what each callback does with an event, and how
//! events are queued for the worker that sends them.

use vstd::prelude::*;

verus! {

pub const WM_KEYDOWN: u32 = 0x0100;

pub const WM_KEYUP: u32 = 0x0101;

pub const WM_SYSKEYDOWN: u32 = 0x0104;

pub const WM_SYSKEYUP: u32 = 0x0105;

pub const WM_MOUSEMOVE: u32 = 0x0200;

pub const WM_LBUTTONDOWN: u32 = 0x0201;

pub const WM_LBUTTONUP: u32 = 0x0202;

pub const WM_RBUTTONDOWN: u32 = 0x0204;

pub const WM_RBUTTONUP: u32 = 0x0205;

pub const WM_MBUTTONDOWN: u32 = 0x0207;

pub const WM_MBUTTONUP: u32 = 0x0208;

pub const WM_MOUSEWHEEL: u32 = 0x020A;

pub const WM_MOUSEHWHEEL: u32 = 0x020E;

/// The most pointer positions that wait for the worker.
pub const PENDING_MOVES_CAPACITY: usize = 32;

/// How long the hooks may be silent, in milliseconds, while the system sees
/// input.
pub const HOOK_STALE_MS: u64 = 3000;

/// How often, in milliseconds, the blank cursor cover is raised again.
pub const HIDER_REASSERT_MS: u64 = 500;

/// The bit of a modifier key and the bits of its family. A generic key stands
/// for the left one.
pub open spec fn family_bits(key_code: u16) -> Option<(u64, u64)> {
    if key_code == 0x10 || key_code == 0xA0 {
        Some((0x01, 0x03))
    } else if key_code == 0xA1 {
        Some((0x02, 0x03))
    } else if key_code == 0x11 || key_code == 0xA2 {
        Some((0x04, 0x0C))
    } else if key_code == 0xA3 {
        Some((0x08, 0x0C))
    } else if key_code == 0x12 || key_code == 0xA4 {
        Some((0x10, 0x30))
    } else if key_code == 0xA5 {
        Some((0x20, 0x30))
    } else if key_code == 0x5B {
        Some((0x40, 0xC0))
    } else if key_code == 0x5C {
        Some((0x80, 0xC0))
    } else {
        None
    }
}

pub fn windows_modifier_family_bits(key_code: u16) -> (bits: Option<(u64, u64)>)
    ensures
        bits == family_bits(key_code),
{
    match key_code {
        0x10 | 0xA0 => Some((0x01, 0x03)),
        0xA1 => Some((0x02, 0x03)),
        0x11 | 0xA2 => Some((0x04, 0x0C)),
        0xA3 => Some((0x08, 0x0C)),
        0x12 | 0xA4 => Some((0x10, 0x30)),
        0xA5 => Some((0x20, 0x30)),
        0x5B => Some((0x40, 0xC0)),
        0x5C => Some((0x80, 0xC0)),
        _ => None,
    }
}

/// The modifier bits after a key went down or up. The release of a generic key
/// releases its whole family.
pub open spec fn bits_after_key(bits: u64, key_code: u16, down: bool) -> u64 {
    match family_bits(key_code) {
        Some((bit, family)) => if down {
            bits | bit
        } else if 0x10 <= key_code <= 0x12 {
            bits & !family
        } else {
            bits & !bit
        },
        None => bits,
    }
}

pub fn update_windows_hook_modifier(bits: &mut u64, key_code: u16, down: bool)
    ensures
        *final(bits) == bits_after_key(*old(bits), key_code, down),
{
    if let Some((bit, family)) = windows_modifier_family_bits(key_code) {
        if down {
            *bits = *bits | bit;
        } else if 0x10 <= key_code && key_code <= 0x12 {
            *bits = *bits & !family;
        } else {
            *bits = *bits & !bit;
        }
    }
}

/// Forgets every modifier, as after the loss of the desktop or of the hooks.
pub fn clear_windows_hook_modifier_bits(bits: &mut u64)
    ensures
        *final(bits) == 0,
{
    *bits = 0;
}

/// `key` if its bit is set.
pub open spec fn key_of_bit(bits: u64, bit: u64, key: u16) -> Seq<u16> {
    if bits & bit != 0 {
        seq![key]
    } else {
        Seq::empty()
    }
}

/// The keys that modifier bits stand for.
pub open spec fn keys_of_bits(bits: u64) -> Seq<u16> {
    key_of_bit(bits, 0x01, 0xA0) + key_of_bit(bits, 0x02, 0xA1) + key_of_bit(bits, 0x04, 0xA2)
        + key_of_bit(bits, 0x08, 0xA3) + key_of_bit(bits, 0x10, 0xA4) + key_of_bit(
        bits,
        0x20,
        0xA5,
    ) + key_of_bit(bits, 0x40, 0x5B) + key_of_bit(bits, 0x80, 0x5C)
}

fn push_key_of_bit(bits: u64, bit: u64, key: u16, keys: &mut Vec<u16>)
    ensures
        final(keys)@ == old(keys)@ + key_of_bit(bits, bit, key),
{
    let ghost before = keys@;
    if bits & bit != 0 {
        keys.push(key);
    }
    assert(keys@ =~= before + key_of_bit(bits, bit, key));
}

pub fn windows_modifier_keys_from_bits(bits: u64) -> (keys: Vec<u16>)
    ensures
        keys@ == keys_of_bits(bits),
{
    let mut keys: Vec<u16> = Vec::new();
    push_key_of_bit(bits, 0x01, 0xA0, &mut keys);
    push_key_of_bit(bits, 0x02, 0xA1, &mut keys);
    push_key_of_bit(bits, 0x04, 0xA2, &mut keys);
    push_key_of_bit(bits, 0x08, 0xA3, &mut keys);
    push_key_of_bit(bits, 0x10, 0xA4, &mut keys);
    push_key_of_bit(bits, 0x20, 0xA5, &mut keys);
    push_key_of_bit(bits, 0x40, 0x5B, &mut keys);
    push_key_of_bit(bits, 0x80, 0x5C, &mut keys);
    assert(keys@ =~= keys_of_bits(bits));
    keys
}

/// The modifier bits of the given keys.
pub open spec fn bits_of_keys(keys: Seq<u16>) -> u64
    decreases keys.len(),
{
    if keys.len() == 0 {
        0
    } else {
        match family_bits(keys.last()) {
            Some((bit, _)) => bits_of_keys(keys.drop_last()) | bit,
            None => bits_of_keys(keys.drop_last()),
        }
    }
}

pub fn windows_modifier_bits_for_keys(keys: &[u16]) -> (bits: u64)
    ensures
        bits == bits_of_keys(keys@),
{
    let mut bits: u64 = 0;
    let mut index: usize = 0;
    assert(keys@.take(0) =~= Seq::<u16>::empty());
    while index < keys.len()
        invariant
            index <= keys@.len(),
            bits == bits_of_keys(keys@.take(index as int)),
        decreases keys@.len() - index,
    {
        proof {
            assert(keys@.take(index + 1).drop_last() =~= keys@.take(index as int));
        }
        if let Some((bit, _)) = windows_modifier_family_bits(keys[index]) {
            bits = bits | bit;
        }
        index += 1;
    }
    assert(keys@.take(keys@.len() as int) =~= keys@);
    bits
}

proof fn lemma_bits_of_appended(keys: Seq<u16>, bits: u64, bit: u64, key: u16)
    requires
        family_bits(key) matches Some((own, _)) && own == bit,
    ensures
        bits_of_keys(keys + key_of_bit(bits, bit, key)) == if bits & bit != 0 {
            bits_of_keys(keys) | bit
        } else {
            bits_of_keys(keys)
        },
{
    let longer = keys + key_of_bit(bits, bit, key);
    if bits & bit != 0 {
        assert(longer.drop_last() =~= keys);
        assert(longer.last() == key);
    } else {
        assert(longer =~= keys);
    }
}

/// Bits and keys say the same: the keys of modifier bits have those bits.
pub proof fn law_modifier_bits_round_trip(bits: u64)
    ensures
        bits_of_keys(keys_of_bits(bits)) == bits & 0xFF,
{
    let none = Seq::<u16>::empty();
    let a = none + key_of_bit(bits, 0x01, 0xA0);
    let b = a + key_of_bit(bits, 0x02, 0xA1);
    let c = b + key_of_bit(bits, 0x04, 0xA2);
    let d = c + key_of_bit(bits, 0x08, 0xA3);
    let e = d + key_of_bit(bits, 0x10, 0xA4);
    let f = e + key_of_bit(bits, 0x20, 0xA5);
    let g = f + key_of_bit(bits, 0x40, 0x5B);
    let h = g + key_of_bit(bits, 0x80, 0x5C);
    lemma_bits_of_appended(none, bits, 0x01, 0xA0);
    lemma_bits_of_appended(a, bits, 0x02, 0xA1);
    lemma_bits_of_appended(b, bits, 0x04, 0xA2);
    lemma_bits_of_appended(c, bits, 0x08, 0xA3);
    lemma_bits_of_appended(d, bits, 0x10, 0xA4);
    lemma_bits_of_appended(e, bits, 0x20, 0xA5);
    lemma_bits_of_appended(f, bits, 0x40, 0x5B);
    lemma_bits_of_appended(g, bits, 0x80, 0x5C);
    assert(h =~= keys_of_bits(bits));
    lemma_low_bits(
        bits,
        bits_of_keys(a),
        bits_of_keys(b),
        bits_of_keys(c),
        bits_of_keys(d),
        bits_of_keys(e),
        bits_of_keys(f),
        bits_of_keys(g),
        bits_of_keys(h),
    );
}

proof fn lemma_low_bits(
    bits: u64,
    a: u64,
    b: u64,
    c: u64,
    d: u64,
    e: u64,
    f: u64,
    g: u64,
    h: u64,
)
    by (bit_vector)
    requires
        a == if bits & 0x01 != 0 {
            0u64 | 0x01
        } else {
            0
        },
        b == if bits & 0x02 != 0 {
            a | 0x02
        } else {
            a
        },
        c == if bits & 0x04 != 0 {
            b | 0x04
        } else {
            b
        },
        d == if bits & 0x08 != 0 {
            c | 0x08
        } else {
            c
        },
        e == if bits & 0x10 != 0 {
            d | 0x10
        } else {
            d
        },
        f == if bits & 0x20 != 0 {
            e | 0x20
        } else {
            e
        },
        g == if bits & 0x40 != 0 {
            f | 0x40
        } else {
            f
        },
        h == if bits & 0x80 != 0 {
            g | 0x80
        } else {
            g
        },
    ensures
        h == bits & 0xFF,
{
}

/// A modifier that went up is no longer set, whichever name its release goes
/// by; other families are untouched.
pub proof fn law_released_modifiers_are_clear(bits: u64, key_code: u16)
    requires
        family_bits(key_code) is Some,
    ensures
        ({
            let (bit, family) = family_bits(key_code)->0;
            let after = bits_after_key(bits, key_code, false);
            &&& after & bit == 0
            &&& after & !family == bits & !family
        }),
{
    let (bit, family) = family_bits(key_code)->0;
    assert(bit & family == bit) by {
        assert(0x01u64 & 0x03 == 0x01 && 0x02u64 & 0x03 == 0x02 && 0x04u64 & 0x0C == 0x04 && 0x08u64
            & 0x0C == 0x08 && 0x10u64 & 0x30 == 0x10 && 0x20u64 & 0x30 == 0x20 && 0x40u64 & 0xC0
            == 0x40 && 0x80u64 & 0xC0 == 0x80) by (bit_vector);
    }
    let whole = bits & !family;
    let single = bits & !bit;
    assert(whole & bit == 0 && whole & !family == bits & !family && single & bit == 0 && single
        & !family == bits & !family) by (bit_vector)
        requires
            whole == bits & !family,
            single == bits & !bit,
            bit & family == bit,
    ;
}

/// One pointer position with the modifiers at its time.
#[derive(Debug, Clone, Copy, PartialEq, Eq, Structural)]
pub struct WindowsMouseMoveSnapshot {
    pub x: i32,
    pub y: i32,
    pub modifier_bits: u64,
}

/// The pointer positions that wait for the worker.
#[derive(Debug, PartialEq, Eq)]
pub struct WindowsPendingMouseMoves {
    pub snapshots: Vec<WindowsMouseMoveSnapshot>,
}

/// The queue after one more position: a repeated point replaces the last one,
/// and a full queue gives up its oldest.
pub open spec fn queue_after(
    queue: Seq<WindowsMouseMoveSnapshot>,
    snapshot: WindowsMouseMoveSnapshot,
) -> Seq<WindowsMouseMoveSnapshot> {
    if queue.len() > 0 && queue.last().x == snapshot.x && queue.last().y == snapshot.y {
        queue.drop_last().push(snapshot)
    } else if queue.len() == PENDING_MOVES_CAPACITY {
        queue.skip(1).push(snapshot)
    } else {
        queue.push(snapshot)
    }
}

/// Whether a position is given up for the new one.
pub open spec fn drops_oldest(
    queue: Seq<WindowsMouseMoveSnapshot>,
    snapshot: WindowsMouseMoveSnapshot,
) -> bool {
    &&& queue.len() == PENDING_MOVES_CAPACITY
    &&& !(queue.last().x == snapshot.x && queue.last().y == snapshot.y)
}

impl Default for WindowsPendingMouseMoves {
    fn default() -> (pending: Self)
        ensures
            pending.snapshots@.len() == 0,
    {
        WindowsPendingMouseMoves { snapshots: Vec::new() }
    }
}

impl WindowsPendingMouseMoves {
    /// Adds a position; says whether the oldest was given up for it.
    pub fn push(&mut self, snapshot: WindowsMouseMoveSnapshot) -> (dropped: bool)
        ensures
            final(self).snapshots@ == queue_after(old(self).snapshots@, snapshot),
            dropped == drops_oldest(old(self).snapshots@, snapshot),
    {
        let count: usize = self.snapshots.len();
        if count > 0 {
            let last = self.snapshots[count - 1];
            if last.x == snapshot.x && last.y == snapshot.y {
                self.snapshots.set(count - 1, snapshot);
                assert(self.snapshots@ =~= queue_after(old(self).snapshots@, snapshot));
                return false;
            }
        }
        let dropped = count == PENDING_MOVES_CAPACITY;
        if dropped {
            let _ = self.snapshots.remove(0);
        }
        self.snapshots.push(snapshot);
        assert(self.snapshots@ =~= queue_after(old(self).snapshots@, snapshot));
        dropped
    }

    /// Takes every waiting position, oldest first.
    pub fn drain(&mut self) -> (snapshots: Vec<WindowsMouseMoveSnapshot>)
        ensures
            snapshots@ == old(self).snapshots@,
            final(self).snapshots@.len() == 0,
    {
        let mut snapshots: Vec<WindowsMouseMoveSnapshot> = Vec::new();
        snapshots.append(&mut self.snapshots);
        assert(snapshots@ =~= old(self).snapshots@);
        snapshots
    }
}

/// The queue stays within its bound, and the newest position is always in it,
/// last.
pub proof fn law_pending_moves_stay_bounded(
    queue: Seq<WindowsMouseMoveSnapshot>,
    snapshot: WindowsMouseMoveSnapshot,
)
    requires
        queue.len() <= PENDING_MOVES_CAPACITY,
    ensures
        0 < queue_after(queue, snapshot).len() <= PENDING_MOVES_CAPACITY,
        queue_after(queue, snapshot).last() == snapshot,
{
}

/// An event that a hook hands to the worker.
#[derive(Debug, Clone, Copy, PartialEq, Eq, Structural)]
#[allow(inconsistent_fields)]
pub enum WindowsCapturedEvent {
    LocalMouseMoveReady,
    RemoteMouseDelta { dx: i64, dy: i64 },
    MouseButton { message: u32, modifier_bits: u64 },
    Scroll { message: u32, mouse_data: u32, modifier_bits: u64 },
    Key { key_code: u16, down: bool, modifier_bits: u64 },
    ModifierSnapshot { modifier_bits: u64 },
    Release,
    Shutdown,
}

/// Two movements point in opposite directions.
pub open spec fn reverses(total: i64, delta: i64) -> bool {
    (total > 0 && delta < 0) || (total < 0 && delta > 0)
}

/// The sum as far as it can be represented.
pub open spec fn saturated_sum(left: i64, right: i64) -> i64 {
    if left + right > i64::MAX {
        i64::MAX
    } else if left + right < i64::MIN {
        i64::MIN
    } else {
        (left + right) as i64
    }
}

fn saturating_sum(left: i64, right: i64) -> (sum: i64)
    ensures
        sum == saturated_sum(left, right),
{
    match left.checked_add(right) {
        Some(sum) => sum,
        None => {
            if right > 0 {
                i64::MAX
            } else {
                i64::MIN
            }
        },
    }
}

/// The event can be joined with the movement so far.
pub open spec fn joins(total: (i64, i64), event: WindowsCapturedEvent) -> bool {
    event matches WindowsCapturedEvent::RemoteMouseDelta { dx, dy } && !reverses(total.0, dx)
        && !reverses(total.1, dy)
}

/// Joins a movement with the next event if that is a movement too. A turn is a
/// boundary: joined with the way back, a push over the edge would vanish.
pub fn accumulate_windows_delta(total: &mut (i64, i64), event: &WindowsCapturedEvent) -> (joined:
    bool)
    ensures
        joined == joins(*old(total), *event),
        match *event {
            WindowsCapturedEvent::RemoteMouseDelta { dx, dy } if joined => *final(total) == (
                saturated_sum(old(total).0, dx),
                saturated_sum(old(total).1, dy),
            ),
            _ => *final(total) == *old(total),
        },
{
    match event {
        WindowsCapturedEvent::RemoteMouseDelta { dx, dy } => {
            let (x, y) = *total;
            if (x > 0 && *dx < 0) || (x < 0 && *dx > 0) || (y > 0 && *dy < 0) || (y < 0 && *dy
                > 0) {
                return false;
            }
            *total = (saturating_sum(x, *dx), saturating_sum(y, *dy));
            true
        },
        _ => false,
    }
}

/// Joining never turns a movement around or cancels it.
pub proof fn law_batches_keep_their_direction(total: (i64, i64), dx: i64, dy: i64)
    requires
        joins(total, (WindowsCapturedEvent::RemoteMouseDelta { dx, dy })),
    ensures
        total.0 > 0 ==> saturated_sum(total.0, dx) > 0,
        total.0 < 0 ==> saturated_sum(total.0, dx) < 0,
        total.1 > 0 ==> saturated_sum(total.1, dy) > 0,
        total.1 < 0 ==> saturated_sum(total.1, dy) < 0,
{
}

/// Where the pointer is held while another machine is controlled, and what is
/// known of the warp to that point. The cutoff is the 32 bit tick of the warp
/// plus one; zero means that none is awaited.
#[derive(Debug, Clone, Copy, PartialEq, Eq, Structural)]
pub struct WindowsAnchor {
    pub x: i32,
    pub y: i32,
    pub source_x: i32,
    pub source_y: i32,
    pub warp_cutoff: u64,
}

pub open spec fn no_anchor() -> WindowsAnchor {
    WindowsAnchor { x: 0, y: 0, source_x: 0, source_y: 0, warp_cutoff: 0 }
}

pub fn clear_windows_remote_anchor(anchor: &mut WindowsAnchor)
    ensures
        *final(anchor) == no_anchor(),
{
    *anchor = WindowsAnchor { x: 0, y: 0, source_x: 0, source_y: 0, warp_cutoff: 0 };
}

/// The point to hold the pointer at: the preferred one while the cover hides
/// the pointer there, else the one at the entered edge.
pub fn set_windows_remote_anchor(
    anchor: &mut WindowsAnchor,
    preferred: (i32, i32),
    edge: (i32, i32),
    covered: bool,
    pointer: Option<(i32, i32)>,
)
    ensures
        ({
            let point = if covered {
                preferred
            } else {
                edge
            };
            let source = match pointer {
                Some(source) => source,
                None => point,
            };
            *final(anchor) == (WindowsAnchor {
                x: point.0,
                y: point.1,
                source_x: source.0,
                source_y: source.1,
                ..*old(anchor)
            })
        }),
{
    let point = if covered {
        preferred
    } else {
        edge
    };
    anchor.x = point.0;
    anchor.y = point.1;
    let source = match pointer {
        Some(source) => source,
        None => point,
    };
    anchor.source_x = source.0;
    anchor.source_y = source.1;
}

/// Awaits the events of a warp that happened at the given tick.
pub fn arm_windows_warp(anchor: &mut WindowsAnchor, tick: u32)
    ensures
        *final(anchor) == (WindowsAnchor { warp_cutoff: (tick + 1) as u64, ..*old(anchor) }),
{
    anchor.warp_cutoff = tick as u64 + 1;
}

/// What tells the events of a warp from movements of the hand.
#[derive(Debug, Clone, Copy, PartialEq, Eq)]
pub struct WindowsWarpGuard {
    pub ignore_through_sequence: Option<u32>,
    pub source: Option<(i32, i32)>,
}

impl Default for WindowsWarpGuard {
    fn default() -> (guard: Self)
        ensures
            guard == (WindowsWarpGuard { ignore_through_sequence: None, source: None }),
    {
        WindowsWarpGuard { ignore_through_sequence: None, source: None }
    }
}

/// `tick` lies before the cutoff, in 32 bit tick arithmetic.
pub open spec fn tick_before(tick: u32, cutoff: u32) -> bool {
    (tick - cutoff) % 0x1_0000_0000 >= 0x8000_0000
}

/// The squared distance of two points.
pub open spec fn squared_distance(x: i32, y: i32, point: (i32, i32)) -> int {
    (x - point.0) * (x - point.0) + (y - point.1) * (y - point.1)
}

/// The event is a leftover of the warp: older than it, or of the same tick and
/// nearer to where the pointer came from than to the anchor, or at the anchor.
pub open spec fn warp_leftover(
    guard: WindowsWarpGuard,
    tick: u32,
    x: i32,
    y: i32,
    anchor: (i32, i32),
) -> bool {
    ||| guard.ignore_through_sequence matches Some(cutoff) && tick_before(tick, cutoff)
    ||| guard.ignore_through_sequence == Some(tick) && (guard.source matches Some(source)
        && squared_distance(x, y, source) < squared_distance(x, y, anchor))
    ||| x == anchor.0 && y == anchor.1
}

fn distance(x: i32, y: i32, point: (i32, i32)) -> (squared: i128)
    ensures
        squared == squared_distance(x, y, point),
{
    let dx: i128 = x as i128 - point.0 as i128;
    let dy: i128 = y as i128 - point.1 as i128;
    assert(0 <= dx * dx <= 0x1_0000_0000 * 0x1_0000_0000) by (nonlinear_arith)
        requires
            -0x1_0000_0000 <= dx <= 0x1_0000_0000,
    ;
    assert(0 <= dy * dy <= 0x1_0000_0000 * 0x1_0000_0000) by (nonlinear_arith)
        requires
            -0x1_0000_0000 <= dy <= 0x1_0000_0000,
    ;
    dx * dx + dy * dy
}

impl WindowsWarpGuard {
    /// Awaits the events of a warp away from `source`.
    pub fn arm(&mut self, sequence: u64, source: (i32, i32))
        ensures
            *final(self) == (WindowsWarpGuard {
                ignore_through_sequence: Some((sequence % 0x1_0000_0000) as u32),
                source: Some(source),
            }),
    {
        self.ignore_through_sequence = Some((sequence % 0x1_0000_0000) as u32);
        self.source = Some(source);
    }

    /// Whether an event is a leftover of the warp.
    pub fn should_drop(&self, sequence: u64, x: i32, y: i32, anchor: (i32, i32)) -> (drop: bool)
        ensures
            drop == warp_leftover(*self, (sequence % 0x1_0000_0000) as u32, x, y, anchor),
    {
        let tick: u32 = (sequence % 0x1_0000_0000) as u32;
        if let Some(cutoff) = self.ignore_through_sequence {
            let relative: u32 = tick.wrapping_sub(cutoff);
            assert(relative == (tick - cutoff) % 0x1_0000_0000);
            if relative >= 0x8000_0000 {
                return true;
            }
            if relative == 0 {
                assert(tick == cutoff);
                if let Some(source) = self.source {
                    if distance(x, y, source) < distance(x, y, anchor) {
                        return true;
                    }
                }
            }
        }
        x == anchor.0 && y == anchor.1
    }
}

/// The guard that an anchor stands for.
pub open spec fn guard_of(anchor: WindowsAnchor) -> WindowsWarpGuard {
    if anchor.warp_cutoff == 0 {
        WindowsWarpGuard { ignore_through_sequence: None, source: None }
    } else {
        WindowsWarpGuard {
            ignore_through_sequence: Some(((anchor.warp_cutoff - 1) % 0x1_0000_0000) as u32),
            source: Some((anchor.source_x, anchor.source_y)),
        }
    }
}

/// The state that the hook callbacks share with the worker.
#[derive(Debug, PartialEq, Eq)]
pub struct HookState {
    pub modifier_bits: u64,
    pub anchor: WindowsAnchor,
    pub pending: WindowsPendingMouseMoves,
    pub move_notified: bool,
    pub dropped_moves: u64,
    pub release_notified: bool,
    pub warp_failures: u64,
    pub last_hook_ms: u64,
}

#[verifier::ext_equal]
pub struct HookView {
    pub modifier_bits: u64,
    pub anchor: WindowsAnchor,
    pub pending: Seq<WindowsMouseMoveSnapshot>,
    pub move_notified: bool,
    pub dropped_moves: u64,
    pub release_notified: bool,
    pub warp_failures: u64,
    pub last_hook_ms: u64,
}

impl View for HookState {
    type V = HookView;

    open spec fn view(&self) -> HookView {
        HookView {
            modifier_bits: self.modifier_bits,
            anchor: self.anchor,
            pending: self.pending.snapshots@,
            move_notified: self.move_notified,
            dropped_moves: self.dropped_moves,
            release_notified: self.release_notified,
            warp_failures: self.warp_failures,
            last_hook_ms: self.last_hook_ms,
        }
    }
}

pub open spec fn fresh_hooks() -> HookView {
    HookView {
        modifier_bits: 0,
        anchor: no_anchor(),
        pending: Seq::empty(),
        move_notified: false,
        dropped_moves: 0,
        release_notified: false,
        warp_failures: 0,
        last_hook_ms: 0,
    }
}

impl Default for HookState {
    fn default() -> (state: Self)
        ensures
            state@ == fresh_hooks(),
    {
        let state = HookState {
            modifier_bits: 0,
                anchor: WindowsAnchor { x: 0, y: 0, source_x: 0, source_y: 0, warp_cutoff: 0 },
            pending: WindowsPendingMouseMoves { snapshots: Vec::new() },
            move_notified: false,
            dropped_moves: 0,
            release_notified: false,
            warp_failures: 0,
            last_hook_ms: 0,
        };
        assert(state@ =~= fresh_hooks());
        state
    }
}

/// What a hook callback does next.
#[derive(Debug, Clone, Copy, PartialEq, Eq, Structural)]
#[allow(inconsistent_fields)]
pub enum HookStep {
    /// Let the event through.
    Pass,
    /// Let the event through and hand an event to the worker besides; where
    /// that fails, say so with `hook_notification_failed`.
    PassAndNotify(WindowsCapturedEvent),
    /// Keep the event from the system.
    Swallow,
    /// Warp the pointer to the anchor and go on with `finish_recenter`; the
    /// event is kept from the system.
    Recenter { x: i32, y: i32, dx: i64, dy: i64 },
    /// Hand the event to the worker; keep it from the system if that worked.
    Forward(WindowsCapturedEvent),
}

pub open spec fn counted_up(count: u64) -> u64 {
    if count == u64::MAX {
        0
    } else {
        (count + 1) as u64
    }
}

/// The hooks after a request to release control, and the step it takes: the
/// worker hears of it once.
pub open spec fn release_requested(state: HookView) -> (HookView, HookStep) {
    (
        HookView { release_notified: true, ..state },
        if state.release_notified {
            HookStep::Pass
        } else {
            HookStep::PassAndNotify(WindowsCapturedEvent::Release)
        },
    )
}

fn queue_windows_release_once(state: &mut HookState) -> (step: HookStep)
    ensures
        (final(state)@, step) == release_requested(old(state)@),
{
    let notified = state.release_notified;
    state.release_notified = true;
    if notified {
        HookStep::Pass
    } else {
        HookStep::PassAndNotify(WindowsCapturedEvent::Release)
    }
}

/// The hooks after a local movement, and the step it takes. While the worker
/// holds the queue the movement is lost, and counted.
pub open spec fn local_move_queued(
    state: HookView,
    snapshot: WindowsMouseMoveSnapshot,
    queue_busy: bool,
) -> (HookView, HookStep) {
    if queue_busy {
        (HookView { dropped_moves: counted_up(state.dropped_moves), ..state }, HookStep::Pass)
    } else {
        (
            HookView {
                pending: queue_after(state.pending, snapshot),
                dropped_moves: if drops_oldest(state.pending, snapshot) {
                    counted_up(state.dropped_moves)
                } else {
                    state.dropped_moves
                },
                move_notified: true,
                ..state
            },
            if state.move_notified {
                HookStep::Pass
            } else {
                HookStep::PassAndNotify(WindowsCapturedEvent::LocalMouseMoveReady)
            },
        )
    }
}

fn queue_windows_local_mouse_move(
    state: &mut HookState,
    snapshot: WindowsMouseMoveSnapshot,
    queue_busy: bool,
) -> (step: HookStep)
    ensures
        (final(state)@, step) == local_move_queued(old(state)@, snapshot, queue_busy),
{
    if queue_busy {
        state.dropped_moves = state.dropped_moves.wrapping_add(1);
        return HookStep::Pass;
    }
    if state.pending.push(snapshot) {
        state.dropped_moves = state.dropped_moves.wrapping_add(1);
    }
    let notified = state.move_notified;
    state.move_notified = true;
    if notified {
        HookStep::Pass
    } else {
        HookStep::PassAndNotify(WindowsCapturedEvent::LocalMouseMoveReady)
    }
}

/// Takes the waiting positions for the worker; the next one is announced again.
pub fn take_windows_local_mouse_move(state: &mut HookState) -> (snapshots: Vec<
    WindowsMouseMoveSnapshot,
>)
    ensures
        snapshots@ == old(state)@.pending,
        final(state)@ == (HookView {
            pending: Seq::empty(),
            move_notified: false,
            ..old(state)@
        }),
{
    let snapshots = state.pending.drain();
    state.move_notified = false;
    assert(state.pending.snapshots@ =~= Seq::<WindowsMouseMoveSnapshot>::empty());
    snapshots
}

/// An event could not be handed to the worker, so it may be announced again.
pub fn hook_notification_failed(state: &mut HookState, event: WindowsCapturedEvent)
    ensures
        final(state)@ == (match event {
            WindowsCapturedEvent::Release => HookView { release_notified: false, ..old(state)@ },
            WindowsCapturedEvent::LocalMouseMoveReady => HookView {
                move_notified: false,
                ..old(state)@
            },
            _ => old(state)@,
        }),
{
    match event {
        WindowsCapturedEvent::Release => {
            state.release_notified = false;
        },
        WindowsCapturedEvent::LocalMouseMoveReady => {
            state.move_notified = false;
        },
        _ => {},
    }
}

/// One mouse event as the hook receives it.
#[derive(Debug, Clone, Copy, PartialEq, Eq, Structural)]
pub struct MouseHookEvent {
    pub message: u32,
    pub x: i32,
    pub y: i32,
    pub mouse_data: u32,
    pub time: u32,
}

/// What surrounds a hook callback: the code of the call, the tick in
/// milliseconds, whether the input desktop is the normal one, whether capture
/// is being stopped, whether another machine is controlled, and whether the
/// queue of positions is taken.
#[derive(Debug, Clone, Copy, PartialEq, Eq, Structural)]
pub struct HookCall {
    pub code: i32,
    pub tick_ms: u64,
    pub desktop_is_default: bool,
    pub stopping: bool,
    pub remote_active: bool,
    pub queue_busy: bool,
}

pub open spec fn is_button_message(message: u32) -> bool {
    ||| message == WM_LBUTTONDOWN
    ||| message == WM_LBUTTONUP
    ||| message == WM_RBUTTONDOWN
    ||| message == WM_RBUTTONUP
    ||| message == WM_MBUTTONDOWN
    ||| message == WM_MBUTTONUP
}

pub open spec fn is_wheel_message(message: u32) -> bool {
    message == WM_MOUSEWHEEL || message == WM_MOUSEHWHEEL
}

/// What becomes of a movement while another machine is controlled.
pub open spec fn remote_move_step(state: HookView, event: MouseHookEvent) -> HookStep {
    let anchor = (state.anchor.x, state.anchor.y);
    if warp_leftover(guard_of(state.anchor), event.time, event.x, event.y, anchor) {
        HookStep::Swallow
    } else {
        HookStep::Recenter {
            x: state.anchor.x,
            y: state.anchor.y,
            dx: (event.x - state.anchor.x) as i64,
            dy: (event.y - state.anchor.y) as i64,
        }
    }
}

/// What becomes of a mouse event.
pub open spec fn mouse_hook_step(state: HookView, call: HookCall, event: MouseHookEvent) -> (
    HookView,
    HookStep,
) {
    let seen = HookView { last_hook_ms: call.tick_ms, ..state };
    if call.code < 0 {
        (state, HookStep::Pass)
    } else if !call.desktop_is_default {
        release_requested(seen)
    } else if call.stopping {
        (seen, HookStep::Pass)
    } else if event.message == WM_MOUSEMOVE {
        if !call.remote_active {
            local_move_queued(
                seen,
                WindowsMouseMoveSnapshot {
                    x: event.x,
                    y: event.y,
                    modifier_bits: state.modifier_bits,
                },
                call.queue_busy,
            )
        } else {
            (seen, remote_move_step(state, event))
        }
    } else if !call.remote_active {
        (seen, HookStep::Pass)
    } else if is_button_message(event.message) {
        (
            seen,
            HookStep::Forward(
                WindowsCapturedEvent::MouseButton {
                    message: event.message,
                    modifier_bits: state.modifier_bits,
                },
            ),
        )
    } else if is_wheel_message(event.message) {
        (
            seen,
            HookStep::Forward(
                WindowsCapturedEvent::Scroll {
                    message: event.message,
                    mouse_data: event.mouse_data,
                    modifier_bits: state.modifier_bits,
                },
            ),
        )
    } else {
        (seen, HookStep::Pass)
    }
}

/// The mouse hook. A movement on this machine is noted and let through. While
/// another machine is controlled, movements are measured from the anchor,
/// buttons and wheels are handed to the worker, and none of them reach this
/// machine.
pub fn windows_mouse_proc(state: &mut HookState, call: HookCall, event: MouseHookEvent) -> (step:
    HookStep)
    ensures
        (final(state)@, step) == mouse_hook_step(old(state)@, call, event),
{
    if call.code < 0 {
        return HookStep::Pass;
    }
    state.last_hook_ms = call.tick_ms;
    if !call.desktop_is_default {
        return queue_windows_release_once(state);
    }
    if call.stopping {
        return HookStep::Pass;
    }
    let modifier_bits: u64 = state.modifier_bits;
    if event.message == WM_MOUSEMOVE {
        if !call.remote_active {
            return queue_windows_local_mouse_move(
                state,
                WindowsMouseMoveSnapshot { x: event.x, y: event.y, modifier_bits },
                call.queue_busy,
            );
        }
        let guard = if state.anchor.warp_cutoff == 0 {
            WindowsWarpGuard { ignore_through_sequence: None, source: None }
        } else {
            WindowsWarpGuard {
                ignore_through_sequence: Some(
                    ((state.anchor.warp_cutoff - 1) % 0x1_0000_0000) as u32,
                ),
                source: Some((state.anchor.source_x, state.anchor.source_y)),
            }
        };
        if guard.should_drop(
            event.time as u64,
            event.x,
            event.y,
            (state.anchor.x, state.anchor.y),
        ) {
            return HookStep::Swallow;
        }
        return HookStep::Recenter {
            x: state.anchor.x,
            y: state.anchor.y,
            dx: event.x as i64 - state.anchor.x as i64,
            dy: event.y as i64 - state.anchor.y as i64,
        };
    }
    if !call.remote_active {
        return HookStep::Pass;
    }
    match event.message {
        WM_LBUTTONDOWN | WM_LBUTTONUP | WM_RBUTTONDOWN | WM_RBUTTONUP | WM_MBUTTONDOWN
        | WM_MBUTTONUP => HookStep::Forward(
            WindowsCapturedEvent::MouseButton { message: event.message, modifier_bits },
        ),
        WM_MOUSEWHEEL | WM_MOUSEHWHEEL => HookStep::Forward(
            WindowsCapturedEvent::Scroll {
                message: event.message,
                mouse_data: event.mouse_data,
                modifier_bits,
            },
        ),
        _ => HookStep::Pass,
    }
}

/// Goes on after the warp back to the anchor. The first movement of the hand
/// after an entry ends the wait for leftovers, and a movement is handed to the
/// worker if there was any.
pub fn finish_recenter(state: &mut HookState, warped: bool, dx: i64, dy: i64) -> (event: Option<
    WindowsCapturedEvent,
>)
    ensures
        final(state)@ == if warped {
            HookView {
                anchor: WindowsAnchor { warp_cutoff: 0, ..old(state)@.anchor },
                ..old(state)@
            }
        } else {
            HookView { warp_failures: counted_up(old(state)@.warp_failures), ..old(state)@ }
        },
        event == if dx != 0 || dy != 0 {
            Some(WindowsCapturedEvent::RemoteMouseDelta { dx, dy })
        } else {
            None
        },
{
    if warped {
        state.anchor.warp_cutoff = 0;
    } else {
        state.warp_failures = state.warp_failures.wrapping_add(1);
    }
    if dx != 0 || dy != 0 {
        Some(WindowsCapturedEvent::RemoteMouseDelta { dx, dy })
    } else {
        None
    }
}

pub open spec fn is_key_message(message: u32) -> bool {
    message == WM_KEYDOWN || message == WM_SYSKEYDOWN || message == WM_KEYUP || message
        == WM_SYSKEYUP
}

pub open spec fn is_key_down(message: u32) -> bool {
    message == WM_KEYDOWN || message == WM_SYSKEYDOWN
}

/// What becomes of a key event. The modifiers are followed whoever is
/// controlled.
pub open spec fn key_hook_step(state: HookView, call: HookCall, message: u32, key_code: u16) -> (
    HookView,
    HookStep,
) {
    let seen = HookView { last_hook_ms: call.tick_ms, ..state };
    let bits = bits_after_key(state.modifier_bits, key_code, is_key_down(message));
    let known = HookView { modifier_bits: bits, ..seen };
    if call.code < 0 {
        (state, HookStep::Pass)
    } else if !is_key_message(message) {
        (seen, HookStep::Pass)
    } else if !call.desktop_is_default {
        release_requested(known)
    } else if call.stopping || !call.remote_active {
        (known, HookStep::Pass)
    } else {
        (
            known,
            HookStep::Forward(
                WindowsCapturedEvent::Key {
                    key_code,
                    down: is_key_down(message),
                    modifier_bits: bits,
                },
            ),
        )
    }
}

/// The keyboard hook.
pub fn windows_keyboard_proc(state: &mut HookState, call: HookCall, message: u32, key_code: u16) -> (step:
    HookStep)
    ensures
        (final(state)@, step) == key_hook_step(old(state)@, call, message, key_code),
{
    if call.code < 0 {
        return HookStep::Pass;
    }
    state.last_hook_ms = call.tick_ms;
    let down = message == WM_KEYDOWN || message == WM_SYSKEYDOWN;
    if !down && message != WM_KEYUP && message != WM_SYSKEYUP {
        return HookStep::Pass;
    }
    update_windows_hook_modifier(&mut state.modifier_bits, key_code, down);
    if !call.desktop_is_default {
        return queue_windows_release_once(state);
    }
    if call.stopping || !call.remote_active {
        return HookStep::Pass;
    }
    HookStep::Forward(
        WindowsCapturedEvent::Key { key_code, down, modifier_bits: state.modifier_bits },
    )
}

/// While no other machine is controlled the hooks keep nothing from this one.
pub proof fn law_local_input_passes(
    state: HookView,
    call: HookCall,
    event: MouseHookEvent,
    message: u32,
    key_code: u16,
)
    requires
        !call.remote_active,
    ensures
        ({
            let step = mouse_hook_step(state, call, event).1;
            step == HookStep::Pass || step is PassAndNotify
        }),
        ({
            let step = key_hook_step(state, call, message, key_code).1;
            step == HookStep::Pass || step is PassAndNotify
        }),
{
}

/// Off the normal desktop every event reaches the system, and the worker is
/// told to release control.
pub proof fn law_secure_desktop_keeps_its_input(
    state: HookView,
    call: HookCall,
    event: MouseHookEvent,
    key_code: u16,
)
    requires
        call.code >= 0,
        !call.desktop_is_default,
        !state.release_notified,
    ensures
        mouse_hook_step(state, call, event).1 == HookStep::PassAndNotify(
            WindowsCapturedEvent::Release,
        ),
        key_hook_step(state, call, WM_KEYDOWN, key_code).1 == HookStep::PassAndNotify(
            WindowsCapturedEvent::Release,
        ),
{
}

/// Whether the hooks are gone or have gone quiet while the system still sees
/// input. The system counts its ticks in 32 bits.
pub open spec fn hooks_dead(
    hooks_installed: bool,
    now_ms: u64,
    last_hook_ms: u64,
    installed_at_ms: u64,
    last_system_input: Option<u32>,
) -> bool {
    !hooks_installed || {
        let last_hook = if last_hook_ms >= installed_at_ms {
            last_hook_ms
        } else {
            installed_at_ms
        };
        &&& now_ms - last_hook >= HOOK_STALE_MS
        &&& last_system_input matches Some(input) && (now_ms - input) % 0x1_0000_0000
            < HOOK_STALE_MS
    }
}

/// Whether the hooks were removed behind our back: one is missing, or the
/// system sees input and the hooks have been silent. The last system input is a
/// 32 bit tick and is compared as such.
pub fn windows_hooks_look_dead(
    hooks_installed: bool,
    now_ms: u64,
    last_hook_ms: u64,
    installed_at_ms: u64,
    last_system_input: Option<u32>,
) -> (dead: bool)
    ensures
        dead == hooks_dead(
            hooks_installed,
            now_ms,
            last_hook_ms,
            installed_at_ms,
            last_system_input,
        ),
{
    if !hooks_installed {
        return true;
    }
    let last_hook: u64 = if last_hook_ms >= installed_at_ms {
        last_hook_ms
    } else {
        installed_at_ms
    };
    if now_ms < last_hook || now_ms - last_hook < HOOK_STALE_MS {
        return false;
    }
    match last_system_input {
        Some(input) => {
            let now_tick: u32 = (now_ms % 0x1_0000_0000) as u32;
            let since: u32 = now_tick.wrapping_sub(input);
            assert(since == (now_tick - input) % 0x1_0000_0000);
            assert((now_tick - input) % 0x1_0000_0000 == (now_ms - input) % 0x1_0000_0000);
            (since as u64) < HOOK_STALE_MS
        },
        None => false,
    }
}

/// Whether the cover over the pointer is raised again; if so the time is noted.
pub fn reassert_windows_cursor_hider(visible: bool, last_ms: &mut u64, now_ms: u64) -> (raise: bool)
    ensures
        raise == (visible && now_ms - *old(last_ms) >= HIDER_REASSERT_MS),
        *final(last_ms) == if raise {
            now_ms
        } else {
            *old(last_ms)
        },
{
    if !visible {
        return false;
    }
    if now_ms < *last_ms || now_ms - *last_ms < HIDER_REASSERT_MS {
        return false;
    }
    *last_ms = now_ms;
    true
}

/// Takes the physical modifiers as the truth; gives the bits to tell the worker
/// where that is news while another machine is controlled.
pub fn take_modifier_snapshot(state: &mut HookState, physical: &[u16], remote_active: bool) -> (news:
    Option<WindowsCapturedEvent>)
    ensures
        ({
            let snapshot = bits_of_keys(physical@);
            &&& final(state)@ == (HookView { modifier_bits: snapshot, ..old(state)@ })
            &&& news == if old(state)@.modifier_bits != snapshot && remote_active {
                Some(WindowsCapturedEvent::ModifierSnapshot { modifier_bits: snapshot })
            } else {
                None
            }
        }),
{
    let snapshot: u64 = windows_modifier_bits_for_keys(physical);
    let previous: u64 = state.modifier_bits;
    state.modifier_bits = snapshot;
    if previous != snapshot && remote_active {
        Some(WindowsCapturedEvent::ModifierSnapshot { modifier_bits: snapshot })
    } else {
        None
    }
}

/// Each side of a modifier has a bit of its own, from left shift up, and the two
/// sides together are its family; a key without a side counts as the left one.
pub proof fn law_sides_have_their_bits(key_code: u16)
    ensures
        family_bits(key_code) == Some((0x01u64, 0x03u64)) <==> key_code == 0xA0 || key_code == 0x10,
        family_bits(key_code) == Some((0x02u64, 0x03u64)) <==> key_code == 0xA1,
        family_bits(key_code) == Some((0x04u64, 0x0Cu64)) <==> key_code == 0xA2 || key_code == 0x11,
        family_bits(key_code) == Some((0x08u64, 0x0Cu64)) <==> key_code == 0xA3,
        family_bits(key_code) == Some((0x10u64, 0x30u64)) <==> key_code == 0xA4 || key_code == 0x12,
        family_bits(key_code) == Some((0x20u64, 0x30u64)) <==> key_code == 0xA5,
        family_bits(key_code) == Some((0x40u64, 0xC0u64)) <==> key_code == 0x5B,
        family_bits(key_code) == Some((0x80u64, 0xC0u64)) <==> key_code == 0x5C,
        family_bits(key_code) is None <==> !(0x10 <= key_code <= 0x12 || key_code == 0x5B || key_code
            == 0x5C || 0xA0 <= key_code <= 0xA5),
{
}

/// The keys that modifier bits stand for are the sides whose bits are set.
pub proof fn law_bits_name_their_sides(bits: u64, key: u16)
    ensures
        keys_of_bits(bits).contains(key) <==> {
            ||| key == 0xA0 && bits & 0x01 != 0
            ||| key == 0xA1 && bits & 0x02 != 0
            ||| key == 0xA2 && bits & 0x04 != 0
            ||| key == 0xA3 && bits & 0x08 != 0
            ||| key == 0xA4 && bits & 0x10 != 0
            ||| key == 0xA5 && bits & 0x20 != 0
            ||| key == 0x5B && bits & 0x40 != 0
            ||| key == 0x5C && bits & 0x80 != 0
        },
{
    let a = key_of_bit(bits, 0x01, 0xA0);
    let b = a + key_of_bit(bits, 0x02, 0xA1);
    let c = b + key_of_bit(bits, 0x04, 0xA2);
    let d = c + key_of_bit(bits, 0x08, 0xA3);
    let e = d + key_of_bit(bits, 0x10, 0xA4);
    let f = e + key_of_bit(bits, 0x20, 0xA5);
    let g = f + key_of_bit(bits, 0x40, 0x5B);
    let h = g + key_of_bit(bits, 0x80, 0x5C);
    assert(keys_of_bits(bits) == h);
    lemma_contains_key_of_bit(Seq::empty(), bits, 0x01, 0xA0, key);
    assert(Seq::<u16>::empty() + a =~= a);
    lemma_contains_key_of_bit(a, bits, 0x02, 0xA1, key);
    lemma_contains_key_of_bit(b, bits, 0x04, 0xA2, key);
    lemma_contains_key_of_bit(c, bits, 0x08, 0xA3, key);
    lemma_contains_key_of_bit(d, bits, 0x10, 0xA4, key);
    lemma_contains_key_of_bit(e, bits, 0x20, 0xA5, key);
    lemma_contains_key_of_bit(f, bits, 0x40, 0x5B, key);
    lemma_contains_key_of_bit(g, bits, 0x80, 0x5C, key);
}

proof fn lemma_contains_key_of_bit(keys: Seq<u16>, bits: u64, bit: u64, own: u16, key: u16)
    ensures
        (keys + key_of_bit(bits, bit, own)).contains(key) <==> keys.contains(key) || (key == own
            && bits & bit != 0),
{
    let all = keys + key_of_bit(bits, bit, own);
    if keys.contains(key) {
        let i = choose|i: int| 0 <= i < keys.len() && keys[i] == key;
        assert(all[i] == key);
    }
    if bits & bit != 0 {
        assert(all[keys.len() as int] == own);
    }
    if all.contains(key) {
        let i = choose|i: int| 0 <= i < all.len() && all[i] == key;
        if i < keys.len() {
            assert(keys[i] == key);
        }
    }
}

/// A key that goes down sets its own bit and no other; the release of a side
/// clears that side alone, and the release of a key without a side both.
pub proof fn law_bits_follow_the_keys(bits: u64, key_code: u16, seen: u64)
    requires
        seen == 0x01 || seen == 0x02 || seen == 0x04 || seen == 0x08 || seen == 0x10 || seen == 0x20
            || seen == 0x40 || seen == 0x80,
    ensures
        family_bits(key_code) is None ==> bits_after_key(bits, key_code, true) == bits
            && bits_after_key(bits, key_code, false) == bits,
        family_bits(key_code) matches Some((bit, family)) ==> {
            &&& (bits_after_key(bits, key_code, true) & seen != 0) == (seen == bit || bits & seen
                != 0)
            &&& (bits_after_key(bits, key_code, false) & seen != 0) == (bits & seen != 0 && (if
                key_code <= 0x12 {
                family & seen == 0
            } else {
                seen != bit
            }))
        },
{
    if let Some((bit, family)) = family_bits(key_code) {
        assert(((bits | bit) & seen != 0) == (seen == bit || bits & seen != 0) && ((bits & !bit)
            & seen != 0) == (seen != bit && bits & seen != 0) && ((bits & !family) & seen != 0) == (
        family & seen == 0 && bits & seen != 0)) by (bit_vector)
            requires
                seen == 0x01 || seen == 0x02 || seen == 0x04 || seen == 0x08 || seen == 0x10 || seen
                    == 0x20 || seen == 0x40 || seen == 0x80,
                bit == 0x01 || bit == 0x02 || bit == 0x04 || bit == 0x08 || bit == 0x10 || bit
                    == 0x20 || bit == 0x40 || bit == 0x80,
        ;
    }
}

/// While another machine is controlled a movement counts from the anchor: across
/// by how far the pointer is across from it, down by how far it is down from it,
/// and the pointer goes back there. A pointer at the anchor has not moved.
pub proof fn law_movements_count_from_the_anchor(
    state: HookView,
    call: HookCall,
    event: MouseHookEvent,
)
    requires
        call.code >= 0,
        call.desktop_is_default,
        !call.stopping,
        call.remote_active,
        event.message == 0x0200,
    ensures
        ({
            let step = mouse_hook_step(state, call, event).1;
            let anchor = state.anchor;
            &&& step == HookStep::Swallow || (step matches HookStep::Recenter { x, y, dx, dy } && x
                == anchor.x && y == anchor.y && anchor.x + dx == event.x && anchor.y + dy
                == event.y)
            &&& event.x == anchor.x && event.y == anchor.y ==> step == HookStep::Swallow
            &&& anchor.warp_cutoff == 0 && (event.x != anchor.x || event.y != anchor.y)
                ==> step is Recenter
            &&& anchor.warp_cutoff != 0 && tick_before(
                event.time,
                ((anchor.warp_cutoff - 1) % 0x1_0000_0000) as u32,
            ) ==> step == HookStep::Swallow
        }),
{
}

/// Of two ticks the one up to half a turn behind is before the other; the same
/// tick and those up to half a turn ahead are not.
pub proof fn law_ticks_are_ordered(tick: u32, cutoff: u32)
    ensures
        tick < cutoff && cutoff - tick <= 0x8000_0000 ==> tick_before(tick, cutoff),
        tick >= cutoff && tick - cutoff < 0x8000_0000 ==> !tick_before(tick, cutoff),
        tick > cutoff && tick - cutoff >= 0x8000_0000 ==> tick_before(tick, cutoff),
        tick < cutoff && cutoff - tick > 0x8000_0000 ==> !tick_before(tick, cutoff),
{
}

/// An event of the very tick of a warp is left over from it where it is nearer to
/// where the pointer came from than to the anchor, and not where it is nearer to
/// the anchor.
pub proof fn law_leftovers_are_near_the_source(
    guard: WindowsWarpGuard,
    tick: u32,
    x: i32,
    y: i32,
    source: (i32, i32),
    anchor: (i32, i32),
)
    requires
        guard.ignore_through_sequence == Some(tick),
        guard.source == Some(source),
        source != anchor,
    ensures
        warp_leftover(guard, tick, source.0, source.1, anchor),
        warp_leftover(guard, tick, anchor.0, anchor.1, anchor),
        squared_distance(x, y, source) > squared_distance(x, y, anchor) && (x, y) != anchor
            ==> !warp_leftover(guard, tick, x, y, anchor),
        squared_distance(x, y, source) == squared_distance(source.0, source.1, (x, y)),
{
    let dx = source.0 - anchor.0;
    let dy = source.1 - anchor.1;
    assert(dx * dx + dy * dy > 0) by (nonlinear_arith)
        requires
            dx != 0 || dy != 0,
    ;
    assert((source.0 - source.0) * (source.0 - source.0) == 0 && (source.1 - source.1) * (source.1
        - source.1) == 0) by (nonlinear_arith);
    assert((x - source.0) * (x - source.0) == (source.0 - x) * (source.0 - x) && (y - source.1) * (y
        - source.1) == (source.1 - y) * (source.1 - y)) by (nonlinear_arith);
}

/// While another machine is controlled, buttons and wheels are handed on with
/// their message and data, and keys with their code and direction; the bits that
/// go along are those after the key.
pub proof fn law_hooks_hand_on_what_happened(
    state: HookView,
    call: HookCall,
    event: MouseHookEvent,
    message: u32,
    key_code: u16,
)
    requires
        call.code >= 0,
        call.desktop_is_default,
        !call.stopping,
        call.remote_active,
    ensures
        event.message == 0x0201 || event.message == 0x0202 || event.message == 0x0204
            || event.message == 0x0205 || event.message == 0x0207 || event.message == 0x0208
            ==> mouse_hook_step(state, call, event).1 == HookStep::Forward(
            WindowsCapturedEvent::MouseButton {
                message: event.message,
                modifier_bits: state.modifier_bits,
            },
        ),
        event.message == 0x020A || event.message == 0x020E ==> mouse_hook_step(
            state,
            call,
            event,
        ).1 == HookStep::Forward(
            WindowsCapturedEvent::Scroll {
                message: event.message,
                mouse_data: event.mouse_data,
                modifier_bits: state.modifier_bits,
            },
        ),
        message == 0x0100 || message == 0x0101 || message == 0x0104 || message == 0x0105 ==> {
            let down = message == 0x0100 || message == 0x0104;
            let bits = bits_after_key(state.modifier_bits, key_code, down);
            &&& key_hook_step(state, call, message, key_code).1 == HookStep::Forward(
                WindowsCapturedEvent::Key { key_code, down, modifier_bits: bits },
            )
            &&& key_hook_step(state, call, message, key_code).0.modifier_bits == bits
        },
{
}

/// A movement of this machine is noted at its point and let through; the worker
/// hears of it once until it looks.
pub proof fn law_local_movements_are_noted(
    state: HookView,
    call: HookCall,
    event: MouseHookEvent,
)
    requires
        call.code >= 0,
        call.desktop_is_default,
        !call.stopping,
        !call.remote_active,
        !call.queue_busy,
        event.message == 0x0200,
        state.pending.len() <= 32,
    ensures
        ({
            let (after, step) = mouse_hook_step(state, call, event);
            &&& after.pending.last() == (WindowsMouseMoveSnapshot {
                x: event.x,
                y: event.y,
                modifier_bits: state.modifier_bits,
            })
            &&& after.move_notified
            &&& after.last_hook_ms == call.tick_ms
            &&& step == (if state.move_notified {
                HookStep::Pass
            } else {
                HookStep::PassAndNotify(WindowsCapturedEvent::LocalMouseMoveReady)
            })
        }),
{
}

/// Positions wait in the order in which they came: all but the newest are the
/// last of those that waited before, and only a full queue or a repeated point
/// costs one.
pub proof fn law_waiting_positions_keep_their_order(
    queue: Seq<WindowsMouseMoveSnapshot>,
    snapshot: WindowsMouseMoveSnapshot,
)
    requires
        queue.len() <= 32,
    ensures
        ({
            let after = queue_after(queue, snapshot).drop_last();
            let repeated = queue.len() > 0 && queue.last().x == snapshot.x && queue.last().y
                == snapshot.y;
            &&& repeated ==> after == queue.drop_last()
            &&& !repeated && queue.len() < 32 ==> after == queue
            &&& !repeated && queue.len() == 32 ==> after == queue.skip(1)
            &&& drops_oldest(queue, snapshot) <==> !repeated && queue.len() == 32
        }),
{
    assert(queue.push(snapshot).drop_last() =~= queue);
    if queue.len() > 0 {
        assert(queue.drop_last().push(snapshot).drop_last() =~= queue.drop_last());
        assert(queue.skip(1).push(snapshot).drop_last() =~= queue.skip(1));
    }
}

/// The hooks are taken for dead where one is missing, or where the system saw
/// input in the last three seconds and they were silent for three seconds or
/// more since they were set.
pub proof fn law_silent_hooks_are_dead(
    now_ms: u64,
    last_hook_ms: u64,
    installed_at_ms: u64,
    input_age: u32,
)
    requires
        last_hook_ms <= now_ms,
        installed_at_ms <= now_ms,
        input_age <= now_ms,
    ensures
        hooks_dead(false, now_ms, last_hook_ms, installed_at_ms, None),
        !hooks_dead(true, now_ms, last_hook_ms, installed_at_ms, None),
        hooks_dead(
            true,
            now_ms,
            last_hook_ms,
            installed_at_ms,
            Some(((now_ms - input_age) % 0x1_0000_0000) as u32),
        ) <==> now_ms - last_hook_ms >= 3000 && now_ms - installed_at_ms >= 3000 && input_age < 3000,
{
    let age = input_age as int;
    let turn: int = 0x1_0000_0000;
    let input = (now_ms - age) % turn;
    assert((now_ms - input) % turn == age) by (nonlinear_arith)
        requires
            turn == 0x1_0000_0000,
            input == (now_ms - age) % turn,
            0 <= age < turn,
            age <= now_ms,
    ;
}

/// A movement turns where it goes against the one before on the same axis; a
/// rest is no turn. Movements that do not turn add up.
pub proof fn law_movements_add_up(total: i64, delta: i64)
    ensures
        reverses(total, delta) <==> total > 0 > delta || total < 0 < delta,
        reverses(total, delta) == reverses(delta, total),
        !reverses(total, 0),
        i64::MIN <= total + delta <= i64::MAX ==> saturated_sum(total, delta) == total + delta,
        total + delta > i64::MAX ==> saturated_sum(total, delta) == i64::MAX,
        total + delta < i64::MIN ==> saturated_sum(total, delta) == i64::MIN,
{
}

/// A loss is counted, and a request to release control is made once.
pub proof fn law_losses_are_counted(
    state: HookView,
    snapshot: WindowsMouseMoveSnapshot,
    count: u64,
)
    ensures
        count < u64::MAX ==> counted_up(count) == count + 1,
        state.dropped_moves < u64::MAX ==> local_move_queued(
            state,
            snapshot,
            true,
        ).0.dropped_moves == state.dropped_moves + 1,
        local_move_queued(state, snapshot, true).0.pending == state.pending,
        !drops_oldest(state.pending, snapshot) ==> local_move_queued(
            state,
            snapshot,
            false,
        ).0.dropped_moves == state.dropped_moves,
        release_requested(release_requested(state).0).1 == HookStep::Pass,
        release_requested(state).0.release_notified,
        !state.release_notified ==> release_requested(state).1 == HookStep::PassAndNotify(
            WindowsCapturedEvent::Release,
        ),
{
}

/// Hooks that were just set know of no modifier, no anchor, no movement and no
/// loss.
pub proof fn law_fresh_hooks_know_nothing()
    ensures
        no_anchor().x == 0,
        no_anchor().y == 0,
        no_anchor().source_x == 0,
        no_anchor().source_y == 0,
        no_anchor().warp_cutoff == 0,
        guard_of(no_anchor()).ignore_through_sequence is None,
        fresh_hooks().modifier_bits == 0,
        fresh_hooks().pending.len() == 0,
        !fresh_hooks().move_notified,
        !fresh_hooks().release_notified,
        fresh_hooks().dropped_moves == 0,
        fresh_hooks().warp_failures == 0,
        fresh_hooks().last_hook_ms == 0,
        fresh_hooks().anchor == no_anchor(),
{
}

/// An anchor waits for the leftovers of its warp by the tick before its cutoff,
/// from where the pointer came; without a cutoff it waits for none.
pub proof fn law_anchors_wait_for_their_warp(anchor: WindowsAnchor, tick: u32)
    ensures
        anchor.warp_cutoff == 0 ==> guard_of(anchor).ignore_through_sequence is None && guard_of(
            anchor,
        ).source is None,
        anchor.warp_cutoff == tick + 1 ==> guard_of(anchor).ignore_through_sequence == Some(tick)
            && guard_of(anchor).source == Some((anchor.source_x, anchor.source_y)),
{
}

} // verus!
