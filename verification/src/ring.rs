//! Arithmetic on the 16-bit sequence-number ring.
//!
//! Sequence numbers wrap at 2^16, so "newer" and "older" are decided by the
//! forward distance from the last sequence number seen, never by `<`.

use vstd::prelude::*;

verus! {

/// Number of points on the sequence ring.
pub const RING_SIZE: u32 = 65536;

/// Largest forward distance that still counts as "ahead".
pub const HALF_RING: u16 = 32768;

/// Where an arriving sequence number stands relative to the last one seen.
#[derive(Clone, Copy, Debug, PartialEq, Eq, Structural)]
pub enum Position {
    /// The same sequence number again.
    Duplicate,
    /// Newer than the last one; `gap` frames between the two never arrived.
    Ahead { gap: u16 },
    /// Older than the last one: the packet is late.
    Behind,
}

/// Forward distance from `from` to `to` on the ring, in `0 .. 65536`.
pub open spec fn forward_distance(from: u16, to: u16) -> int {
    (to as int - from as int) % 65536
}

/// The sequence number that follows `seq` on the ring.
pub open spec fn successor_of(seq: u16) -> u16 {
    if seq == 65535 {
        0
    } else {
        (seq + 1) as u16
    }
}

/// The sequence number `steps` places after `seq` on the ring.
pub open spec fn advance(seq: u16, steps: int) -> u16 {
    ((seq as int + steps) % 65536) as u16
}

/// Position of `seq` relative to `last`: a forward distance of zero is a
/// duplicate, one of at most half the ring is ahead (with one frame fewer
/// missing than the distance), anything longer is behind.
pub open spec fn position_of(last: u16, seq: u16) -> Position {
    let d = forward_distance(last, seq);
    if d == 0 {
        Position::Duplicate
    } else if d <= 32768 {
        Position::Ahead { gap: (d - 1) as u16 }
    } else {
        Position::Behind
    }
}

/// Computes the forward distance from `from` to `to` on the ring.
pub fn forward(from: u16, to: u16) -> (d: u16)
    ensures
        d as int == forward_distance(from, to),
{
    if to >= from {
        to - from
    } else {
        let back: u16 = from - to;
        let d: u16 = (65535 - back) + 1;
        assert(d as int == (to as int - from as int) + 65536);
        d
    }
}

/// Returns the sequence number that follows `seq`, wrapping at the ring's end.
pub fn successor(seq: u16) -> (next: u16)
    ensures
        next == successor_of(seq),
        forward_distance(seq, next) == 1,
{
    if seq == 65535 {
        0
    } else {
        seq + 1
    }
}

/// Classifies an arriving sequence number against the last one seen.
pub fn classify(last: u16, seq: u16) -> (p: Position)
    ensures
        p == position_of(last, seq),
{
    let d: u16 = forward(last, seq);
    if d == 0 {
        Position::Duplicate
    } else if d <= HALF_RING {
        Position::Ahead { gap: d - 1 }
    } else {
        Position::Behind
    }
}

/// The forward distance always lies on the ring, and is zero exactly for
/// equal sequence numbers.
pub proof fn lemma_forward_distance_range(from: u16, to: u16)
    ensures
        0 <= forward_distance(from, to) < 65536,
        forward_distance(from, to) == 0 <==> from == to,
        from <= to ==> forward_distance(from, to) == to - from,
        from > to ==> forward_distance(from, to) == to - from + 65536,
{
}

/// Going round the ring: the two forward distances between distinct sequence
/// numbers add up to the ring's size.
pub proof fn lemma_forward_distance_complement(a: u16, b: u16)
    requires
        a != b,
    ensures
        forward_distance(a, b) + forward_distance(b, a) == 65536,
{
}

/// Positions depend only on distances: moving both sequence numbers the same
/// number of steps round the ring, across the wrap or not, changes nothing.
pub proof fn lemma_position_shift_invariant(last: u16, seq: u16, steps: int)
    ensures
        forward_distance(advance(last, steps), advance(seq, steps)) == forward_distance(last, seq),
        position_of(advance(last, steps), advance(seq, steps)) == position_of(last, seq),
{
    let l = last as int;
    let s = seq as int;
    let la = (l + steps) % 65536;
    let sa = (s + steps) % 65536;
    assert(0 <= la < 65536 && 0 <= sa < 65536);
    assert((sa - la) % 65536 == (s - l) % 65536) by {
        let ql = (l + steps) / 65536;
        let qs = (s + steps) / 65536;
        assert(l + steps == 65536 * ql + la) by {
            vstd::arithmetic::div_mod::lemma_fundamental_div_mod(l + steps, 65536);
        }
        assert(s + steps == 65536 * qs + sa) by {
            vstd::arithmetic::div_mod::lemma_fundamental_div_mod(s + steps, 65536);
        }
        assert(sa - la == (s - l) + 65536 * (ql - qs));
        vstd::arithmetic::div_mod::lemma_mod_multiples_vanish(ql - qs, s - l, 65536);
    }
}

/// The immediate successor is always ahead with nothing missing, also from
/// 65535 to 0.
pub proof fn lemma_successor_is_next(seq: u16)
    ensures
        position_of(seq, successor_of(seq)) == (Position::Ahead { gap: 0 }),
        successor_of(seq) == advance(seq, 1),
{
}

/// Shortest-distance reading: if `b` is ahead of `a` by less than half the
/// ring, then `a` is behind `b`.
pub proof fn lemma_ahead_then_behind(a: u16, b: u16)
    requires
        0 < forward_distance(a, b) < 32768,
    ensures
        position_of(a, b) is Ahead,
        position_of(b, a) is Behind,
{
    lemma_forward_distance_complement(a, b);
}

} // verus!
