//! What a timeline emits over a whole run of packets and ticks, and the
//! theorems that hold of every run: the emitted PCM is a whole number of
//! frames and only ever grows, a late packet changes nothing, and packets
//! that arrive within the reorder window and on time come out exactly as an
//! in-order delivery would.

use vstd::prelude::*;
use crate::codec::silence;
use crate::packet::PacketHeader;
use crate::ring::{
    advance,
    forward_distance,
    lemma_forward_distance_complement,
    lemma_position_shift_invariant,
    position_of,
};
use crate::timeline::{
    accepts,
    after_ingest,
    after_tick,
    gap_before,
    idle,
    ingest_emits,
    silence_due,
    SourceTimeline,
};

verus! {

/// Most packets that can be in flight at once and still be told apart from
/// late ones: one less than half the sequence ring.
pub const REORDER_WINDOW: u16 = 32767;

/// One thing that happens to a timeline.
pub enum TimelineEvent {
    /// A decoded frame arrives under `header` at instant `at`.
    Packet { header: PacketHeader, at: u64, frame: Seq<i16> },
    /// The periodic tick fires at instant `now`.
    Tick { now: u64 },
}

/// A packet as delivered: header, arrival instant and decoded frame.
pub struct Arrival {
    pub header: PacketHeader,
    pub at: u64,
    pub frame: Seq<i16>,
}

/// The timeline after one event.
pub open spec fn step(t: SourceTimeline, e: TimelineEvent) -> SourceTimeline {
    match e {
        TimelineEvent::Packet { header, at, frame } => after_ingest(t, header, at),
        TimelineEvent::Tick { now } => after_tick(t, now),
    }
}

/// The PCM that one event appends.
pub open spec fn emits(t: SourceTimeline, e: TimelineEvent) -> Seq<i16> {
    match e {
        TimelineEvent::Packet { header, at, frame } => ingest_emits(t, header.sequence, frame),
        TimelineEvent::Tick { now } => silence(silence_due(t, now)),
    }
}

/// The timeline after a run of events, starting from `t`.
pub open spec fn replay_state(t: SourceTimeline, events: Seq<TimelineEvent>) -> SourceTimeline
    decreases events.len(),
{
    if events.len() == 0 {
        t
    } else {
        step(replay_state(t, events.drop_last()), events.last())
    }
}

/// All the PCM emitted over a run of events, starting from `t`.
pub open spec fn replay_emits(t: SourceTimeline, events: Seq<TimelineEvent>) -> Seq<i16>
    decreases events.len(),
{
    if events.len() == 0 {
        Seq::empty()
    } else {
        replay_emits(t, events.drop_last()) + emits(
            replay_state(t, events.drop_last()),
            events.last(),
        )
    }
}

/// Frames that one event contributes as observed: one for an accepted packet.
pub open spec fn observed_in(t: SourceTimeline, e: TimelineEvent) -> nat {
    match e {
        TimelineEvent::Packet { header, at, frame } => if accepts(t, header.sequence) {
            1
        } else {
            0
        },
        TimelineEvent::Tick { now } => 0,
    }
}

/// Frames that one event contributes as inferred from a gap in the sequence.
pub open spec fn gap_in(t: SourceTimeline, e: TimelineEvent) -> nat {
    match e {
        TimelineEvent::Packet { header, at, frame } => gap_before(t, header.sequence),
        TimelineEvent::Tick { now } => 0,
    }
}

/// Frames that one event contributes as silence owed to the clock.
pub open spec fn tick_in(t: SourceTimeline, e: TimelineEvent) -> nat {
    match e {
        TimelineEvent::Packet { header, at, frame } => 0,
        TimelineEvent::Tick { now } => silence_due(t, now),
    }
}

/// Frames observed over a run: the packets that were accepted.
pub open spec fn observed_frames(t: SourceTimeline, events: Seq<TimelineEvent>) -> nat
    decreases events.len(),
{
    if events.len() == 0 {
        0
    } else {
        observed_frames(t, events.drop_last()) + observed_in(
            replay_state(t, events.drop_last()),
            events.last(),
        )
    }
}

/// Frames of silence inserted over a run for gaps in the sequence.
pub open spec fn inferred_gap_frames(t: SourceTimeline, events: Seq<TimelineEvent>) -> nat
    decreases events.len(),
{
    if events.len() == 0 {
        0
    } else {
        inferred_gap_frames(t, events.drop_last()) + gap_in(
            replay_state(t, events.drop_last()),
            events.last(),
        )
    }
}

/// Frames of silence inserted over a run by ticks.
pub open spec fn silence_tick_frames(t: SourceTimeline, events: Seq<TimelineEvent>) -> nat
    decreases events.len(),
{
    if events.len() == 0 {
        0
    } else {
        silence_tick_frames(t, events.drop_last()) + tick_in(
            replay_state(t, events.drop_last()),
            events.last(),
        )
    }
}

/// Every packet of the run carries exactly one frame of 960 samples.
pub open spec fn whole_frames(events: Seq<TimelineEvent>) -> bool {
    forall|i: int|
        0 <= i < events.len() ==> (#[trigger] events[i] matches TimelineEvent::Packet {
            header,
            at,
            frame,
        } ==> frame.len() == 960)
}

/// The run of packet events that delivers `arrivals` in the given order.
pub open spec fn as_events(arrivals: Seq<Arrival>) -> Seq<TimelineEvent> {
    Seq::new(
        arrivals.len(),
        |i: int|
            TimelineEvent::Packet {
                header: arrivals[i].header,
                at: arrivals[i].at,
                frame: arrivals[i].frame,
            },
    )
}

/// The `i`-th arrival is accepted by the timeline that the arrivals before
/// it leave behind: its sequence position is not already past.
pub open spec fn on_time(arrivals: Seq<Arrival>, i: int) -> bool {
    accepts(replay_state(idle(), as_events(arrivals.take(i))), arrivals[i].header.sequence)
}

/// No arrival comes after its sequence position is already past.
pub open spec fn none_past(arrivals: Seq<Arrival>) -> bool {
    forall|i: int| 0 <= i < arrivals.len() ==> #[trigger] on_time(arrivals, i)
}

/// Loss-free ordered delivery: consecutive sequence numbers, wrapping round
/// the ring, in order of arrival.
pub open spec fn loss_free_ordered(arrivals: Seq<Arrival>) -> bool {
    forall|k: int|
        0 <= k < arrivals.len() ==> (#[trigger] arrivals[k]).header.sequence == advance(
            arrivals[0].header.sequence,
            k,
        )
}

/// Continuity. Over any run of whole frames, the PCM emitted is 960 samples
/// for each frame observed, inferred from a gap or owed to a tick. Once a
/// frame has been observed that count is at least one.
pub proof fn lemma_continuity(t: SourceTimeline, events: Seq<TimelineEvent>)
    requires
        whole_frames(events),
    ensures
        replay_emits(t, events).len() == 960 * (observed_frames(t, events) + inferred_gap_frames(
            t,
            events,
        ) + silence_tick_frames(t, events)),
        observed_frames(t, events) >= 1 ==> replay_emits(t, events).len() == 960 * vstd::math::max(
            1,
            (observed_frames(t, events) + inferred_gap_frames(t, events) + silence_tick_frames(
                t,
                events,
            )) as int,
        ),
    decreases events.len(),
{
    if events.len() > 0 {
        let before = events.drop_last();
        assert(whole_frames(before)) by {
            assert forall|i: int| 0 <= i < before.len() implies (
            #[trigger] before[i] matches TimelineEvent::Packet { header, at, frame }
                ==> frame.len() == 960) by {
                assert(before[i] == events[i]);
            }
        }
        lemma_continuity(t, before);
        let s = replay_state(t, before);
        let e = events.last();
        assert(e == events[events.len() - 1]);
        assert(emits(s, e).len() == 960 * (observed_in(s, e) + gap_in(s, e) + tick_in(s, e)));
    }
}

/// The emitted PCM only grows: what a run has emitted after its first `n`
/// events is the beginning of what it has emitted at its end.
pub proof fn lemma_emission_grows(t: SourceTimeline, events: Seq<TimelineEvent>, n: int)
    requires
        0 <= n <= events.len(),
    ensures
        replay_emits(t, events.take(n)).len() <= replay_emits(t, events).len(),
        replay_emits(t, events.take(n)) == replay_emits(t, events).take(
            replay_emits(t, events.take(n)).len() as int,
        ),
    decreases events.len(),
{
    if n == events.len() {
        assert(events.take(n) =~= events);
        assert(replay_emits(t, events).take(replay_emits(t, events).len() as int) =~= replay_emits(
            t,
            events,
        ));
    } else {
        let before = events.drop_last();
        assert(before.take(n) =~= events.take(n));
        lemma_emission_grows(t, before, n);
        let short = replay_emits(t, events.take(n));
        let mid = replay_emits(t, before);
        let all = replay_emits(t, events);
        assert(all == mid + emits(replay_state(t, before), events.last()));
        assert(all.take(short.len() as int) =~= mid.take(short.len() as int));
    }
}

/// A packet that is late or repeated leaves the timeline as it was and emits
/// nothing, whatever it carries.
pub proof fn lemma_late_packet_is_dropped(
    t: SourceTimeline,
    header: PacketHeader,
    at: u64,
    frame: Seq<i16>,
)
    requires
        t.state is Streaming,
        position_of(t.last_sequence, header.sequence) is Behind || position_of(
            t.last_sequence,
            header.sequence,
        ) is Duplicate,
    ensures
        after_ingest(t, header, at) == t,
        ingest_emits(t, header.sequence, frame) == Seq::<i16>::empty(),
{
}

/// When a late packet and a tick come at once it makes no difference which
/// is taken first: the silence is emitted and the packet is dropped either
/// way.
pub proof fn lemma_late_packet_and_tick_commute(
    t: SourceTimeline,
    header: PacketHeader,
    at: u64,
    frame: Seq<i16>,
    now: u64,
)
    requires
        t.state is Streaming,
        !(position_of(t.last_sequence, header.sequence) is Ahead),
    ensures
        after_tick(after_ingest(t, header, at), now) == after_ingest(
            after_tick(t, now),
            header,
            at,
        ),
        ingest_emits(t, header.sequence, frame) + silence(
            silence_due(after_ingest(t, header, at), now),
        ) == silence(silence_due(t, now)) + ingest_emits(
            after_tick(t, now),
            header.sequence,
            frame,
        ),
        ingest_emits(after_tick(t, now), header.sequence, frame) == Seq::<i16>::empty(),
{
    assert(ingest_emits(t, header.sequence, frame) + silence(silence_due(t, now)) =~= silence(
        silence_due(t, now),
    ) + ingest_emits(after_tick(t, now), header.sequence, frame));
}

/// A run with a late or repeated packet added at its end emits what the run
/// without it emits, and ends in the same state.
pub proof fn lemma_late_arrival_changes_nothing(
    t: SourceTimeline,
    events: Seq<TimelineEvent>,
    header: PacketHeader,
    at: u64,
    frame: Seq<i16>,
)
    requires
        replay_state(t, events).state is Streaming,
        !(position_of(replay_state(t, events).last_sequence, header.sequence) is Ahead),
    ensures
        replay_emits(t, events.push(TimelineEvent::Packet { header, at, frame })) == replay_emits(
            t,
            events,
        ),
        replay_state(t, events.push(TimelineEvent::Packet { header, at, frame })) == replay_state(
            t,
            events,
        ),
{
    let longer = events.push(TimelineEvent::Packet { header, at, frame });
    assert(longer.drop_last() =~= events);
    assert(replay_emits(t, longer) =~= replay_emits(t, events));
}

/// Every arrival carries exactly one frame of 960 samples.
pub open spec fn whole_arrivals(arrivals: Seq<Arrival>) -> bool {
    forall|i: int| 0 <= i < arrivals.len() ==> (#[trigger] arrivals[i]).frame.len() == 960
}

/// The place on the timeline, counted in frames from its start, that the
/// `k`-th arrival of a run takes: as far after the one before it as its
/// sequence number is ahead.
pub open spec fn slot_of(arrivals: Seq<Arrival>, k: int) -> int
    decreases k,
{
    if k <= 0 {
        0
    } else {
        slot_of(arrivals, k - 1) + forward_distance(
            arrivals[k - 1].header.sequence,
            arrivals[k].header.sequence,
        )
    }
}

/// What has been emitted after the first `m` arrivals of a run.
pub open spec fn emitted_after(arrivals: Seq<Arrival>, m: int) -> Seq<i16> {
    replay_emits(idle(), as_events(arrivals.take(m)))
}

/// The sample at `i` lies in the slot of one of the first `m` arrivals.
pub open spec fn in_a_slot(arrivals: Seq<Arrival>, m: int, i: int) -> bool {
    exists|k: int| 0 <= k < m && 960 * #[trigger] slot_of(arrivals, k) <= i < 960 * slot_of(
        arrivals,
        k,
    ) + 960
}

/// Slots go up along a run of on-time arrivals.
proof fn lemma_slots_increase(arrivals: Seq<Arrival>, j: int, k: int)
    requires
        none_past(arrivals),
        0 <= j <= k < arrivals.len(),
    ensures
        0 <= slot_of(arrivals, j) <= slot_of(arrivals, k),
        j < k ==> slot_of(arrivals, j) < slot_of(arrivals, k),
    decreases k,
{
    if k > 0 {
        lemma_on_time_state(arrivals, k);
        assert(on_time(arrivals, k));
        crate::ring::lemma_forward_distance_range(
            arrivals[k - 1].header.sequence,
            arrivals[k].header.sequence,
        );
        if j < k {
            lemma_slots_increase(arrivals, j, k - 1);
        } else {
            lemma_slots_increase(arrivals, j - 1, k - 1);
        }
    }
}

/// After the first `m` arrivals of an on-time run the timeline ends with
/// the slot of the newest, each arrival's frame stands in its slot, and
/// every sample outside the slots is zero.
proof fn lemma_slots_after(arrivals: Seq<Arrival>, m: int)
    requires
        none_past(arrivals),
        whole_arrivals(arrivals),
        1 <= m <= arrivals.len(),
    ensures
        emitted_after(arrivals, m).len() == 960 * (slot_of(arrivals, m - 1) + 1),
        forall|k: int, j: int|
            0 <= k < m && 0 <= j < 960 ==> #[trigger] emitted_after(arrivals, m)[960 * slot_of(
                arrivals,
                k,
            ) + j] == arrivals[k].frame[j],
        forall|i: int|
            0 <= i < emitted_after(arrivals, m).len() && !in_a_slot(arrivals, m, i)
                ==> #[trigger] emitted_after(arrivals, m)[i] == 0,
    decreases m,
{
    let events = as_events(arrivals.take(m));
    let newest = arrivals[m - 1];
    assert(events.drop_last() =~= as_events(arrivals.take(m - 1)));
    assert(events.last() == TimelineEvent::Packet {
        header: newest.header,
        at: newest.at,
        frame: newest.frame,
    });
    assert(on_time(arrivals, m - 1));
    assert(newest.frame.len() == 960);
    let now = emitted_after(arrivals, m);
    if m == 1 {
        assert(events.drop_last().len() == 0);
        assert(replay_state(idle(), events.drop_last()) == idle());
        assert(replay_emits(idle(), events.drop_last()) =~= Seq::<i16>::empty());
        assert(silence(0) =~= Seq::<i16>::empty());
        assert(now =~= newest.frame);
        assert forall|i: int| 0 <= i < now.len() && !in_a_slot(arrivals, m, i) implies now[i]
            == 0 by {
            assert(960 * slot_of(arrivals, 0) <= i < 960 * slot_of(arrivals, 0) + 960);
        }
    } else {
        lemma_slots_after(arrivals, m - 1);
        lemma_on_time_state(arrivals, m - 1);
        let before = emitted_after(arrivals, m - 1);
        let state = replay_state(idle(), as_events(arrivals.take(m - 1)));
        let gap = gap_before(state, newest.header.sequence);
        let d = forward_distance(arrivals[m - 2].header.sequence, newest.header.sequence);
        assert(gap == d - 1);
        assert(now == before + (silence(gap) + newest.frame));
        assert(slot_of(arrivals, m - 1) == slot_of(arrivals, m - 2) + d);
        assert(before.len() + 960 * gap == 960 * slot_of(arrivals, m - 1));
        lemma_slots_increase(arrivals, m - 2, m - 1);
        assert forall|k: int, j: int| 0 <= k < m && 0 <= j < 960 implies #[trigger] now[960
            * slot_of(arrivals, k) + j] == arrivals[k].frame[j] by {
            let at = 960 * slot_of(arrivals, k) + j;
            if k < m - 1 {
                lemma_slots_increase(arrivals, k, m - 2);
                assert(0 <= at < before.len());
                assert(before[at] == arrivals[k].frame[j]);
                assert(now[at] == before[at]);
            } else {
                let tail = silence(gap) + newest.frame;
                assert(at == before.len() + 960 * gap + j);
                assert(now[at] == tail[960 * gap + j]);
                assert(tail[960 * gap + j] == newest.frame[j]);
            }
        }
        assert forall|i: int| 0 <= i < now.len() && !in_a_slot(arrivals, m, i) implies now[i]
            == 0 by {
            if i < before.len() {
                if in_a_slot(arrivals, m - 1, i) {
                    let k = choose|k: int|
                        0 <= k < m - 1 && 960 * #[trigger] slot_of(arrivals, k) <= i < 960
                            * slot_of(arrivals, k) + 960;
                    assert(0 <= k < m && 960 * slot_of(arrivals, k) <= i < 960 * slot_of(
                        arrivals,
                        k,
                    ) + 960);
                }
                assert(before[i] == 0);
            } else if i < 960 * slot_of(arrivals, m - 1) {
                let tail = silence(gap) + newest.frame;
                assert(now[i] == tail[i - before.len()]);
                assert(tail[i - before.len()] == silence(gap)[i - before.len()]);
            } else {
                assert(960 * slot_of(arrivals, m - 1) <= i < 960 * slot_of(arrivals, m - 1)
                    + 960);
            }
        }
    }
}

/// Frames keep their slots. In a run of whole frames in which no arrival is
/// past, the emitted PCM reaches to the end of the newest arrival's slot,
/// each arrival's frame stands sample for sample in its own slot, and all
/// the rest, which are the slots of the frames that never came, is silence
/// whatever the frames hold.
pub proof fn lemma_frames_keep_their_slots(arrivals: Seq<Arrival>)
    requires
        none_past(arrivals),
        whole_arrivals(arrivals),
        arrivals.len() >= 1,
    ensures
        replay_emits(idle(), as_events(arrivals)).len() == 960 * (slot_of(
            arrivals,
            arrivals.len() - 1,
        ) + 1),
        forall|k: int|
            0 <= k < arrivals.len() ==> replay_emits(idle(), as_events(arrivals)).subrange(
                960 * #[trigger] slot_of(arrivals, k),
                960 * slot_of(arrivals, k) + 960,
            ) == arrivals[k].frame,
        forall|i: int|
            0 <= i < replay_emits(idle(), as_events(arrivals)).len() && !in_a_slot(
                arrivals,
                arrivals.len() as int,
                i,
            ) ==> #[trigger] replay_emits(idle(), as_events(arrivals))[i] == 0,
{
    let n = arrivals.len() as int;
    assert(arrivals.take(n) =~= arrivals);
    lemma_slots_after(arrivals, n);
    let pcm = replay_emits(idle(), as_events(arrivals));
    assert(pcm == emitted_after(arrivals, n));
    assert forall|k: int| 0 <= k < n implies pcm.subrange(
        960 * #[trigger] slot_of(arrivals, k),
        960 * slot_of(arrivals, k) + 960,
    ) == arrivals[k].frame by {
        lemma_slots_increase(arrivals, k, n - 1);
        let from = 960 * slot_of(arrivals, k);
        assert forall|j: int| 0 <= j < 960 implies pcm.subrange(from, from + 960)[j]
            == arrivals[k].frame[j] by {
            assert(pcm[from + j] == arrivals[k].frame[j]);
        }
        assert(pcm.subrange(from, from + 960) =~= arrivals[k].frame);
    }
}

/// The arrivals of a run that were on time, in the order they came: those
/// that the timeline accepted when they arrived.
pub open spec fn on_time_arrivals(arrivals: Seq<Arrival>) -> Seq<Arrival>
    decreases arrivals.len(),
{
    if arrivals.len() == 0 {
        Seq::empty()
    } else {
        let earlier = on_time_arrivals(arrivals.drop_last());
        if accepts(
            replay_state(idle(), as_events(arrivals.drop_last())),
            arrivals.last().header.sequence,
        ) {
            earlier.push(arrivals.last())
        } else {
            earlier
        }
    }
}

/// Late arrivals leave no trace. Whatever the order in which packets are
/// delivered, the timeline ends in the state, and has emitted the PCM, that
/// it would have with the on-time arrivals alone; and among those none is
/// past.
pub proof fn lemma_late_arrivals_leave_no_trace(arrivals: Seq<Arrival>)
    ensures
        replay_state(idle(), as_events(arrivals)) == replay_state(
            idle(),
            as_events(on_time_arrivals(arrivals)),
        ),
        replay_emits(idle(), as_events(arrivals)) == replay_emits(
            idle(),
            as_events(on_time_arrivals(arrivals)),
        ),
        none_past(on_time_arrivals(arrivals)),
        on_time_arrivals(arrivals).len() <= arrivals.len(),
    decreases arrivals.len(),
{
    let kept = on_time_arrivals(arrivals);
    if arrivals.len() == 0 {
        assert(as_events(arrivals) =~= as_events(kept));
    } else {
        let before = arrivals.drop_last();
        let newest = arrivals.last();
        let earlier = on_time_arrivals(before);
        lemma_late_arrivals_leave_no_trace(before);
        let events = as_events(arrivals);
        assert(events.drop_last() =~= as_events(before));
        assert(events.last() == TimelineEvent::Packet {
            header: newest.header,
            at: newest.at,
            frame: newest.frame,
        });
        let state = replay_state(idle(), as_events(before));
        if accepts(state, newest.header.sequence) {
            let kept_events = as_events(kept);
            assert(kept_events.drop_last() =~= as_events(earlier));
            assert(kept_events.last() == events.last());
            assert forall|i: int| 0 <= i < kept.len() implies #[trigger] on_time(kept, i) by {
                if i < earlier.len() {
                    assert(kept.take(i) =~= earlier.take(i));
                    assert(on_time(earlier, i));
                } else {
                    assert(kept.take(i) =~= earlier);
                }
            }
        } else {
            assert(replay_emits(idle(), events) =~= replay_emits(idle(), as_events(before)));
        }
    }
}

/// However packets are delivered, each frame that arrived on time stands
/// in its own slot of the emitted PCM and everything else is silence.
pub proof fn lemma_any_delivery_is_slotted(arrivals: Seq<Arrival>)
    requires
        whole_arrivals(arrivals),
        arrivals.len() >= 1,
    ensures
        ({
            let kept = on_time_arrivals(arrivals);
            let pcm = replay_emits(idle(), as_events(arrivals));
            &&& kept.len() >= 1
            &&& kept[0] == arrivals[0]
            &&& pcm.len() == 960 * (slot_of(kept, kept.len() - 1) + 1)
            &&& forall|k: int|
                0 <= k < kept.len() ==> pcm.subrange(
                    960 * #[trigger] slot_of(kept, k),
                    960 * slot_of(kept, k) + 960,
                ) == kept[k].frame
            &&& forall|i: int|
                0 <= i < pcm.len() && !in_a_slot(kept, kept.len() as int, i) ==> #[trigger] pcm[i]
                    == 0
        }),
{
    let kept = on_time_arrivals(arrivals);
    lemma_late_arrivals_leave_no_trace(arrivals);
    lemma_on_time_are_whole(arrivals);
    lemma_first_arrival_is_kept(arrivals, arrivals.len() as int);
    assert(arrivals.take(arrivals.len() as int) =~= arrivals);
    lemma_frames_keep_their_slots(kept);
}

/// The on-time arrivals of whole frames are whole frames.
proof fn lemma_on_time_are_whole(arrivals: Seq<Arrival>)
    requires
        whole_arrivals(arrivals),
    ensures
        whole_arrivals(on_time_arrivals(arrivals)),
    decreases arrivals.len(),
{
    if arrivals.len() > 0 {
        let before = arrivals.drop_last();
        assert forall|i: int| 0 <= i < before.len() implies (#[trigger] before[i]).frame.len()
            == 960 by {
            assert(before[i] == arrivals[i]);
        }
        lemma_on_time_are_whole(before);
        assert(arrivals.last() == arrivals[arrivals.len() - 1]);
    }
}

/// The first arrival of a run is always on time.
proof fn lemma_first_arrival_is_kept(arrivals: Seq<Arrival>, m: int)
    requires
        1 <= m <= arrivals.len(),
    ensures
        on_time_arrivals(arrivals.take(m)).len() >= 1,
        on_time_arrivals(arrivals.take(m))[0] == arrivals[0],
    decreases m,
{
    let prefix = arrivals.take(m);
    assert(prefix.drop_last() =~= arrivals.take(m - 1));
    assert(prefix.last() == arrivals[m - 1]);
    if m == 1 {
        assert(as_events(arrivals.take(0)).len() == 0);
        assert(replay_state(idle(), as_events(arrivals.take(0))) == idle());
        assert(on_time_arrivals(arrivals.take(0)).len() == 0);
    } else {
        lemma_first_arrival_is_kept(arrivals, m - 1);
    }
}

/// Distance between two sequence numbers that lie `a` and `b` places after
/// the same start, both within the reorder window.
proof fn lemma_distance_in_window(start: u16, a: int, b: int)
    requires
        0 <= a < 32767,
        0 <= b < 32767,
    ensures
        a < b ==> forward_distance(advance(start, a), advance(start, b)) == b - a,
        a > b ==> forward_distance(advance(start, a), advance(start, b)) == 65536 - (a - b),
        a == b ==> forward_distance(advance(start, a), advance(start, b)) == 0,
{
    if a <= b {
        let d = (b - a) as u16;
        lemma_position_shift_invariant(0, d, start + a);
        assert(advance(0, start + a) == advance(start, a));
        assert(advance(d, start + a) == advance(start, b));
    } else {
        let d = (a - b) as u16;
        lemma_position_shift_invariant(0, d, start + b);
        assert(advance(0, start + b) == advance(start, b));
        assert(advance(d, start + b) == advance(start, a));
        assert(forward_distance(advance(start, b), advance(start, a)) == a - b);
        lemma_forward_distance_complement(advance(start, b), advance(start, a));
    }
}

/// After the first `i >= 1` of a run of on-time arrivals the timeline is
/// streaming and remembers the sequence number of the newest of them.
proof fn lemma_on_time_state(arrivals: Seq<Arrival>, i: int)
    requires
        none_past(arrivals),
        1 <= i <= arrivals.len(),
    ensures
        replay_state(idle(), as_events(arrivals.take(i))).state is Streaming,
        replay_state(idle(), as_events(arrivals.take(i))).last_sequence == arrivals[i
            - 1].header.sequence,
    decreases i,
{
    let events = as_events(arrivals.take(i));
    assert(events.drop_last() =~= as_events(arrivals.take(i - 1)));
    assert(events.last() == TimelineEvent::Packet {
        header: arrivals[i - 1].header,
        at: arrivals[i - 1].at,
        frame: arrivals[i - 1].frame,
    });
    assert(on_time(arrivals, i - 1));
    if i > 1 {
        lemma_on_time_state(arrivals, i - 1);
    }
}

/// A strictly increasing list of `n` numbers below `n` counts 0, 1, 2, ...
proof fn lemma_increasing_below_len(p: Seq<int>, i: int)
    requires
        forall|k: int| 0 <= k < p.len() ==> 0 <= #[trigger] p[k] < p.len(),
        forall|k: int| 0 < k < p.len() ==> p[k - 1] < #[trigger] p[k],
        0 <= i < p.len(),
    ensures
        p[i] == i,
{
    lemma_increasing_from_below(p, i);
    lemma_increasing_from_above(p, i);
}

proof fn lemma_increasing_from_below(p: Seq<int>, i: int)
    requires
        forall|k: int| 0 <= k < p.len() ==> 0 <= #[trigger] p[k] < p.len(),
        forall|k: int| 0 < k < p.len() ==> p[k - 1] < #[trigger] p[k],
        0 <= i < p.len(),
    ensures
        p[i] >= i,
    decreases i,
{
    if i > 0 {
        lemma_increasing_from_below(p, i - 1);
    }
}

proof fn lemma_increasing_from_above(p: Seq<int>, i: int)
    requires
        forall|k: int| 0 <= k < p.len() ==> 0 <= #[trigger] p[k] < p.len(),
        forall|k: int| 0 < k < p.len() ==> p[k - 1] < #[trigger] p[k],
        0 <= i < p.len(),
    ensures
        p[i] <= i,
    decreases p.len() - i,
{
    if i < p.len() - 1 {
        lemma_increasing_from_above(p, i + 1);
    }
}

/// Loss-tolerant ordering. Take up to a reorder window of packets with
/// consecutive sequence numbers and deliver them in any order in which none
/// arrives after its sequence position is already past. Then they were
/// delivered in order, and the PCM emitted is that of the loss-free ordered
/// delivery, sample for sample.
pub proof fn lemma_reorder_within_window(ordered: Seq<Arrival>, delivered: Seq<Arrival>)
    requires
        ordered.len() <= REORDER_WINDOW,
        loss_free_ordered(ordered),
        delivered.to_multiset() == ordered.to_multiset(),
        none_past(delivered),
    ensures
        delivered == ordered,
        replay_emits(idle(), as_events(delivered)) == replay_emits(idle(), as_events(ordered)),
{
    broadcast use vstd::seq_lib::group_to_multiset_ensures;

    let n = ordered.len() as int;
    assert(delivered.len() == n) by {
        delivered.to_multiset_ensures();
        ordered.to_multiset_ensures();
    }
    if n > 0 {
        let start = ordered[0].header.sequence;
        let p = Seq::new(
            n as nat,
            |i: int| choose|j: int| 0 <= j < n && ordered[j] == delivered[i],
        );
        assert forall|i: int| 0 <= i < n implies 0 <= #[trigger] p[i] < n && ordered[p[i]]
            == delivered[i] by {
            delivered.to_multiset_ensures();
            ordered.to_multiset_ensures();
            assert(delivered.contains(delivered[i]));
            assert(ordered.to_multiset().count(delivered[i]) > 0);
            assert(ordered.contains(delivered[i]));
            let j = choose|j: int| 0 <= j < n && ordered[j] == delivered[i];
            assert(0 <= j < n && ordered[j] == delivered[i]);
        }
        assert forall|k: int| 0 < k < n implies p[k - 1] < #[trigger] p[k] by {
            lemma_on_time_state(delivered, k);
            assert(on_time(delivered, k));
            let a = p[k - 1];
            let b = p[k];
            assert(0 <= a < n && ordered[a] == delivered[k - 1]);
            assert(0 <= b < n && ordered[b] == delivered[k]);
            assert(delivered[k - 1].header.sequence == advance(start, a));
            assert(delivered[k].header.sequence == advance(start, b));
            lemma_distance_in_window(start, a, b);
        }
        assert forall|i: int| 0 <= i < n implies delivered[i] == ordered[i] by {
            assert(0 <= p[i] < n && ordered[p[i]] == delivered[i]);
            lemma_increasing_below_len(p, i);
        }
    }
    assert(delivered =~= ordered);
}

/// An in-order delivery without loss is emitted without any silence: every
/// packet is observed and no gap is inferred, also across the wrap from
/// 65535 to 0.
pub proof fn lemma_in_order_no_silence(ordered: Seq<Arrival>, i: int)
    requires
        loss_free_ordered(ordered),
        0 <= i <= ordered.len(),
    ensures
        observed_frames(idle(), as_events(ordered.take(i))) == i,
        inferred_gap_frames(idle(), as_events(ordered.take(i))) == 0,
        i >= 1 ==> replay_state(idle(), as_events(ordered.take(i))).state is Streaming
            && replay_state(idle(), as_events(ordered.take(i))).last_sequence == ordered[i
            - 1].header.sequence,
    decreases i,
{
    let events = as_events(ordered.take(i));
    if i > 0 {
        lemma_in_order_no_silence(ordered, i - 1);
        assert(events.drop_last() =~= as_events(ordered.take(i - 1)));
        assert(events.last() == TimelineEvent::Packet {
            header: ordered[i - 1].header,
            at: ordered[i - 1].at,
            frame: ordered[i - 1].frame,
        });
        if i > 1 {
            let start = ordered[0].header.sequence;
            let d: u16 = 1;
            lemma_position_shift_invariant(0, d, start + (i - 2));
            assert(advance(0, start + (i - 2)) == advance(start, i - 2));
            assert(advance(d, start + (i - 2)) == advance(start, i - 1));
            assert(ordered[i - 2].header.sequence == advance(start, i - 2));
            assert(ordered[i - 1].header.sequence == advance(start, i - 1));
        }
    }
}

} // verus!
