//! The tick coordinator: the once-per-tick heart of the bridge.
//!
//! Each tick it drains all currently captured audio frames, converts them
//! to PCM buffers for the host to transmit, drains all transcript messages
//! that arrived since the last tick, interprets them, and applies the
//! resulting control events additively to every controllable entity's
//! velocity.  No state persists in the coordinator between ticks beyond
//! the queues it drains.

use vstd::prelude::*;

use crate::command::{events_of, interpret, ControlEvent};
use crate::link::{text_view, AudioReceiver, TranscriptReceiver};
use crate::pcm::{frame_to_pcm, pcm_of};

verus! {

/// The fixed velocity adjustment one control event applies, in velocity
/// units per axis.
pub const VELOCITY_DELTA: i64 = 400;

/// The velocity state of one controllable entity, in integer velocity
/// units on each axis.
#[derive(Clone, Copy, Debug, PartialEq, Eq, Structural)]
pub struct EntityVelocity {
    pub x: i64,
    pub y: i64,
}

/// The horizontal velocity adjustment of one control event.
pub open spec fn delta_x(e: ControlEvent) -> int {
    match e {
        ControlEvent::MoveLeft => -(VELOCITY_DELTA as int),
        ControlEvent::MoveRight => VELOCITY_DELTA as int,
        _ => 0,
    }
}

/// The vertical velocity adjustment of one control event.
pub open spec fn delta_y(e: ControlEvent) -> int {
    match e {
        ControlEvent::MoveUp => VELOCITY_DELTA as int,
        ControlEvent::MoveDown => -(VELOCITY_DELTA as int),
        _ => 0,
    }
}

/// Addition on one velocity axis, saturating at the representable bounds.
pub open spec fn sat_i64(x: int) -> int {
    if x < i64::MIN {
        i64::MIN as int
    } else if x > i64::MAX {
        i64::MAX as int
    } else {
        x
    }
}

/// The velocity after one control event: the event's delta is added on
/// the matching axis, saturating at the representable bounds.
pub open spec fn apply_event(v: EntityVelocity, e: ControlEvent) -> EntityVelocity {
    EntityVelocity { x: sat_i64(v.x + delta_x(e)) as i64, y: sat_i64(v.y + delta_y(e)) as i64 }
}

/// The velocity after a sequence of control events, applied in order.
pub open spec fn apply_events(v: EntityVelocity, evs: Seq<ControlEvent>) -> EntityVelocity
    decreases evs.len(),
{
    if evs.len() == 0 {
        v
    } else {
        apply_event(apply_events(v, evs.drop_last()), evs.last())
    }
}

/// The control events of one drained inbound message: a non-text frame
/// contributes none.
pub open spec fn events_of_text(m: Option<Seq<u8>>) -> Seq<ControlEvent> {
    match m {
        Option::Some(t) => events_of(t),
        Option::None => Seq::<ControlEvent>::empty(),
    }
}

/// All control events of one tick: the events of each drained message,
/// in arrival order.
pub open spec fn tick_events(msgs: Seq<Option<Seq<u8>>>) -> Seq<ControlEvent>
    decreases msgs.len(),
{
    if msgs.len() == 0 {
        Seq::<ControlEvent>::empty()
    } else {
        tick_events(msgs.drop_last()) + events_of_text(msgs.last())
    }
}

/// Saturating addition on one velocity axis.
fn sat_add(a: i64, d: i64) -> (r: i64)
    ensures
        r as int == sat_i64(a + d),
{
    if d >= 0 {
        if a > i64::MAX - d {
            i64::MAX
        } else {
            a + d
        }
    } else {
        if a < i64::MIN - d {
            i64::MIN
        } else {
            a + d
        }
    }
}

/// Applies one control event to one entity's velocity.
fn apply_one(v: EntityVelocity, e: ControlEvent) -> (r: EntityVelocity)
    ensures
        r == apply_event(v, e),
{
    match e {
        ControlEvent::MoveUp => EntityVelocity { x: v.x, y: sat_add(v.y, VELOCITY_DELTA) },
        ControlEvent::MoveDown => EntityVelocity { x: v.x, y: sat_add(v.y, -VELOCITY_DELTA) },
        ControlEvent::MoveLeft => EntityVelocity { x: sat_add(v.x, -VELOCITY_DELTA), y: v.y },
        ControlEvent::MoveRight => EntityVelocity { x: sat_add(v.x, VELOCITY_DELTA), y: v.y },
    }
}

/// Applies a sequence of control events, in order, to every entity of the
/// host's controllable set.  Events are additive: each adds its fixed
/// delta to the velocity on the matching axis.
pub fn apply_events_all(entities: &mut Vec<EntityVelocity>, events: &Vec<ControlEvent>)
    ensures
        final(entities)@.len() == old(entities)@.len(),
        forall|i: int|
            0 <= i < old(entities)@.len() ==> final(entities)@[i] == apply_events(
                old(entities)@[i],
                events@,
            ),
{
    let ghost ents0 = entities@;
    let n: usize = entities.len();
    let mut out: Vec<EntityVelocity> = Vec::new();
    let mut i: usize = 0;
    while i < n
        invariant
            n == ents0.len(),
            entities@ == ents0,
            i <= n,
            out@.len() == i,
            forall|p: int| 0 <= p < i ==> out@[p] == apply_events(ents0[p], events@),
        decreases n - i,
    {
        let mut cur: EntityVelocity = entities[i];
        let mut j: usize = 0;
        while j < events.len()
            invariant
                i < ents0.len(),
                entities@ == ents0,
                cur == apply_events(ents0[i as int], events@.take(j as int)),
                j <= events@.len(),
            decreases events@.len() - j,
        {
            cur = apply_one(cur, events[j]);
            proof {
                assert(events@.take(j + 1).drop_last() =~= events@.take(j as int));
                assert(events@.take(j + 1).last() == events@[j as int]);
            }
            j = j + 1;
        }
        proof {
            assert(events@.take(events@.len() as int) =~= events@);
        }
        out.push(cur);
        i = i + 1;
    }
    *entities = out;
}

/// Two consecutive ticks accumulate: driving a tick whose events are `a`
/// and then one whose events are `b` leaves an entity exactly where one
/// tick with the concatenated events would have.  Control events are thus
/// additive and non-idempotent across ticks.
pub proof fn lemma_ticks_accumulate(v: EntityVelocity, a: Seq<ControlEvent>, b: Seq<ControlEvent>)
    ensures
        apply_events(apply_events(v, a), b) == apply_events(v, a + b),
    decreases b.len(),
{
    if b.len() == 0 {
        assert(a + b =~= a);
    } else {
        lemma_ticks_accumulate(v, a, b.drop_last());
        assert((a + b).drop_last() =~= a + b.drop_last());
        assert((a + b).last() == b.last());
    }
}

/// Repeating one control event in each of two consecutive ticks moves the
/// velocity by that event's delta twice, not once, provided neither
/// addition saturates.
pub proof fn lemma_event_accumulates_twice(v: EntityVelocity, e: ControlEvent)
    requires
        i64::MIN + 2 * VELOCITY_DELTA <= v.x <= i64::MAX - 2 * VELOCITY_DELTA,
        i64::MIN + 2 * VELOCITY_DELTA <= v.y <= i64::MAX - 2 * VELOCITY_DELTA,
    ensures
        apply_events(apply_events(v, seq![e]), seq![e]).x == v.x + 2 * delta_x(e),
        apply_events(apply_events(v, seq![e]), seq![e]).y == v.y + 2 * delta_y(e),
{
    let s = seq![e];
    assert(s.len() == 1);
    assert(s.last() == e);
    assert(s.drop_last() =~= Seq::<ControlEvent>::empty());
    assert(apply_events(v, Seq::<ControlEvent>::empty()) == v);
    assert(apply_events(v, s) == apply_event(apply_events(v, s.drop_last()), s.last()));
    assert(apply_events(v, s) == apply_event(v, e));
    let w = apply_event(v, e);
    assert(apply_events(w, s) == apply_event(apply_events(w, s.drop_last()), s.last()));
    assert(apply_events(apply_events(v, s), s) == apply_event(apply_event(v, e), e));
}

/// One simulation tick of the bridge.  Drains every currently captured
/// audio frame and returns its PCM buffer, in arrival order, for the host
/// to transmit; drains every transcript message that arrived since the
/// last tick and applies the interpreted control events, in arrival
/// order, to every entity of the controllable set.  With both queues
/// empty the tick changes nothing and produces nothing to send.
pub fn drive(
    audio: &mut AudioReceiver,
    transcripts: &mut TranscriptReceiver,
    entities: &mut Vec<EntityVelocity>,
) -> (outbound: Vec<Vec<u8>>)
    ensures
        outbound@.map_values(|b: Vec<u8>| b@) == old(audio).frames().map_values(
            |f: Seq<i64>| pcm_of(f),
        ),
        final(audio).frames().len() == 0,
        final(transcripts).texts().len() == 0,
        final(entities)@.len() == old(entities)@.len(),
        forall|i: int|
            0 <= i < old(entities)@.len() ==> final(entities)@[i] == apply_events(
                old(entities)@[i],
                tick_events(old(transcripts).texts()),
            ),
        old(audio).frames().len() == 0 && old(transcripts).texts().len() == 0 ==> outbound@.len()
            == 0 && final(entities)@ == old(entities)@,
{
    let ghost frames0 = audio.frames();
    let ghost texts0 = transcripts.texts();
    let ghost ents0 = entities@;

    let frames: Vec<Vec<i64>> = audio.drain_frames();
    let mut outbound: Vec<Vec<u8>> = Vec::new();
    let mut i: usize = 0;
    while i < frames.len()
        invariant
            frames@.map_values(|f: Vec<i64>| f@) == frames0,
            i <= frames@.len(),
            outbound@.map_values(|b: Vec<u8>| b@) == frames0.map_values(|f: Seq<i64>| pcm_of(f))
                .take(i as int),
        decreases frames@.len() - i,
    {
        let ghost pre = outbound@.map_values(|b: Vec<u8>| b@);
        let buf: Vec<u8> = frame_to_pcm(&frames[i]);
        outbound.push(buf);
        proof {
            assert(outbound@.map_values(|b: Vec<u8>| b@) =~= pre.push(pcm_of(frames@[i as int]@)));
            assert(frames0.map_values(|f: Seq<i64>| pcm_of(f)).take(i + 1) =~= frames0.map_values(
                |f: Seq<i64>| pcm_of(f),
            ).take(i as int).push(pcm_of(frames0[i as int])));
        }
        i = i + 1;
    }
    proof {
        assert(frames0.map_values(|f: Seq<i64>| pcm_of(f)).take(frames0.len() as int)
            =~= frames0.map_values(|f: Seq<i64>| pcm_of(f)));
    }

    let msgs: Vec<Option<Vec<u8>>> = transcripts.drain_texts();
    let ghost msgsv = msgs@.map_values(|m: Option<Vec<u8>>| text_view(m));
    let mut k: usize = 0;
    while k < msgs.len()
        invariant
            msgs@.map_values(|m: Option<Vec<u8>>| text_view(m)) == texts0,
            msgsv == texts0,
            k <= msgs@.len(),
            entities@.len() == ents0.len(),
            forall|p: int|
                0 <= p < ents0.len() ==> entities@[p] == apply_events(
                    ents0[p],
                    tick_events(msgsv.take(k as int)),
                ),
        decreases msgs@.len() - k,
    {
        let ghost applied = tick_events(msgsv.take(k as int));
        proof {
            assert(msgsv.take(k + 1).drop_last() =~= msgsv.take(k as int));
            assert(msgsv.take(k + 1).last() == msgsv[k as int]);
            assert(tick_events(msgsv.take(k + 1)) == applied + events_of_text(msgsv[k as int]));
        }
        let m: &Option<Vec<u8>> = &msgs[k];
        match m {
            Option::Some(t) => {
                let events: Vec<ControlEvent> = interpret(t.as_slice());
                proof {
                    assert(text_view(msgs@[k as int]) == msgsv[k as int]);
                    assert(events@ == events_of_text(msgsv[k as int]));
                }
                apply_events_all(entities, &events);
                proof {
                    assert forall|p: int| 0 <= p < ents0.len() implies entities@[p]
                        == apply_events(ents0[p], tick_events(msgsv.take(k + 1))) by {
                        lemma_ticks_accumulate(ents0[p], applied, events@);
                    }
                }
            },
            Option::None => {
                proof {
                    assert(text_view(msgs@[k as int]) == msgsv[k as int]);
                    assert(events_of_text(msgsv[k as int]) =~= Seq::<ControlEvent>::empty());
                    assert forall|p: int| 0 <= p < ents0.len() implies entities@[p]
                        == apply_events(ents0[p], tick_events(msgsv.take(k + 1))) by {
                        lemma_ticks_accumulate(
                            ents0[p],
                            applied,
                            events_of_text(msgsv[k as int]),
                        );
                        assert(applied + events_of_text(msgsv[k as int]) =~= applied);
                    }
                }
            },
        }
        k = k + 1;
    }
    proof {
        assert(msgsv.take(msgsv.len() as int) =~= msgsv);
        if frames0.len() == 0 && texts0.len() == 0 {
            assert(entities@ =~= ents0);
        }
    }
    outbound
}

} // verus!
