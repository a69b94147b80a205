//! The event system: once per tick it drains the frame-scoped queue,
//! triggers audio cues, and synthesizes derived events.
//!
//! Draining snapshots and clears the queue before processing, so events
//! synthesized during a drain are deferred to the next tick. That one-frame
//! latency is part of the observable contract: it prevents same-tick event
//! cascades.

use vstd::prelude::*;

use crate::components::BoxSpot;
use crate::events::Event;
use crate::events::Sound;
use crate::world::World;
use crate::world::WorldView;

verus! {

/// The first live box spot, by entity id, with a position at cell `(x, y)`,
/// scanning ids from `i` upward.
pub open spec fn first_spot_from(w: WorldView, x: u8, y: u8, i: int) -> Option<BoxSpot>
    decreases w.num() - i,
{
    if i < 0 || i >= w.num() {
        None
    } else if w.alive[i] && w.box_spots[i] is Some && w.positions[i] is Some
        && w.positions[i]->Some_0.x == x && w.positions[i]->Some_0.y == y {
        w.box_spots[i]
    } else {
        first_spot_from(w, x, y, i + 1)
    }
}

/// The first live box spot, by entity id, with a position at cell `(x, y)`.
pub open spec fn first_spot_at(w: WorldView, x: u8, y: u8) -> Option<BoxSpot> {
    first_spot_from(w, x, y, 0)
}

/// The events that processing `e` against store `w` synthesizes for the
/// next tick: an `EntityMoved` whose entity is a box resting on some spot's
/// cell yields one `BoxPlacedOnSpot`, flagged correct exactly when the box
/// and spot colors match; everything else yields nothing.
pub open spec fn derived_events(w: WorldView, e: Event) -> Seq<Event> {
    match e {
        Event::EntityMoved { id } => {
            if w.box_of(id as int) is Some && w.position_of(id as int) is Some {
                let p = w.position_of(id as int)->Some_0;
                match first_spot_at(w, p.x, p.y) {
                    Some(s) => seq![
                        Event::BoxPlacedOnSpot {
                            is_correct_spot: w.box_of(id as int)->Some_0.color == s.color,
                        },
                    ],
                    None => Seq::empty(),
                }
            } else {
                Seq::empty()
            }
        },
        _ => Seq::empty(),
    }
}

/// The audio cues that processing `e` triggers: at most one per event.
pub open spec fn sounds_for(e: Event) -> Seq<Sound> {
    match e {
        Event::PlayerHitObstacle => seq![Sound::Wall],
        Event::EntityMoved { .. } => Seq::empty(),
        Event::BoxPlacedOnSpot { is_correct_spot } => if is_correct_spot {
            seq![Sound::Correct]
        } else {
            seq![Sound::Incorrect]
        },
    }
}

/// The queue left behind after one drain of `q` against store `w`: exactly
/// the derived events, in the order of the events that caused them.
pub open spec fn derived_queue(w: WorldView, q: Seq<Event>) -> Seq<Event>
    decreases q.len(),
{
    if q.len() == 0 {
        Seq::empty()
    } else {
        derived_queue(w, q.drop_last()) + derived_events(w, q.last())
    }
}

/// The audio cues one drain of `q` triggers, in processing order.
pub open spec fn triggered_sounds(q: Seq<Event>) -> Seq<Sound>
    decreases q.len(),
{
    if q.len() == 0 {
        Seq::empty()
    } else {
        triggered_sounds(q.drop_last()) + sounds_for(q.last())
    }
}

/// Scan entity ids upward for the first live box spot at cell `(x, y)`.
fn find_first_spot_at(world: &World, x: u8, y: u8) -> (r: Option<BoxSpot>)
    requires
        world@.wf(),
    ensures
        r == first_spot_at(world@, x, y),
{
    let n = world.num_entities();
    let mut i: usize = 0;
    while i < n
        invariant
            world@.wf(),
            n == world@.num(),
            i <= n,
            first_spot_at(world@, x, y) == first_spot_from(world@, x, y, i as int),
        decreases n - i,
    {
        if let Some(s) = world.box_spot_of(i) {
            if let Some(p) = world.position_of(i) {
                if p.x == x && p.y == y {
                    return Some(s);
                }
            }
        }
        i = i + 1;
    }
    None
}

/// The event system. It owns no data; each run drains the queue once.
pub struct EventSystem {}

impl EventSystem {
    /// Drain the queue once: trigger the audio cues of the drained events,
    /// in order, and leave exactly the events they derive queued for the
    /// next tick. The component tables and the other resources are
    /// untouched; the returned cues are handed to the audio collaborator by
    /// the host, in order.
    pub fn run(&mut self, world: &mut World) -> (sounds: Vec<Sound>)
        requires
            old(world)@.wf(),
        ensures
            final(world)@.wf(),
            final(world)@ == (WorldView {
                events: derived_queue(old(world)@, old(world)@.events),
                ..old(world)@
            }),
            sounds@ == triggered_sounds(old(world)@.events),
    {
        let ghost w0 = world@;
        let mut sounds: Vec<Sound> = Vec::new();
        let mut new_events: Vec<Event> = Vec::new();
        let n = world.queued_events().len();
        let mut k: usize = 0;
        while k < n
            invariant
                w0 == old(world)@,
                world@ == w0,
                world@.wf(),
                n == w0.events.len(),
                k <= n,
                new_events@ == derived_queue(w0, w0.events.take(k as int)),
                sounds@ == triggered_sounds(w0.events.take(k as int)),
            decreases n - k,
        {
            let e = world.queued_events()[k];
            let ghost events_pre = new_events@;
            let ghost sounds_pre = sounds@;
            match e {
                Event::PlayerHitObstacle => {
                    sounds.push(Sound::Wall);
                },
                Event::EntityMoved { id } => {
                    if let Some(b) = world.box_of(id) {
                        if let Some(p) = world.position_of(id) {
                            if let Some(s) = find_first_spot_at(world, p.x, p.y) {
                                new_events.push(
                                    Event::BoxPlacedOnSpot {
                                        is_correct_spot: b.color == s.color,
                                    },
                                );
                            }
                        }
                    }
                },
                Event::BoxPlacedOnSpot { is_correct_spot } => {
                    if is_correct_spot {
                        sounds.push(Sound::Correct);
                    } else {
                        sounds.push(Sound::Incorrect);
                    }
                },
            }
            k = k + 1;
            proof {
                let prefix = w0.events.take(k as int);
                assert(prefix.drop_last() =~= w0.events.take(k as int - 1));
                assert(prefix.last() == e);
                assert(new_events@ =~= events_pre + derived_events(w0, e));
                assert(sounds@ =~= sounds_pre + sounds_for(e));
            }
        }
        proof {
            assert(w0.events.take(n as int) =~= w0.events);
        }
        world.set_events(new_events);
        sounds
    }
}

/// Moving a box exactly onto some spot's cell derives one `BoxPlacedOnSpot`
/// for the following tick — flagged correct exactly when the colors match —
/// and triggers no sound of its own; moving it onto a cell with no spot
/// derives nothing. Either way, a lone `EntityMoved` triggers no cue.
pub proof fn lemma_entity_moved_derivation(w: WorldView, id: usize)
    requires
        w.box_of(id as int) is Some,
        w.position_of(id as int) is Some,
    ensures
        ({
            let p = w.position_of(id as int)->Some_0;
            match first_spot_at(w, p.x, p.y) {
                Some(s) => derived_queue(w, seq![Event::EntityMoved { id }]) == seq![
                    Event::BoxPlacedOnSpot {
                        is_correct_spot: w.box_of(id as int)->Some_0.color == s.color,
                    },
                ],
                None => derived_queue(w, seq![Event::EntityMoved { id }]) == Seq::<Event>::empty(),
            }
        }),
        triggered_sounds(seq![Event::EntityMoved { id }]) == Seq::<Sound>::empty(),
{
    let q = seq![Event::EntityMoved { id }];
    reveal_with_fuel(derived_queue, 2);
    reveal_with_fuel(triggered_sounds, 2);
    assert(q.drop_last() =~= Seq::empty());
    assert(q.last() == Event::EntityMoved { id });
    let p = w.position_of(id as int)->Some_0;
    match first_spot_at(w, p.x, p.y) {
        Some(s) => {
            assert(derived_queue(w, q) =~= seq![
                Event::BoxPlacedOnSpot {
                    is_correct_spot: w.box_of(id as int)->Some_0.color == s.color,
                },
            ]);
        },
        None => {
            assert(derived_queue(w, q) =~= Seq::<Event>::empty());
        },
    }
    assert(triggered_sounds(q) =~= Seq::<Sound>::empty());
}

/// Processing the derived `BoxPlacedOnSpot` on the following tick triggers
/// exactly one cue: "correct" when the spot matched, "incorrect" when it
/// did not — and derives nothing further, whatever the store holds.
pub proof fn lemma_spot_sound(w: WorldView, is_correct_spot: bool)
    ensures
        triggered_sounds(seq![Event::BoxPlacedOnSpot { is_correct_spot }]) == seq![
            if is_correct_spot {
                Sound::Correct
            } else {
                Sound::Incorrect
            },
        ],
        derived_queue(w, seq![Event::BoxPlacedOnSpot { is_correct_spot }]) == Seq::<
            Event,
        >::empty(),
{
    let q = seq![Event::BoxPlacedOnSpot { is_correct_spot }];
    reveal_with_fuel(derived_queue, 2);
    reveal_with_fuel(triggered_sounds, 2);
    assert(q.drop_last() =~= Seq::empty());
    assert(triggered_sounds(q) =~= seq![
        if is_correct_spot {
            Sound::Correct
        } else {
            Sound::Incorrect
        },
    ]);
    assert(derived_queue(w, q) =~= Seq::<Event>::empty());
}

} // verus!
