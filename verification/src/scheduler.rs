//! The per-tick scheduler: runs the systems of one update phase in their
//! fixed, deterministic order.
//!
//! Input capture and movement belong to host-side collaborators; they run
//! before this tick and hand their effects to the store as position updates
//! and queued events.

use vstd::prelude::*;

use crate::event_system::derived_queue;
use crate::event_system::triggered_sounds;
use crate::event_system::EventSystem;
use crate::events::Sound;
use crate::gameplay_state_system::evaluated;
use crate::gameplay_state_system::GameplayStateSystem;
use crate::world::World;
use crate::world::WorldView;

verus! {

/// The store after one full update tick of `delta_ms` milliseconds: the
/// event system drains the queue, buffered destruction requests are
/// committed, the evaluator recomputes the win status from the committed
/// data, and the time accumulator advances.
pub open spec fn after_tick(w: WorldView, delta_ms: u64) -> WorldView {
    let drained = WorldView { events: derived_queue(w, w.events), ..w };
    let committed = drained.after_maintain();
    let scored = evaluated(committed);
    WorldView { time_ms: (scored.time_ms + delta_ms) as u64, ..scored }
}

/// Run one update tick: drain the event queue, commit buffered entity
/// destruction, recompute the win status, and advance elapsed time. The
/// returned audio cues are handed to the audio collaborator by the host,
/// in order.
pub fn tick(world: &mut World, delta_ms: u64) -> (sounds: Vec<Sound>)
    requires
        old(world)@.wf(),
        old(world)@.time_ms + delta_ms <= u64::MAX,
    ensures
        final(world)@.wf(),
        final(world)@ == after_tick(old(world)@, delta_ms),
        sounds@ == triggered_sounds(old(world)@.events),
{
    let mut event_system = EventSystem {};
    let sounds = event_system.run(world);
    world.maintain();
    let mut gameplay_system = GameplayStateSystem {};
    gameplay_system.run(world);
    world.advance_time(delta_ms);
    sounds
}

} // verus!

