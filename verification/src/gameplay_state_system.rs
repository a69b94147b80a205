//! The gameplay state evaluator: recomputes the win/playing status from the
//! current spatial data, from scratch, every tick.

use vstd::prelude::*;

use crate::components::BoxColor;
use crate::world::Gameplay;
use crate::world::GameplayState;
use crate::world::World;
use crate::world::WorldView;

verus! {

/// Whether some live box of color `c` sits at cell `(x, y)`.
pub open spec fn box_at(w: WorldView, x: u8, y: u8, c: BoxColor) -> bool {
    exists|j: int|
        #![trigger w.boxes[j]]
        {
            &&& 0 <= j < w.num()
            &&& w.alive[j]
            &&& w.boxes[j] is Some
            &&& w.boxes[j]->Some_0.color == c
            &&& w.positions[j] is Some
            &&& w.positions[j]->Some_0.x == x
            &&& w.positions[j]->Some_0.y == y
        }
}

/// Whether every live box spot with a position has a live box of matching
/// color at that position.
pub open spec fn all_spots_covered(w: WorldView) -> bool {
    forall|i: int|
        #![trigger w.box_spots[i]]
        (0 <= i < w.num() && w.alive[i] && w.box_spots[i] is Some && w.positions[i] is Some)
            ==> box_at(
            w,
            w.positions[i]->Some_0.x,
            w.positions[i]->Some_0.y,
            w.box_spots[i]->Some_0.color,
        )
}

/// The status the evaluator assigns to a store: `Won` exactly when every
/// spot is covered by a box of matching color. A store with no spots is
/// trivially `Won`.
pub open spec fn eval_state(w: WorldView) -> GameplayState {
    if all_spots_covered(w) {
        GameplayState::Won
    } else {
        GameplayState::Playing
    }
}

/// The store after one evaluator run: the same data with the win status
/// recomputed from scratch and the move counter untouched.
pub open spec fn evaluated(w: WorldView) -> WorldView {
    WorldView {
        gameplay: Gameplay { state: eval_state(w), moves_count: w.gameplay.moves_count },
        ..w
    }
}

/// The stateless win-condition evaluator. It owns no data; each run reads
/// the spatial components and replaces the gameplay status.
pub struct GameplayStateSystem {}

impl GameplayStateSystem {
    /// Recompute the gameplay status from scratch: `Won` iff every box spot
    /// holds a box of matching color. Nothing else in the store changes.
    pub fn run(&mut self, world: &mut World)
        requires
            old(world)@.wf(),
        ensures
            final(world)@.wf(),
            final(world)@ == evaluated(old(world)@),
    {
        let ghost w0 = world@;
        let n = world.num_entities();
        let mut i: usize = 0;
        while i < n
            invariant
                w0 == old(world)@,
                world@ == w0,
                world@.wf(),
                n == w0.num(),
                i <= n,
                forall|ii: int|
                    #![trigger w0.box_spots[ii]]
                    (0 <= ii < i && w0.alive[ii] && w0.box_spots[ii] is Some
                        && w0.positions[ii] is Some) ==> box_at(
                        w0,
                        w0.positions[ii]->Some_0.x,
                        w0.positions[ii]->Some_0.y,
                        w0.box_spots[ii]->Some_0.color,
                    ),
            decreases n - i,
        {
            if let Some(spot) = world.box_spot_of(i) {
                if let Some(pos) = world.position_of(i) {
                    let mut j: usize = 0;
                    let mut found = false;
                    while j < n
                        invariant
                            w0 == old(world)@,
                            world@ == w0,
                            world@.wf(),
                            n == w0.num(),
                            j <= n,
                            found ==> box_at(w0, pos.x, pos.y, spot.color),
                            !found ==> forall|jj: int|
                                #![trigger w0.boxes[jj]]
                                (0 <= jj < j && w0.alive[jj] && w0.boxes[jj] is Some
                                    && w0.positions[jj] is Some) ==> !(w0.boxes[jj]->Some_0.color
                                    == spot.color && w0.positions[jj]->Some_0.x == pos.x
                                    && w0.positions[jj]->Some_0.y == pos.y),
                        decreases n - j,
                    {
                        if let Some(b) = world.box_of(j) {
                            if let Some(q) = world.position_of(j) {
                                if q.x == pos.x && q.y == pos.y && b.color == spot.color {
                                    found = true;
                                }
                            }
                        }
                        j = j + 1;
                    }
                    if !found {
                        proof {
                            assert(!box_at(w0, pos.x, pos.y, spot.color));
                            assert(!all_spots_covered(w0));
                        }
                        world.set_gameplay_state(GameplayState::Playing);
                        return ;
                    }
                }
            }
            i = i + 1;
        }
        proof {
            assert(all_spots_covered(w0));
        }
        world.set_gameplay_state(GameplayState::Won);
    }
}

/// Re-running the evaluator on unchanged spatial data is idempotent: one
/// run is a fixed point, because the status it assigns does not depend on
/// the gameplay resource it replaces.
pub proof fn lemma_evaluator_idempotent(w: WorldView)
    ensures
        evaluated(evaluated(w)) == evaluated(w),
{
    lemma_eval_state_ignores_gameplay(w, evaluated(w).gameplay);
}

/// The status the evaluator assigns reads only the spatial data, never the
/// gameplay resource itself.
pub proof fn lemma_eval_state_ignores_gameplay(w: WorldView, g: Gameplay)
    ensures
        eval_state(WorldView { gameplay: g, ..w }) == eval_state(w),
{
    let w1 = WorldView { gameplay: g, ..w };
    assert(all_spots_covered(w1) == all_spots_covered(w)) by {
        if all_spots_covered(w1) {
            assert forall|i: int|
                #![trigger w.box_spots[i]]
                (0 <= i < w.num() && w.alive[i] && w.box_spots[i] is Some
                    && w.positions[i] is Some) implies box_at(
                w,
                w.positions[i]->Some_0.x,
                w.positions[i]->Some_0.y,
                w.box_spots[i]->Some_0.color,
            ) by {
                assert(w1.box_spots[i] is Some);
                let j = choose|j: int|
                    #![trigger w1.boxes[j]]
                    {
                        &&& 0 <= j < w1.num()
                        &&& w1.alive[j]
                        &&& w1.boxes[j] is Some
                        &&& w1.boxes[j]->Some_0.color == w1.box_spots[i]->Some_0.color
                        &&& w1.positions[j] is Some
                        &&& w1.positions[j]->Some_0.x == w1.positions[i]->Some_0.x
                        &&& w1.positions[j]->Some_0.y == w1.positions[i]->Some_0.y
                    };
                assert(w.boxes[j] is Some);
            }
        }
        if all_spots_covered(w) {
            assert forall|i: int|
                #![trigger w1.box_spots[i]]
                (0 <= i < w1.num() && w1.alive[i] && w1.box_spots[i] is Some
                    && w1.positions[i] is Some) implies box_at(
                w1,
                w1.positions[i]->Some_0.x,
                w1.positions[i]->Some_0.y,
                w1.box_spots[i]->Some_0.color,
            ) by {
                assert(w.box_spots[i] is Some);
                let j = choose|j: int|
                    #![trigger w.boxes[j]]
                    {
                        &&& 0 <= j < w.num()
                        &&& w.alive[j]
                        &&& w.boxes[j] is Some
                        &&& w.boxes[j]->Some_0.color == w.box_spots[i]->Some_0.color
                        &&& w.positions[j] is Some
                        &&& w.positions[j]->Some_0.x == w.positions[i]->Some_0.x
                        &&& w.positions[j]->Some_0.y == w.positions[i]->Some_0.y
                    };
                assert(w1.boxes[j] is Some);
            }
        }
    }
}

} // verus!
