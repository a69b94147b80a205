//! The entity/component store and the process-wide resources.
//!
//! Entities are dense integer ids into parallel component tables. Creation is
//! immediate; destruction requests are buffered and applied at a single
//! `maintain` commit point at the end of an update phase, so no table changes
//! shape while a system is iterating it.

use vstd::prelude::*;

use crate::components::BoxSpot;
use crate::components::GameBox;
use crate::components::Position;
use crate::components::Renderable;
use crate::components::RenderableView;
use crate::events::Event;

verus! {

/// Whether the current level is still being played or has been won.
#[derive(Clone, Copy, Debug, PartialEq, Eq, Structural)]
pub enum GameplayState {
    Playing,
    Won,
}

/// Process-wide gameplay resource: the win/playing status and the number of
/// moves made so far. Replaced, not merged, each time the evaluator runs.
#[derive(Clone, Copy, Debug, PartialEq, Eq, Structural)]
pub struct Gameplay {
    pub state: GameplayState,
    pub moves_count: u32,
}

/// Mathematical model of a [`World`]: every component table as a sequence
/// indexed by entity id, plus the singleton resources.
#[verifier::ext_equal]
pub struct WorldView {
    pub alive: Seq<bool>,
    pub positions: Seq<Option<Position>>,
    pub renderables: Seq<Option<RenderableView>>,
    pub boxes: Seq<Option<GameBox>>,
    pub box_spots: Seq<Option<BoxSpot>>,
    pub players: Seq<bool>,
    pub walls: Seq<bool>,
    pub floors: Seq<bool>,
    pub pending_deletions: Seq<usize>,
    pub gameplay: Gameplay,
    pub time_ms: u64,
    pub events: Seq<Event>,
}

/// The view of an optional renderable component.
pub open spec fn opt_rend_view(r: Option<Renderable>) -> Option<RenderableView> {
    match r {
        Some(x) => Some(x@),
        None => None,
    }
}

impl WorldView {
    /// The number of entity ids ever created (alive or not).
    pub open spec fn num(self) -> int {
        self.alive.len() as int
    }

    /// All component tables cover exactly the created ids, and every stored
    /// renderable is well formed.
    pub open spec fn wf(self) -> bool {
        &&& self.positions.len() == self.alive.len()
        &&& self.renderables.len() == self.alive.len()
        &&& self.boxes.len() == self.alive.len()
        &&& self.box_spots.len() == self.alive.len()
        &&& self.players.len() == self.alive.len()
        &&& self.walls.len() == self.alive.len()
        &&& self.floors.len() == self.alive.len()
        &&& forall|i: int|
            0 <= i < self.num() ==> match #[trigger] self.renderables[i] {
                Some(r) => r.wf(),
                None => true,
            }
    }

    /// Whether `id` names a live entity.
    pub open spec fn live(self, id: int) -> bool {
        0 <= id < self.num() && self.alive[id]
    }

    /// The position component of entity `id`, if the entity is live and has
    /// one.
    pub open spec fn position_of(self, id: int) -> Option<Position> {
        if self.live(id) {
            self.positions[id]
        } else {
            None
        }
    }

    /// The box component of entity `id`, if the entity is live and has one.
    pub open spec fn box_of(self, id: int) -> Option<GameBox> {
        if self.live(id) {
            self.boxes[id]
        } else {
            None
        }
    }

    /// The box-spot component of entity `id`, if the entity is live and has
    /// one.
    pub open spec fn box_spot_of(self, id: int) -> Option<BoxSpot> {
        if self.live(id) {
            self.box_spots[id]
        } else {
            None
        }
    }

    /// The renderable component of entity `id`, if the entity is live and
    /// has one.
    pub open spec fn renderable_of(self, id: int) -> Option<RenderableView> {
        if self.live(id) {
            self.renderables[id]
        } else {
            None
        }
    }

    /// Entity `i` has lost its live mark and all its components.
    pub open spec fn cleared_at(self, i: int) -> bool {
        &&& !self.alive[i]
        &&& self.positions[i] is None
        &&& self.renderables[i] is None
        &&& self.boxes[i] is None
        &&& self.box_spots[i] is None
        &&& !self.players[i]
        &&& !self.walls[i]
        &&& !self.floors[i]
    }

    /// Entity `i` carries the same live mark and components in `self` as in
    /// `other`.
    pub open spec fn same_entity_at(self, other: WorldView, i: int) -> bool {
        &&& self.alive[i] == other.alive[i]
        &&& self.positions[i] == other.positions[i]
        &&& self.renderables[i] == other.renderables[i]
        &&& self.boxes[i] == other.boxes[i]
        &&& self.box_spots[i] == other.box_spots[i]
        &&& self.players[i] == other.players[i]
        &&& self.walls[i] == other.walls[i]
        &&& self.floors[i] == other.floors[i]
    }

    /// The store after the buffered destruction requests are applied: every
    /// pending id loses its components and its live mark, everything else is
    /// untouched, and the buffer is empty.
    pub open spec fn after_maintain(self) -> WorldView {
        WorldView {
            alive: Seq::new(self.alive.len(), |i: int| !self.pending_deletions.contains(i as usize) && self.alive[i]),
            positions: Seq::new(self.positions.len(), |i: int| if self.pending_deletions.contains(i as usize) { None } else { self.positions[i] }),
            renderables: Seq::new(self.renderables.len(), |i: int| if self.pending_deletions.contains(i as usize) { None } else { self.renderables[i] }),
            boxes: Seq::new(self.boxes.len(), |i: int| if self.pending_deletions.contains(i as usize) { None } else { self.boxes[i] }),
            box_spots: Seq::new(self.box_spots.len(), |i: int| if self.pending_deletions.contains(i as usize) { None } else { self.box_spots[i] }),
            players: Seq::new(self.players.len(), |i: int| !self.pending_deletions.contains(i as usize) && self.players[i]),
            walls: Seq::new(self.walls.len(), |i: int| !self.pending_deletions.contains(i as usize) && self.walls[i]),
            floors: Seq::new(self.floors.len(), |i: int| !self.pending_deletions.contains(i as usize) && self.floors[i]),
            pending_deletions: Seq::empty(),
            ..self
        }
    }
}

/// The entity/component store together with the gameplay, time, and
/// event-queue resources. One instance per running game.
pub struct World {
    pub(crate) alive: Vec<bool>,
    pub(crate) positions: Vec<Option<Position>>,
    pub(crate) renderables: Vec<Option<Renderable>>,
    pub(crate) boxes: Vec<Option<GameBox>>,
    pub(crate) box_spots: Vec<Option<BoxSpot>>,
    pub(crate) players: Vec<bool>,
    pub(crate) walls: Vec<bool>,
    pub(crate) floors: Vec<bool>,
    pub(crate) pending_deletions: Vec<usize>,
    pub(crate) gameplay: Gameplay,
    pub(crate) time_ms: u64,
    pub(crate) events: Vec<Event>,
}

impl View for World {
    type V = WorldView;

    open(crate) spec fn view(&self) -> WorldView {
        WorldView {
            alive: self.alive@,
            positions: self.positions@,
            renderables: self.renderables@.map_values(|r: Option<Renderable>| opt_rend_view(r)),
            boxes: self.boxes@,
            box_spots: self.box_spots@,
            players: self.players@,
            walls: self.walls@,
            floors: self.floors@,
            pending_deletions: self.pending_deletions@,
            gameplay: self.gameplay,
            time_ms: self.time_ms,
            events: self.events@,
        }
    }
}

impl World {
    /// Whether the store and its resources are well formed.
    pub open spec fn wf(self) -> bool {
        self@.wf()
    }

    /// A fresh world: no entities, no pending requests, an empty event
    /// queue, zero elapsed time, and a playing state with zero moves.
    pub fn new() -> (w: World)
        ensures
            w@.wf(),
            w@.num() == 0,
            w@.pending_deletions == Seq::<usize>::empty(),
            w@.gameplay == (Gameplay { state: GameplayState::Playing, moves_count: 0 }),
            w@.time_ms == 0,
            w@.events == Seq::<Event>::empty(),
    {
        let w = World {
            alive: Vec::new(),
            positions: Vec::new(),
            renderables: Vec::new(),
            boxes: Vec::new(),
            box_spots: Vec::new(),
            players: Vec::new(),
            walls: Vec::new(),
            floors: Vec::new(),
            pending_deletions: Vec::new(),
            gameplay: Gameplay { state: GameplayState::Playing, moves_count: 0 },
            time_ms: 0,
            events: Vec::new(),
        };
        proof {
            assert(w@.renderables =~= Seq::<Option<RenderableView>>::empty());
        }
        w
    }

    /// Create a fresh entity with no components and return its id.
    pub fn create_entity(&mut self) -> (id: usize)
        requires
            old(self)@.wf(),
        ensures
            final(self)@.wf(),
            id == old(self)@.num(),
            final(self)@ == (WorldView {
                alive: old(self)@.alive.push(true),
                positions: old(self)@.positions.push(None),
                renderables: old(self)@.renderables.push(None),
                boxes: old(self)@.boxes.push(None),
                box_spots: old(self)@.box_spots.push(None),
                players: old(self)@.players.push(false),
                walls: old(self)@.walls.push(false),
                floors: old(self)@.floors.push(false),
                ..old(self)@
            }),
    {
        let id = self.alive.len();
        self.alive.push(true);
        self.positions.push(None);
        self.renderables.push(None);
        self.boxes.push(None);
        self.box_spots.push(None);
        self.players.push(false);
        self.walls.push(false);
        self.floors.push(false);
        proof {
            assert(self.renderables@.map_values(|r: Option<Renderable>| opt_rend_view(r))
                =~= old(self)@.renderables.push(None));
        }
        id
    }

    /// Give entity `id` a position, replacing any it already had.
    pub fn insert_position(&mut self, id: usize, p: Position)
        requires
            old(self)@.wf(),
            id < old(self)@.num(),
        ensures
            final(self)@.wf(),
            final(self)@ == (WorldView {
                positions: old(self)@.positions.update(id as int, Some(p)),
                ..old(self)@
            }),
    {
        self.positions[id] = Some(p);
    }

    /// Give entity `id` a renderable, replacing any it already had.
    pub fn insert_renderable(&mut self, id: usize, r: Renderable)
        requires
            old(self)@.wf(),
            id < old(self)@.num(),
            r@.wf(),
        ensures
            final(self)@.wf(),
            final(self)@ == (WorldView {
                renderables: old(self)@.renderables.update(id as int, Some(r@)),
                ..old(self)@
            }),
    {
        let ghost rv = r@;
        self.renderables[id] = Some(r);
        proof {
            assert(self.renderables@.map_values(|x: Option<Renderable>| opt_rend_view(x))
                =~= old(self)@.renderables.update(id as int, Some(rv)));
        }
    }

    /// Mark entity `id` as a box of the given color.
    pub fn insert_box(&mut self, id: usize, b: GameBox)
        requires
            old(self)@.wf(),
            id < old(self)@.num(),
        ensures
            final(self)@.wf(),
            final(self)@ == (WorldView {
                boxes: old(self)@.boxes.update(id as int, Some(b)),
                ..old(self)@
            }),
    {
        self.boxes[id] = Some(b);
    }

    /// Mark entity `id` as a box spot of the given color.
    pub fn insert_box_spot(&mut self, id: usize, s: BoxSpot)
        requires
            old(self)@.wf(),
            id < old(self)@.num(),
        ensures
            final(self)@.wf(),
            final(self)@ == (WorldView {
                box_spots: old(self)@.box_spots.update(id as int, Some(s)),
                ..old(self)@
            }),
    {
        self.box_spots[id] = Some(s);
    }

    /// Mark entity `id` as the player.
    pub fn mark_player(&mut self, id: usize)
        requires
            old(self)@.wf(),
            id < old(self)@.num(),
        ensures
            final(self)@.wf(),
            final(self)@ == (WorldView {
                players: old(self)@.players.update(id as int, true),
                ..old(self)@
            }),
    {
        self.players[id] = true;
    }

    /// Mark entity `id` as a wall.
    pub fn mark_wall(&mut self, id: usize)
        requires
            old(self)@.wf(),
            id < old(self)@.num(),
        ensures
            final(self)@.wf(),
            final(self)@ == (WorldView {
                walls: old(self)@.walls.update(id as int, true),
                ..old(self)@
            }),
    {
        self.walls[id] = true;
    }

    /// Mark entity `id` as a floor tile.
    pub fn mark_floor(&mut self, id: usize)
        requires
            old(self)@.wf(),
            id < old(self)@.num(),
        ensures
            final(self)@.wf(),
            final(self)@ == (WorldView {
                floors: old(self)@.floors.update(id as int, true),
                ..old(self)@
            }),
    {
        self.floors[id] = true;
    }

    /// Request destruction of entity `id`. The request is buffered and takes
    /// effect only at the next [`World::maintain`] commit point.
    pub fn delete_entity(&mut self, id: usize)
        requires
            old(self)@.wf(),
        ensures
            final(self)@.wf(),
            final(self)@ == (WorldView {
                pending_deletions: old(self)@.pending_deletions.push(id),
                ..old(self)@
            }),
    {
        self.pending_deletions.push(id);
    }

    /// Apply all buffered destruction requests and clear the buffer.
    pub fn maintain(&mut self)
        requires
            old(self)@.wf(),
        ensures
            final(self)@.wf(),
            final(self)@ == old(self)@.after_maintain(),
    {
        let ghost w0 = self@;
        proof {
            assert(w0.alive.len() == vstd::std_specs::vec::spec_vec_len(&self.alive));
        }
        let mut k: usize = 0;
        while k < self.pending_deletions.len()
            invariant
                self@.wf(),
                k <= w0.pending_deletions.len(),
                self@.pending_deletions == w0.pending_deletions,
                self@.gameplay == w0.gameplay,
                self@.time_ms == w0.time_ms,
                self@.events == w0.events,
                self@.alive.len() == w0.alive.len(),
                forall|i: usize|
                    i < w0.num() ==> {
                        if #[trigger] w0.pending_deletions.take(k as int).contains(i) {
                            self@.cleared_at(i as int)
                        } else {
                            self@.same_entity_at(w0, i as int)
                        }
                    },
            decreases w0.pending_deletions.len() - k,
        {
            let ghost wpre = self@;
            let ghost kpre = k as int;
            let id = self.pending_deletions[k];
            if id < self.alive.len() {
                self.alive[id] = false;
                self.positions[id] = None;
                self.renderables[id] = None;
                self.boxes[id] = None;
                self.box_spots[id] = None;
                self.players[id] = false;
                self.walls[id] = false;
                self.floors[id] = false;
                proof {
                    assert(self.renderables@.map_values(|x: Option<Renderable>| opt_rend_view(x))
                        =~= wpre.renderables.update(id as int, None));
                }
            }
            k = k + 1;
            proof {
                let pend = w0.pending_deletions;
                assert(pend.take(k as int) =~= pend.take(kpre).push(id));
                assert forall|i: usize| i < w0.num() implies {
                    if #[trigger] pend.take(k as int).contains(i) {
                        self@.cleared_at(i as int)
                    } else {
                        self@.same_entity_at(w0, i as int)
                    }
                } by {
                    if pend.take(k as int).contains(i) {
                        if pend.take(kpre).contains(i) {
                            assert(wpre.cleared_at(i as int));
                        } else {
                            let j = choose|j: int|
                                0 <= j < pend.take(k as int).len()
                                    && pend.take(k as int)[j] == i;
                            assert(j == kpre);
                            assert(i == id);
                        }
                    } else {
                        assert(!pend.take(kpre).contains(i)) by {
                            if pend.take(kpre).contains(i) {
                                let j = choose|j: int|
                                    0 <= j < pend.take(kpre).len() && pend.take(kpre)[j] == i;
                                assert(pend.take(k as int)[j] == i);
                            }
                        }
                        assert(wpre.same_entity_at(w0, i as int));
                        assert(i != id) by {
                            if i == id {
                                assert(pend.take(k as int)[kpre] == i);
                            }
                        }
                    }
                }
            }
        }
        self.pending_deletions.clear();
        proof {
            let pend = w0.pending_deletions;
            assert(pend.take(pend.len() as int) =~= pend);
            let target = w0.after_maintain();
            assert forall|i: int| 0 <= i < w0.num() implies {
                &&& self@.alive[i] == target.alive[i]
                &&& self@.positions[i] == target.positions[i]
                &&& self@.renderables[i] == target.renderables[i]
                &&& self@.boxes[i] == target.boxes[i]
                &&& self@.box_spots[i] == target.box_spots[i]
                &&& self@.players[i] == target.players[i]
                &&& self@.walls[i] == target.walls[i]
                &&& self@.floors[i] == target.floors[i]
            } by {
                let iu = i as usize;
                if pend.take(pend.len() as int).contains(iu) {
                    assert(self@.cleared_at(i));
                    assert(pend.contains(iu));
                } else {
                    assert(self@.same_entity_at(w0, i));
                    assert(!pend.contains(iu));
                }
            }
            assert(self@.alive =~= target.alive);
            assert(self@.positions =~= target.positions);
            assert(self@.renderables =~= target.renderables);
            assert(self@.boxes =~= target.boxes);
            assert(self@.box_spots =~= target.box_spots);
            assert(self@.players =~= target.players);
            assert(self@.walls =~= target.walls);
            assert(self@.floors =~= target.floors);
            assert(self@.pending_deletions =~= target.pending_deletions);
            assert(self@ =~= target);
        }
    }

    /// Append an event to the frame-scoped queue.
    pub fn push_event(&mut self, e: Event)
        requires
            old(self)@.wf(),
        ensures
            final(self)@.wf(),
            final(self)@ == (WorldView { events: old(self)@.events.push(e), ..old(self)@ }),
    {
        self.events.push(e);
    }

    /// Replace the whole event queue, as the event system's drain does.
    pub fn set_events(&mut self, evs: Vec<Event>)
        requires
            old(self)@.wf(),
        ensures
            final(self)@.wf(),
            final(self)@ == (WorldView { events: evs@, ..old(self)@ }),
    {
        self.events = evs;
    }

    /// The number of entity ids ever created (alive or not).
    pub fn num_entities(&self) -> (n: usize)
        ensures
            n == self@.num(),
    {
        self.alive.len()
    }

    /// The position component of entity `id`, if `id` is live and has one.
    pub fn position_of(&self, id: usize) -> (r: Option<Position>)
        requires
            self@.wf(),
        ensures
            r == self@.position_of(id as int),
    {
        if id < self.alive.len() && self.alive[id] {
            self.positions[id]
        } else {
            None
        }
    }

    /// The box component of entity `id`, if `id` is live and has one.
    pub fn box_of(&self, id: usize) -> (r: Option<GameBox>)
        requires
            self@.wf(),
        ensures
            r == self@.box_of(id as int),
    {
        if id < self.alive.len() && self.alive[id] {
            self.boxes[id]
        } else {
            None
        }
    }

    /// The box-spot component of entity `id`, if `id` is live and has one.
    pub fn box_spot_of(&self, id: usize) -> (r: Option<BoxSpot>)
        requires
            self@.wf(),
        ensures
            r == self@.box_spot_of(id as int),
    {
        if id < self.alive.len() && self.alive[id] {
            self.box_spots[id]
        } else {
            None
        }
    }

    /// The renderable component of entity `id`, if `id` is live and has one.
    pub fn renderable_of(&self, id: usize) -> (r: Option<&Renderable>)
        requires
            self@.wf(),
        ensures
            match r {
                Some(x) => self@.renderable_of(id as int) == Some(x@),
                None => self@.renderable_of(id as int) is None,
            },
    {
        if id < self.alive.len() && self.alive[id] {
            proof {
                assert(self@.renderables[id as int] == opt_rend_view(self.renderables@[id as int]));
            }
            self.renderables[id].as_ref()
        } else {
            None
        }
    }

    /// Whether entity `id` is live and marked as a wall.
    pub fn is_wall(&self, id: usize) -> (r: bool)
        requires
            self@.wf(),
        ensures
            r == (self@.live(id as int) && self@.walls[id as int]),
    {
        id < self.alive.len() && self.alive[id] && self.walls[id]
    }

    /// Whether entity `id` is live and marked as the player.
    pub fn is_player(&self, id: usize) -> (r: bool)
        requires
            self@.wf(),
        ensures
            r == (self@.live(id as int) && self@.players[id as int]),
    {
        id < self.alive.len() && self.alive[id] && self.players[id]
    }

    /// Whether entity `id` is live and marked as a floor tile.
    pub fn is_floor(&self, id: usize) -> (r: bool)
        requires
            self@.wf(),
        ensures
            r == (self@.live(id as int) && self@.floors[id as int]),
    {
        id < self.alive.len() && self.alive[id] && self.floors[id]
    }

    /// The gameplay resource.
    pub fn gameplay(&self) -> (g: Gameplay)
        ensures
            g == self@.gameplay,
    {
        self.gameplay
    }

    /// Elapsed simulation time, in milliseconds.
    pub fn time_ms(&self) -> (t: u64)
        ensures
            t == self@.time_ms,
    {
        self.time_ms
    }

    /// The events currently queued for the next drain.
    pub fn queued_events(&self) -> (r: &Vec<Event>)
        ensures
            r@ == self@.events,
    {
        &self.events
    }

    /// Replace the win/playing status, leaving the move counter alone.
    pub fn set_gameplay_state(&mut self, s: GameplayState)
        requires
            old(self)@.wf(),
        ensures
            final(self)@.wf(),
            final(self)@ == (WorldView {
                gameplay: Gameplay {
                    state: s,
                    moves_count: old(self)@.gameplay.moves_count,
                },
                ..old(self)@
            }),
    {
        self.gameplay.state = s;
    }

    /// Advance the elapsed-time accumulator by one frame's delta.
    pub fn advance_time(&mut self, delta_ms: u64)
        requires
            old(self)@.wf(),
            old(self)@.time_ms + delta_ms <= u64::MAX,
        ensures
            final(self)@.wf(),
            final(self)@ == (WorldView {
                time_ms: (old(self)@.time_ms + delta_ms) as u64,
                ..old(self)@
            }),
    {
        self.time_ms = self.time_ms + delta_ms;
    }

    /// Record one player move, saturating at the counter's maximum. Owned by
    /// the movement collaborator; the evaluator only reads it.
    pub fn increment_moves(&mut self)
        requires
            old(self)@.wf(),
        ensures
            final(self)@.wf(),
            final(self)@ == (WorldView {
                gameplay: Gameplay {
                    state: old(self)@.gameplay.state,
                    moves_count: if old(self)@.gameplay.moves_count < u32::MAX {
                        (old(self)@.gameplay.moves_count + 1) as u32
                    } else {
                        u32::MAX
                    },
                },
                ..old(self)@
            }),
    {
        if self.gameplay.moves_count < u32::MAX {
            self.gameplay.moves_count = self.gameplay.moves_count + 1;
        }
    }
}

} // verus!
