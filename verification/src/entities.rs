//! Factory functions that assemble the game's entity archetypes: each one
//! creates a fresh entity and attaches the components (and paint layer) that
//! its kind calls for.

use vstd::prelude::*;

use crate::components::BoxColor;
use crate::components::BoxSpot;
use crate::components::GameBox;
use crate::components::Position;
use crate::components::Renderable;
use crate::components::RenderableView;
use crate::world::World;
use crate::world::WorldView;
use crate::BOX_SPOT_Z;
use crate::BOX_Z;
use crate::FLOOR_Z;
use crate::PLAYER_Z;
use crate::WALL_Z;

verus! {

/// The image shown for floor tiles.
pub open spec fn floor_image() -> Seq<char> {
    "/images/floor.png"@
}

/// The image shown for walls.
pub open spec fn wall_image() -> Seq<char> {
    "/images/wall.png"@
}

/// The animation frames shown for the player.
pub open spec fn player_images() -> Seq<Seq<char>> {
    seq![
        "/images/player_1.png"@,
        "/images/player_2.png"@,
        "/images/player_3.png"@,
        "/images/player_4.png"@,
    ]
}

/// The image shown for a box of the given color.
pub open spec fn box_image(c: BoxColor) -> Seq<char> {
    match c {
        BoxColor::Red => "/images/box_red.png"@,
        BoxColor::Blue => "/images/box_blue.png"@,
    }
}

/// The image shown for a box spot of the given color.
pub open spec fn box_spot_image(c: BoxColor) -> Seq<char> {
    match c {
        BoxColor::Red => "/images/box_spot_red.png"@,
        BoxColor::Blue => "/images/box_spot_blue.png"@,
    }
}

/// The store after one entity with the given components is appended to every
/// table.
pub open spec fn spawn(
    w: WorldView,
    pos: Position,
    rend: RenderableView,
    b: Option<GameBox>,
    s: Option<BoxSpot>,
    player: bool,
    wall: bool,
    floor: bool,
) -> WorldView {
    WorldView {
        alive: w.alive.push(true),
        positions: w.positions.push(Some(pos)),
        renderables: w.renderables.push(Some(rend)),
        boxes: w.boxes.push(b),
        box_spots: w.box_spots.push(s),
        players: w.players.push(player),
        walls: w.walls.push(wall),
        floors: w.floors.push(floor),
        ..w
    }
}

/// The store after a floor tile is created at cell `(p.x, p.y)`.
pub open spec fn spawn_floor(w: WorldView, p: Position) -> WorldView {
    spawn(
        w,
        Position { x: p.x, y: p.y, z: FLOOR_Z },
        RenderableView::Static(floor_image()),
        None,
        None,
        false,
        false,
        true,
    )
}

/// The store after a wall is created at cell `(p.x, p.y)`.
pub open spec fn spawn_wall(w: WorldView, p: Position) -> WorldView {
    spawn(
        w,
        Position { x: p.x, y: p.y, z: WALL_Z },
        RenderableView::Static(wall_image()),
        None,
        None,
        false,
        true,
        false,
    )
}

/// The store after the player is created at cell `(p.x, p.y)`.
pub open spec fn spawn_player(w: WorldView, p: Position) -> WorldView {
    spawn(
        w,
        Position { x: p.x, y: p.y, z: PLAYER_Z },
        RenderableView::Animated(player_images()),
        None,
        None,
        true,
        false,
        false,
    )
}

/// The store after a box of color `c` is created at cell `(p.x, p.y)`.
pub open spec fn spawn_box(w: WorldView, p: Position, c: BoxColor) -> WorldView {
    spawn(
        w,
        Position { x: p.x, y: p.y, z: BOX_Z },
        RenderableView::Static(box_image(c)),
        Some(GameBox { color: c }),
        None,
        false,
        false,
        false,
    )
}

/// The store after a box spot of color `c` is created at cell `(p.x, p.y)`.
pub open spec fn spawn_box_spot(w: WorldView, p: Position, c: BoxColor) -> WorldView {
    spawn(
        w,
        Position { x: p.x, y: p.y, z: BOX_SPOT_Z },
        RenderableView::Static(box_spot_image(c)),
        None,
        Some(BoxSpot { color: c }),
        false,
        false,
        false,
    )
}

/// Create one entity carrying the given components, in one new slot of every
/// table.
fn create_with(
    world: &mut World,
    pos: Position,
    rend: Renderable,
    b: Option<GameBox>,
    s: Option<BoxSpot>,
    player: bool,
    wall: bool,
    floor: bool,
) -> (id: usize)
    requires
        old(world)@.wf(),
        rend@.wf(),
    ensures
        final(world)@.wf(),
        id == old(world)@.num(),
        final(world)@ == spawn(old(world)@, pos, rend@, b, s, player, wall, floor),
{
    let ghost w0 = world@;
    let ghost rv = rend@;
    let id = world.create_entity();
    world.insert_position(id, pos);
    world.insert_renderable(id, rend);
    if let Some(the_box) = b {
        world.insert_box(id, the_box);
    }
    if let Some(the_spot) = s {
        world.insert_box_spot(id, the_spot);
    }
    if player {
        world.mark_player(id);
    }
    if wall {
        world.mark_wall(id);
    }
    if floor {
        world.mark_floor(id);
    }
    proof {
        let target = spawn(w0, pos, rv, b, s, player, wall, floor);
        assert(world@.alive =~= target.alive);
        assert(world@.positions =~= target.positions);
        assert(world@.renderables =~= target.renderables);
        assert(world@.boxes =~= target.boxes);
        assert(world@.box_spots =~= target.box_spots);
        assert(world@.players =~= target.players);
        assert(world@.walls =~= target.walls);
        assert(world@.floors =~= target.floors);
        assert(world@ =~= target);
    }
    id
}

/// Create a floor tile at cell `(position.x, position.y)`; the paint layer
/// comes from the factory, not the caller.
pub fn create_floor(world: &mut World, position: Position)
    requires
        old(world)@.wf(),
    ensures
        final(world)@.wf(),
        final(world)@ == spawn_floor(old(world)@, position),
{
    let pos = Position { x: position.x, y: position.y, z: FLOOR_Z };
    let rend = Renderable::new_static("/images/floor.png".to_owned());
    create_with(world, pos, rend, None, None, false, false, true);
}

/// Create a wall at cell `(position.x, position.y)`.
pub fn create_wall(world: &mut World, position: Position)
    requires
        old(world)@.wf(),
    ensures
        final(world)@.wf(),
        final(world)@ == spawn_wall(old(world)@, position),
{
    let pos = Position { x: position.x, y: position.y, z: WALL_Z };
    let rend = Renderable::new_static("/images/wall.png".to_owned());
    create_with(world, pos, rend, None, None, false, true, false);
}

/// Create the player at cell `(position.x, position.y)`.
pub fn create_player(world: &mut World, position: Position)
    requires
        old(world)@.wf(),
    ensures
        final(world)@.wf(),
        final(world)@ == spawn_player(old(world)@, position),
{
    let pos = Position { x: position.x, y: position.y, z: PLAYER_Z };
    let mut paths: Vec<String> = Vec::new();
    paths.push("/images/player_1.png".to_owned());
    paths.push("/images/player_2.png".to_owned());
    paths.push("/images/player_3.png".to_owned());
    paths.push("/images/player_4.png".to_owned());
    proof {
        assert(paths@.map_values(|s: String| s@) =~= player_images());
    }
    let rend = Renderable::new_animated(paths);
    create_with(world, pos, rend, None, None, true, false, false);
}

/// Create a box of color `color` at cell `(position.x, position.y)`.
pub fn create_box(world: &mut World, position: Position, color: BoxColor)
    requires
        old(world)@.wf(),
    ensures
        final(world)@.wf(),
        final(world)@ == spawn_box(old(world)@, position, color),
{
    let pos = Position { x: position.x, y: position.y, z: BOX_Z };
    let path = match color {
        BoxColor::Red => "/images/box_red.png".to_owned(),
        BoxColor::Blue => "/images/box_blue.png".to_owned(),
    };
    let rend = Renderable::new_static(path);
    create_with(world, pos, rend, Some(GameBox { color }), None, false, false, false);
}

/// Create a box spot of color `color` at cell `(position.x, position.y)`.
pub fn create_box_spot(world: &mut World, position: Position, color: BoxColor)
    requires
        old(world)@.wf(),
    ensures
        final(world)@.wf(),
        final(world)@ == spawn_box_spot(old(world)@, position, color),
{
    let pos = Position { x: position.x, y: position.y, z: BOX_SPOT_Z };
    let path = match color {
        BoxColor::Red => "/images/box_spot_red.png".to_owned(),
        BoxColor::Blue => "/images/box_spot_blue.png".to_owned(),
    };
    let rend = Renderable::new_static(path);
    create_with(world, pos, rend, None, Some(BoxSpot { color }), false, false, false);
}

} // verus!
