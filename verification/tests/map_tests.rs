use sokoban::components::BoxColor;
use sokoban::components::Position;
use sokoban::map::initialize_level;
use sokoban::map::load_map;
use sokoban::map::MapError;
use sokoban::world::World;

/// The id of some live floor entity at `(x, y)`, if any.
fn find_floor(world: &World, x: u8, y: u8) -> Option<usize> {
    for id in 0..world.num_entities() {
        if world.is_floor(id) {
            if let Some(p) = world.position_of(id) {
                if p.x == x && p.y == y {
                    return Some(id);
                }
            }
        }
    }
    None
}

fn find_wall(world: &World, x: u8, y: u8) -> Option<usize> {
    for id in 0..world.num_entities() {
        if world.is_wall(id) {
            if let Some(p) = world.position_of(id) {
                if p.x == x && p.y == y {
                    return Some(id);
                }
            }
        }
    }
    None
}

fn find_player(world: &World, x: u8, y: u8) -> Option<usize> {
    for id in 0..world.num_entities() {
        if world.is_player(id) {
            if let Some(p) = world.position_of(id) {
                if p.x == x && p.y == y {
                    return Some(id);
                }
            }
        }
    }
    None
}

fn find_box(world: &World, x: u8, y: u8, color: BoxColor) -> Option<usize> {
    for id in 0..world.num_entities() {
        if let Some(b) = world.box_of(id) {
            if b.color == color {
                if let Some(p) = world.position_of(id) {
                    if p.x == x && p.y == y {
                        return Some(id);
                    }
                }
            }
        }
    }
    None
}

fn find_spot(world: &World, x: u8, y: u8, color: BoxColor) -> Option<usize> {
    for id in 0..world.num_entities() {
        if let Some(s) = world.box_spot_of(id) {
            if s.color == color {
                if let Some(p) = world.position_of(id) {
                    if p.x == x && p.y == y {
                        return Some(id);
                    }
                }
            }
        }
    }
    None
}

#[test]
fn well_formed_grid_returns_dimensions() {
    let mut world = World::new();
    let dims = load_map(&mut world, String::from("W . P\nBR SR N")).unwrap();
    assert_eq!(dims, (2, 3));
}

#[test]
fn well_formed_grid_materializes_every_cell() {
    let mut world = World::new();
    load_map(&mut world, String::from("W . P\nBR SR N")).unwrap();
    // Every non-void cell yields a floor entity.
    assert!(find_floor(&world, 0, 0).is_some());
    assert!(find_floor(&world, 1, 0).is_some());
    assert!(find_floor(&world, 2, 0).is_some());
    assert!(find_floor(&world, 0, 1).is_some());
    assert!(find_floor(&world, 1, 1).is_some());
    // The void cell yields nothing at all.
    assert!(find_floor(&world, 2, 1).is_none());
    // Kind-specific entities sit at the correct cells.
    assert!(find_wall(&world, 0, 0).is_some());
    assert!(find_player(&world, 2, 0).is_some());
    assert!(find_box(&world, 0, 1, BoxColor::Red).is_some());
    assert!(find_spot(&world, 1, 1, BoxColor::Red).is_some());
    // And nowhere else.
    assert!(find_wall(&world, 1, 0).is_none());
    assert!(find_player(&world, 0, 0).is_none());
    assert!(find_box(&world, 0, 1, BoxColor::Blue).is_none());
    // 5 non-void cells -> 5 floors + wall + player + box + spot.
    assert_eq!(world.num_entities(), 9);
}

#[test]
fn blue_tokens_parse_to_blue_components() {
    let mut world = World::new();
    let dims = load_map(&mut world, String::from("BB SB")).unwrap();
    assert_eq!(dims, (1, 2));
    assert!(find_box(&world, 0, 0, BoxColor::Blue).is_some());
    assert!(find_spot(&world, 1, 0, BoxColor::Blue).is_some());
}

#[test]
fn unrecognized_token_fails_and_creates_nothing() {
    let mut world = World::new();
    let result = load_map(&mut world, String::from("P .\n. X"));
    match result {
        Err(MapError::InvalidMapToken { token, row, col }) => {
            assert_eq!(token, String::from("X"));
            assert_eq!(row, 1);
            assert_eq!(col, 1);
        },
        other => panic!("expected an invalid-token error, got {:?}", other),
    }
    assert_eq!(world.num_entities(), 0);
}

#[test]
fn first_bad_token_in_row_major_order_is_reported() {
    let mut world = World::new();
    let result = load_map(&mut world, String::from("P Q\nZ ."));
    match result {
        Err(MapError::InvalidMapToken { token, row, col }) => {
            assert_eq!(token, String::from("Q"));
            assert_eq!(row, 0);
            assert_eq!(col, 1);
        },
        other => panic!("expected an invalid-token error, got {:?}", other),
    }
    assert_eq!(world.num_entities(), 0);
}

#[test]
fn double_space_yields_empty_invalid_token() {
    let mut world = World::new();
    let result = load_map(&mut world, String::from("P  ."));
    match result {
        Err(MapError::InvalidMapToken { token, row, col }) => {
            assert_eq!(token, String::new());
            assert_eq!(row, 0);
            assert_eq!(col, 1);
        },
        other => panic!("expected an invalid-token error, got {:?}", other),
    }
    assert_eq!(world.num_entities(), 0);
}

#[test]
fn empty_map_is_one_empty_invalid_token() {
    let mut world = World::new();
    let result = load_map(&mut world, String::new());
    match result {
        Err(MapError::InvalidMapToken { token, row, col }) => {
            assert_eq!(token, String::new());
            assert_eq!(row, 0);
            assert_eq!(col, 0);
        },
        other => panic!("expected an invalid-token error, got {:?}", other),
    }
}

#[test]
fn surrounding_whitespace_is_trimmed() {
    let mut world = World::new();
    let dims = load_map(&mut world, String::from("\n\t  P .  \r\n  . W  \n")).unwrap();
    assert_eq!(dims, (2, 2));
    assert!(find_player(&world, 0, 0).is_some());
    assert!(find_wall(&world, 1, 1).is_some());
}

#[test]
fn void_only_grid_creates_no_entities() {
    let mut world = World::new();
    let dims = load_map(&mut world, String::from("N N N")).unwrap();
    assert_eq!(dims, (1, 3));
    assert_eq!(world.num_entities(), 0);
}

#[test]
fn too_many_rows_is_a_dimension_error() {
    let mut world = World::new();
    let mut text = String::new();
    for _ in 0..256 {
        text.push_str(".\n");
    }
    text.push('.');
    let result = load_map(&mut world, text);
    assert_eq!(result, Err(MapError::DimensionsTooLarge));
    assert_eq!(world.num_entities(), 0);
}

#[test]
fn too_many_columns_is_a_dimension_error() {
    let mut world = World::new();
    let mut text = String::new();
    for _ in 0..255 {
        text.push_str(". ");
    }
    text.push('.');
    let result = load_map(&mut world, text);
    assert_eq!(result, Err(MapError::DimensionsTooLarge));
    assert_eq!(world.num_entities(), 0);
}

#[test]
fn largest_square_grid_loads() {
    let mut world = World::new();
    let mut text = String::new();
    for y in 0..255 {
        if y > 0 {
            text.push('\n');
        }
        for x in 0..255 {
            if x > 0 {
                text.push(' ');
            }
            text.push('N');
        }
    }
    let dims = load_map(&mut world, text).unwrap();
    assert_eq!(dims, (255, 255));
    assert_eq!(world.num_entities(), 0);
}

#[test]
fn default_level_loads_with_documented_dimensions() {
    let mut world = World::new();
    let dims = initialize_level(&mut world).unwrap();
    assert_eq!(dims, (9, 8));
    // The default level's landmarks.
    assert!(find_player(&world, 2, 4).is_some());
    assert!(find_box(&world, 4, 2, BoxColor::Red).is_some());
    assert!(find_box(&world, 5, 2, BoxColor::Blue).is_some());
    assert!(find_spot(&world, 3, 6, BoxColor::Red).is_some());
    assert!(find_spot(&world, 4, 6, BoxColor::Blue).is_some());
    // Void cells of the first row yield nothing.
    assert!(find_floor(&world, 0, 0).is_none());
    assert!(find_floor(&world, 1, 0).is_none());
}

#[test]
fn ragged_grid_reports_last_row_column_count() {
    let mut world = World::new();
    let dims = load_map(&mut world, String::from(". . .\n. .")).unwrap();
    assert_eq!(dims, (2, 2));
}

#[test]
fn position_layers_come_from_the_factories() {
    let mut world = World::new();
    load_map(&mut world, String::from("W BR SR P .")).unwrap();
    let floor = find_floor(&world, 4, 0).unwrap();
    assert_eq!(world.position_of(floor), Some(Position { x: 4, y: 0, z: sokoban::FLOOR_Z }));
    let wall = find_wall(&world, 0, 0).unwrap();
    assert_eq!(world.position_of(wall), Some(Position { x: 0, y: 0, z: sokoban::WALL_Z }));
    let spot = find_spot(&world, 2, 0, BoxColor::Red).unwrap();
    assert_eq!(world.position_of(spot), Some(Position { x: 2, y: 0, z: sokoban::BOX_SPOT_Z }));
    assert!(sokoban::FLOOR_Z < sokoban::BOX_SPOT_Z);
    assert!(sokoban::BOX_SPOT_Z < sokoban::BOX_Z);
}
