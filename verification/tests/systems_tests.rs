use sokoban::components::BoxColor;
use sokoban::components::Position;
use sokoban::entities::create_box;
use sokoban::entities::create_box_spot;
use sokoban::entities::create_floor;
use sokoban::entities::create_player;
use sokoban::event_system::EventSystem;
use sokoban::events::Event;
use sokoban::events::Sound;
use sokoban::gameplay_state_system::GameplayStateSystem;
use sokoban::map::load_map;
use sokoban::scheduler::tick;
use sokoban::world::GameplayState;
use sokoban::world::World;

fn find_box(world: &World, x: u8, y: u8, color: BoxColor) -> Option<usize> {
    for id in 0..world.num_entities() {
        if let Some(b) = world.box_of(id) {
            if b.color == color {
                if let Some(p) = world.position_of(id) {
                    if p.x == x && p.y == y {
                        return Some(id);
                    }
                }
            }
        }
    }
    None
}

#[test]
fn zero_spots_is_trivially_won() {
    let mut world = World::new();
    load_map(&mut world, String::from("P BR .")).unwrap();
    let mut system = GameplayStateSystem {};
    system.run(&mut world);
    assert_eq!(world.gameplay().state, GameplayState::Won);
}

#[test]
fn covered_matching_spot_is_won() {
    let mut world = World::new();
    create_box(&mut world, Position { x: 3, y: 5, z: 0 }, BoxColor::Red);
    create_box_spot(&mut world, Position { x: 3, y: 5, z: 0 }, BoxColor::Red);
    let mut system = GameplayStateSystem {};
    system.run(&mut world);
    assert_eq!(world.gameplay().state, GameplayState::Won);
}

#[test]
fn color_mismatch_is_playing() {
    let mut world = World::new();
    create_box(&mut world, Position { x: 3, y: 5, z: 0 }, BoxColor::Blue);
    create_box_spot(&mut world, Position { x: 3, y: 5, z: 0 }, BoxColor::Red);
    let mut system = GameplayStateSystem {};
    system.run(&mut world);
    assert_eq!(world.gameplay().state, GameplayState::Playing);
}

#[test]
fn uncovered_spot_is_playing() {
    let mut world = World::new();
    create_box(&mut world, Position { x: 1, y: 1, z: 0 }, BoxColor::Red);
    create_box_spot(&mut world, Position { x: 2, y: 1, z: 0 }, BoxColor::Red);
    let mut system = GameplayStateSystem {};
    system.run(&mut world);
    assert_eq!(world.gameplay().state, GameplayState::Playing);
}

#[test]
fn one_spot_of_two_uncovered_is_playing() {
    let mut world = World::new();
    create_box(&mut world, Position { x: 1, y: 1, z: 0 }, BoxColor::Red);
    create_box_spot(&mut world, Position { x: 1, y: 1, z: 0 }, BoxColor::Red);
    create_box_spot(&mut world, Position { x: 4, y: 4, z: 0 }, BoxColor::Blue);
    let mut system = GameplayStateSystem {};
    system.run(&mut world);
    assert_eq!(world.gameplay().state, GameplayState::Playing);
}

#[test]
fn evaluator_rerun_is_idempotent() {
    let mut world = World::new();
    create_box(&mut world, Position { x: 3, y: 5, z: 0 }, BoxColor::Red);
    create_box_spot(&mut world, Position { x: 3, y: 5, z: 0 }, BoxColor::Red);
    let mut system = GameplayStateSystem {};
    system.run(&mut world);
    let first = world.gameplay();
    let entities = world.num_entities();
    system.run(&mut world);
    assert_eq!(world.gameplay(), first);
    assert_eq!(world.num_entities(), entities);
}

#[test]
fn obstacle_event_triggers_wall_sound() {
    let mut world = World::new();
    world.push_event(Event::PlayerHitObstacle);
    let mut system = EventSystem {};
    let sounds = system.run(&mut world);
    assert_eq!(sounds, vec![Sound::Wall]);
    assert!(world.queued_events().is_empty());
}

#[test]
fn box_moved_onto_matching_spot_derives_correct_event_next_tick() {
    let mut world = World::new();
    create_floor(&mut world, Position { x: 2, y: 2, z: 0 });
    create_box(&mut world, Position { x: 2, y: 2, z: 0 }, BoxColor::Red);
    create_box_spot(&mut world, Position { x: 2, y: 2, z: 0 }, BoxColor::Red);
    let box_id = find_box(&world, 2, 2, BoxColor::Red).unwrap();
    world.push_event(Event::EntityMoved { id: box_id });
    let mut system = EventSystem {};
    // First drain: the derived event is deferred, no sound yet.
    let sounds = system.run(&mut world);
    assert_eq!(sounds, Vec::<Sound>::new());
    assert_eq!(
        world.queued_events(),
        &vec![Event::BoxPlacedOnSpot { is_correct_spot: true }],
    );
    // Second drain: exactly one "correct" cue, nothing further derived.
    let sounds = system.run(&mut world);
    assert_eq!(sounds, vec![Sound::Correct]);
    assert!(world.queued_events().is_empty());
}

#[test]
fn box_moved_onto_mismatched_spot_derives_incorrect_event() {
    let mut world = World::new();
    create_box(&mut world, Position { x: 2, y: 2, z: 0 }, BoxColor::Blue);
    create_box_spot(&mut world, Position { x: 2, y: 2, z: 0 }, BoxColor::Red);
    let box_id = find_box(&world, 2, 2, BoxColor::Blue).unwrap();
    world.push_event(Event::EntityMoved { id: box_id });
    let mut system = EventSystem {};
    let sounds = system.run(&mut world);
    assert_eq!(sounds, Vec::<Sound>::new());
    assert_eq!(
        world.queued_events(),
        &vec![Event::BoxPlacedOnSpot { is_correct_spot: false }],
    );
    let sounds = system.run(&mut world);
    assert_eq!(sounds, vec![Sound::Incorrect]);
}

#[test]
fn box_moved_off_any_spot_derives_nothing() {
    let mut world = World::new();
    create_box(&mut world, Position { x: 2, y: 2, z: 0 }, BoxColor::Red);
    create_box_spot(&mut world, Position { x: 7, y: 7, z: 0 }, BoxColor::Red);
    let box_id = find_box(&world, 2, 2, BoxColor::Red).unwrap();
    world.push_event(Event::EntityMoved { id: box_id });
    let mut system = EventSystem {};
    let sounds = system.run(&mut world);
    assert_eq!(sounds, Vec::<Sound>::new());
    assert!(world.queued_events().is_empty());
}

#[test]
fn moved_non_box_entity_derives_nothing() {
    let mut world = World::new();
    create_player(&mut world, Position { x: 2, y: 2, z: 0 });
    create_box_spot(&mut world, Position { x: 2, y: 2, z: 0 }, BoxColor::Red);
    world.push_event(Event::EntityMoved { id: 0 });
    let mut system = EventSystem {};
    let sounds = system.run(&mut world);
    assert_eq!(sounds, Vec::<Sound>::new());
    assert!(world.queued_events().is_empty());
}

#[test]
fn moved_event_for_destroyed_entity_is_a_no_op() {
    let mut world = World::new();
    create_box(&mut world, Position { x: 2, y: 2, z: 0 }, BoxColor::Red);
    create_box_spot(&mut world, Position { x: 2, y: 2, z: 0 }, BoxColor::Red);
    let box_id = find_box(&world, 2, 2, BoxColor::Red).unwrap();
    world.delete_entity(box_id);
    world.maintain();
    world.push_event(Event::EntityMoved { id: box_id });
    let mut system = EventSystem {};
    let sounds = system.run(&mut world);
    assert_eq!(sounds, Vec::<Sound>::new());
    assert!(world.queued_events().is_empty());
}

#[test]
fn deletion_is_buffered_until_maintain() {
    let mut world = World::new();
    create_box(&mut world, Position { x: 2, y: 2, z: 0 }, BoxColor::Red);
    world.delete_entity(0);
    assert!(world.box_of(0).is_some());
    world.maintain();
    assert!(world.box_of(0).is_none());
    assert!(world.position_of(0).is_none());
}

#[test]
fn push_shifts_box_to_spot_and_next_tick_reports_won() {
    // A 2-column grid: the player at (0, 0), a red box at (1, 0), and a red
    // spot at (1, 1) beneath it.
    let mut world = World::new();
    load_map(&mut world, String::from("P BR\n. SR")).unwrap();
    let mut system = GameplayStateSystem {};
    system.run(&mut world);
    assert_eq!(world.gameplay().state, GameplayState::Playing);
    // The movement collaborator shifts the box down onto the spot and
    // queues the move notification.
    let box_id = find_box(&world, 1, 0, BoxColor::Red).unwrap();
    let old_pos = world.position_of(box_id).unwrap();
    world.insert_position(box_id, Position { x: 1, y: 1, z: old_pos.z });
    world.push_event(Event::EntityMoved { id: box_id });
    world.increment_moves();
    // The next tick's evaluator reports the win.
    tick(&mut world, 16);
    assert_eq!(world.gameplay().state, GameplayState::Won);
    assert_eq!(world.gameplay().moves_count, 1);
    // And the tick after that plays the "correct" cue for the placement.
    let sounds = tick(&mut world, 16);
    assert_eq!(sounds, vec![Sound::Correct]);
    assert_eq!(world.time_ms(), 32);
}

#[test]
fn sound_cues_carry_their_logical_names() {
    assert_eq!(Sound::Wall.logical_name(), "wall");
    assert_eq!(Sound::Correct.logical_name(), "correct");
    assert_eq!(Sound::Incorrect.logical_name(), "incorrect");
}

#[test]
fn moves_counter_saturates() {
    let mut world = World::new();
    for _ in 0..3 {
        world.increment_moves();
    }
    assert_eq!(world.gameplay().moves_count, 3);
}
