use sokoban::components::Position;
use sokoban::components::Renderable;
use sokoban::rendering_system::RenderingSystem;
use sokoban::world::GameplayState;
use sokoban::world::World;
use sokoban::TEXT_PADDING;
use sokoban::TEXT_SIZE;
use sokoban::TILE_WIDTH;

/// A world with one drawable entity per `(position, image)` pair.
fn world_with(entries: &[(Position, &str)]) -> World {
    let mut world = World::new();
    for (pos, image) in entries {
        let id = world.create_entity();
        world.insert_position(id, *pos);
        world.insert_renderable(id, Renderable::new_static(String::from(*image)));
    }
    world
}

#[test]
fn same_cell_different_images_make_two_batches() {
    let world = world_with(&[
        (Position { x: 1, y: 1, z: 5 }, "/images/a.png"),
        (Position { x: 1, y: 1, z: 5 }, "/images/b.png"),
    ]);
    let system = RenderingSystem { rows: 2, cols: 2 };
    let frame = system.run(&world);
    assert_eq!(frame.batches.len(), 2);
    assert_eq!(frame.batches[0].z, 5);
    assert_eq!(frame.batches[1].z, 5);
    let mut images: Vec<&str> = frame.batches.iter().map(|b| b.image.as_str()).collect();
    images.sort();
    assert_eq!(images, vec!["/images/a.png", "/images/b.png"]);
    assert_eq!(frame.batches[0].slots.len(), 1);
    assert_eq!(frame.batches[1].slots.len(), 1);
}

#[test]
fn same_image_and_layer_share_one_batch() {
    let world = world_with(&[
        (Position { x: 0, y: 0, z: 3 }, "/images/a.png"),
        (Position { x: 2, y: 1, z: 3 }, "/images/a.png"),
    ]);
    let system = RenderingSystem { rows: 2, cols: 3 };
    let frame = system.run(&world);
    assert_eq!(frame.batches.len(), 1);
    assert_eq!(frame.batches[0].slots.len(), 2);
}

#[test]
fn batches_come_in_ascending_layer_order() {
    let world = world_with(&[
        (Position { x: 0, y: 0, z: 9 }, "/images/top.png"),
        (Position { x: 0, y: 0, z: 0 }, "/images/floor.png"),
        (Position { x: 0, y: 0, z: 4 }, "/images/mid.png"),
    ]);
    let system = RenderingSystem { rows: 1, cols: 1 };
    let frame = system.run(&world);
    let layers: Vec<u8> = frame.batches.iter().map(|b| b.z).collect();
    assert_eq!(layers, vec![0, 4, 9]);
}

#[test]
fn screen_coordinates_scale_by_tile_width() {
    let world = world_with(&[(Position { x: 2, y: 3, z: 0 }, "/images/a.png")]);
    let system = RenderingSystem { rows: 4, cols: 3 };
    let frame = system.run(&world);
    assert_eq!(frame.batches[0].slots[0].px, 2 * TILE_WIDTH);
    assert_eq!(frame.batches[0].slots[0].py, 3 * TILE_WIDTH);
}

#[test]
fn entity_without_renderable_is_not_drawn() {
    let mut world = World::new();
    let id = world.create_entity();
    world.insert_position(id, Position { x: 0, y: 0, z: 0 });
    let system = RenderingSystem { rows: 1, cols: 1 };
    let frame = system.run(&world);
    assert!(frame.batches.is_empty());
}

#[test]
fn animated_renderable_cycles_through_its_frames() {
    let paths = vec![
        String::from("/images/f0.png"),
        String::from("/images/f1.png"),
        String::from("/images/f2.png"),
        String::from("/images/f3.png"),
    ];
    let renderable = Renderable::new_animated(paths);
    let system = RenderingSystem { rows: 1, cols: 1 };
    // Four frames: one every 250 ms, wrapping each second.
    let expectations = [
        (0, "/images/f0.png"),
        (100, "/images/f0.png"),
        (249, "/images/f0.png"),
        (250, "/images/f1.png"),
        (499, "/images/f1.png"),
        (500, "/images/f2.png"),
        (750, "/images/f3.png"),
        (999, "/images/f3.png"),
        (1000, "/images/f0.png"),
        (1250, "/images/f1.png"),
        (2750, "/images/f3.png"),
    ];
    for (ms, expected) in expectations {
        assert_eq!(system.get_image(&renderable, ms), String::from(expected));
    }
}

#[test]
fn static_renderable_always_resolves_to_its_image() {
    let renderable = Renderable::new_static(String::from("/images/wall.png"));
    let system = RenderingSystem { rows: 1, cols: 1 };
    for ms in [0, 1, 250, 999, 1000, 123456] {
        assert_eq!(system.get_image(&renderable, ms), String::from("/images/wall.png"));
    }
}

#[test]
fn three_frame_animation_wraps_seamlessly() {
    let paths = vec![
        String::from("/images/g0.png"),
        String::from("/images/g1.png"),
        String::from("/images/g2.png"),
    ];
    let renderable = Renderable::new_animated(paths);
    let system = RenderingSystem { rows: 1, cols: 1 };
    // With 3 frames the step is 333 ms; index 999 / 333 = 3 wraps to frame 0.
    assert_eq!(system.get_image(&renderable, 0), String::from("/images/g0.png"));
    assert_eq!(system.get_image(&renderable, 332), String::from("/images/g0.png"));
    assert_eq!(system.get_image(&renderable, 333), String::from("/images/g1.png"));
    assert_eq!(system.get_image(&renderable, 666), String::from("/images/g2.png"));
    assert_eq!(system.get_image(&renderable, 999), String::from("/images/g0.png"));
}

#[test]
fn text_overlays_show_state_and_moves_below_the_grid() {
    let world = world_with(&[]);
    let system = RenderingSystem { rows: 9, cols: 8 };
    let frame = system.run(&world);
    assert_eq!(frame.texts.len(), 2);
    // With no spots the evaluator has not run; a fresh world is playing.
    assert_eq!(frame.texts[0].content, String::from("Playing"));
    assert_eq!(frame.texts[0].x, TEXT_PADDING);
    assert_eq!(frame.texts[0].y, 9 * TILE_WIDTH + TEXT_PADDING);
    assert_eq!(frame.texts[1].content, String::from("0"));
    assert_eq!(frame.texts[1].x, TEXT_PADDING);
    assert_eq!(frame.texts[1].y, 9 * TILE_WIDTH + TEXT_PADDING + TEXT_SIZE);
}

#[test]
fn move_counter_renders_its_decimal_digits() {
    let mut world = World::new();
    for _ in 0..42 {
        world.increment_moves();
    }
    world.set_gameplay_state(GameplayState::Won);
    let system = RenderingSystem { rows: 1, cols: 1 };
    let frame = system.run(&world);
    assert_eq!(frame.texts[0].content, String::from("Won"));
    assert_eq!(frame.texts[1].content, String::from("42"));
}

#[test]
fn animated_entity_is_batched_under_its_resolved_frame() {
    let mut world = World::new();
    let id = world.create_entity();
    world.insert_position(id, Position { x: 0, y: 0, z: 2 });
    world.insert_renderable(
        id,
        Renderable::new_animated(vec![
            String::from("/images/f0.png"),
            String::from("/images/f1.png"),
            String::from("/images/f2.png"),
            String::from("/images/f3.png"),
        ]),
    );
    world.advance_time(600);
    let system = RenderingSystem { rows: 1, cols: 1 };
    let frame = system.run(&world);
    assert_eq!(frame.batches.len(), 1);
    assert_eq!(frame.batches[0].image, String::from("/images/f2.png"));
}
