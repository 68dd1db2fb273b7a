use iridium::math::Vec3;
use iridium::terrain::{Block, Coordinates, Terrain};
use iridium::time::{FrameCounter, FrameReport};
use iridium::traversal::GlobalIndex;
use iridium::world::{World, BUFFER_DISTANCE, MAX_PITCH, MOVE_SPEED};

fn small_terrain() -> Terrain {
    // 3 × 2 columns, stored row by row of z.
    Terrain { x_width: 3, z_depth: 2, heights: vec![1, 4, 2, 0, 3, 5] }
}

#[test]
fn terrain_height_outside_is_zero() {
    let terrain = small_terrain();
    assert_eq!(terrain.height_at(1, 0), 4);
    assert_eq!(terrain.height_at(2, 1), 5);
    for (x, z) in [(-1, 0), (3, 0), (0, -1), (0, 2), (i32::MIN, i32::MAX)] {
        assert_eq!(terrain.height_at(x, z), 0);
    }
}

#[test]
fn block_at_is_inclusive_of_height() {
    let terrain = small_terrain();
    assert!(terrain.block_at(GlobalIndex(1, 4, 0)).is_some());
    assert!(terrain.block_at(GlobalIndex(1, 5, 0)).is_none());
    assert_eq!(terrain.block_at(GlobalIndex(0, 0, 1)).map(|b| b.index), Some(GlobalIndex(0, 0, 1)));
    // Outside the grid only y <= 0 is solid.
    assert!(terrain.block_at(GlobalIndex(-5, 0, 0)).is_some());
    assert!(terrain.block_at(GlobalIndex(-5, 1, 0)).is_none());
}

#[test]
fn decrement_stops_at_zero() {
    let mut terrain = small_terrain();
    for _ in 0..10 {
        terrain.decrement_height_at(1, 0);
        assert!(terrain.height_at(1, 0) >= 0);
    }
    assert_eq!(terrain.height_at(1, 0), 0);
    assert_eq!(terrain.height_at(0, 0), 1);
    assert_eq!(terrain.height_at(2, 1), 5);
    terrain.decrement_height_at(7, 7);
    assert_eq!(terrain.heights, vec![1, 0, 2, 0, 3, 5]);
}

#[test]
fn visible_blocks_reach_down_to_lowest_neighbour() {
    let terrain = small_terrain();
    let blocks: Vec<(i32, i32, i32)> =
        terrain.visible_block_positions().iter().map(|g| (g.0, g.1, g.2)).collect();
    // Every column touches the edge, whose outside neighbours are 0 high, so all of each
    // column shows.
    let mut expected = Vec::new();
    for z in 0..2 {
        for x in 0..3 {
            for y in 0..=terrain.height_at(x, z) {
                expected.push((x, y, z));
            }
        }
    }
    // Listed once each, row by row of z, each row by x, each column upward.
    assert_eq!(blocks, expected);
    assert_eq!(terrain.visible_block_positions(), terrain.visible_block_positions());
}

#[test]
fn visible_blocks_skip_buried_layers() {
    // A 3 × 3 grid: the middle column is surrounded by columns at least 2 high.
    let terrain = Terrain { x_width: 3, z_depth: 3, heights: vec![5, 5, 5, 5, 6, 2, 5, 3, 5] };
    let middle: Vec<i32> = terrain
        .visible_block_positions()
        .iter()
        .filter(|g| g.0 == 1 && g.2 == 1)
        .map(|g| g.1)
        .collect();
    assert_eq!(middle, vec![2, 3, 4, 5, 6]);
}

#[test]
fn block_faces() {
    let block = Block::new(GlobalIndex(2, -3, 4));
    assert_eq!((block.left(), block.right()), (2000, 3000));
    assert_eq!((block.bottom(), block.top()), (-3000, -2000));
    assert_eq!((block.near(), block.far()), (4000, 5000));
}

#[test]
fn coordinates_center() {
    assert_eq!(Coordinates(0, 0, 0).center(), Vec3(500, 500, 500));
    assert_eq!(Coordinates(3, 1, 2).center(), Vec3(3500, 1500, 2500));
}

#[test]
fn generated_terrain_heights_in_range() {
    let world = World::new(20, 20, 20);
    for x in 0..20 {
        for z in 0..20 {
            let h = world.terrain().height_at(x, z);
            assert!((1..=20).contains(&h), "column ({}, {}) is {} high", x, z, h);
        }
    }
    assert_eq!(world.terrain().height_at(20, 0), 0);
    assert_eq!(world.terrain().height_at(0, -1), 0);
    let camera = world.camera();
    assert_eq!(*camera.position(), Vec3(10000, 21000, 0));
    assert_eq!(*camera.velocity(), Vec3(0, 0, 0));
    assert_eq!((camera.heading(), camera.pitch()), (0, 0));
}

#[test]
fn generated_terrain_is_reproducible() {
    let a = World::new(20, 20, 12);
    let b = World::new(20, 20, 12);
    assert_eq!(a.terrain().heights, b.terrain().heights);
    let distinct: std::collections::BTreeSet<i32> = a.terrain().heights.iter().copied().collect();
    assert!(distinct.len() > 1);
}

/// Finds a column at z = 5 that is lower than its neighbour at x + 1.
fn step_up_along_x(world: &World) -> (i32, i32, i32) {
    for x in 0..19 {
        let here = world.terrain().height_at(x, 5);
        let next = world.terrain().height_at(x + 1, 5);
        if next > here {
            return (x, here, next);
        }
    }
    panic!("no step along x at z = 5");
}

#[test]
fn collision_stops_short_of_block() {
    let world = World::new(20, 20, 20);
    let (x, here, _next) = step_up_along_x(&world);
    // Inside the lower column's open air, one layer above its top.
    let start = Vec3(x as i64 * 1000 + 500, (here as i64 + 1) * 1000 + 500, 5500);
    let wall = (x as i64 + 1) * 1000;
    for distance in [300, 700, 2500, 40000] {
        let moved = world.check_for_collisions_in_x_axis(start, distance);
        if start.0 + distance < wall {
            assert_eq!(moved, start.set_x(start.0 + distance));
        } else {
            assert_eq!(moved, start.set_x(wall - BUFFER_DISTANCE));
            assert!(moved.0 < wall);
        }
    }
}

#[test]
fn collision_downward_stops_above_top_face() {
    let world = World::new(20, 20, 20);
    let (x, here, _next) = step_up_along_x(&world);
    // Fall from one layer above the low column's top into it: the move stops just above
    // its top face.
    let start = Vec3(x as i64 * 1000 + 500, (here as i64 + 1) * 1000 + 500, 5500);
    let floor = (here as i64 + 1) * 1000;
    let moved = world.check_for_collisions_in_y_axis(start, -5000);
    assert_eq!(moved, start.set_y(floor + BUFFER_DISTANCE));
    assert!(moved.1 > floor);
}

#[test]
fn no_collision_moves_full_distance() {
    let world = World::new(20, 20, 20);
    let start = Vec3(3500, 25000, 3500);
    assert_eq!(world.check_for_collisions_in_x_axis(start, 2500), Vec3(6000, 25000, 3500));
    assert_eq!(world.check_for_collisions_in_z_axis(start, -1234), Vec3(3500, 25000, 2266));
    assert_eq!(world.check_for_collisions_in_y_axis(start, 4321), Vec3(3500, 29321, 3500));
    assert_eq!(
        world.check_for_collisions(start, Vec3(100, 200, -300)),
        Vec3(3600, 25200, 3200)
    );
}

#[test]
fn update_moves_camera_by_heading_velocity() {
    let mut world = World::new(20, 20, 20);
    world.start_moving_forward();
    assert_eq!(*world.camera().velocity(), Vec3(0, 0, MOVE_SPEED));
    world.advance(Vec3(0, 0, MOVE_SPEED));
    assert_eq!(*world.camera().position(), Vec3(10000, 21000, 500));
}

#[test]
fn movement_commands_set_one_component() {
    let mut world = World::new(4, 4, 4);
    world.start_moving_forward();
    world.start_moving_left();
    world.start_moving_up();
    assert_eq!(*world.camera().velocity(), Vec3(-MOVE_SPEED, MOVE_SPEED, MOVE_SPEED));
    world.start_moving_backward();
    world.start_moving_right();
    world.start_moving_down();
    assert_eq!(*world.camera().velocity(), Vec3(MOVE_SPEED, -MOVE_SPEED, -MOVE_SPEED));
    world.stop_moving_backward();
    assert_eq!(*world.camera().velocity(), Vec3(MOVE_SPEED, -MOVE_SPEED, 0));
    world.stop_moving_right();
    world.stop_moving_down();
    assert_eq!(*world.camera().velocity(), Vec3(0, 0, 0));
    world.start_moving_up();
    world.stop_moving_up();
    world.start_moving_left();
    world.stop_moving_left();
    world.start_moving_forward();
    world.stop_moving_forward();
    assert_eq!(*world.camera().velocity(), Vec3(0, 0, 0));
}

#[test]
fn pitch_is_clamped_heading_is_not() {
    let mut world = World::new(4, 4, 4);
    for _ in 0..50 {
        world.update_camera_direction(0, 1000);
        assert!(world.camera().pitch() <= MAX_PITCH);
    }
    assert_eq!(world.camera().pitch(), MAX_PITCH);
    for _ in 0..50 {
        world.update_camera_direction(0, -1000);
        assert!(world.camera().pitch() >= -MAX_PITCH);
    }
    assert_eq!(world.camera().pitch(), -MAX_PITCH);

    world.update_camera_direction(100, 0);
    assert_eq!(world.camera().heading(), 1_000_000);
    world.update_camera_direction(600, 0);
    assert_eq!(world.camera().heading(), 7_000_000);
    world.update_camera_direction(-800, 0);
    assert_eq!(world.camera().heading(), -1_000_000);
    world.update_camera_direction(-1, 0);
    assert_eq!(world.camera().heading(), -1_010_000);
    for _ in 0..1000 {
        world.update_camera_direction(1000, 0);
    }
    assert_eq!(world.camera().heading(), -1_010_000 + 1000 * 1000 * 10_000);
}

#[test]
fn destroy_block_lowers_column_under_camera() {
    let mut world = World::new(20, 20, 20);
    let before = world.terrain().height_at(10, 0);
    world.destroy_block();
    assert_eq!(world.terrain().height_at(10, 0), before - 1);
    world.destroy_block_at(GlobalIndex(3, 0, 4));
    let h = world.terrain().height_at(3, 4);
    for _ in 0..30 {
        world.destroy_block_at(GlobalIndex(3, 0, 4));
    }
    assert!(h >= 1);
    assert_eq!(world.terrain().height_at(3, 4), 0);
}

#[test]
fn world_visible_blocks_match_terrain() {
    let world = World::new(6, 8, 6);
    let blocks = world.visible_block_positions();
    assert_eq!(blocks, world.terrain().visible_block_positions());
    for g in &blocks {
        assert!(g.1 <= world.terrain().height_at(g.0, g.2));
    }
}

#[test]
fn frame_counter_reports_after_interval() {
    let mut counter = FrameCounter::new(1_000);
    assert_eq!(counter.finish_frame(1_000_000_000), None);
    assert_eq!(counter.finish_frame(3_000_001_000), None);
    assert_eq!(
        counter.finish_frame(3_000_001_001),
        Some(FrameReport { frames: 3, elapsed_nanos: 3_000_000_001 })
    );
    assert_eq!(counter.counter, 0);
    assert_eq!(counter.finish_frame(3_000_001_002), None);
    assert_eq!(counter.counter, 1);
    // Time that runs backwards counts as none passing.
    assert_eq!(counter.finish_frame(5), None);
}
