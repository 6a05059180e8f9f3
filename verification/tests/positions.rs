use infinite_tiles::camera::{Camera, Point};
use infinite_tiles::grid::GridPlayer;
use infinite_tiles::types::{clamp_to_i32, floor_div, ChunkPos, LoadPriority, TilePos};

#[test]
fn world_positions_fall_into_chunks() {
    assert_eq!(ChunkPos::from_world_pos(0, 0), ChunkPos { x: 0, y: 0 });
    assert_eq!(ChunkPos::from_world_pos(1023, 1024), ChunkPos { x: 0, y: 1 });
    assert_eq!(ChunkPos::from_world_pos(-1, -1024), ChunkPos { x: -1, y: -1 });
    assert_eq!(ChunkPos::from_world_pos(-1025, 2047), ChunkPos { x: -2, y: 1 });
    assert_eq!(ChunkPos::from_world_pos(5000, -5000), ChunkPos { x: 4, y: -5 });
}

#[test]
fn world_positions_fall_into_tiles() {
    assert_eq!(TilePos::from_world_pos(0, 63), TilePos { x: 0, y: 0 });
    assert_eq!(TilePos::from_world_pos(64, -1), TilePos { x: 1, y: -1 });
    assert_eq!(TilePos::from_world_pos(-64, -65), TilePos { x: -1, y: -2 });
    assert_eq!(TilePos::from_world_pos(1000, -1000), TilePos { x: 15, y: -16 });
}

#[test]
fn coordinates_beyond_the_grid_stop_at_its_edge() {
    assert_eq!(
        ChunkPos::from_world_pos(i64::MAX, i64::MIN),
        ChunkPos { x: i32::MAX, y: i32::MIN }
    );
    assert_eq!(
        TilePos::from_world_pos(i64::MIN, i64::MAX),
        TilePos { x: i32::MIN, y: i32::MAX }
    );
    assert_eq!(clamp_to_i32(1 << 40), i32::MAX);
    assert_eq!(clamp_to_i32(-(1 << 40)), i32::MIN);
    assert_eq!(clamp_to_i32(-17), -17);
}

#[test]
fn chunk_of_a_position_agrees_with_flooring() {
    let mut v: i64 = -70_000;
    while v < 70_000 {
        let expected = (v as f64 / 1024.0).floor() as i32;
        assert_eq!(ChunkPos::from_world_pos(v, -v).x, expected);
        let expected = (v as f64 / 64.0).floor() as i32;
        assert_eq!(TilePos::from_world_pos(0, v).y, expected);
        v += 37;
    }
}

#[test]
fn division_rounds_down() {
    assert_eq!(floor_div(7, 2), 3);
    assert_eq!(floor_div(-7, 2), -4);
    assert_eq!(floor_div(-8, 2), -4);
    assert_eq!(floor_div(0, 5), 0);
    assert_eq!(floor_div(-1, 1024), -1);
    assert_eq!(floor_div(i64::MIN, 1), i32::MIN);
    assert_eq!(floor_div(i64::MIN, i32::MAX), i32::MIN);
    assert_eq!(floor_div(i64::MAX, i32::MAX), i32::MAX);
    assert_eq!(floor_div(i64::MAX, 1 << 30), i32::MAX);
    assert_eq!(floor_div(-(1 << 40), 1 << 20), -(1 << 20));
}

#[test]
fn priorities_are_ordered() {
    assert!(LoadPriority::Immediate.at_least(LoadPriority::Preload));
    assert!(LoadPriority::Immediate.at_least(LoadPriority::Immediate));
    assert!(LoadPriority::Preload.at_least(LoadPriority::Cache));
    assert!(!LoadPriority::Preload.at_least(LoadPriority::Immediate));
    assert!(!LoadPriority::Cache.at_least(LoadPriority::Preload));
    assert!(LoadPriority::Cache.at_least(LoadPriority::Cache));
}

#[test]
fn a_new_camera_sits_at_the_origin() {
    let camera = Camera::new(800, 600);
    assert_eq!(camera.position, Point { x: 0, y: 0 });
    assert_eq!(camera.viewport_size, Point { x: 800, y: 600 });
    assert_eq!(camera.last_chunk, ChunkPos { x: 0, y: 0 });
}

#[test]
fn the_camera_centres_on_its_target() {
    let mut camera = Camera::new(800, 600);
    camera.update(Point { x: 1000, y: -200 }, 1024, 768);
    assert_eq!(camera.position, Point { x: 600, y: -500 });
    assert_eq!(camera.viewport_size, Point { x: 1024, y: 768 });
    // The next update uses the size taken over by the one before.
    camera.update(Point { x: 0, y: 0 }, 801, 601);
    assert_eq!(camera.position, Point { x: -512, y: -384 });
    camera.update(Point { x: 0, y: 0 }, 10, 10);
    assert_eq!(camera.position, Point { x: -400, y: -300 });
}

#[test]
fn the_camera_stays_within_the_coordinates() {
    let mut camera = Camera::new(1000, 1000);
    camera.update(Point { x: i32::MIN, y: i32::MAX }, 1000, 1000);
    assert_eq!(camera.position, Point { x: i32::MIN, y: i32::MAX - 500 });
    let mut camera = Camera::new(-1000, -3);
    camera.update(Point { x: i32::MAX, y: 0 }, 1, 1);
    assert_eq!(camera.position, Point { x: i32::MAX, y: 2 });
}

#[test]
fn the_camera_reports_each_crossing_once() {
    let mut camera = Camera::new(800, 600);
    assert!(!camera.chunk_changed(Point { x: 10, y: 10 }));
    assert!(!camera.chunk_changed(Point { x: 1023, y: 0 }));
    assert!(camera.chunk_changed(Point { x: 1024, y: 0 }));
    assert_eq!(camera.last_chunk, ChunkPos { x: 1, y: 0 });
    assert!(!camera.chunk_changed(Point { x: 2047, y: 1023 }));
    assert!(camera.chunk_changed(Point { x: 2047, y: -1 }));
    assert_eq!(camera.last_chunk, ChunkPos { x: 1, y: -1 });
    assert!(camera.chunk_changed(Point { x: 0, y: 0 }));
    assert!(!camera.chunk_changed(Point { x: 0, y: 0 }));
}

#[test]
fn the_camera_maps_between_world_and_screen() {
    let mut camera = Camera::new(800, 600);
    camera.update(Point { x: 1000, y: 1000 }, 800, 600);
    assert_eq!(camera.world_to_screen(Point { x: 1000, y: 1000 }), (400, 300));
    assert_eq!(camera.world_to_screen(Point { x: 0, y: 0 }), (-600, -700));
    assert_eq!(camera.screen_to_world(Point { x: 400, y: 300 }), (1000, 1000));
    assert_eq!(camera.screen_to_world(Point { x: 0, y: 0 }), (600, 700));
    camera.position = Point { x: i32::MIN, y: i32::MAX };
    assert_eq!(
        camera.world_to_screen(Point { x: i32::MAX, y: i32::MIN }),
        (i32::MAX as i64 - i32::MIN as i64, i32::MIN as i64 - i32::MAX as i64)
    );
    assert_eq!(
        camera.screen_to_world(Point { x: i32::MIN, y: i32::MAX }),
        (2 * (i32::MIN as i64), 2 * (i32::MAX as i64))
    );
}

#[test]
fn the_visible_range_reaches_one_tile_back() {
    let mut camera = Camera::new(800, 600);
    assert_eq!(camera.get_visible_range(), ((-64, -64), (800, 600)));
    camera.update(Point { x: 5000, y: -5000 }, 800, 600);
    assert_eq!(camera.get_visible_range(), ((4536, -5364), (5400, -4700)));
    assert_eq!(
        camera.visible_chunks(),
        (ChunkPos { x: 4, y: -6 }, ChunkPos { x: 5, y: -5 })
    );
}

#[test]
fn tiles_show_when_they_reach_into_the_viewport() {
    let camera = Camera::new(800, 600);
    assert!(camera.is_on_screen((0, 0)));
    assert!(camera.is_on_screen((-64, -64)));
    assert!(camera.is_on_screen((800, 600)));
    assert!(!camera.is_on_screen((-65, 0)));
    assert!(!camera.is_on_screen((0, -65)));
    assert!(!camera.is_on_screen((801, 0)));
    assert!(!camera.is_on_screen((0, 601)));
}

#[test]
fn the_grid_player_starts_in_the_middle() {
    let player = GridPlayer::new();
    assert_eq!(player, GridPlayer { grid_x: 15, grid_y: 10 });
    assert_eq!(player.cell_origin(), (300, 200));
}

#[test]
fn the_grid_player_stays_on_the_grid() {
    let mut player = GridPlayer::new();
    player.move_direction(1, 0);
    assert_eq!(player, GridPlayer { grid_x: 16, grid_y: 10 });
    player.move_direction(0, -1);
    assert_eq!(player, GridPlayer { grid_x: 16, grid_y: 9 });
    player.move_direction(13, 0);
    assert_eq!(player, GridPlayer { grid_x: 29, grid_y: 9 });
    player.move_direction(1, 0);
    assert_eq!(player, GridPlayer { grid_x: 29, grid_y: 9 });
    player.move_direction(-29, -9);
    assert_eq!(player, GridPlayer { grid_x: 0, grid_y: 0 });
    player.move_direction(-1, 0);
    assert_eq!(player, GridPlayer { grid_x: 0, grid_y: 0 });
    player.move_direction(0, -1);
    assert_eq!(player, GridPlayer { grid_x: 0, grid_y: 0 });
    player.move_direction(0, 19);
    assert_eq!(player, GridPlayer { grid_x: 0, grid_y: 19 });
    player.move_direction(0, 1);
    assert_eq!(player, GridPlayer { grid_x: 0, grid_y: 19 });
    player.move_direction(i32::MAX, i32::MIN);
    assert_eq!(player, GridPlayer { grid_x: 0, grid_y: 19 });
    // A step is taken whole or not at all.
    player.move_direction(5, 1);
    assert_eq!(player, GridPlayer { grid_x: 0, grid_y: 19 });
}
