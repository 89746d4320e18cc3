use platformer_core::movement::PlayerStats;
use platformer_core::spawning::BodyKind;
use platformer_core::spawning::ColliderProfile;
use platformer_core::spawning::ColliderShape;
use platformer_core::spawning::SensorExtents;
use platformer_core::spawning::SpawnKind;
use platformer_core::spawning::TileKind;
use platformer_core::spawning::collider_profile;
use platformer_core::spawning::ground_sensor_geometry;
use platformer_core::spawning::is_wall_tile;
use platformer_core::spawning::sensor_extents;
use platformer_core::spawning::tile_kind_of;

#[test]
fn grid_values_classify_into_tile_kinds() {
    assert_eq!(tile_kind_of(1), TileKind::RedBrick);
    assert_eq!(tile_kind_of(2), TileKind::BlueBrick);
    assert_eq!(tile_kind_of(3), TileKind::Water);
    assert_eq!(tile_kind_of(4), TileKind::Ladder);
    assert_eq!(tile_kind_of(0), TileKind::Empty);
    assert_eq!(tile_kind_of(-7), TileKind::Empty);
    assert_eq!(tile_kind_of(99), TileKind::Empty);
}

#[test]
fn only_bricks_are_walls() {
    assert!(is_wall_tile(TileKind::RedBrick));
    assert!(is_wall_tile(TileKind::BlueBrick));
    assert!(!is_wall_tile(TileKind::Water));
    assert!(!is_wall_tile(TileKind::Ladder));
    assert!(!is_wall_tile(TileKind::Empty));
}

#[test]
fn ladders_and_water_spawn_sensors() {
    assert_eq!(
        sensor_extents(TileKind::Ladder),
        Some(SensorExtents { half_width: 5, half_height: 8 })
    );
    assert_eq!(
        sensor_extents(TileKind::Water),
        Some(SensorExtents { half_width: 8, half_height: 8 })
    );
    assert_eq!(sensor_extents(TileKind::RedBrick), None);
    assert_eq!(sensor_extents(TileKind::Empty), None);
}

#[test]
fn entity_kinds_get_their_collider_profiles() {
    assert_eq!(
        collider_profile(SpawnKind::Player),
        Some(ColliderProfile {
            shape: ColliderShape::CapsuleY { half_height: 7, radius: 7 },
            body: BodyKind::Dynamic,
        })
    );
    assert_eq!(
        collider_profile(SpawnKind::Snake),
        Some(ColliderProfile {
            shape: ColliderShape::Cuboid { half_width: 5, half_height: 5 },
            body: BodyKind::KinematicVelocityBased,
        })
    );
    assert_eq!(collider_profile(SpawnKind::Other), None);
}

#[test]
fn ground_sensors_hang_under_the_collider() {
    let capsule = ColliderShape::CapsuleY { half_height: 7, radius: 7 };
    let g = ground_sensor_geometry(&capsule);
    assert_eq!(g.half_width, 3);
    assert_eq!(g.half_height, 2);
    assert_eq!(g.offset_y, -14);

    let cuboid = ColliderShape::Cuboid { half_width: 5, half_height: 5 };
    let g = ground_sensor_geometry(&cuboid);
    assert_eq!(g.half_width, 2);
    assert_eq!(g.half_height, 2);
    assert_eq!(g.offset_y, -5);
}

#[test]
fn player_stats_match_the_tuning() {
    let stats = PlayerStats::player_default();
    assert_eq!(stats.acceleration, 15);
    assert_eq!(stats.max_speed_x, 100);
    assert_eq!(stats.max_speed_y, 400);
    assert_eq!(stats.jump_force, 400);
    assert_eq!(stats.friction_num, 1);
    assert_eq!(stats.friction_den, 10);
}
