use platformer_core::contacts::ClimbContacts;
use platformer_core::contacts::ContactSet;
use platformer_core::movement::Position;
use platformer_core::movement::check_touched_water;
use platformer_core::tracker::Climber;
use platformer_core::tracker::ContactPhase;
use platformer_core::tracker::GroundDetection;
use platformer_core::tracker::GroundSensor;
use platformer_core::tracker::OverlapEvent;
use platformer_core::tracker::touched_water_in;
use platformer_core::tracker::update_climb_intersection_detection;
use platformer_core::tracker::update_ground_sensor_intersections;
use platformer_core::tracker::update_on_ground;

const PLAYER: u64 = 1;
const SENSOR: u64 = 2;
const FLOOR: u64 = 10;
const LADDER: u64 = 20;
const POOL: u64 = 30;

fn begin(a: u64, b: u64) -> OverlapEvent {
    OverlapEvent { phase: ContactPhase::Begin, a, b }
}

fn end(a: u64, b: u64) -> OverlapEvent {
    OverlapEvent { phase: ContactPhase::End, a, b }
}

fn fresh_sensor() -> GroundSensor {
    GroundSensor {
        entity: SENSOR,
        ground_detection_entity: PLAYER,
        intersecting_ground_entities: ContactSet::new(),
    }
}

fn solids() -> ContactSet {
    let mut s = ContactSet::new();
    s.insert(FLOOR);
    s.insert(11);
    s
}

#[test]
fn ground_sensor_gains_and_loses_contacts() {
    let mut sensor = fresh_sensor();
    let solids = solids();
    let events = vec![begin(FLOOR, SENSOR)];
    update_ground_sensor_intersections(&mut sensor, &events, &solids);
    assert!(sensor.intersecting_ground_entities.contains(FLOOR));

    let events = vec![end(FLOOR, SENSOR)];
    update_ground_sensor_intersections(&mut sensor, &events, &solids);
    assert!(!sensor.intersecting_ground_entities.contains(FLOOR));
}

#[test]
fn irrelevant_pairings_are_ignored() {
    let mut sensor = fresh_sensor();
    let solids = solids();
    // Neither side is this sensor, or neither side is a solid.
    let events = vec![begin(FLOOR, 99), begin(PLAYER, SENSOR), begin(3, 4)];
    update_ground_sensor_intersections(&mut sensor, &events, &solids);
    assert!(sensor.intersecting_ground_entities.is_empty());
}

#[test]
fn solid_side_is_checked_first() {
    // Both sides are solids, but the first solid side wins the
    // classification and its partner is not the sensor: nothing happens.
    let mut sensor = fresh_sensor();
    let solids = solids();
    let events = vec![begin(FLOOR, 11)];
    update_ground_sensor_intersections(&mut sensor, &events, &solids);
    assert!(sensor.intersecting_ground_entities.is_empty());
}

#[test]
fn end_for_an_unknown_body_is_ignored() {
    let mut sensor = fresh_sensor();
    let solids = solids();
    let events = vec![end(FLOOR, SENSOR)];
    update_ground_sensor_intersections(&mut sensor, &events, &solids);
    assert!(sensor.intersecting_ground_entities.is_empty());
}

#[test]
fn grounded_does_not_flicker_within_one_batch() {
    // A contact that begins and ends inside the same batch leaves the
    // grounded flag, which is computed only after the batch, unchanged.
    let mut detection = GroundDetection { on_ground: false };
    let mut sensor = fresh_sensor();
    let solids = solids();
    let events = vec![begin(FLOOR, SENSOR), end(FLOOR, SENSOR)];
    update_ground_sensor_intersections(&mut sensor, &events, &solids);
    update_on_ground(&mut detection, &sensor);
    assert!(!detection.on_ground);

    // Starting from a grounded state, an unrelated begin/end pair changes
    // nothing either.
    let mut sensor = fresh_sensor();
    let events = vec![begin(FLOOR, SENSOR)];
    update_ground_sensor_intersections(&mut sensor, &events, &solids);
    update_on_ground(&mut detection, &sensor);
    assert!(detection.on_ground);
    let events = vec![begin(11, SENSOR), end(11, SENSOR)];
    update_ground_sensor_intersections(&mut sensor, &events, &solids);
    update_on_ground(&mut detection, &sensor);
    assert!(detection.on_ground);
}

#[test]
fn climb_contacts_follow_events_with_anchors() {
    let mut climber = Climber { climbing: false, intersecting_climbables: ClimbContacts::new() };
    let mut climbables = ClimbContacts::new();
    climbables.insert(LADDER, 320);

    let events = vec![begin(PLAYER, LADDER)];
    update_climb_intersection_detection(&mut climber, PLAYER, &events, &climbables);
    assert_eq!(climber.intersecting_climbables.get(LADDER), Some(320));

    // The reversed orientation works too, and ending removes the contact.
    let events = vec![end(LADDER, PLAYER)];
    update_climb_intersection_detection(&mut climber, PLAYER, &events, &climbables);
    assert!(climber.intersecting_climbables.is_empty());

    // Events for bodies that are not climbable (for example despawned ones)
    // are ignored.
    let events = vec![begin(PLAYER, 77), end(PLAYER, 77)];
    update_climb_intersection_detection(&mut climber, PLAYER, &events, &climbables);
    assert!(climber.intersecting_climbables.is_empty());
}

#[test]
fn water_touch_forces_respawn_and_first_level() {
    let mut waters = ContactSet::new();
    waters.insert(POOL);
    let mut position = Position { x: 640, y: 480, z: 10 };
    let mut level_index: usize = 3;
    let events = vec![begin(POOL, PLAYER)];
    assert!(touched_water_in(&events, PLAYER, &waters));
    check_touched_water(&mut position, &mut level_index, &events, PLAYER, &waters);
    assert_eq!(position, Position { x: 200, y: -170, z: 10 });
    assert_eq!(level_index, 0);
}

#[test]
fn without_a_water_touch_nothing_moves() {
    let mut waters = ContactSet::new();
    waters.insert(POOL);
    let mut position = Position { x: 640, y: 480, z: 10 };
    let mut level_index: usize = 3;
    // An End event with water, and a Begin with a non-water body: neither
    // counts as touching water.
    let events = vec![end(POOL, PLAYER), begin(FLOOR, PLAYER)];
    assert!(!touched_water_in(&events, PLAYER, &waters));
    check_touched_water(&mut position, &mut level_index, &events, PLAYER, &waters);
    assert_eq!(position, Position { x: 640, y: 480, z: 10 });
    assert_eq!(level_index, 3);
}
