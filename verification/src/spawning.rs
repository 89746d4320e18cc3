//! Spawn-time classification and geometry.
//!
//! When a level loads, its integer-grid tile values are classified into tile
//! kinds, entities get their collider profiles, each entity with ground
//! detection gets a small ground-sensor shape hung under its collider, and
//! every compacted wall rectangle becomes one static collision box. The
//! actual spawning is engine work; what is here is the pure mapping from
//! loaded data to the shapes and sizes to spawn.

use vstd::prelude::*;

use crate::compact::WallRect;

verus! {

/// What one cell of the level's collision layer holds. Both brick kinds are
/// solid walls; ladders and water spawn sensors instead.
#[derive(Clone, Copy, Debug, PartialEq, Eq, Structural)]
pub enum TileKind {
    Empty,
    RedBrick,
    BlueBrick,
    Water,
    Ladder,
}

/// Classifies a collision-layer grid value; values outside the known range
/// are empty.
pub fn tile_kind_of(value: i32) -> (k: TileKind)
    ensures
        k == (if value == 1 {
            TileKind::RedBrick
        } else if value == 2 {
            TileKind::BlueBrick
        } else if value == 3 {
            TileKind::Water
        } else if value == 4 {
            TileKind::Ladder
        } else {
            TileKind::Empty
        }),
{
    if value == 1 {
        TileKind::RedBrick
    } else if value == 2 {
        TileKind::BlueBrick
    } else if value == 3 {
        TileKind::Water
    } else if value == 4 {
        TileKind::Ladder
    } else {
        TileKind::Empty
    }
}

/// Whether the tile is a solid wall cell, the input of the compactor.
pub fn is_wall_tile(k: TileKind) -> (r: bool)
    ensures
        r == (k == TileKind::RedBrick || k == TileKind::BlueBrick),
{
    match k {
        TileKind::RedBrick => true,
        TileKind::BlueBrick => true,
        _ => false,
    }
}

/// Half-extents of an axis-aligned sensor box, in world units.
#[derive(Clone, Copy, Debug, PartialEq, Eq, Structural)]
pub struct SensorExtents {
    pub half_width: i64,
    pub half_height: i64,
}

/// The overlap-sensor box a tile kind spawns: ladders get a narrow box that
/// only the climber's core touches, water a full-tile box; solid and empty
/// tiles spawn no sensor.
pub fn sensor_extents(k: TileKind) -> (r: Option<SensorExtents>)
    ensures
        k == TileKind::Ladder ==> r == Some(SensorExtents { half_width: 5, half_height: 8 }),
        k == TileKind::Water ==> r == Some(SensorExtents { half_width: 8, half_height: 8 }),
        k != TileKind::Ladder && k != TileKind::Water ==> r == Option::<SensorExtents>::None,
{
    match k {
        TileKind::Ladder => Some(SensorExtents { half_width: 5, half_height: 8 }),
        TileKind::Water => Some(SensorExtents { half_width: 8, half_height: 8 }),
        _ => None,
    }
}

/// The collider shape of a spawned entity, in world units.
#[derive(Clone, Copy, Debug, PartialEq, Eq, Structural)]
pub enum ColliderShape {
    /// A vertical capsule: a segment of the given half-height with
    /// spherical caps of the given radius.
    CapsuleY { half_height: i64, radius: i64 },
    /// An axis-aligned box with the given half-extents.
    Cuboid { half_width: i64, half_height: i64 },
}

/// How the physics engine should integrate the body.
#[derive(Clone, Copy, Debug, PartialEq, Eq, Structural)]
pub enum BodyKind {
    Dynamic,
    KinematicVelocityBased,
}

/// The physics profile an entity kind is spawned with.
#[derive(Clone, Copy, Debug, PartialEq, Eq, Structural)]
pub struct ColliderProfile {
    pub shape: ColliderShape,
    pub body: BodyKind,
}

/// The entity kinds the level data can name.
#[derive(Clone, Copy, Debug, PartialEq, Eq, Structural)]
pub enum SpawnKind {
    Player,
    Snake,
    Other,
}

/// The collider profile of an entity kind: the player is a dynamic capsule,
/// the snake a kinematic box, and anything else gets no collider.
pub fn collider_profile(kind: SpawnKind) -> (r: Option<ColliderProfile>)
    ensures
        kind == SpawnKind::Player ==> r == Some(
            ColliderProfile {
                shape: ColliderShape::CapsuleY { half_height: 7, radius: 7 },
                body: BodyKind::Dynamic,
            },
        ),
        kind == SpawnKind::Snake ==> r == Some(
            ColliderProfile {
                shape: ColliderShape::Cuboid { half_width: 5, half_height: 5 },
                body: BodyKind::KinematicVelocityBased,
            },
        ),
        kind == SpawnKind::Other ==> r == Option::<ColliderProfile>::None,
{
    match kind {
        SpawnKind::Player => Some(
            ColliderProfile {
                shape: ColliderShape::CapsuleY { half_height: 7, radius: 7 },
                body: BodyKind::Dynamic,
            },
        ),
        SpawnKind::Snake => Some(
            ColliderProfile {
                shape: ColliderShape::Cuboid { half_width: 5, half_height: 5 },
                body: BodyKind::KinematicVelocityBased,
            },
        ),
        SpawnKind::Other => None,
    }
}

/// The ground sensor hung under an entity: a thin box of half the entity's
/// width, two units tall, sitting at the entity's lower edge.
#[derive(Clone, Copy, Debug, PartialEq, Eq, Structural)]
pub struct SensorGeometry {
    pub half_width: i64,
    pub half_height: i64,
    pub offset_y: i64,
}

/// Computes the ground-sensor shape for an entity's collider: half as wide
/// as the entity, two units tall, offset down by the entity's half-height
/// (for a capsule, the half-height of its segment plus the cap radius).
pub fn ground_sensor_geometry(shape: &ColliderShape) -> (r: SensorGeometry)
    requires
        match *shape {
            ColliderShape::CapsuleY { half_height, radius } => 0 <= half_height && 0 <= radius
                && half_height + radius <= i64::MAX,
            ColliderShape::Cuboid { half_width, half_height } => 0 <= half_width && 0
                <= half_height,
        },
    ensures
        match *shape {
            ColliderShape::CapsuleY { half_height, radius } => r.half_width == radius / 2
                && r.half_height == 2 && r.offset_y == -(half_height + radius),
            ColliderShape::Cuboid { half_width, half_height } => r.half_width == half_width / 2
                && r.half_height == 2 && r.offset_y == -half_height,
        },
{
    match *shape {
        ColliderShape::CapsuleY { half_height, radius } => {
            let hw: i64 = (radius as u64 / 2) as i64;
            SensorGeometry { half_width: hw, half_height: 2, offset_y: -(half_height + radius) }
        },
        ColliderShape::Cuboid { half_width, half_height } => {
            let hw: i64 = (half_width as u64 / 2) as i64;
            SensorGeometry { half_width: hw, half_height: 2, offset_y: -half_height }
        },
    }
}

/// One static collision box for a compacted wall rectangle, in pixels.
///
/// The physics engine wants half-extents and a center, both of which may end
/// in half a pixel; to stay in integers this carries the full extents and
/// the doubled center, which the engine edge halves in its own unit.
#[derive(Clone, Copy, Debug, PartialEq, Eq, Structural)]
pub struct WallColliderBox {
    pub extent_x: i64,
    pub extent_y: i64,
    pub center_x2: i64,
    pub center_y2: i64,
}

/// Converts a compacted rectangle (in cells) into its collision box (in
/// pixels): the extent is the cell span times the grid size, and the doubled
/// center is the sum of the two bounds plus one, times the grid size.
pub fn wall_collider_box(rect: &WallRect, grid_size: i64) -> (r: WallColliderBox)
    requires
        rect.left <= rect.right <= 0xffffffffusize,
        rect.bottom <= rect.top <= 0xffffffffusize,
        0 < grid_size <= 0xffff,
    ensures
        r.extent_x == (rect.right - rect.left + 1) * grid_size,
        r.extent_y == (rect.top - rect.bottom + 1) * grid_size,
        r.center_x2 == (rect.left + rect.right + 1) * grid_size,
        r.center_y2 == (rect.bottom + rect.top + 1) * grid_size,
{
    proof {
        assert(0 <= (rect.right - rect.left + 1) * grid_size <= 0x100000001 * 0xffff)
            by (nonlinear_arith)
            requires
                0 < rect.right - rect.left + 1 <= 0x100000001,
                0 < grid_size <= 0xffff,
        ;
        assert(0 <= (rect.top - rect.bottom + 1) * grid_size <= 0x100000001 * 0xffff)
            by (nonlinear_arith)
            requires
                0 < rect.top - rect.bottom + 1 <= 0x100000001,
                0 < grid_size <= 0xffff,
        ;
        assert(0 <= (rect.left + rect.right + 1) * grid_size <= 0x1ffffffff * 0xffff)
            by (nonlinear_arith)
            requires
                0 < rect.left + rect.right + 1 <= 0x1ffffffff,
                0 < grid_size <= 0xffff,
        ;
        assert(0 <= (rect.bottom + rect.top + 1) * grid_size <= 0x1ffffffff * 0xffff)
            by (nonlinear_arith)
            requires
                0 < rect.bottom + rect.top + 1 <= 0x1ffffffff,
                0 < grid_size <= 0xffff,
        ;
    }
    let span_x: i64 = (rect.right - rect.left) as i64 + 1;
    let span_y: i64 = (rect.top - rect.bottom) as i64 + 1;
    let sum_x: i64 = rect.left as i64 + rect.right as i64 + 1;
    let sum_y: i64 = rect.bottom as i64 + rect.top as i64 + 1;
    WallColliderBox {
        extent_x: span_x * grid_size,
        extent_y: span_y * grid_size,
        center_x2: sum_x * grid_size,
        center_y2: sum_y * grid_size,
    }
}

} // verus!
