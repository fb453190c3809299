//! Entities and their facets: kind tags, position, velocity, speed factor.
//!
//! All distances are in world units, 200 to a pixel; sprites are drawn at
//! half scale, so every scaled sprite extent below is exact.

use vstd::prelude::*;

use crate::geom::Aabb;

verus! {

/// How many world units one pixel spans.
pub const UNITS_PER_PIXEL: i64 = 200;

/// Player sprite, 144 x 75 pixels drawn at half scale: 144 * 200 / 2.
pub const PLAYER_WIDTH: i64 = 14400;
/// Player sprite height: 75 * 200 / 2.
pub const PLAYER_HEIGHT: i64 = 7500;
/// Player laser sprite, 9 x 54 pixels drawn at half scale: 9 * 200 / 2.
pub const PLAYER_LASER_WIDTH: i64 = 900;
/// Player laser sprite height: 54 * 200 / 2.
pub const PLAYER_LASER_HEIGHT: i64 = 5400;
/// Enemy sprite, 93 x 84 pixels drawn at half scale: 93 * 200 / 2.
pub const ENEMY_WIDTH: i64 = 9300;
/// Enemy sprite height: 84 * 200 / 2.
pub const ENEMY_HEIGHT: i64 = 8400;
/// Enemy laser sprite, 17 x 55 pixels drawn at half scale: 17 * 200 / 2.
pub const ENEMY_LASER_WIDTH: i64 = 1700;
/// Enemy laser sprite height: 55 * 200 / 2.
pub const ENEMY_LASER_HEIGHT: i64 = 5500;

/// Speed factor of the player, in hundredths.
pub const PLAYER_SPEED_FACTOR: u16 = 100;
/// Speed factor of an enemy, in hundredths.
pub const ENEMY_SPEED_FACTOR: u16 = 60;
/// Speed factor of a player laser, in hundredths.
pub const PLAYER_LASER_SPEED_FACTOR: u16 = 100;
/// Speed factor of an enemy laser, in hundredths.
pub const ENEMY_LASER_SPEED_FACTOR: u16 = 200;

/// What an entity is; the kind decides its sprite extents and which
/// collision rule applies to it.
#[derive(Clone, Copy, PartialEq, Eq, Structural, Debug)]
pub enum EntityKind {
    /// The player ship; at most one exists at a time.
    Player,
    /// An enemy ship.
    Enemy,
    /// A laser fired by the player; it damages only enemies.
    PlayerLaser,
    /// A laser fired by an enemy; it damages only the player.
    EnemyLaser,
}

/// A direction vector; it need not be normalized, only its per-axis signs
/// matter to the mover. The game keeps every velocity axis-aligned, since
/// only along the axes does the integer grid hold an exact unit vector.
#[derive(Clone, Copy, PartialEq, Eq, Structural, Debug)]
pub struct Velocity {
    /// Horizontal component.
    pub x: i64,
    /// Vertical component.
    pub y: i64,
}

/// The movement facet: a per-entity speed factor, in hundredths, that
/// scales the shared base speed.
#[derive(Clone, Copy, PartialEq, Eq, Structural, Debug)]
pub struct Movement {
    /// Speed factor in hundredths; 100 is the base speed.
    pub per: u16,
}

/// One game entity: a unique handle and its facets.
#[derive(Clone, Copy, PartialEq, Eq, Structural, Debug)]
pub struct Entity {
    /// Unique handle; never reused within one world.
    pub id: u64,
    /// Kind tag, fixed at creation.
    pub kind: EntityKind,
    /// Position, x coordinate in world units.
    pub x: i64,
    /// Position, y coordinate in world units.
    pub y: i64,
    /// Direction of movement.
    pub vel: Velocity,
    /// Speed factor.
    pub movement: Movement,
}

/// Half the sprite width of a kind.
pub open spec fn spec_kind_half_width(kind: EntityKind) -> int {
    match kind {
        EntityKind::Player => PLAYER_WIDTH / 2,
        EntityKind::Enemy => ENEMY_WIDTH / 2,
        EntityKind::PlayerLaser => PLAYER_LASER_WIDTH / 2,
        EntityKind::EnemyLaser => ENEMY_LASER_WIDTH / 2,
    }
}

/// Half the sprite height of a kind.
pub open spec fn spec_kind_half_height(kind: EntityKind) -> int {
    match kind {
        EntityKind::Player => PLAYER_HEIGHT / 2,
        EntityKind::Enemy => ENEMY_HEIGHT / 2,
        EntityKind::PlayerLaser => PLAYER_LASER_HEIGHT / 2,
        EntityKind::EnemyLaser => ENEMY_LASER_HEIGHT / 2,
    }
}

/// The bounding box of an entity: centered at its position, with the half
/// extents of its kind.
pub open spec fn spec_entity_box(e: Entity) -> Aabb {
    Aabb {
        x: e.x,
        y: e.y,
        half_w: spec_kind_half_width(e.kind) as i64,
        half_h: spec_kind_half_height(e.kind) as i64,
    }
}

/// Looks up the fixed half extents of a kind.
pub fn kind_half_extents(kind: EntityKind) -> (r: (i64, i64))
    ensures
        r.0 == spec_kind_half_width(kind),
        r.1 == spec_kind_half_height(kind),
{
    match kind {
        EntityKind::Player => (PLAYER_WIDTH / 2, PLAYER_HEIGHT / 2),
        EntityKind::Enemy => (ENEMY_WIDTH / 2, ENEMY_HEIGHT / 2),
        EntityKind::PlayerLaser => (PLAYER_LASER_WIDTH / 2, PLAYER_LASER_HEIGHT / 2),
        EntityKind::EnemyLaser => (ENEMY_LASER_WIDTH / 2, ENEMY_LASER_HEIGHT / 2),
    }
}

/// Builds the bounding box used by the collision resolver and nothing else.
pub fn entity_box(e: &Entity) -> (b: Aabb)
    ensures
        b == spec_entity_box(*e),
{
    let (half_w, half_h) = kind_half_extents(e.kind);
    Aabb { x: e.x, y: e.y, half_w, half_h }
}

/// A fresh player entity: standing still, base speed.
pub open spec fn spec_player_entity(id: u64, x: i64, y: i64) -> Entity {
    Entity {
        id,
        kind: EntityKind::Player,
        x,
        y,
        vel: Velocity { x: 0, y: 0 },
        movement: Movement { per: PLAYER_SPEED_FACTOR },
    }
}

/// A fresh enemy entity: moving straight down at enemy speed.
pub open spec fn spec_enemy_entity(id: u64, x: i64, y: i64) -> Entity {
    Entity {
        id,
        kind: EntityKind::Enemy,
        x,
        y,
        vel: Velocity { x: 0, y: -1i64 },
        movement: Movement { per: ENEMY_SPEED_FACTOR },
    }
}

/// A fresh player laser: moving straight up at laser speed.
pub open spec fn spec_player_laser_entity(id: u64, x: i64, y: i64) -> Entity {
    Entity {
        id,
        kind: EntityKind::PlayerLaser,
        x,
        y,
        vel: Velocity { x: 0, y: 1 },
        movement: Movement { per: PLAYER_LASER_SPEED_FACTOR },
    }
}

/// A fresh enemy laser: moving straight down at enemy laser speed.
pub open spec fn spec_enemy_laser_entity(id: u64, x: i64, y: i64) -> Entity {
    Entity {
        id,
        kind: EntityKind::EnemyLaser,
        x,
        y,
        vel: Velocity { x: 0, y: -1i64 },
        movement: Movement { per: ENEMY_LASER_SPEED_FACTOR },
    }
}

} // verus!
