//! Gameplay core of a small vertical-scrolling shooter.
//!
//! The library holds the rules that drive one simulation tick: a spawner
//! creates enemies and laser projectiles, a mover advances every entity by
//! its velocity, a collision resolver removes laser/target pairs whose
//! axis-aligned bounding boxes overlap, and a lifecycle reaper removes
//! entities that left the play area.
//!
//! All distances are integers in fine world units: 200 units to one pixel.
//! With sprites drawn at half scale, every sprite half-extent is then exact,
//! and the shared base speed of 500 pixels per second comes out as exactly
//! one unit per millisecond per hundredth of an entity's speed factor.
//! Time is measured in milliseconds, speed factors in hundredths.

pub mod collision;
pub mod enemy;
pub mod entity;
pub mod geom;
pub mod movement;
pub mod player;
pub mod reaper;
pub mod tick;
pub mod timer;
pub mod world;
