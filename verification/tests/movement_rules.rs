use shooter_core::entity::Entity;
use shooter_core::entity::EntityKind;
use shooter_core::entity::Movement;
use shooter_core::entity::Velocity;
use shooter_core::movement::movement;
use shooter_core::timer::SpawnTimer;
use shooter_core::world::WindowSize;
use shooter_core::world::World;

fn world_with(entities: Vec<Entity>) -> World {
    let next_id = entities.len() as u64;
    World {
        next_id,
        entities,
        timers: SpawnTimer::default(),
        window: WindowSize { width: 119600, height: 135200 },
    }
}

fn entity(id: u64, kind: EntityKind, x: i64, y: i64, vel: (i64, i64), per: u16) -> Entity {
    Entity { id, kind, x, y, vel: Velocity { x: vel.0, y: vel.1 }, movement: Movement { per } }
}

#[test]
fn displacement_is_base_speed_times_factor_times_time() {
    // an enemy: factor 60 hundredths, 16 ms: 60 * 16 = 960 units downward
    let mut w = world_with(vec![entity(0, EntityKind::Enemy, 500, 20000, (0, -1), 60)]);
    movement(&mut w, 16);
    assert_eq!(w.entities[0].x, 500);
    assert_eq!(w.entities[0].y, 20000 - 960);
}

#[test]
fn displacement_ignores_the_velocity_magnitude() {
    // (0, -1) and (0, -5) are the same direction, so they move alike
    let mut a = world_with(vec![entity(0, EntityKind::Enemy, 0, 0, (0, -1), 60)]);
    let mut b = world_with(vec![entity(0, EntityKind::Enemy, 0, 0, (0, -5), 60)]);
    movement(&mut a, 100);
    movement(&mut b, 100);
    assert_eq!(a.entities[0].y, b.entities[0].y);
    assert_eq!(a.entities[0].y, -6000);
}

#[test]
fn zero_velocity_means_no_displacement() {
    let mut w = world_with(vec![entity(0, EntityKind::Player, 123, -456, (0, 0), 100)]);
    movement(&mut w, 1000);
    assert_eq!(w.entities[0].x, 123);
    assert_eq!(w.entities[0].y, -456);
}

#[test]
fn one_second_at_base_speed_is_five_hundred_pixels() {
    // a player laser: factor 100, one second: 100_000 units = 500 pixels up
    let mut w = world_with(vec![entity(0, EntityKind::PlayerLaser, 0, 0, (0, 1), 100)]);
    movement(&mut w, 1000);
    assert_eq!(w.entities[0].y, 100_000);
}

#[test]
fn sideways_steering_moves_only_x() {
    let mut w = world_with(vec![entity(0, EntityKind::Player, 0, -300, (-1, 0), 100)]);
    movement(&mut w, 16);
    assert_eq!(w.entities[0].x, -1600);
    assert_eq!(w.entities[0].y, -300);
}
