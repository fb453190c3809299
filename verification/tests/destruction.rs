use shooter_core::entity::Entity;
use shooter_core::entity::EntityKind;
use shooter_core::entity::Movement;
use shooter_core::entity::Velocity;
use shooter_core::timer::SpawnTimer;
use shooter_core::world::WindowSize;
use shooter_core::world::World;

fn sample_world() -> World {
    let entities = vec![
        Entity {
            id: 0,
            kind: EntityKind::Player,
            x: 0,
            y: -300,
            vel: Velocity { x: 0, y: 0 },
            movement: Movement { per: 100 },
        },
        Entity {
            id: 1,
            kind: EntityKind::Enemy,
            x: 40,
            y: 900,
            vel: Velocity { x: 0, y: -1 },
            movement: Movement { per: 60 },
        },
        Entity {
            id: 2,
            kind: EntityKind::EnemyLaser,
            x: 40,
            y: 500,
            vel: Velocity { x: 0, y: -1 },
            movement: Movement { per: 200 },
        },
    ];
    World {
        next_id: 3,
        entities,
        timers: SpawnTimer::default(),
        window: WindowSize { width: 119600, height: 135200 },
    }
}

#[test]
fn despawn_removes_exactly_the_handle() {
    let mut w = sample_world();
    w.despawn(1);
    assert_eq!(w.entities.len(), 2);
    assert_eq!(w.entities[0].id, 0);
    assert_eq!(w.entities[1].id, 2);
}

#[test]
fn despawning_twice_equals_despawning_once() {
    let mut once = sample_world();
    once.despawn(1);
    let mut twice = sample_world();
    twice.despawn(1);
    twice.despawn(1);
    assert_eq!(once.entities, twice.entities);
    assert_eq!(once.next_id, twice.next_id);
}

#[test]
fn despawning_a_missing_handle_is_a_no_op() {
    let mut w = sample_world();
    w.despawn(77);
    assert_eq!(w.entities, sample_world().entities);
}
