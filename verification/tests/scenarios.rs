use shooter_core::collision::enemy_laser_hit_player;
use shooter_core::collision::player_laser_hit_enemy;
use shooter_core::enemy::spawn_enemy;
use shooter_core::entity::ENEMY_HEIGHT;
use shooter_core::entity::Entity;
use shooter_core::entity::EntityKind;
use shooter_core::entity::Movement;
use shooter_core::entity::PLAYER_HEIGHT;
use shooter_core::entity::PLAYER_WIDTH;
use shooter_core::entity::Velocity;
use shooter_core::player::player_fire;
use shooter_core::reaper::despawn_enemy;
use shooter_core::tick::tick;
use shooter_core::timer::SpawnTimer;
use shooter_core::world::WindowSize;
use shooter_core::world::World;

fn world_with(width: i64, height: i64, entities: Vec<Entity>) -> World {
    let next_id = entities.len() as u64;
    World { next_id, entities, timers: SpawnTimer::default(), window: WindowSize { width, height } }
}

fn entity(id: u64, kind: EntityKind, x: i64, y: i64, vel: (i64, i64), per: u16) -> Entity {
    Entity { id, kind, x, y, vel: Velocity { x: vel.0, y: vel.1 }, movement: Movement { per } }
}

#[test]
fn fire_edge_spawns_two_lasers_off_the_wingtips() {
    // player at (0, -300), no enemies, fire edge high
    let mut w = world_with(119600, 135200, vec![entity(
        0,
        EntityKind::Player,
        0,
        -300,
        (0, 0),
        100,
    )]);
    let fired = player_fire(&mut w, true);
    assert!(fired);
    assert_eq!(w.entities.len(), 3);
    let left = w.entities[1];
    let right = w.entities[2];
    assert_eq!(left.kind, EntityKind::PlayerLaser);
    assert_eq!(right.kind, EntityKind::PlayerLaser);
    // exactly half the scaled sprite width to either side
    assert_eq!(left.x, -(PLAYER_WIDTH / 2));
    assert_eq!(right.x, PLAYER_WIDTH / 2);
    assert_eq!(left.y, -300 + PLAYER_HEIGHT);
    assert_eq!(right.y, -300 + PLAYER_HEIGHT);
    // both moving straight up
    assert_eq!(left.vel, Velocity { x: 0, y: 1 });
    assert_eq!(right.vel, Velocity { x: 0, y: 1 });
}

#[test]
fn no_fire_without_the_edge() {
    let mut w = world_with(119600, 135200, vec![entity(
        0,
        EntityKind::Player,
        0,
        -300,
        (0, 0),
        100,
    )]);
    assert!(!player_fire(&mut w, false));
    assert_eq!(w.entities.len(), 1);
}

#[test]
fn fire_edge_without_a_player_is_a_no_op() {
    let mut w = world_with(119600, 135200, vec![]);
    assert!(!player_fire(&mut w, true));
    assert_eq!(w.entities.len(), 0);
}

#[test]
fn spawn_timer_expiry_creates_exactly_one_enemy() {
    // a degenerate zero-width play area pins the random position to zero
    let mut w = world_with(0, 135200, vec![]);
    assert_eq!(spawn_enemy(&mut w, 700), None);
    assert_eq!(spawn_enemy(&mut w, 700), None);
    // elapsed ticks now sum to exactly 2.0 s: one enemy, just above the top
    let x = spawn_enemy(&mut w, 600);
    assert_eq!(x, Some(0));
    assert_eq!(w.entities.len(), 1);
    let e = w.entities[0];
    assert_eq!(e.kind, EntityKind::Enemy);
    assert_eq!(e.x, 0);
    assert_eq!(e.y, 135200 / 2 + ENEMY_HEIGHT / 2);
    assert_eq!(e.vel, Velocity { x: 0, y: -1 });
    // and nothing more spawns before the next expiry
    assert_eq!(spawn_enemy(&mut w, 600), None);
    assert_eq!(w.entities.len(), 1);
}

#[test]
fn random_spawn_positions_stay_within_the_play_area() {
    let mut w = world_with(119600, 135200, vec![]);
    for _ in 0..20 {
        if let Some(x) = spawn_enemy(&mut w, 2000) {
            assert!(-59800 <= x && x <= 59800);
        }
    }
    assert_eq!(w.entities.len(), 20);
}

#[test]
fn player_laser_and_enemy_destroy_each_other() {
    // laser and enemy share a center, so their boxes overlap
    let mut w = world_with(119600, 135200, vec![
        entity(0, EntityKind::PlayerLaser, 10, 50, (0, 1), 100),
        entity(1, EntityKind::Enemy, 10, 50, (0, -1), 60),
    ]);
    let hits = player_laser_hit_enemy(&mut w);
    assert_eq!(hits, 1);
    assert_eq!(w.entities.len(), 0);
}

#[test]
fn a_destroyed_laser_is_not_matched_again() {
    // one laser amid two overlapping enemies: only the first enemy dies
    let mut w = world_with(119600, 135200, vec![
        entity(0, EntityKind::PlayerLaser, 0, 0, (0, 1), 100),
        entity(1, EntityKind::Enemy, 0, 0, (0, -1), 60),
        entity(2, EntityKind::Enemy, 10, 10, (0, -1), 60),
    ]);
    let hits = player_laser_hit_enemy(&mut w);
    assert_eq!(hits, 1);
    assert_eq!(w.entities.len(), 1);
    assert_eq!(w.entities[0].id, 2);
}

#[test]
fn reaper_removes_enemies_strictly_below_the_bottom() {
    // height 1000: the bottom edge lies at -500
    let mut w = world_with(119600, 1000, vec![
        entity(0, EntityKind::Enemy, 0, -501, (0, -1), 60),
        entity(1, EntityKind::Enemy, 0, -500, (0, -1), 60),
    ]);
    despawn_enemy(&mut w);
    // strictly below goes; exactly on the edge stays
    assert_eq!(w.entities.len(), 1);
    assert_eq!(w.entities[0].id, 1);
}

#[test]
fn two_lasers_striking_the_player_destroy_it_once() {
    let mut w = world_with(119600, 135200, vec![
        entity(0, EntityKind::EnemyLaser, 0, 0, (0, -1), 200),
        entity(1, EntityKind::Player, 0, 0, (0, 0), 100),
        entity(2, EntityKind::EnemyLaser, 5, 5, (0, -1), 200),
    ]);
    let hit = enemy_laser_hit_player(&mut w);
    assert!(hit);
    // the player went exactly once, both lasers went, nothing failed
    assert_eq!(w.entities.len(), 0);
}

#[test]
fn a_missing_laser_survives_the_player_pass() {
    let mut w = world_with(119600, 135200, vec![
        entity(0, EntityKind::EnemyLaser, 50000, 50000, (0, -1), 200),
        entity(1, EntityKind::Player, 0, -60000, (0, 0), 100),
    ]);
    let hit = enemy_laser_hit_player(&mut w);
    assert!(!hit);
    assert_eq!(w.entities.len(), 2);
}

#[test]
fn volley_expiry_fires_one_laser_per_enemy() {
    let mut w = world_with(119600, 135200, vec![
        entity(0, EntityKind::Enemy, -1000, 40000, (0, -1), 60),
        entity(1, EntityKind::Enemy, 3000, 55000, (0, -1), 60),
    ]);
    assert!(!shooter_core::enemy::enemy_fire(&mut w, 499));
    assert!(shooter_core::enemy::enemy_fire(&mut w, 1));
    assert_eq!(w.entities.len(), 4);
    let a = w.entities[2];
    let b = w.entities[3];
    assert_eq!(a.kind, EntityKind::EnemyLaser);
    assert_eq!(b.kind, EntityKind::EnemyLaser);
    // each laser leaves one enemy half-height below its shooter
    assert_eq!((a.x, a.y), (-1000, 40000 - ENEMY_HEIGHT / 2));
    assert_eq!((b.x, b.y), (3000, 55000 - ENEMY_HEIGHT / 2));
    assert_eq!(a.vel, Velocity { x: 0, y: -1 });
}

#[test]
fn reaper_removes_lasers_beyond_either_edge() {
    // height 1000: edges at -500 and 500
    let mut w = world_with(119600, 1000, vec![
        entity(0, EntityKind::PlayerLaser, 0, 501, (0, 1), 100),
        entity(1, EntityKind::EnemyLaser, 0, -501, (0, -1), 200),
        entity(2, EntityKind::PlayerLaser, 0, 500, (0, 1), 100),
        entity(3, EntityKind::Enemy, 0, 501, (0, -1), 60),
    ]);
    shooter_core::reaper::despawn_laser(&mut w);
    // both out-of-bounds lasers go; the in-bounds laser and the enemy stay
    assert_eq!(w.entities.len(), 2);
    assert_eq!(w.entities[0].id, 2);
    assert_eq!(w.entities[1].id, 3);
}

#[test]
fn a_hit_in_a_full_tick_reaches_the_score_report() {
    // a zero-length tick: nothing moves, no timer fires, the resolver
    // still removes the overlapping laser and enemy pair
    let mut w = world_with(119600, 135200, vec![
        entity(0, EntityKind::Player, 0, -60000, (0, 0), 100),
        entity(1, EntityKind::PlayerLaser, 200, 30000, (0, 1), 100),
        entity(2, EntityKind::Enemy, 200, 30000, (0, -1), 60),
    ]);
    let report = tick(&mut w, 0, false, false, false);
    assert_eq!(report.enemies_hit, 1);
    assert!(!report.player_hit);
    assert_eq!(w.entities.len(), 1);
    assert_eq!(w.entities[0].kind, EntityKind::Player);
}

#[test]
fn a_full_tick_moves_spawns_and_scores() {
    // player far bottom left, one enemy overlapping a waiting laser after
    // movement: drive one tick through the whole pipeline
    let mut w = world_with(119600, 135200, vec![entity(
        0,
        EntityKind::Player,
        0,
        -60000,
        (0, 0),
        100,
    )]);
    let report = tick(&mut w, 16, false, true, true);
    // the spawn timers are far from expiry after 16 ms
    assert_eq!(report.enemy_spawn_x, None);
    assert!(!report.enemy_volley);
    assert!(report.player_fired);
    assert!(!report.player_hit);
    assert_eq!(report.enemies_hit, 0);
    // the player steered right and moved 100 * 16 units
    assert_eq!(w.entities[0].x, 1600);
    // its two lasers were spawned, then moved up 100 * 16 units
    assert_eq!(w.entities.len(), 3);
    assert_eq!(w.entities[1].y, -60000 + PLAYER_HEIGHT + 1600);
}
