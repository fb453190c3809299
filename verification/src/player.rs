//! Player systems: steering from input signals, spawning, and firing.

use vstd::prelude::*;

use crate::entity::Entity;
use crate::entity::EntityKind;
use crate::entity::Movement;
use crate::entity::PLAYER_HEIGHT;
use crate::entity::PLAYER_SPEED_FACTOR;
use crate::entity::PLAYER_WIDTH;
use crate::entity::Velocity;
use crate::entity::spec_player_entity;
use crate::entity::spec_player_laser_entity;
use crate::movement::sat64;
use crate::movement::sat_add;
use crate::world::WindowSize;
use crate::world::World;
use crate::world::find_player;
use crate::world::has_player;
use crate::world::player_index;
use crate::world::spec_vel_ok;

verus! {

/// The steering direction an input signal pair asks for; a held left wins
/// over a held right, and no signal means standing still.
pub open spec fn spec_steer_dir(move_left: bool, move_right: bool) -> int {
    if move_left {
        -1
    } else if move_right {
        1
    } else {
        0
    }
}

/// An entity after input handling: the player's horizontal direction is
/// set from the signals, everyone else is untouched.
pub open spec fn spec_steer(e: Entity, move_left: bool, move_right: bool) -> Entity {
    if e.kind == EntityKind::Player {
        Entity {
            vel: Velocity { x: spec_steer_dir(move_left, move_right) as i64, y: e.vel.y },
            ..e
        }
    } else {
        e
    }
}

/// The whole store after input handling.
pub open spec fn spec_steer_all(s: Seq<Entity>, move_left: bool, move_right: bool) -> Seq<
    Entity,
> {
    Seq::new(s.len(), |i: int| spec_steer(s[i], move_left, move_right))
}

/// Where the player first appears: resting on the bottom edge.
pub open spec fn spec_player_spawn_y(win: WindowSize) -> int {
    -(win.height as int / 2) + PLAYER_HEIGHT as int / 2
}

/// Sets the player's sideways velocity from the tick's already-debounced
/// input signals; a no-op without a player.
pub fn player_movement(w: &mut World, move_left: bool, move_right: bool)
    requires
        old(w).wf(),
    ensures
        final(w).wf(),
        final(w).entities@ == spec_steer_all(old(w).entities@, move_left, move_right),
        final(w).next_id == old(w).next_id,
        final(w).timers == old(w).timers,
        final(w).window == old(w).window,
{
    let ghost s = w.entities@;
    let dir: i64 = if move_left {
        -1
    } else if move_right {
        1
    } else {
        0
    };
    let n = w.entities.len();
    let mut out: Vec<Entity> = Vec::new();
    let mut i: usize = 0;
    while i < n
        invariant
            w.entities@ == s,
            n == s.len(),
            i <= n,
            dir as int == spec_steer_dir(move_left, move_right),
            out@.len() == i,
            forall|k: int| 0 <= k < i ==> out@[k] == spec_steer(s[k], move_left, move_right),
        decreases n - i,
    {
        let e = w.entities[i];
        if matches!(e.kind, EntityKind::Player) {
            out.push(Entity { vel: Velocity { x: dir, y: e.vel.y }, ..e });
        } else {
            out.push(e);
        }
        i += 1;
    }
    proof {
        assert(out@ =~= spec_steer_all(s, move_left, move_right));
        let m = out@;
        assert forall|a: int, b: int|
            0 <= a < m.len() && 0 <= b < m.len() && a != b implies m[a].id != m[b].id by {
            assert(s[a].id != s[b].id);
        }
        assert forall|a: int, b: int|
            0 <= a < m.len() && 0 <= b < m.len() && #[trigger] m[a].kind == EntityKind::Player
                && #[trigger] m[b].kind == EntityKind::Player implies a == b by {
            assert(s[a].kind == EntityKind::Player);
            assert(s[b].kind == EntityKind::Player);
        }
        assert forall|a: int| 0 <= a < m.len() implies (#[trigger] m[a]).id < old(w).next_id by {
            assert(s[a].id < old(w).next_id);
        }
        assert forall|a: int| 0 <= a < m.len() implies spec_vel_ok(#[trigger] m[a]) by {
            assert(spec_vel_ok(s[a]));
        }
    }
    w.entities = out;
}

/// Creates the player, centered at the bottom of the play area, standing
/// still; a no-op when a player already exists, which keeps the player
/// unique.
pub fn spawn_player(w: &mut World) -> (spawned: bool)
    requires
        old(w).wf(),
        old(w).next_id < u64::MAX,
    ensures
        final(w).wf(),
        final(w).timers == old(w).timers,
        final(w).window == old(w).window,
        spawned == !has_player(old(w).entities@),
        spawned ==> final(w).entities@ == old(w).entities@.push(
            spec_player_entity(old(w).next_id, 0, spec_player_spawn_y(old(w).window) as i64),
        ) && final(w).next_id == old(w).next_id + 1,
        !spawned ==> final(w).entities@ == old(w).entities@ && final(w).next_id == old(
            w,
        ).next_id,
{
    let ghost s = w.entities@;
    match find_player(&w.entities) {
        Option::Some(_) => false,
        Option::None => {
            let y: i64 = -w.window.half_height() + PLAYER_HEIGHT / 2;
            let id = w.next_id;
            w.next_id = id + 1;
            let p = Entity {
                id,
                kind: EntityKind::Player,
                x: 0,
                y,
                vel: Velocity { x: 0, y: 0 },
                movement: Movement { per: PLAYER_SPEED_FACTOR },
            };
            w.entities.push(p);
            proof {
                let m = w.entities@;
                assert(m == s.push(p));
                assert forall|a: int, b: int|
                    0 <= a < m.len() && 0 <= b < m.len() && a != b implies m[a].id != m[b].id by {
                    if a < s.len() && b < s.len() {
                        assert(s[a].id != s[b].id);
                    } else if a < s.len() {
                        assert(s[a].id < id);
                    } else if b < s.len() {
                        assert(s[b].id < id);
                    }
                }
                assert forall|a: int, b: int|
                    0 <= a < m.len() && 0 <= b < m.len() && #[trigger] m[a].kind
                        == EntityKind::Player && #[trigger] m[b].kind == EntityKind::Player
                    implies a == b by {
                    if a < s.len() {
                        assert(has_player(s));
                    }
                    if b < s.len() {
                        assert(has_player(s));
                    }
                }
                assert forall|a: int| 0 <= a < m.len() implies (#[trigger] m[a]).id < id + 1 by {
                    if a < s.len() {
                        assert(s[a].id < id);
                    }
                }
                assert forall|a: int| 0 <= a < m.len() implies spec_vel_ok(#[trigger] m[a]) by {
                    if a < s.len() {
                        assert(spec_vel_ok(s[a]));
                    }
                }
            }
            true
        },
    }
}

/// On a fire edge, creates the player's two lasers at once, one off each
/// wingtip: half the sprite width to either side, one sprite height above
/// the player, both moving straight up; a no-op without a player or
/// without the edge.
pub fn player_fire(w: &mut World, fire_edge: bool) -> (fired: bool)
    requires
        old(w).wf(),
        old(w).next_id as int + 2 <= u64::MAX as int,
    ensures
        final(w).wf(),
        final(w).timers == old(w).timers,
        final(w).window == old(w).window,
        fired == (fire_edge && has_player(old(w).entities@)),
        fired ==> ({
            let p = old(w).entities@[player_index(old(w).entities@)];
            let lx = sat64(p.x - PLAYER_WIDTH as int / 2) as i64;
            let rx = sat64(p.x + PLAYER_WIDTH as int / 2) as i64;
            let ly = sat64(p.y + PLAYER_HEIGHT as int) as i64;
            &&& final(w).entities@ == old(w).entities@.push(
                spec_player_laser_entity(old(w).next_id, lx, ly),
            ).push(spec_player_laser_entity((old(w).next_id + 1) as u64, rx, ly))
            &&& final(w).next_id == old(w).next_id + 2
        }),
        !fired ==> final(w).entities@ == old(w).entities@ && final(w).next_id == old(w).next_id,
{
    let ghost s = w.entities@;
    if !fire_edge {
        return false;
    }
    match find_player(&w.entities) {
        Option::None => false,
        Option::Some(pi) => {
            proof {
                assert(has_player(s));
                let pidx = player_index(s);
                assert(0 <= pidx < s.len() && s[pidx].kind == EntityKind::Player);
                assert(pidx == pi as int);
            }
            let p = w.entities[pi];
            let lx = sat_add(p.x, -(PLAYER_WIDTH / 2));
            let rx = sat_add(p.x, PLAYER_WIDTH / 2);
            let ly = sat_add(p.y, PLAYER_HEIGHT);
            let id = w.next_id;
            w.next_id = id + 2;
            let left = Entity {
                id,
                kind: EntityKind::PlayerLaser,
                x: lx,
                y: ly,
                vel: Velocity { x: 0, y: 1 },
                movement: Movement { per: crate::entity::PLAYER_LASER_SPEED_FACTOR },
            };
            let right = Entity {
                id: id + 1,
                kind: EntityKind::PlayerLaser,
                x: rx,
                y: ly,
                vel: Velocity { x: 0, y: 1 },
                movement: Movement { per: crate::entity::PLAYER_LASER_SPEED_FACTOR },
            };
            w.entities.push(left);
            w.entities.push(right);
            proof {
                let m = w.entities@;
                assert(m == s.push(left).push(right));
                assert forall|a: int, b: int|
                    0 <= a < m.len() && 0 <= b < m.len() && a != b implies m[a].id != m[b].id by {
                    if a < s.len() && b < s.len() {
                        assert(s[a].id != s[b].id);
                    } else if a < s.len() {
                        assert(s[a].id < id);
                    } else if b < s.len() {
                        assert(s[b].id < id);
                    }
                }
                assert forall|a: int, b: int|
                    0 <= a < m.len() && 0 <= b < m.len() && #[trigger] m[a].kind
                        == EntityKind::Player && #[trigger] m[b].kind == EntityKind::Player
                    implies a == b by {}
                assert forall|a: int| 0 <= a < m.len() implies (#[trigger] m[a]).id < id + 2 by {
                    if a < s.len() {
                        assert(s[a].id < id);
                    }
                }
                assert forall|a: int| 0 <= a < m.len() implies spec_vel_ok(#[trigger] m[a]) by {
                    if a < s.len() {
                        assert(spec_vel_ok(s[a]));
                    }
                }
            }
            true
        },
    }
}

} // verus!
