//! Enemy systems: timed spawning at a random position, and timed volleys.

use vstd::prelude::*;

use rand::Rng;

use crate::entity::ENEMY_HEIGHT;
use crate::entity::ENEMY_LASER_SPEED_FACTOR;
use crate::entity::ENEMY_SPEED_FACTOR;
use crate::entity::Entity;
use crate::entity::EntityKind;
use crate::entity::Movement;
use crate::entity::Velocity;
use crate::entity::spec_enemy_entity;
use crate::entity::spec_enemy_laser_entity;
use crate::movement::sat64;
use crate::movement::sat_add;
use crate::timer::spec_timer_after;
use crate::timer::spec_timer_fires;
use crate::world::WindowSize;
use crate::world::World;
use crate::world::lemma_masked_len;
use crate::world::masked;
use crate::world::spec_vel_ok;

verus! {

/// Relies on rand::thread_rng and rand::Rng::gen_range over an inclusive
/// range: the sample lies within the bounds, and the call panics only on
/// an empty range, which the precondition rules out.
#[verifier::external_body]
fn sample_inclusive(lo: i64, hi: i64) -> (r: i64)
    requires
        lo <= hi,
    ensures
        lo <= r <= hi,
{
    rand::thread_rng().gen_range(lo..=hi)
}

/// Where a fresh enemy appears: one enemy half-height above the top edge.
pub open spec fn spec_enemy_spawn_y(win: WindowSize) -> int {
    win.height as int / 2 + ENEMY_HEIGHT as int / 2
}

/// Which entries are enemies.
pub open spec fn enemy_keep(s: Seq<Entity>) -> Seq<bool> {
    Seq::new(s.len(), |i: int| s[i].kind == EntityKind::Enemy)
}

/// The enemies of the store, in order.
pub open spec fn spec_enemies(s: Seq<Entity>) -> Seq<Entity> {
    masked(s, enemy_keep(s), s.len() as int)
}

/// The laser an enemy fires: at the enemy's position, one enemy
/// half-height below it, moving straight down.
pub open spec fn spec_laser_from_enemy(id: u64, e: Entity) -> Entity {
    spec_enemy_laser_entity(id, e.x, sat64(e.y - ENEMY_HEIGHT as int / 2) as i64)
}

/// A store holds no more enemies than entries.
pub proof fn lemma_enemies_len(s: Seq<Entity>)
    ensures
        spec_enemies(s).len() <= s.len(),
{
    lemma_masked_len(s, enemy_keep(s), s.len() as int);
}

/// One volley: a laser per live enemy, handles counted off from `base`.
pub open spec fn spec_enemy_volley(s: Seq<Entity>, base: u64) -> Seq<Entity> {
    Seq::new(
        spec_enemies(s).len(),
        |i: int| spec_laser_from_enemy((base + i) as u64, spec_enemies(s)[i]),
    )
}

/// Advances the enemy-spawn timer; on expiry, creates one enemy at a
/// uniformly random horizontal position within the play area, one enemy
/// half-height above the top edge, moving straight down. Returns the
/// chosen position when it spawned.
pub fn spawn_enemy(w: &mut World, dt: u32) -> (spawn_x: Option<i64>)
    requires
        old(w).wf(),
        old(w).next_id < u64::MAX,
    ensures
        final(w).wf(),
        final(w).window == old(w).window,
        final(w).timers.enemy_laser == old(w).timers.enemy_laser,
        final(w).timers.enemy == spec_timer_after(old(w).timers.enemy, dt),
        spawn_x.is_some() == spec_timer_fires(old(w).timers.enemy, dt),
        match spawn_x {
            Option::Some(x) => {
                &&& -(old(w).window.width as int / 2) <= x <= old(w).window.width as int / 2
                &&& final(w).entities@ == old(w).entities@.push(
                    spec_enemy_entity(old(w).next_id, x, spec_enemy_spawn_y(old(w).window) as i64),
                )
                &&& final(w).next_id == old(w).next_id + 1
            },
            Option::None => final(w).entities@ == old(w).entities@ && final(w).next_id == old(
                w,
            ).next_id,
        },
{
    let ghost s = w.entities@;
    let fired = w.timers.enemy.tick(dt);
    if fired {
        let hw = w.window.half_width();
        let x = sample_inclusive(-hw, hw);
        let y = w.window.half_height() + ENEMY_HEIGHT / 2;
        let id = w.next_id;
        w.next_id = id + 1;
        let e = Entity {
            id,
            kind: EntityKind::Enemy,
            x,
            y,
            vel: Velocity { x: 0, y: -1 },
            movement: Movement { per: ENEMY_SPEED_FACTOR },
        };
        w.entities.push(e);
        proof {
            let m = w.entities@;
            assert(m == s.push(e));
            assert forall|a: int, b: int|
                0 <= a < m.len() && 0 <= b < m.len() && a != b implies m[a].id != m[b].id by {
                if a < s.len() && b < s.len() {
                    assert(s[a].id != s[b].id);
                } else if a < s.len() {
                    assert(s[a].id < id);
                } else if b < s.len() {
                    assert(s[b].id < id);
                }
            }
            assert forall|a: int, b: int|
                0 <= a < m.len() && 0 <= b < m.len() && #[trigger] m[a].kind == EntityKind::Player
                    && #[trigger] m[b].kind == EntityKind::Player implies a == b by {}
            assert forall|a: int| 0 <= a < m.len() implies (#[trigger] m[a]).id < id + 1 by {
                if a < s.len() {
                    assert(s[a].id < id);
                }
            }
            assert forall|a: int| 0 <= a < m.len() implies spec_vel_ok(#[trigger] m[a]) by {
                if a < s.len() {
                    assert(spec_vel_ok(s[a]));
                }
            }
        }
        Option::Some(x)
    } else {
        Option::None
    }
}

/// Advances the shared enemy-fire timer once per tick; on expiry, every
/// live enemy fires one laser from one enemy half-height below itself.
/// One shared timer, rather than the per-enemy cadence ambiguity, keeps
/// the volley independent of how often the store is scanned.
pub fn enemy_fire(w: &mut World, dt: u32) -> (fired: bool)
    requires
        old(w).wf(),
        old(w).next_id as int + old(w).entities@.len() <= u64::MAX as int,
    ensures
        final(w).wf(),
        final(w).window == old(w).window,
        final(w).timers.enemy == old(w).timers.enemy,
        final(w).timers.enemy_laser == spec_timer_after(old(w).timers.enemy_laser, dt),
        fired == spec_timer_fires(old(w).timers.enemy_laser, dt),
        fired ==> final(w).entities@ == old(w).entities@ + spec_enemy_volley(
            old(w).entities@,
            old(w).next_id,
        ) && final(w).next_id == old(w).next_id + spec_enemies(old(w).entities@).len(),
        !fired ==> final(w).entities@ == old(w).entities@ && final(w).next_id == old(w).next_id,
{
    let ghost s = w.entities@;
    let fired = w.timers.enemy_laser.tick(dt);
    if fired {
        let n = w.entities.len();
        let mut shooters: Vec<Entity> = Vec::new();
        let mut i: usize = 0;
        while i < n
            invariant
                w.entities@ == s,
                n == s.len(),
                i <= n,
                shooters@ == masked(s, enemy_keep(s), i as int),
            decreases n - i,
        {
            let e = w.entities[i];
            proof {
                assert(enemy_keep(s)[i as int] == (s[i as int].kind == EntityKind::Enemy));
            }
            if matches!(e.kind, EntityKind::Enemy) {
                shooters.push(e);
            }
            i += 1;
        }
        proof {
            lemma_masked_len(s, enemy_keep(s), s.len() as int);
        }
        let m = shooters.len();
        let ghost base = w.next_id;
        let ghost lasers = spec_enemy_volley(s, base);
        let mut k: usize = 0;
        while k < m
            invariant
                shooters@ == spec_enemies(s),
                m == spec_enemies(s).len(),
                k <= m,
                base as int + m as int <= u64::MAX as int,
                w.next_id as int == base as int + k as int,
                lasers == spec_enemy_volley(s, base),
                w.entities@ == s + lasers.take(k as int),
                w.timers.enemy == old(w).timers.enemy,
                w.timers.enemy_laser == spec_timer_after(old(w).timers.enemy_laser, dt),
                w.window == old(w).window,
            decreases m - k,
        {
            let e = shooters[k];
            let y = sat_add(e.y, -(ENEMY_HEIGHT / 2));
            let id = w.next_id;
            w.next_id = id + 1;
            w.entities.push(
                Entity {
                    id,
                    kind: EntityKind::EnemyLaser,
                    x: e.x,
                    y,
                    vel: Velocity { x: 0, y: -1 },
                    movement: Movement { per: ENEMY_LASER_SPEED_FACTOR },
                },
            );
            proof {
                assert(lasers[k as int] == spec_laser_from_enemy((base + k) as u64, spec_enemies(s)[k as int]));
                assert(lasers.take(k as int + 1) =~= lasers.take(k as int).push(lasers[k as int]));
            }
            k += 1;
        }
        proof {
            assert(w.entities@ == s + lasers) by {
                assert(lasers.take(m as int) =~= lasers);
            }
            let whole = s + lasers;
            assert forall|a: int, b: int|
                0 <= a < whole.len() && 0 <= b < whole.len() && a != b implies whole[a].id
                != whole[b].id by {
                if a < s.len() && b < s.len() {
                    assert(s[a].id != s[b].id);
                } else if a < s.len() {
                    assert(s[a].id < base);
                } else if b < s.len() {
                    assert(s[b].id < base);
                }
            }
            assert forall|a: int, b: int|
                0 <= a < whole.len() && 0 <= b < whole.len() && #[trigger] whole[a].kind
                    == EntityKind::Player && #[trigger] whole[b].kind == EntityKind::Player
                implies a == b by {
                if a < s.len() && b < s.len() {
                } else {
                }
            }
            assert forall|a: int| 0 <= a < whole.len() implies (#[trigger] whole[a]).id
                < base + m by {
                if a < s.len() {
                    assert(s[a].id < base);
                }
            }
            assert forall|a: int| 0 <= a < whole.len() implies spec_vel_ok(#[trigger] whole[a]) by {
                if a < s.len() {
                    assert(spec_vel_ok(s[a]));
                }
            }
        }
        true
    } else {
        false
    }
}

} // verus!
