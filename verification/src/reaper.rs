//! The lifecycle reaper: removes entities that left the play area.

use vstd::prelude::*;

use crate::entity::Entity;
use crate::entity::EntityKind;
use crate::world::WindowSize;
use crate::world::World;
use crate::world::lemma_masked_pointwise;
use crate::world::lemma_masked_props;
use crate::world::masked;
use crate::world::spec_vel_ok;

verus! {

/// An enemy is reaped once it has fallen strictly below the bottom edge;
/// one sitting exactly on the edge stays.
pub open spec fn spec_enemy_gone(e: Entity, win: WindowSize) -> bool {
    e.kind == EntityKind::Enemy && e.y < -(win.height as int / 2)
}

/// Which entries the enemy reaper keeps.
pub open spec fn reap_enemy_keep(s: Seq<Entity>, win: WindowSize) -> Seq<bool> {
    Seq::new(s.len(), |i: int| !spec_enemy_gone(s[i], win))
}

/// The store after the enemy reaper ran.
pub open spec fn spec_despawn_enemy(s: Seq<Entity>, win: WindowSize) -> Seq<Entity> {
    masked(s, reap_enemy_keep(s, win), s.len() as int)
}

/// A laser is reaped once strictly beyond the top or the bottom edge.
pub open spec fn spec_laser_gone(e: Entity, win: WindowSize) -> bool {
    (e.kind == EntityKind::PlayerLaser || e.kind == EntityKind::EnemyLaser) && (e.y
        > win.height as int / 2 || e.y < -(win.height as int / 2))
}

/// Which entries the laser reaper keeps.
pub open spec fn reap_laser_keep(s: Seq<Entity>, win: WindowSize) -> Seq<bool> {
    Seq::new(s.len(), |i: int| !spec_laser_gone(s[i], win))
}

/// The store after the laser reaper ran.
pub open spec fn spec_despawn_laser(s: Seq<Entity>, win: WindowSize) -> Seq<Entity> {
    masked(s, reap_laser_keep(s, win), s.len() as int)
}

/// Removes every enemy strictly below the bottom of the play area.
pub fn despawn_enemy(w: &mut World)
    requires
        old(w).wf(),
    ensures
        final(w).wf(),
        final(w).entities@ == spec_despawn_enemy(old(w).entities@, old(w).window),
        final(w).next_id == old(w).next_id,
        final(w).timers == old(w).timers,
        final(w).window == old(w).window,
{
    let ghost s = w.entities@;
    let bottom: i64 = -w.window.half_height();
    let n = w.entities.len();
    let mut out: Vec<Entity> = Vec::new();
    let mut i: usize = 0;
    while i < n
        invariant
            w.entities@ == s,
            w.window == old(w).window,
            bottom as int == -(old(w).window.height as int / 2),
            n == s.len(),
            i <= n,
            out@ == masked(s, reap_enemy_keep(s, old(w).window), i as int),
        decreases n - i,
    {
        let e = w.entities[i];
        let reaped = matches!(e.kind, EntityKind::Enemy) && e.y < bottom;
        proof {
            assert(reap_enemy_keep(s, old(w).window)[i as int] == !spec_enemy_gone(
                s[i as int],
                old(w).window,
            ));
        }
        if !reaped {
            out.push(e);
        }
        i += 1;
    }
    proof {
        let keep = reap_enemy_keep(s, old(w).window);
        lemma_masked_props(s, keep, s.len() as int);
        lemma_masked_pointwise(s, keep, s.len() as int, |e: Entity| e.id < old(w).next_id);
        lemma_masked_pointwise(s, keep, s.len() as int, |e: Entity| spec_vel_ok(e));
    }
    w.entities = out;
}

/// Removes every laser strictly beyond the top or bottom of the play area.
pub fn despawn_laser(w: &mut World)
    requires
        old(w).wf(),
    ensures
        final(w).wf(),
        final(w).entities@ == spec_despawn_laser(old(w).entities@, old(w).window),
        final(w).next_id == old(w).next_id,
        final(w).timers == old(w).timers,
        final(w).window == old(w).window,
{
    let ghost s = w.entities@;
    let top: i64 = w.window.half_height();
    let bottom: i64 = -top;
    let n = w.entities.len();
    let mut out: Vec<Entity> = Vec::new();
    let mut i: usize = 0;
    while i < n
        invariant
            w.entities@ == s,
            w.window == old(w).window,
            top as int == old(w).window.height as int / 2,
            bottom as int == -(old(w).window.height as int / 2),
            n == s.len(),
            i <= n,
            out@ == masked(s, reap_laser_keep(s, old(w).window), i as int),
        decreases n - i,
    {
        let e = w.entities[i];
        let is_laser = matches!(e.kind, EntityKind::PlayerLaser)
            || matches!(e.kind, EntityKind::EnemyLaser);
        let reaped = is_laser && (e.y > top || e.y < bottom);
        proof {
            assert(reap_laser_keep(s, old(w).window)[i as int] == !spec_laser_gone(
                s[i as int],
                old(w).window,
            ));
        }
        if !reaped {
            out.push(e);
        }
        i += 1;
    }
    proof {
        let keep = reap_laser_keep(s, old(w).window);
        lemma_masked_props(s, keep, s.len() as int);
        lemma_masked_pointwise(s, keep, s.len() as int, |e: Entity| e.id < old(w).next_id);
        lemma_masked_pointwise(s, keep, s.len() as int, |e: Entity| spec_vel_ok(e));
    }
    w.entities = out;
}

} // verus!
