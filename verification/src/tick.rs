//! One simulation tick: spawner, mover, collision resolver, reaper, in
//! that fixed order, every creation and destruction visible to the later
//! systems of the same tick.

use vstd::prelude::*;

use crate::collision::enemy_laser_hit_player;
use crate::collision::player_laser_hit_enemy;
use crate::collision::spec_enemies_hit;
use crate::collision::spec_pass_a;
use crate::collision::spec_pass_b;
use crate::collision::spec_player_was_hit;
use crate::enemy::enemy_fire;
use crate::enemy::lemma_enemies_len;
use crate::enemy::spawn_enemy;
use crate::enemy::spec_enemies;
use crate::enemy::spec_enemy_spawn_y;
use crate::enemy::spec_enemy_volley;
use crate::entity::PLAYER_HEIGHT;
use crate::entity::PLAYER_WIDTH;
use crate::entity::spec_enemy_entity;
use crate::entity::spec_player_laser_entity;
use crate::movement::movement;
use crate::movement::sat64;
use crate::movement::spec_move_all;
use crate::player::player_fire;
use crate::player::player_movement;
use crate::player::spec_steer_all;
use crate::reaper::despawn_enemy;
use crate::reaper::despawn_laser;
use crate::reaper::spec_despawn_enemy;
use crate::reaper::spec_despawn_laser;
use crate::timer::spec_timer_after;
use crate::timer::spec_timer_fires;
use crate::world::World;
use crate::world::has_player;
use crate::world::player_index;

verus! {

/// What one tick did: the spawner's and resolver's outward-visible
/// events, for the scoreboard and its kin to consume.
#[derive(Clone, Copy, Debug)]
pub struct TickReport {
    /// The horizontal position the enemy spawner used, when its timer fired.
    pub enemy_spawn_x: Option<i64>,
    /// Whether the enemy-fire timer fired, every live enemy shooting once.
    pub enemy_volley: bool,
    /// Whether the player fired its pair of lasers.
    pub player_fired: bool,
    /// Whether an enemy laser struck the player this tick.
    pub player_hit: bool,
    /// How many enemies the player's lasers destroyed this tick.
    pub enemies_hit: usize,
}

/// Advances the world by one tick: input steering, then the spawner
/// (enemy spawn, enemy volley, player fire), then the mover, then the two
/// collision passes, then the reaper. The report, together with this
/// contract, pins the resulting world down exactly, given the one random
/// choice the spawner made.
pub fn tick(w: &mut World, dt: u32, move_left: bool, move_right: bool, fire_edge: bool) -> (report:
    TickReport)
    requires
        old(w).wf(),
        old(w).next_id as int + old(w).entities@.len() + 4 <= u64::MAX as int,
    ensures
        final(w).wf(),
        final(w).window == old(w).window,
        final(w).timers.enemy == spec_timer_after(old(w).timers.enemy, dt),
        final(w).timers.enemy_laser == spec_timer_after(old(w).timers.enemy_laser, dt),
        report.enemy_spawn_x.is_some() == spec_timer_fires(old(w).timers.enemy, dt),
        report.enemy_volley == spec_timer_fires(old(w).timers.enemy_laser, dt),
        (match report.enemy_spawn_x {
            Option::Some(x) => -(old(w).window.width as int / 2) <= x <= old(
                w,
            ).window.width as int / 2,
            Option::None => true,
        }),
        ({
            let win = old(w).window;
            let id0 = old(w).next_id;
            let s1 = spec_steer_all(old(w).entities@, move_left, move_right);
            let s2 = match report.enemy_spawn_x {
                Option::Some(x) => s1.push(
                    spec_enemy_entity(id0, x, spec_enemy_spawn_y(win) as i64),
                ),
                Option::None => s1,
            };
            let id2 = if report.enemy_spawn_x.is_some() {
                (id0 + 1) as u64
            } else {
                id0
            };
            let s3 = if report.enemy_volley {
                s2 + spec_enemy_volley(s2, id2)
            } else {
                s2
            };
            let id3 = if report.enemy_volley {
                (id2 + spec_enemies(s2).len()) as u64
            } else {
                id2
            };
            let s4 = if report.player_fired {
                let p = s3[player_index(s3)];
                s3.push(
                    spec_player_laser_entity(
                        id3,
                        sat64(p.x - PLAYER_WIDTH as int / 2) as i64,
                        sat64(p.y + PLAYER_HEIGHT as int) as i64,
                    ),
                ).push(
                    spec_player_laser_entity(
                        (id3 + 1) as u64,
                        sat64(p.x + PLAYER_WIDTH as int / 2) as i64,
                        sat64(p.y + PLAYER_HEIGHT as int) as i64,
                    ),
                )
            } else {
                s3
            };
            let id4 = if report.player_fired {
                (id3 + 2) as u64
            } else {
                id3
            };
            let s5 = spec_move_all(s4, dt);
            let s6 = spec_pass_a(s5);
            let s7 = spec_pass_b(s6);
            let s8 = spec_despawn_enemy(s7, win);
            let s9 = spec_despawn_laser(s8, win);
            &&& report.player_fired == (fire_edge && has_player(s3))
            &&& report.player_hit == spec_player_was_hit(s5)
            &&& report.enemies_hit as int == spec_enemies_hit(s6)
            &&& final(w).entities@ == s9
            &&& final(w).next_id == id4
        }),
{
    player_movement(w, move_left, move_right);
    let enemy_spawn_x = spawn_enemy(w, dt);
    proof {
        lemma_enemies_len(w.entities@);
    }
    let enemy_volley = enemy_fire(w, dt);
    let player_fired = player_fire(w, fire_edge);
    movement(w, dt);
    let player_hit = enemy_laser_hit_player(w);
    let enemies_hit = player_laser_hit_enemy(w);
    despawn_enemy(w);
    despawn_laser(w);
    TickReport { enemy_spawn_x, enemy_volley, player_fired, player_hit, enemies_hit }
}

} // verus!
