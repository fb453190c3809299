//! The collision resolver: laser/target overlap tests and removal.
//!
//! Two independent passes share one tick: enemy lasers against the sole
//! player, and player lasers against enemies. They touch disjoint kinds,
//! so their order does not matter; this library runs them player-side
//! first.

use vstd::prelude::*;

use crate::entity::Entity;
use crate::entity::EntityKind;
use crate::entity::entity_box;
use crate::entity::spec_entity_box;
use crate::geom::spec_intersects;
use crate::world::World;
use crate::world::find_player;
use crate::world::has_player;
use crate::world::lemma_masked_all_true;
use crate::world::lemma_masked_pointwise;
use crate::world::lemma_masked_props;
use crate::world::masked;
use crate::world::player_index;
use crate::world::spec_vel_ok;

verus! {

/// Whether any enemy laser in the store overlaps the player; meaningful
/// only when a player is present.
pub open spec fn spec_player_was_hit(s: Seq<Entity>) -> bool {
    has_player(s) && exists|j: int|
        0 <= j < s.len() && (#[trigger] s[j]).kind == EntityKind::EnemyLaser && spec_intersects(
            spec_entity_box(s[j]),
            spec_entity_box(s[player_index(s)]),
        )
}

/// Which entries the player-side pass keeps: every enemy laser that
/// overlaps the player goes, and the player goes on any hit at all, once,
/// however many lasers struck it this tick.
pub open spec fn pass_a_keep(s: Seq<Entity>) -> Seq<bool> {
    Seq::new(
        s.len(),
        |i: int|
            !(has_player(s) && ((s[i].kind == EntityKind::EnemyLaser && spec_intersects(
                spec_entity_box(s[i]),
                spec_entity_box(s[player_index(s)]),
            )) || (s[i].kind == EntityKind::Player && spec_player_was_hit(s)))),
    )
}

/// The store after enemy lasers were resolved against the player.
pub open spec fn spec_pass_a(s: Seq<Entity>) -> Seq<Entity> {
    masked(s, pass_a_keep(s), s.len() as int)
}

/// Whether the live enemy at `j` is a target of the laser at `l`.
pub open spec fn spec_hit_pair(s: Seq<Entity>, alive: Seq<bool>, l: int, j: int) -> bool {
    alive[j] && s[j].kind == EntityKind::Enemy && spec_intersects(
        spec_entity_box(s[l]),
        spec_entity_box(s[j]),
    )
}

/// The first live enemy, from `j` on, that the laser at `l` overlaps;
/// `s.len()` when there is none.
pub open spec fn spec_first_target(s: Seq<Entity>, alive: Seq<bool>, l: int, j: int) -> int
    decreases s.len() - j,
{
    if j < 0 || j >= s.len() {
        s.len() as int
    } else if spec_hit_pair(s, alive, l, j) {
        j
    } else {
        spec_first_target(s, alive, l, j + 1)
    }
}

/// One step of the enemy-side pass: if the entry at `i` is a still-live
/// player laser and some live enemy overlaps it, the first such enemy and
/// the laser both die; a dead entry is never matched again.
pub open spec fn spec_pass_b_step(s: Seq<Entity>, alive: Seq<bool>, i: int) -> Seq<bool> {
    if alive[i] && s[i].kind == EntityKind::PlayerLaser {
        let t = spec_first_target(s, alive, i, 0);
        if t < s.len() {
            alive.update(i, false).update(t, false)
        } else {
            alive
        }
    } else {
        alive
    }
}

/// The liveness flags after the first `i` entries were processed as
/// potential shooters, in store order.
pub open spec fn spec_pass_b_alive(s: Seq<Entity>, i: int) -> Seq<bool>
    decreases i,
{
    if i <= 0 {
        Seq::new(s.len(), |k: int| true)
    } else {
        spec_pass_b_step(s, spec_pass_b_alive(s, i - 1), i - 1)
    }
}

/// The store after player lasers were resolved against enemies.
pub open spec fn spec_pass_b(s: Seq<Entity>) -> Seq<Entity> {
    masked(s, spec_pass_b_alive(s, s.len() as int), s.len() as int)
}

/// How many of the first `n` entries are enemies that did not survive.
pub open spec fn spec_killed_enemies(s: Seq<Entity>, alive: Seq<bool>, n: int) -> int
    decreases n,
{
    if n <= 0 {
        0
    } else {
        spec_killed_enemies(s, alive, n - 1) + if s[n - 1].kind == EntityKind::Enemy && !alive[n
            - 1] {
            1int
        } else {
            0int
        }
    }
}

/// How many enemies the player's lasers destroy this tick: the hit count
/// the scoreboard consumes.
pub open spec fn spec_enemies_hit(s: Seq<Entity>) -> int {
    spec_killed_enemies(s, spec_pass_b_alive(s, s.len() as int), s.len() as int)
}

/// The kill count only reads flags below `n`.
proof fn lemma_killed_agree(s: Seq<Entity>, a1: Seq<bool>, a2: Seq<bool>, n: int)
    requires
        forall|k: int| 0 <= k < n ==> a1[k] == a2[k],
    ensures
        spec_killed_enemies(s, a1, n) == spec_killed_enemies(s, a2, n),
    decreases n,
{
    if n > 0 {
        assert(a1[n - 1] == a2[n - 1]);
        lemma_killed_agree(s, a1, a2, n - 1);
    }
}

/// Clearing one flag raises the kill count by one exactly when it kills a
/// live enemy.
proof fn lemma_killed_update(s: Seq<Entity>, alive: Seq<bool>, t: int, n: int)
    requires
        0 <= t < n <= alive.len(),
    ensures
        spec_killed_enemies(s, alive.update(t, false), n) == spec_killed_enemies(s, alive, n) + (
        if s[t].kind == EntityKind::Enemy && alive[t] {
            1int
        } else {
            0int
        }),
    decreases n,
{
    if t == n - 1 {
        lemma_killed_agree(s, alive.update(t, false), alive, n - 1);
    } else {
        lemma_killed_update(s, alive, t, n - 1);
    }
}

/// With every flag set the kill count is zero.
proof fn lemma_killed_all_true(s: Seq<Entity>, alive: Seq<bool>, n: int)
    requires
        forall|k: int| 0 <= k < n ==> alive[k],
    ensures
        spec_killed_enemies(s, alive, n) == 0,
    decreases n,
{
    if n > 0 {
        lemma_killed_all_true(s, alive, n - 1);
    }
}

/// Resolves enemy lasers against the player: every overlapping laser is
/// destroyed, and the player is destroyed on any hit - exactly once, a
/// second hit in the same tick striking the already-gone player changes
/// nothing. Reports whether the player was hit. A no-op without a player.
pub fn enemy_laser_hit_player(w: &mut World) -> (hit: bool)
    requires
        old(w).wf(),
    ensures
        final(w).wf(),
        final(w).entities@ == spec_pass_a(old(w).entities@),
        hit == spec_player_was_hit(old(w).entities@),
        final(w).next_id == old(w).next_id,
        final(w).timers == old(w).timers,
        final(w).window == old(w).window,
{
    let ghost s = w.entities@;
    match find_player(&w.entities) {
        Option::None => {
            proof {
                assert forall|j: int| 0 <= j < s.len() implies #[trigger] pass_a_keep(s)[j] by {}
                lemma_masked_all_true(s, pass_a_keep(s), s.len() as int);
                assert(s.take(s.len() as int) =~= s);
            }
            false
        },
        Option::Some(pi) => {
            proof {
                assert(has_player(s));
                assert(0 <= player_index(s) < s.len() && s[player_index(s)].kind
                    == EntityKind::Player);
                assert(player_index(s) == pi as int);
            }
            let p = w.entities[pi];
            let pbox = entity_box(&p);
            let n = w.entities.len();
            let mut hit = false;
            let mut j: usize = 0;
            while j < n
                invariant
                    w.entities@ == s,
                    n == s.len(),
                    j <= n,
                    pi < n,
                    p == s[pi as int],
                    pbox == spec_entity_box(s[player_index(s)]),
                    hit == (exists|j2: int|
                        0 <= j2 < j && (#[trigger] s[j2]).kind == EntityKind::EnemyLaser
                            && spec_intersects(
                            spec_entity_box(s[j2]),
                            spec_entity_box(s[player_index(s)]),
                        )),
                decreases n - j,
            {
                let e = w.entities[j];
                if matches!(e.kind, EntityKind::EnemyLaser) {
                    let eb = entity_box(&e);
                    if eb.intersects(&pbox) {
                        hit = true;
                    }
                }
                j += 1;
            }
            proof {
                assert(hit == spec_player_was_hit(s));
            }
            let mut out: Vec<Entity> = Vec::new();
            let mut i: usize = 0;
            while i < n
                invariant
                    w.entities@ == s,
                    n == s.len(),
                    i <= n,
                    pi < n,
                    p == s[pi as int],
                    pbox == spec_entity_box(s[player_index(s)]),
                    has_player(s),
                    hit == spec_player_was_hit(s),
                    out@ == masked(s, pass_a_keep(s), i as int),
                decreases n - i,
            {
                let e = w.entities[i];
                let removed: bool = if matches!(e.kind, EntityKind::EnemyLaser) {
                    let eb = entity_box(&e);
                    eb.intersects(&pbox)
                } else if matches!(e.kind, EntityKind::Player) {
                    hit
                } else {
                    false
                };
                proof {
                    assert(pass_a_keep(s)[i as int] == !removed);
                }
                if !removed {
                    out.push(e);
                }
                i += 1;
            }
            proof {
                lemma_masked_props(s, pass_a_keep(s), s.len() as int);
                lemma_masked_pointwise(
                    s,
                    pass_a_keep(s),
                    s.len() as int,
                    |e: Entity| e.id < old(w).next_id,
                );
                lemma_masked_pointwise(s, pass_a_keep(s), s.len() as int, |e: Entity| spec_vel_ok(e));
            }
            w.entities = out;
            hit
        },
    }
}

/// Resolves player lasers against enemies, in store order: each live
/// player laser destroys the first live enemy it overlaps and is itself
/// destroyed; a destroyed entry is skipped for every later comparison in
/// the same tick. Returns how many enemies were destroyed.
pub fn player_laser_hit_enemy(w: &mut World) -> (hits: usize)
    requires
        old(w).wf(),
    ensures
        final(w).wf(),
        final(w).entities@ == spec_pass_b(old(w).entities@),
        hits as int == spec_enemies_hit(old(w).entities@),
        final(w).next_id == old(w).next_id,
        final(w).timers == old(w).timers,
        final(w).window == old(w).window,
{
    let ghost s = w.entities@;
    let n = w.entities.len();
    let mut alive: Vec<bool> = Vec::new();
    let mut z: usize = 0;
    while z < n
        invariant
            alive@.len() == z,
            z <= n,
            forall|k: int| 0 <= k < z ==> #[trigger] alive@[k],
        decreases n - z,
    {
        alive.push(true);
        z += 1;
    }
    proof {
        assert(alive@ =~= spec_pass_b_alive(s, 0));
        lemma_killed_all_true(s, alive@, n as int);
    }
    let mut hits: usize = 0;
    let mut i: usize = 0;
    while i < n
        invariant
            w.entities@ == s,
            n == s.len(),
            i <= n,
            alive@ == spec_pass_b_alive(s, i as int),
            alive@.len() == n,
            hits <= i,
            hits as int == spec_killed_enemies(s, alive@, n as int),
        decreases n - i,
    {
        let ghost a0 = alive@;
        let e = w.entities[i];
        let shooter = alive[i];
        if shooter && matches!(e.kind, EntityKind::PlayerLaser) {
            let lbox = entity_box(&e);
            let mut j: usize = 0;
            let mut target: Option<usize> = Option::None;
            while j < n
                invariant_except_break
                    target.is_none(),
                    j <= n,
                    spec_first_target(s, a0, i as int, 0) == spec_first_target(
                        s,
                        a0,
                        i as int,
                        j as int,
                    ),
                invariant
                    w.entities@ == s,
                    n == s.len(),
                    i < n,
                    alive@ == a0,
                    alive@.len() == n,
                    e == s[i as int],
                    lbox == spec_entity_box(s[i as int]),
                ensures
                    match target {
                        Option::Some(t) => t < n && spec_hit_pair(s, a0, i as int, t as int)
                            && spec_first_target(s, a0, i as int, 0) == t as int,
                        Option::None => spec_first_target(s, a0, i as int, 0) == s.len() as int,
                    },
                decreases n - j,
            {
                let cand = alive[j];
                let ec = w.entities[j];
                let mut found = false;
                if cand && matches!(ec.kind, EntityKind::Enemy) {
                    let ebox = entity_box(&ec);
                    if lbox.intersects(&ebox) {
                        found = true;
                    }
                }
                proof {
                    assert(found == spec_hit_pair(s, a0, i as int, j as int));
                }
                if found {
                    target = Option::Some(j);
                    break ;
                }
                proof {
                    assert(spec_first_target(s, a0, i as int, j as int) == spec_first_target(
                        s,
                        a0,
                        i as int,
                        j as int + 1,
                    ));
                }
                j += 1;
            }
            match target {
                Option::Some(t) => {
                    alive[i] = false;
                    alive[t] = false;
                    proof {
                        assert(i != t);
                        lemma_killed_update(s, a0, i as int, n as int);
                        lemma_killed_update(s, a0.update(i as int, false), t as int, n as int);
                        assert(a0.update(i as int, false)[t as int] == a0[t as int]);
                        assert(alive@ == a0.update(i as int, false).update(t as int, false));
                        assert(alive@ == spec_pass_b_step(s, a0, i as int));
                    }
                    hits = hits + 1;
                },
                Option::None => {
                    proof {
                        assert(spec_first_target(s, a0, i as int, 0) == s.len() as int);
                        assert(alive@ == spec_pass_b_step(s, a0, i as int));
                    }
                },
            }
        } else {
            proof {
                assert(alive@ == spec_pass_b_step(s, a0, i as int));
            }
        }
        i += 1;
        proof {
            assert(spec_pass_b_alive(s, i as int) == spec_pass_b_step(
                s,
                spec_pass_b_alive(s, i as int - 1),
                i as int - 1,
            ));
        }
    }
    let ghost af = alive@;
    let mut out: Vec<Entity> = Vec::new();
    let mut q: usize = 0;
    while q < n
        invariant
            w.entities@ == s,
            n == s.len(),
            q <= n,
            alive@ == af,
            alive@.len() == n,
            out@ == masked(s, af, q as int),
        decreases n - q,
    {
        if alive[q] {
            out.push(w.entities[q]);
        }
        q += 1;
    }
    proof {
        lemma_masked_props(s, af, s.len() as int);
        lemma_masked_pointwise(s, af, s.len() as int, |e: Entity| e.id < old(w).next_id);
        lemma_masked_pointwise(s, af, s.len() as int, |e: Entity| spec_vel_ok(e));
    }
    w.entities = out;
    hits
}

} // verus!
