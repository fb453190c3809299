//! The shared entity store, its invariants, and handle-based destruction.

use vstd::prelude::*;

use crate::entity::Entity;
use crate::entity::EntityKind;
use crate::timer::SpawnTimer;
use crate::timer::timer_wf;

verus! {

/// Cap on the play-area extents, in world units; far beyond any real
/// viewport, and small enough that boundary arithmetic stays exact.
pub const MAX_WINDOW_EXTENT: i64 = 0x100_0000_0000;

/// The play-area dimensions, captured once at startup, in world units.
#[derive(Clone, Copy, PartialEq, Eq, Structural, Debug)]
pub struct WindowSize {
    /// Full width of the play area.
    pub width: i64,
    /// Full height of the play area.
    pub height: i64,
}

impl WindowSize {
    /// Half the play-area width; the spawn range spans plus and minus this.
    pub fn half_width(&self) -> (r: i64)
        requires
            0 <= self.width,
        ensures
            r == self.width as int / 2,
    {
        self.width / 2
    }

    /// Half the play-area height; the screen edges lie at plus and minus this.
    pub fn half_height(&self) -> (r: i64)
        requires
            0 <= self.height,
        ensures
            r == self.height as int / 2,
    {
        self.height / 2
    }
}

/// No two entities share a handle.
pub open spec fn unique_ids(s: Seq<Entity>) -> bool {
    forall|i: int, j: int|
        0 <= i < s.len() && 0 <= j < s.len() && i != j ==> #[trigger] s[i].id != #[trigger] s[j].id
}

/// Every handle lies below the next one to be handed out.
pub open spec fn ids_below(s: Seq<Entity>, n: u64) -> bool {
    forall|i: int| 0 <= i < s.len() ==> (#[trigger] s[i]).id < n
}

/// At most one player entity exists at a time.
pub open spec fn at_most_one_player(s: Seq<Entity>) -> bool {
    forall|i: int, j: int|
        0 <= i < s.len() && 0 <= j < s.len() && #[trigger] s[i].kind == EntityKind::Player
            && #[trigger] s[j].kind == EntityKind::Player ==> i == j
}

/// A velocity the mover integrates exactly: axis-aligned, and horizontal
/// on the player, whom input only ever steers sideways.
pub open spec fn spec_vel_ok(e: Entity) -> bool {
    (e.vel.x == 0 || e.vel.y == 0) && (e.kind == EntityKind::Player ==> e.vel.y == 0)
}

/// Every stored velocity is one the mover integrates exactly.
pub open spec fn vels_ok(s: Seq<Entity>) -> bool {
    forall|i: int| 0 <= i < s.len() ==> spec_vel_ok(#[trigger] s[i])
}

/// Whether some player entity is present.
pub open spec fn has_player(s: Seq<Entity>) -> bool {
    exists|i: int| 0 <= i < s.len() && (#[trigger] s[i]).kind == EntityKind::Player
}

/// The index of the player entity; meaningful only under `has_player`.
pub open spec fn player_index(s: Seq<Entity>) -> int {
    choose|i: int| 0 <= i < s.len() && (#[trigger] s[i]).kind == EntityKind::Player
}

/// The subsequence of the first `i` entries of `s` whose flag in `keep` is
/// set, in their original order. All removal in this library - collision,
/// reaping, handle-based destruction - is an instance of this one shape.
pub open spec fn masked(s: Seq<Entity>, keep: Seq<bool>, i: int) -> Seq<Entity>
    decreases i,
{
    if i <= 0 {
        Seq::empty()
    } else {
        let prefix = masked(s, keep, i - 1);
        if keep[i - 1] {
            prefix.push(s[i - 1])
        } else {
            prefix
        }
    }
}

/// A masked sequence is no longer than the prefix it was drawn from.
pub proof fn lemma_masked_len(s: Seq<Entity>, keep: Seq<bool>, i: int)
    requires
        0 <= i,
    ensures
        masked(s, keep, i).len() <= i,
    decreases i,
{
    if i > 0 {
        lemma_masked_len(s, keep, i - 1);
    }
}

/// Every masked entry comes from a kept source index, and distinct entries
/// come from distinct source indices: the entry at position `k` is the one
/// whose source prefix holds exactly `k` kept entries.
pub proof fn lemma_masked_source(s: Seq<Entity>, keep: Seq<bool>, i: int, k: int)
    requires
        0 <= i,
        0 <= k < masked(s, keep, i).len(),
    ensures
        exists|j: int|
            0 <= j < i && keep[j] && s[j] == masked(s, keep, i)[k] && masked(s, keep, j).len()
                == k,
    decreases i,
{
    if i > 0 {
        let m = masked(s, keep, i);
        let prev = masked(s, keep, i - 1);
        if k < prev.len() {
            lemma_masked_source(s, keep, i - 1, k);
            let j = choose|j: int|
                0 <= j < i - 1 && keep[j] && s[j] == prev[k] && masked(s, keep, j).len() == k;
            assert(0 <= j < i && keep[j] && s[j] == m[k] && masked(s, keep, j).len() == k);
        } else {
            assert(keep[i - 1] && s[i - 1] == m[k] && masked(s, keep, i - 1).len() == k);
        }
    }
}

/// A property of every source entity holds of every masked entry.
pub proof fn lemma_masked_pointwise(
    s: Seq<Entity>,
    keep: Seq<bool>,
    i: int,
    p: spec_fn(Entity) -> bool,
)
    requires
        0 <= i <= s.len(),
        forall|j: int| 0 <= j < s.len() ==> p(#[trigger] s[j]),
    ensures
        forall|k: int| 0 <= k < masked(s, keep, i).len() ==> p(#[trigger] masked(s, keep, i)[k]),
{
    let m = masked(s, keep, i);
    assert forall|k: int| 0 <= k < m.len() implies p(m[k]) by {
        lemma_masked_source(s, keep, i, k);
        let j = choose|j: int|
            0 <= j < i && keep[j] && s[j] == m[k] && masked(s, keep, j).len() == k;
        assert(p(s[j]));
    }
}

/// Masking keeps handles unique and keeps the player unique.
pub proof fn lemma_masked_props(s: Seq<Entity>, keep: Seq<bool>, i: int)
    requires
        0 <= i <= s.len(),
        unique_ids(s),
        at_most_one_player(s),
    ensures
        unique_ids(masked(s, keep, i)),
        at_most_one_player(masked(s, keep, i)),
{
    let m = masked(s, keep, i);
    assert forall|k1: int, k2: int|
        0 <= k1 < m.len() && 0 <= k2 < m.len() && k1 != k2 implies m[k1].id != m[k2].id by {
        lemma_masked_source(s, keep, i, k1);
        lemma_masked_source(s, keep, i, k2);
        let j1 = choose|j: int|
            0 <= j < i && keep[j] && s[j] == m[k1] && masked(s, keep, j).len() == k1;
        let j2 = choose|j: int|
            0 <= j < i && keep[j] && s[j] == m[k2] && masked(s, keep, j).len() == k2;
        assert(j1 != j2);
        assert(s[j1].id != s[j2].id);
    }
    assert forall|k1: int, k2: int|
        0 <= k1 < m.len() && 0 <= k2 < m.len() && #[trigger] m[k1].kind == EntityKind::Player
            && #[trigger] m[k2].kind == EntityKind::Player implies k1 == k2 by {
        if k1 != k2 {
            lemma_masked_source(s, keep, i, k1);
            lemma_masked_source(s, keep, i, k2);
            let j1 = choose|j: int|
                0 <= j < i && keep[j] && s[j] == m[k1] && masked(s, keep, j).len() == k1;
            let j2 = choose|j: int|
                0 <= j < i && keep[j] && s[j] == m[k2] && masked(s, keep, j).len() == k2;
            assert(j1 != j2);
            assert(s[j1].kind == EntityKind::Player && s[j2].kind == EntityKind::Player);
            assert(false);
        }
    }
}

/// Masking with every flag set keeps the prefix as it is.
pub proof fn lemma_masked_all_true(s: Seq<Entity>, keep: Seq<bool>, i: int)
    requires
        0 <= i <= s.len(),
        forall|j: int| 0 <= j < i ==> #[trigger] keep[j],
    ensures
        masked(s, keep, i) == s.take(i),
    decreases i,
{
    if i > 0 {
        lemma_masked_all_true(s, keep, i - 1);
        assert(s.take(i) =~= s.take(i - 1).push(s[i - 1]));
    }
}

/// Which entries survive destruction of the handle `id`.
pub open spec fn despawn_keep(s: Seq<Entity>, id: u64) -> Seq<bool> {
    Seq::new(s.len(), |i: int| s[i].id != id)
}

/// The store after destroying the handle `id`: the entity carrying it is
/// gone, everything else keeps its place; a no-op when no entity carries it.
pub open spec fn spec_despawn(s: Seq<Entity>, id: u64) -> Seq<Entity> {
    masked(s, despawn_keep(s, id), s.len() as int)
}

/// Destroying a handle twice leaves exactly the state that destroying it
/// once leaves: destruction is idempotent.
pub proof fn lemma_despawn_idempotent(s: Seq<Entity>, id: u64)
    ensures
        spec_despawn(spec_despawn(s, id), id) == spec_despawn(s, id),
{
    let m = spec_despawn(s, id);
    assert forall|k: int| 0 <= k < m.len() implies m[k].id != id by {
        lemma_masked_source(s, despawn_keep(s, id), s.len() as int, k);
        let j = choose|j: int|
            0 <= j < s.len() && despawn_keep(s, id)[j] && s[j] == m[k] && masked(
                s,
                despawn_keep(s, id),
                j,
            ).len() == k;
        assert(s[j].id != id);
    }
    assert forall|j: int| 0 <= j < m.len() implies #[trigger] despawn_keep(m, id)[j] by {
        assert(m[j].id != id);
    }
    lemma_masked_all_true(m, despawn_keep(m, id), m.len() as int);
    assert(m.take(m.len() as int) =~= m);
}

/// The whole game state: the entity store, the handle counter, the spawn
/// timers, and the play-area size captured at startup.
pub struct World {
    /// The next handle to hand out; handles are never reused.
    pub next_id: u64,
    /// The shared entity store all systems operate on.
    pub entities: Vec<Entity>,
    /// The two repeating spawn timers.
    pub timers: SpawnTimer,
    /// The play-area size, immutable for the session.
    pub window: WindowSize,
}

impl World {
    /// The state every system preserves: a bounded play area, valid
    /// timers, unique handles below the counter, at most one player, and
    /// exactly integrable velocities.
    pub open spec fn wf(self) -> bool {
        &&& 0 <= self.window.width <= MAX_WINDOW_EXTENT
        &&& 0 <= self.window.height <= MAX_WINDOW_EXTENT
        &&& timer_wf(self.timers.enemy)
        &&& timer_wf(self.timers.enemy_laser)
        &&& unique_ids(self.entities@)
        &&& at_most_one_player(self.entities@)
        &&& ids_below(self.entities@, self.next_id)
        &&& vels_ok(self.entities@)
    }

    /// An empty world over the given play area and timers.
    pub fn new(width: i64, height: i64, timers: SpawnTimer) -> (w: World)
        requires
            0 <= width <= MAX_WINDOW_EXTENT,
            0 <= height <= MAX_WINDOW_EXTENT,
            timer_wf(timers.enemy),
            timer_wf(timers.enemy_laser),
        ensures
            w.wf(),
            w.entities@ == Seq::<Entity>::empty(),
            w.next_id == 0,
            w.timers == timers,
            w.window == (WindowSize { width, height }),
    {
        World { next_id: 0, entities: Vec::new(), timers, window: WindowSize { width, height } }
    }

    /// Destroys the entity carrying the given handle; a no-op when none
    /// does, so destroying twice equals destroying once.
    pub fn despawn(&mut self, id: u64)
        requires
            old(self).wf(),
        ensures
            final(self).wf(),
            final(self).entities@ == spec_despawn(old(self).entities@, id),
            final(self).next_id == old(self).next_id,
            final(self).timers == old(self).timers,
            final(self).window == old(self).window,
    {
        let ghost s = self.entities@;
        let n = self.entities.len();
        let mut out: Vec<Entity> = Vec::new();
        let mut i: usize = 0;
        while i < n
            invariant
                self.entities@ == s,
                n == s.len(),
                i <= n,
                out@ == masked(s, despawn_keep(s, id), i as int),
            decreases n - i,
        {
            let e = self.entities[i];
            if e.id != id {
                out.push(e);
            }
            i += 1;
        }
        proof {
            lemma_masked_props(s, despawn_keep(s, id), s.len() as int);
            lemma_masked_pointwise(
                s,
                despawn_keep(s, id),
                s.len() as int,
                |e: Entity| e.id < old(self).next_id,
            );
            lemma_masked_pointwise(s, despawn_keep(s, id), s.len() as int, |e: Entity| spec_vel_ok(e));
        }
        self.entities = out;
    }
}

/// Finds the index of the player entity, if one is present.
pub fn find_player(entities: &Vec<Entity>) -> (r: Option<usize>)
    ensures
        match r {
            Option::Some(i) => i < entities@.len() && entities@[i as int].kind
                == EntityKind::Player,
            Option::None => !has_player(entities@),
        },
{
    let n = entities.len();
    let mut i: usize = 0;
    while i < n
        invariant
            n == entities@.len(),
            i <= n,
            forall|k: int| 0 <= k < i ==> (#[trigger] entities@[k]).kind != EntityKind::Player,
        decreases n - i,
    {
        if entities[i].kind == EntityKind::Player {
            return Option::Some(i);
        }
        i += 1;
    }
    Option::None
}

} // verus!
