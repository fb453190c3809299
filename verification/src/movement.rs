//! The mover: advances every entity by its velocity once per tick.

use vstd::prelude::*;

use vstd::math::abs;

use crate::entity::Entity;
use crate::entity::Velocity;
use crate::world::World;
use crate::world::spec_vel_ok;

verus! {

/// The shared base speed of 500 pixels per second: in world units that is
/// exactly one unit per millisecond per hundredth of speed factor
/// (500 px/s * 200 units/px / 1000 ms/s / 100 hundredths).
pub const BASE_SPEED: i64 = 1;

/// The sign of a velocity component; all a mover needs of an axis-aligned
/// direction, since the exact unit vector along an axis is its sign.
pub open spec fn signum(v: i64) -> int {
    if v > 0 {
        1
    } else if v < 0 {
        -1
    } else {
        0
    }
}

/// Horizontal displacement in one tick: the direction's sign times base
/// speed times speed factor times elapsed milliseconds.
pub open spec fn spec_displacement_x(vel: Velocity, per: u16, dt: u32) -> int {
    signum(vel.x) * (BASE_SPEED as int) * (per as int) * (dt as int)
}

/// Vertical displacement in one tick.
pub open spec fn spec_displacement_y(vel: Velocity, per: u16, dt: u32) -> int {
    signum(vel.y) * (BASE_SPEED as int) * (per as int) * (dt as int)
}

/// A value clamped into the machine range of coordinates.
pub open spec fn sat64(v: int) -> int {
    if v > i64::MAX as int {
        i64::MAX as int
    } else if v < i64::MIN as int {
        i64::MIN as int
    } else {
        v
    }
}

/// Saturating addition on coordinates; exact whenever the true sum is
/// representable.
pub fn sat_add(a: i64, b: i64) -> (c: i64)
    ensures
        c as int == sat64(a + b),
{
    if b >= 0 {
        if a > i64::MAX - b {
            i64::MAX
        } else {
            a + b
        }
    } else {
        if a < i64::MIN - b {
            i64::MIN
        } else {
            a + b
        }
    }
}

/// An entity after one tick of movement: position advanced by the tick's
/// displacement, everything else untouched.
pub open spec fn spec_move_entity(e: Entity, dt: u32) -> Entity {
    Entity {
        x: sat64(e.x + spec_displacement_x(e.vel, e.movement.per, dt)) as i64,
        y: sat64(e.y + spec_displacement_y(e.vel, e.movement.per, dt)) as i64,
        ..e
    }
}

/// The whole store after one tick of movement.
pub open spec fn spec_move_all(s: Seq<Entity>, dt: u32) -> Seq<Entity> {
    Seq::new(s.len(), |i: int| spec_move_entity(s[i], dt))
}

/// How a sign factor distributes over the speed product.
proof fn lemma_sign_times(sg: int, b: int, p: int, d: int)
    by (nonlinear_arith)
    requires
        sg == 0 || sg == 1 || sg == -1,
        b >= 0,
        p >= 0,
        d >= 0,
    ensures
        sg == 0 ==> sg * b * p * d == 0,
        sg == 1 ==> sg * b * p * d == b * p * d,
        sg == -1 ==> sg * b * p * d == -(b * p * d),
        b * p * d >= 0,
{
}

/// Computes one tick's displacement from a velocity and a speed factor.
fn displacement(vel: &Velocity, per: u16, dt: u32) -> (d: (i64, i64))
    ensures
        d.0 as int == spec_displacement_x(*vel, per, dt),
        d.1 as int == spec_displacement_y(*vel, per, dt),
{
    proof {
        lemma_sign_times(signum(vel.x), BASE_SPEED as int, per as int, dt as int);
        lemma_sign_times(signum(vel.y), BASE_SPEED as int, per as int, dt as int);
        assert((BASE_SPEED as int) * (per as int) <= 65535 && (BASE_SPEED as int) * (per as int)
            * (dt as int) <= 65535 * 4294967295) by (nonlinear_arith)
            requires
                BASE_SPEED as int == 1,
                0 <= per as int <= 65535,
                0 <= dt as int <= 4294967295,
        ;
    }
    let step: i64 = BASE_SPEED * (per as i64) * (dt as i64);
    let dx: i64 = if vel.x > 0 {
        step
    } else if vel.x < 0 {
        -step
    } else {
        0
    };
    let dy: i64 = if vel.y > 0 {
        step
    } else if vel.y < 0 {
        -step
    } else {
        0
    };
    (dx, dy)
}

/// Once per tick, every entity's position advances by its velocity's
/// direction, scaled by the shared base speed, its own speed factor, and
/// the elapsed time. Entities' identities, kinds, velocities and speed
/// factors are untouched.
pub fn movement(w: &mut World, dt: u32)
    requires
        old(w).wf(),
    ensures
        final(w).wf(),
        final(w).entities@ == spec_move_all(old(w).entities@, dt),
        final(w).next_id == old(w).next_id,
        final(w).timers == old(w).timers,
        final(w).window == old(w).window,
{
    let ghost s = w.entities@;
    let n = w.entities.len();
    let mut out: Vec<Entity> = Vec::new();
    let mut i: usize = 0;
    while i < n
        invariant
            w.entities@ == s,
            n == s.len(),
            i <= n,
            out@.len() == i,
            forall|k: int| 0 <= k < i ==> out@[k] == spec_move_entity(s[k], dt),
        decreases n - i,
    {
        let e = w.entities[i];
        let d = displacement(&e.vel, e.movement.per, dt);
        let nx = sat_add(e.x, d.0);
        let ny = sat_add(e.y, d.1);
        out.push(Entity { x: nx, y: ny, ..e });
        i += 1;
    }
    proof {
        assert(out@ =~= spec_move_all(s, dt));
        let m = out@;
        assert forall|a: int, b: int|
            0 <= a < m.len() && 0 <= b < m.len() && a != b implies m[a].id != m[b].id by {
            assert(s[a].id != s[b].id);
        }
        assert forall|a: int, b: int|
            0 <= a < m.len() && 0 <= b < m.len() && #[trigger] m[a].kind == crate::entity::EntityKind::Player
                && #[trigger] m[b].kind == crate::entity::EntityKind::Player implies a == b by {
            assert(s[a].kind == crate::entity::EntityKind::Player);
            assert(s[b].kind == crate::entity::EntityKind::Player);
        }
        assert forall|a: int| 0 <= a < m.len() implies (#[trigger] m[a]).id < old(w).next_id by {
            assert(s[a].id < old(w).next_id);
        }
        assert forall|a: int| 0 <= a < m.len() implies spec_vel_ok(#[trigger] m[a]) by {
            assert(spec_vel_ok(s[a]));
        }
    }
    w.entities = out;
}

/// Movement integration: a still entity does not move; a moving one is
/// displaced by exactly base speed times speed factor times elapsed time,
/// in the direction of its velocity, however long or short that velocity
/// vector is.
pub proof fn lemma_movement_integration(vel: Velocity, per: u16, dt: u32)
    requires
        vel.x == 0 || vel.y == 0,
    ensures
        vel.x == 0 && vel.y == 0 ==> spec_displacement_x(vel, per, dt) == 0
            && spec_displacement_y(vel, per, dt) == 0,
        !(vel.x == 0 && vel.y == 0) ==> abs(spec_displacement_x(vel, per, dt)) + abs(
            spec_displacement_y(vel, per, dt),
        ) == (BASE_SPEED as int) * (per as int) * (dt as int),
        vel.x > 0 ==> spec_displacement_x(vel, per, dt) >= 0,
        vel.x < 0 ==> spec_displacement_x(vel, per, dt) <= 0,
        vel.y > 0 ==> spec_displacement_y(vel, per, dt) >= 0,
        vel.y < 0 ==> spec_displacement_y(vel, per, dt) <= 0,
{
    lemma_sign_times(signum(vel.x), BASE_SPEED as int, per as int, dt as int);
    lemma_sign_times(signum(vel.y), BASE_SPEED as int, per as int, dt as int);
}

/// The displacement depends on the velocity's direction alone: velocities
/// with equal per-axis signs displace equally, whatever their magnitudes.
pub proof fn lemma_displacement_direction_only(v: Velocity, u: Velocity, per: u16, dt: u32)
    requires
        signum(v.x) == signum(u.x),
        signum(v.y) == signum(u.y),
    ensures
        spec_displacement_x(v, per, dt) == spec_displacement_x(u, per, dt),
        spec_displacement_y(v, per, dt) == spec_displacement_y(u, per, dt),
{
}

} // verus!
