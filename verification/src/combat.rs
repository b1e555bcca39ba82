//! Bullets: where they spawn, how fast they fly, and when they expire.

use vstd::prelude::*;

use crate::geom::UNIT;
use crate::geom::Vec3Fix;
use crate::geom::dist_sq;
use crate::geom::distance_squared;
use crate::geom::div_trunc;

verus! {

/// A bullet remembers where it was fired, and how far it may fly before it
/// despawns (in milliunits).
#[derive(Clone, Copy, Debug)]
pub struct Bullet {
    pub origin: Vec3Fix,
    pub distance: i64,
}

/// How far a bullet flies before despawning, in milliunits.
pub const BULLET_RANGE: i64 = 100_000;

/// A bullet's muzzle speed, in world units per second: the velocity is the
/// firing ship's up vector scaled by this.
pub const BULLET_SPEED: i64 = 80;

/// A bullet leaves the muzzle one and a half units ahead of the ship.
pub const MUZZLE_OFFSET_NUM: i64 = 3;

/// The point a ship fires from: one and a half units along its up vector.
pub fn fire_bullet(pos: Vec3Fix, up: Vec3Fix) -> (muzzle: Vec3Fix)
    requires
        pos.in_world(),
        up.bounded(UNIT as int),
    ensures
        muzzle.x == pos.x + div_trunc(up.x * MUZZLE_OFFSET_NUM, 2),
        muzzle.y == pos.y + div_trunc(up.y * MUZZLE_OFFSET_NUM, 2),
        muzzle.z == pos.z + div_trunc(up.z * MUZZLE_OFFSET_NUM, 2),
{
    let ox = if up.x >= 0 {
        up.x * 3 / 2
    } else {
        -((-up.x) * 3 / 2)
    };
    let oy = if up.y >= 0 {
        up.y * 3 / 2
    } else {
        -((-up.y) * 3 / 2)
    };
    let oz = if up.z >= 0 {
        up.z * 3 / 2
    } else {
        -((-up.z) * 3 / 2)
    };
    Vec3Fix { x: pos.x + ox, y: pos.y + oy, z: pos.z + oz }
}

/// A freshly fired bullet and its velocity: it starts at the muzzle, may fly
/// `BULLET_RANGE`, and leaves along the ship's up vector at `BULLET_SPEED`.
pub fn spawn_bullet(muzzle: Vec3Fix, up: Vec3Fix) -> (r: (Bullet, Vec3Fix))
    requires
        muzzle.in_world(),
        up.bounded(UNIT as int),
    ensures
        r.0.origin == muzzle,
        r.0.distance == BULLET_RANGE,
        r.1 == (Vec3Fix {
            x: (up.x * BULLET_SPEED) as i64,
            y: (up.y * BULLET_SPEED) as i64,
            z: (up.z * BULLET_SPEED) as i64,
        }),
{
    let linvel = Vec3Fix { x: up.x * BULLET_SPEED, y: up.y * BULLET_SPEED, z: up.z * BULLET_SPEED };
    (Bullet { origin: muzzle, distance: BULLET_RANGE }, linvel)
}

/// The bullets that have outflown their range, in their listed order.
pub open spec fn spec_expired(bs: Seq<(u64, Bullet, Vec3Fix)>) -> Seq<u64>
    decreases bs.len(),
{
    if bs.len() == 0 {
        Seq::empty()
    } else {
        let pre = spec_expired(bs.drop_last());
        if dist_sq(bs.last().2, bs.last().1.origin) > bs.last().1.distance * bs.last().1.distance {
            pre.push(bs.last().0)
        } else {
            pre
        }
    }
}

/// The bullets to despawn this frame: each bullet whose position is farther
/// from its origin than its range allows.
pub fn despawn_bullet(bullets: &Vec<(u64, Bullet, Vec3Fix)>) -> (gone: Vec<u64>)
    requires
        forall|i: int| 0 <= i < bullets@.len() ==> {
            &&& (#[trigger] bullets@[i]).1.origin.in_world()
            &&& bullets@[i].2.in_world()
            &&& bullets@[i].1.distance >= 0
        },
    ensures
        gone@ == spec_expired(bullets@),
{
    let n = bullets.len();
    let mut gone: Vec<u64> = Vec::new();
    let mut i: usize = 0;
    while i < n
        invariant
            i <= n == bullets@.len(),
            forall|k: int| 0 <= k < n ==> {
                &&& (#[trigger] bullets@[k]).1.origin.in_world()
                &&& bullets@[k].2.in_world()
                &&& bullets@[k].1.distance >= 0
            },
            gone@ == spec_expired(bullets@.subrange(0, i as int)),
        decreases n - i,
    {
        proof {
            assert(bullets@.subrange(0, i + 1).drop_last() =~= bullets@.subrange(0, i as int));
        }
        let (id, b, pos) = (bullets[i].0, bullets[i].1, bullets[i].2);
        let d2 = distance_squared(pos, b.origin);
        proof {
            crate::geom::lemma_square_bound(b.distance as int, 0x7fff_ffff_ffff_ffff);
        }
        if d2 > (b.distance as u128) * (b.distance as u128) {
            gone.push(id);
        }
        i = i + 1;
    }
    proof {
        assert(bullets@.subrange(0, n as int) =~= bullets@);
    }
    gone
}

/// The collider pairs that actually intersect, in their reported order.
pub open spec fn spec_intersecting(ps: Seq<(u64, u64, bool)>) -> Seq<(u64, u64)>
    decreases ps.len(),
{
    if ps.len() == 0 {
        Seq::empty()
    } else {
        let pre = spec_intersecting(ps.drop_last());
        if ps.last().2 {
            pre.push((ps.last().0, ps.last().1))
        } else {
            pre
        }
    }
}

/// The pairs of colliders the physics step reports as truly touching: what a
/// hit resolution pass would walk over.
pub fn bullet_hit(pairs: &Vec<(u64, u64, bool)>) -> (hits: Vec<(u64, u64)>)
    ensures
        hits@ == spec_intersecting(pairs@),
{
    let n = pairs.len();
    let mut hits: Vec<(u64, u64)> = Vec::new();
    let mut i: usize = 0;
    while i < n
        invariant
            i <= n == pairs@.len(),
            hits@ == spec_intersecting(pairs@.subrange(0, i as int)),
        decreases n - i,
    {
        proof {
            assert(pairs@.subrange(0, i + 1).drop_last() =~= pairs@.subrange(0, i as int));
        }
        if pairs[i].2 {
            hits.push((pairs[i].0, pairs[i].1));
        }
        i = i + 1;
    }
    proof {
        assert(pairs@.subrange(0, n as int) =~= pairs@);
    }
    hits
}

} // verus!
