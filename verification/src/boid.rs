//! A boid: a position and a velocity on the plane, and the three rules by
//! which it steers among its neighbours.

use vstd::prelude::*;
use crate::fixed::{
    clamp, is_floor_sqrt, isqrt, lemma_floor_sqrt_order, quot, units, weighted, SCALE,
};
use crate::random::{random_u64, sample, sampled};

verus! {

/// Edge of the square marker that stands for a boid: seven pixels.
pub const BOID_SIZE: i64 = 7_000_000;

/// Half the marker's edge.
pub const BOID_RADIUS: i64 = 3_500_000;

/// Largest magnitude of a velocity component after a tick: four marker sizes
/// per second.
pub const MAX_SPEED: i64 = 28_000_000;

/// Reach of the cohesion rule: eight marker sizes.
pub const COHESION_RADIUS: i64 = 56_000_000;

/// Factor of the cohesion vector in the new velocity: a fifth.
pub const COHESION_WEIGHT: i64 = 200_000;

/// Reach of the alignment rule: eight marker sizes.
pub const ALIGNMENT_RADIUS: i64 = 56_000_000;

/// Factor of the alignment vector in the new velocity: one.
pub const ALIGNMENT_WEIGHT: i64 = 1_000_000;

/// Reach of the separation rule: five marker sizes.
pub const SEPARATION_RADIUS: i64 = 35_000_000;

/// Factor of the separation vector in the new velocity: one.
pub const SEPARATION_WEIGHT: i64 = 1_000_000;

/// Largest magnitude of a coordinate or of a velocity component that a boid
/// can hold: two to the power of 62.
pub const LIMIT: i64 = 0x4000_0000_0000_0000;

/// What a boid is: its position and its velocity, in units.
pub struct BoidView {
    pub x: int,
    pub y: int,
    pub vx: int,
    pub vy: int,
}

impl BoidView {
    /// Every component can be held by a `Boid`.
    pub open spec fn in_range(self) -> bool {
        &&& -LIMIT <= self.x <= LIMIT
        &&& -LIMIT <= self.y <= LIMIT
        &&& -LIMIT <= self.vx <= LIMIT
        &&& -LIMIT <= self.vy <= LIMIT
    }

    /// The square of the Euclidean distance between the two positions.
    pub open spec fn dist_sq(self, other: BoidView) -> int {
        (self.x - other.x) * (self.x - other.x) + (self.y - other.y) * (self.y - other.y)
    }

    /// `other` lies closer to `self` than `radius`, but not at the same place:
    /// the distance `d` between them has `0 < d < radius`.
    pub open spec fn is_neighbor(self, other: BoidView, radius: int) -> bool {
        0 <= radius && 0 < self.dist_sq(other) < radius * radius
    }
}

/// The boids of `boids` that the rule of the given radius counts for `me`, in
/// their order.
pub open spec fn neighbors(me: BoidView, boids: Seq<BoidView>, radius: int) -> Seq<BoidView> {
    boids.filter(|b: BoidView| me.is_neighbor(b, radius))
}

/// The sum of `f` over the boids of `s`.
pub open spec fn total(s: Seq<BoidView>, f: spec_fn(BoidView) -> int) -> int
    decreases s.len(),
{
    if s.len() == 0 {
        0
    } else {
        total(s.drop_last(), f) + f(s.last())
    }
}

/// The sum of the x coordinates.
pub open spec fn sum_x(s: Seq<BoidView>) -> int {
    total(s, |b: BoidView| b.x)
}

/// The sum of the y coordinates.
pub open spec fn sum_y(s: Seq<BoidView>) -> int {
    total(s, |b: BoidView| b.y)
}

/// The sum of the x components of the velocities.
pub open spec fn sum_vx(s: Seq<BoidView>) -> int {
    total(s, |b: BoidView| b.vx)
}

/// The sum of the y components of the velocities.
pub open spec fn sum_vy(s: Seq<BoidView>) -> int {
    total(s, |b: BoidView| b.vy)
}

/// The alignment vector of `me` among `boids`: the mean velocity of its
/// neighbours, or zero where it has none.
pub open spec fn alignment(me: BoidView, boids: Seq<BoidView>) -> (int, int) {
    let near = neighbors(me, boids, ALIGNMENT_RADIUS as int);
    if near.len() == 0 {
        (0, 0)
    } else {
        (quot(sum_vx(near), near.len() as int), quot(sum_vy(near), near.len() as int))
    }
}

/// The cohesion vector of `me` among `boids`: from its own position to the
/// mean position of its neighbours, or zero where it has none.
pub open spec fn cohesion(me: BoidView, boids: Seq<BoidView>) -> (int, int) {
    let near = neighbors(me, boids, COHESION_RADIUS as int);
    if near.len() == 0 {
        (0, 0)
    } else {
        (quot(sum_x(near), near.len() as int) - me.x, quot(sum_y(near), near.len() as int) - me.y)
    }
}

/// The sum of the offsets in x from each boid of `s` to `me`.
pub open spec fn sum_dx(me: BoidView, s: Seq<BoidView>) -> int {
    total(s, |b: BoidView| me.x - b.x)
}

/// The sum of the offsets in y from each boid of `s` to `me`.
pub open spec fn sum_dy(me: BoidView, s: Seq<BoidView>) -> int {
    total(s, |b: BoidView| me.y - b.y)
}

/// The separation vector of `me` among `boids`: the sum, over its neighbours,
/// of the offset from the neighbour to `me`. It is a sum and no mean: the more
/// neighbours crowd a boid, the harder it is pushed.
pub open spec fn separation(me: BoidView, boids: Seq<BoidView>) -> (int, int) {
    let near = neighbors(me, boids, SEPARATION_RADIUS as int);
    (sum_dx(me, near), sum_dy(me, near))
}

/// One component of the new velocity: the old one and the three weighted rule
/// components, clipped to `MAX_SPEED`.
pub open spec fn combined(v: int, alignment: int, cohesion: int, separation: int) -> int {
    clamp(
        v + weighted(alignment, ALIGNMENT_WEIGHT as int) + weighted(cohesion, COHESION_WEIGHT as int)
            + weighted(separation, SEPARATION_WEIGHT as int),
        MAX_SPEED as int,
    )
}

/// The velocity of `me` after a tick among `boids`. Each axis is clipped by
/// itself, so the direction may change.
pub open spec fn new_velocity(me: BoidView, boids: Seq<BoidView>) -> (int, int) {
    let a = alignment(me, boids);
    let c = cohesion(me, boids);
    let s = separation(me, boids);
    (combined(me.vx, a.0, c.0, s.0), combined(me.vy, a.1, c.1, s.1))
}

/// The boid that four draws place on a canvas of `width` by `height` pixels:
/// the first two spread over the canvas give its position, the last two spread
/// over `0 .. BOID_SIZE` give its velocity.
pub open spec fn spawned(width: int, height: int, rx: u64, ry: u64, rvx: u64, rvy: u64) -> BoidView {
    BoidView {
        x: sampled(rx, width * SCALE),
        y: sampled(ry, height * SCALE),
        vx: sampled(rvx, BOID_SIZE as int),
        vy: sampled(rvy, BOID_SIZE as int),
    }
}

/// `b` is a boid that some four draws place on a canvas of `width` by `height`
/// pixels.
pub open spec fn is_spawn(b: BoidView, width: int, height: int) -> bool {
    exists|rx: u64, ry: u64, rvx: u64, rvy: u64|
        b == #[trigger] spawned(width, height, rx, ry, rvx, rvy)
}

/// The views of a sequence of boids.
pub open spec fn views(boids: Seq<Boid>) -> Seq<BoidView> {
    boids.map_values(|b: Boid| b@)
}

/// One boid.
#[derive(Clone, Copy, Debug, PartialEq, Eq)]
pub struct Boid {
    x: i64,
    y: i64,
    vx: i64,
    vy: i64,
}

impl View for Boid {
    type V = BoidView;

    closed spec fn view(&self) -> BoidView {
        BoidView { x: self.x as int, y: self.y as int, vx: self.vx as int, vy: self.vy as int }
    }
}

impl Boid {
    #[verifier::type_invariant]
    spec fn inv(self) -> bool {
        self@.in_range()
    }

    /// The boid at `(x, y)` with velocity `(vx, vy)`, unless a component is
    /// beyond `LIMIT`.
    pub fn at(x: i64, y: i64, vx: i64, vy: i64) -> (r: Option<Boid>)
        ensures
            r is Some <==> (BoidView { x: x as int, y: y as int, vx: vx as int, vy: vy as int }).in_range(),
            r is Some ==> r->0@ == (BoidView { x: x as int, y: y as int, vx: vx as int, vy: vy as int }),
    {
        if -LIMIT <= x && x <= LIMIT && -LIMIT <= y && y <= LIMIT && -LIMIT <= vx && vx <= LIMIT
            && -LIMIT <= vy && vy <= LIMIT {
            Some(Boid { x, y, vx, vy })
        } else {
            None
        }
    }

    /// A boid at a random place on a canvas of `width` by `height` pixels, with
    /// a random velocity whose components are under `BOID_SIZE`.
    pub fn new(width: u32, height: u32) -> (b: Boid)
        ensures
            is_spawn(b@, width as int, height as int),
            0 <= b@.x && (width > 0 ==> b@.x < width * SCALE),
            0 <= b@.y && (height > 0 ==> b@.y < height * SCALE),
            0 <= b@.vx < BOID_SIZE,
            0 <= b@.vy < BOID_SIZE,
    {
        let rx = random_u64();
        let ry = random_u64();
        let rvx = random_u64();
        let rvy = random_u64();
        Boid::from_samples(width, height, rx, ry, rvx, rvy)
    }

    /// The boid that four draws place on a canvas of `width` by `height`
    /// pixels.
    pub fn from_samples(width: u32, height: u32, rx: u64, ry: u64, rvx: u64, rvy: u64) -> (b: Boid)
        ensures
            b@ == spawned(width as int, height as int, rx, ry, rvx, rvy),
            0 <= b@.x && (width > 0 ==> b@.x < width * SCALE),
            0 <= b@.y && (height > 0 ==> b@.y < height * SCALE),
            0 <= b@.vx < BOID_SIZE,
            0 <= b@.vy < BOID_SIZE,
    {
        let x = sample(rx, units(width) as u64);
        let y = sample(ry, units(height) as u64);
        let vx = sample(rvx, BOID_SIZE as u64);
        let vy = sample(rvy, BOID_SIZE as u64);
        Boid { x: x as i64, y: y as i64, vx: vx as i64, vy: vy as i64 }
    }

    /// The position, in units.
    pub fn position(&self) -> (p: (i64, i64))
        ensures
            p.0 == self@.x,
            p.1 == self@.y,
            self@.in_range(),
    {
        proof {
            use_type_invariant(self);
        }
        (self.x, self.y)
    }

    /// The velocity, in units per second.
    pub fn velocity(&self) -> (v: (i64, i64))
        ensures
            v.0 == self@.vx,
            v.1 == self@.vy,
            self@.in_range(),
    {
        proof {
            use_type_invariant(self);
        }
        (self.vx, self.vy)
    }

    /// The Euclidean distance between the two positions, rounded down to a
    /// whole unit. It is zero only where the positions coincide.
    pub fn distance_to(&self, b: &Boid) -> (d: u64)
        ensures
            is_floor_sqrt(self@.dist_sq(b@), d as int),
            d == 0 <==> (self@.x == b@.x && self@.y == b@.y),
    {
        proof {
            use_type_invariant(self);
            use_type_invariant(b);
        }
        let x: i128 = self.x as i128 - b.x as i128;
        let y: i128 = self.y as i128 - b.y as i128;
        proof {
            lemma_square_bound(x as int, 2 * LIMIT);
            lemma_square_bound(y as int, 2 * LIMIT);
        }
        let d = isqrt((x * x) as u128 + (y * y) as u128);
        proof {
            lemma_floor_sqrt_order(self@.dist_sq(b@), d as int, 0);
            lemma_dist_sq_zero(self@, b@);
        }
        d
    }

    /// The alignment vector of this boid among `boids`.
    pub fn align(&self, boids: &[Boid]) -> (r: (i128, i128))
        ensures
            (r.0 as int, r.1 as int) == alignment(self@, views(boids@)),
            -LIMIT <= r.0 <= LIMIT,
            -LIMIT <= r.1 <= LIMIT,
    {
        let ghost me = self@;
        let ghost all = views(boids@);
        let ghost radius = ALIGNMENT_RADIUS as int;
        let mut x: i128 = 0;
        let mut y: i128 = 0;
        let mut count: usize = 0;

        for i in 0..boids.len()
            invariant
                me == self@,
                all == views(boids@),
                radius == ALIGNMENT_RADIUS,
                count <= i,
                count == neighbors(me, all.take(i as int), radius).len(),
                x == sum_vx(neighbors(me, all.take(i as int), radius)),
                y == sum_vy(neighbors(me, all.take(i as int), radius)),
                -count * LIMIT <= x <= count * LIMIT,
                -count * LIMIT <= y <= count * LIMIT,
        {
            let b = &boids[i];
            let distance = self.distance_to(b);
            proof {
                lemma_floor_sqrt_order(me.dist_sq(b@), distance as int, radius);
                lemma_neighbors_take(me, all, i as int, radius);
                let near = neighbors(me, all.take(i as int), radius);
                lemma_total_push(near, b@, |b: BoidView| b.vx);
                lemma_total_push(near, b@, |b: BoidView| b.vy);
            }
            if distance > 0 && distance < ALIGNMENT_RADIUS as u64 {
                let v = b.velocity();
                x += v.0 as i128;
                y += v.1 as i128;
                count += 1;
            }
        }
        proof {
            assert(all.take(boids.len() as int) =~= all);
        }

        if count > 0 {
            proof {
                lemma_mean_bound(x as int, count as int, LIMIT as int);
                lemma_mean_bound(y as int, count as int, LIMIT as int);
            }
            x = x / (count as i128);
            y = y / (count as i128);
        }
        (x, y)
    }

    /// The cohesion vector of this boid among `boids`.
    pub fn cohere(&self, boids: &[Boid]) -> (r: (i128, i128))
        ensures
            (r.0 as int, r.1 as int) == cohesion(self@, views(boids@)),
            -2 * LIMIT <= r.0 <= 2 * LIMIT,
            -2 * LIMIT <= r.1 <= 2 * LIMIT,
    {
        proof {
            use_type_invariant(self);
        }
        let ghost me = self@;
        let ghost all = views(boids@);
        let ghost radius = COHESION_RADIUS as int;
        let mut x: i128 = 0;
        let mut y: i128 = 0;
        let mut count: usize = 0;

        for i in 0..boids.len()
            invariant
                me == self@,
                all == views(boids@),
                radius == COHESION_RADIUS,
                count <= i,
                count == neighbors(me, all.take(i as int), radius).len(),
                x == sum_x(neighbors(me, all.take(i as int), radius)),
                y == sum_y(neighbors(me, all.take(i as int), radius)),
                -count * LIMIT <= x <= count * LIMIT,
                -count * LIMIT <= y <= count * LIMIT,
        {
            let b = &boids[i];
            let distance = self.distance_to(b);
            proof {
                lemma_floor_sqrt_order(me.dist_sq(b@), distance as int, radius);
                lemma_neighbors_take(me, all, i as int, radius);
                let near = neighbors(me, all.take(i as int), radius);
                lemma_total_push(near, b@, |b: BoidView| b.x);
                lemma_total_push(near, b@, |b: BoidView| b.y);
            }
            if distance > 0 && distance < COHESION_RADIUS as u64 {
                let p = b.position();
                x += p.0 as i128;
                y += p.1 as i128;
                count += 1;
            }
        }
        proof {
            assert(all.take(boids.len() as int) =~= all);
        }

        if count > 0 {
            proof {
                lemma_mean_bound(x as int, count as int, LIMIT as int);
                lemma_mean_bound(y as int, count as int, LIMIT as int);
            }
            x = x / (count as i128);
            y = y / (count as i128);

            x -= self.x as i128;
            y -= self.y as i128;
        }
        (x, y)
    }

    /// The separation vector of this boid among `boids`.
    pub fn separate(&self, boids: &[Boid]) -> (r: (i128, i128))
        ensures
            (r.0 as int, r.1 as int) == separation(self@, views(boids@)),
            -boids.len() * SEPARATION_RADIUS <= r.0 <= boids.len() * SEPARATION_RADIUS,
            -boids.len() * SEPARATION_RADIUS <= r.1 <= boids.len() * SEPARATION_RADIUS,
    {
        proof {
            use_type_invariant(self);
        }
        let ghost me = self@;
        let ghost all = views(boids@);
        let ghost radius = SEPARATION_RADIUS as int;
        let ghost mut count: int = 0;
        let mut x: i128 = 0;
        let mut y: i128 = 0;

        for i in 0..boids.len()
            invariant
                me == self@,
                all == views(boids@),
                radius == SEPARATION_RADIUS,
                0 <= count <= i,
                x == sum_dx(me, neighbors(me, all.take(i as int), radius)),
                y == sum_dy(me, neighbors(me, all.take(i as int), radius)),
                -count * SEPARATION_RADIUS <= x <= count * SEPARATION_RADIUS,
                -count * SEPARATION_RADIUS <= y <= count * SEPARATION_RADIUS,
        {
            let b = &boids[i];
            let distance = self.distance_to(b);
            proof {
                lemma_floor_sqrt_order(me.dist_sq(b@), distance as int, radius);
                lemma_neighbors_take(me, all, i as int, radius);
                let near = neighbors(me, all.take(i as int), radius);
                lemma_total_push(near, b@, |b: BoidView| me.x - b.x);
                lemma_total_push(near, b@, |b: BoidView| me.y - b.y);
            }
            if distance > 0 && distance < SEPARATION_RADIUS as u64 {
                proof {
                    lemma_neighbor_offsets(me, b@, radius);
                    count = count + 1;
                }
                let p = b.position();
                x -= p.0 as i128 - self.x as i128;
                y -= p.1 as i128 - self.y as i128;
            }
        }
        proof {
            assert(all.take(boids.len() as int) =~= all);
        }
        (x, y)
    }

    /// `v` clipped to the largest speed a component may have.
    pub fn limit_speed(&self, v: i128) -> (r: i64)
        ensures
            r == clamp(v as int, MAX_SPEED as int),
            -MAX_SPEED <= r <= MAX_SPEED,
    {
        if v > MAX_SPEED as i128 {
            MAX_SPEED
        } else if v < -(MAX_SPEED as i128) {
            -MAX_SPEED
        } else {
            v as i64
        }
    }

    /// One component of the new velocity, from the old one and the three rule
    /// components.
    fn combine(&self, v: i64, alignment: i128, cohesion: i128, separation: i128) -> (r: i64)
        requires
            -0x1_0000_0000_0000_0000 <= alignment <= 0x1_0000_0000_0000_0000,
            -0x1_0000_0000_0000_0000 <= cohesion <= 0x1_0000_0000_0000_0000,
            -0x1_0000_0000_0000_0000 * 0x1_0000_0000 <= separation <= 0x1_0000_0000_0000_0000
                * 0x1_0000_0000,
        ensures
            r == combined(v as int, alignment as int, cohesion as int, separation as int),
            -MAX_SPEED <= r <= MAX_SPEED,
    {
        assert(alignment * ALIGNMENT_WEIGHT == alignment * 1_000_000);
        assert(cohesion * COHESION_WEIGHT == cohesion * 200_000);
        assert(separation * SEPARATION_WEIGHT == separation * 1_000_000);
        let a: i128 = alignment * (ALIGNMENT_WEIGHT as i128) / (SCALE as i128);
        let c: i128 = cohesion * (COHESION_WEIGHT as i128) / (SCALE as i128);
        let s: i128 = separation * (SEPARATION_WEIGHT as i128) / (SCALE as i128);
        self.limit_speed(v as i128 + a + c + s)
    }

    /// The velocity of this boid after a tick among `boids`: its own velocity
    /// and the three weighted rule vectors, each axis clipped to `MAX_SPEED`.
    pub fn flock(&self, boids: &[Boid]) -> (v: (i64, i64))
        ensures
            (v.0 as int, v.1 as int) == new_velocity(self@, views(boids@)),
            -MAX_SPEED <= v.0 <= MAX_SPEED,
            -MAX_SPEED <= v.1 <= MAX_SPEED,
    {
        proof {
            use_type_invariant(self);
        }
        let alignment = self.align(boids);
        let cohesion = self.cohere(boids);
        let separation = self.separate(boids);
        assert(boids.len() * SEPARATION_RADIUS == boids.len() * 35_000_000);

        (
            self.combine(self.vx, alignment.0, cohesion.0, separation.0),
            self.combine(self.vy, alignment.1, cohesion.1, separation.1),
        )
    }
}

/// The square of a number within `-bound ..= bound` is within `0 ..= bound * bound`.
pub proof fn lemma_square_bound(a: int, bound: int)
    requires
        -bound <= a <= bound,
    ensures
        0 <= a * a <= bound * bound,
{
    assert(0 <= a * a <= bound * bound) by (nonlinear_arith)
        requires
            -bound <= a <= bound,
    ;
}

/// Two boids are at distance zero exactly where their positions coincide.
pub proof fn lemma_dist_sq_zero(a: BoidView, b: BoidView)
    ensures
        0 <= a.dist_sq(b),
        a.dist_sq(b) == 0 <==> (a.x == b.x && a.y == b.y),
{
    let dx = a.x - b.x;
    let dy = a.y - b.y;
    assert(0 <= dx * dx && (dx * dx == 0 <==> dx == 0)) by (nonlinear_arith);
    assert(0 <= dy * dy && (dy * dy == 0 <==> dy == 0)) by (nonlinear_arith);
}

/// Scanning one boid further: the neighbours among the first `i + 1` boids are
/// those among the first `i`, and the boid at `i` where it is one.
pub proof fn lemma_neighbors_take(me: BoidView, all: Seq<BoidView>, i: int, radius: int)
    requires
        0 <= i < all.len(),
    ensures
        neighbors(me, all.take(i + 1), radius) == if me.is_neighbor(all[i], radius) {
            neighbors(me, all.take(i), radius).push(all[i])
        } else {
            neighbors(me, all.take(i), radius)
        },
{
    all.lemma_take_succ_push(i);
    all.take(i).lemma_filter_push(all[i], |b: BoidView| me.is_neighbor(b, radius));
}

/// A sum grows by the term of the boid that is appended.
pub proof fn lemma_total_push(s: Seq<BoidView>, b: BoidView, f: spec_fn(BoidView) -> int)
    ensures
        total(s.push(b), f) == total(s, f) + f(b),
{
    assert(s.push(b).drop_last() =~= s);
}

/// The mean of `n` numbers within `-limit ..= limit`, rounded toward zero, is
/// within the same bounds.
pub proof fn lemma_mean_bound(sum: int, n: int, limit: int)
    requires
        0 < n,
        -(n * limit) <= sum <= n * limit,
    ensures
        -limit <= quot(sum, n) <= limit,
{
    if sum >= 0 {
        assert(sum / n <= limit) by (nonlinear_arith)
            requires
                0 < n,
                0 <= sum <= n * limit,
        ;
        assert(0 <= sum / n) by (nonlinear_arith)
            requires
                0 < n,
                0 <= sum,
        ;
    } else {
        assert((-sum) / n <= limit) by (nonlinear_arith)
            requires
                0 < n,
                0 <= -sum <= n * limit,
        ;
        assert(0 <= (-sum) / n) by (nonlinear_arith)
            requires
                0 < n,
                0 <= -sum,
        ;
    }
}

/// A neighbour within `radius` is closer than `radius` along each axis.
pub proof fn lemma_neighbor_offsets(me: BoidView, b: BoidView, radius: int)
    requires
        me.is_neighbor(b, radius),
    ensures
        -radius < me.x - b.x < radius,
        -radius < me.y - b.y < radius,
{
    let dx = me.x - b.x;
    let dy = me.y - b.y;
    assert(-radius < dx < radius && -radius < dy < radius) by (nonlinear_arith)
        requires
            0 <= radius,
            dx * dx + dy * dy < radius * radius,
    ;
}

} // verus!
