//! What holds of every flock and every tick, proved from the definitions.

use vstd::prelude::*;
use crate::boid::{
    alignment, cohesion, lemma_dist_sq_zero, lemma_total_push, neighbors, new_velocity, separation,
    total, BoidView, ALIGNMENT_RADIUS, COHESION_RADIUS, MAX_SPEED, SEPARATION_RADIUS,
};
use crate::fixed::{clamp, is_floor_sqrt, lemma_floor_sqrt_unique, quot, wrap};
use crate::flock::{lemma_moved_in_view, lemma_step_wf, FlockView};

verus! {

/// The distance between two boids is the same from either side.
pub proof fn lemma_distance_symmetric(a: BoidView, b: BoidView, d: int, e: int)
    requires
        is_floor_sqrt(a.dist_sq(b), d),
        is_floor_sqrt(b.dist_sq(a), e),
    ensures
        a.dist_sq(b) == b.dist_sq(a),
        d == e,
{
    lemma_neighbor_symmetric(a, b, 0);
    lemma_floor_sqrt_unique(a.dist_sq(b), d, e);
}

/// Being a neighbour within a radius is mutual.
pub proof fn lemma_neighbor_symmetric(a: BoidView, b: BoidView, radius: int)
    ensures
        a.dist_sq(b) == b.dist_sq(a),
        a.is_neighbor(b, radius) == b.is_neighbor(a, radius),
{
    let dx = a.x - b.x;
    let dy = a.y - b.y;
    assert(dx * dx == (-dx) * (-dx)) by (nonlinear_arith);
    assert(dy * dy == (-dy) * (-dy)) by (nonlinear_arith);
}

/// After a tick every boid lies on the canvas, its edges included, and no
/// velocity component exceeds `MAX_SPEED`.
pub proof fn lemma_step_bounds(f: FlockView, i: int)
    requires
        f.wf(),
        0 <= i < f.boids.len(),
    ensures
        f.step().boids.len() == f.boids.len(),
        0 <= f.step().boids[i].x <= f.span_x(),
        0 <= f.step().boids[i].y <= f.span_y(),
        -MAX_SPEED <= f.step().boids[i].vx <= MAX_SPEED,
        -MAX_SPEED <= f.step().boids[i].vy <= MAX_SPEED,
{
    lemma_moved_in_view(f, i);
}

/// After any number of ticks the flock has as many boids as before and every
/// one of them lies on the canvas, its edges included.
pub proof fn lemma_every_tick_in_view(f: FlockView, ticks: nat, i: int)
    requires
        f.wf(),
        0 <= i < f.boids.len(),
    ensures
        f.after(ticks).wf(),
        f.after(ticks).width == f.width,
        f.after(ticks).height == f.height,
        f.after(ticks).ticks_per_second == f.ticks_per_second,
        f.after(ticks).boids.len() == f.boids.len(),
        0 <= f.after(ticks).boids[i].x <= f.span_x(),
        0 <= f.after(ticks).boids[i].y <= f.span_y(),
    decreases ticks,
{
    if ticks > 0 {
        let before = f.after((ticks - 1) as nat);
        lemma_every_tick_in_view(f, (ticks - 1) as nat, i);
        lemma_step_bounds(before, i);
        lemma_step_wf(before);
    } else {
        assert(f.in_view(f.boids[i]));
    }
}

/// After one tick or more no velocity component exceeds `MAX_SPEED`.
pub proof fn lemma_every_tick_speed(f: FlockView, ticks: nat, i: int)
    requires
        f.wf(),
        0 <= i < f.boids.len(),
        ticks > 0,
    ensures
        -MAX_SPEED <= f.after(ticks).boids[i].vx <= MAX_SPEED,
        -MAX_SPEED <= f.after(ticks).boids[i].vy <= MAX_SPEED,
{
    lemma_every_tick_in_view(f, (ticks - 1) as nat, i);
    lemma_step_speed(f.after((ticks - 1) as nat), i);
}

/// After a tick a boid lies short of the far edges of the canvas, unless the
/// tick carried it exactly onto a far edge or exactly one canvas beyond it: a
/// coordinate that lands on the edge is in view and is left there.
pub proof fn lemma_step_inside(f: FlockView, i: int)
    requires
        f.wf(),
        0 <= i < f.boids.len(),
        f.drifted(i).0 != f.span_x() && f.drifted(i).0 != 2 * f.span_x(),
        f.drifted(i).1 != f.span_y() && f.drifted(i).1 != 2 * f.span_y(),
    ensures
        0 <= f.step().boids[i].x < f.span_x(),
        0 <= f.step().boids[i].y < f.span_y(),
{
    lemma_moved_in_view(f, i);
}

/// The boids that land on a far edge are exactly those that the tick carried
/// onto it or one canvas beyond it.
pub proof fn lemma_step_on_edge(f: FlockView, i: int)
    requires
        f.wf(),
        0 <= i < f.boids.len(),
    ensures
        f.step().boids[i].x == f.span_x() <==> (f.drifted(i).0 == f.span_x() || f.drifted(i).0 == 2
            * f.span_x()),
        f.step().boids[i].y == f.span_y() <==> (f.drifted(i).1 == f.span_y() || f.drifted(i).1 == 2
            * f.span_y()),
{
    lemma_moved_in_view(f, i);
}

/// After a tick no velocity component exceeds `MAX_SPEED`, whatever the flock
/// was before.
pub proof fn lemma_step_speed(f: FlockView, i: int)
    requires
        0 <= i < f.boids.len(),
    ensures
        -MAX_SPEED <= f.step().boids[i].vx <= MAX_SPEED,
        -MAX_SPEED <= f.step().boids[i].vy <= MAX_SPEED,
{
}

/// A boid that is no neighbour of `me` can be taken out of the flock without
/// changing the neighbours of `me`.
pub proof fn lemma_neighbors_remove(me: BoidView, boids: Seq<BoidView>, i: int, radius: int)
    requires
        0 <= i < boids.len(),
        !me.is_neighbor(boids[i], radius),
    ensures
        neighbors(me, boids.remove(i), radius) == neighbors(me, boids, radius),
{
    let pred = |b: BoidView| me.is_neighbor(b, radius);
    let head = boids.take(i);
    let tail = boids.skip(i + 1);
    assert(boids =~= head.push(boids[i]) + tail);
    assert(boids.remove(i) =~= head + tail);
    head.lemma_filter_push(boids[i], pred);
    Seq::filter_distributes_over_add(head.push(boids[i]), tail, pred);
    Seq::filter_distributes_over_add(head, tail, pred);
}

/// A boid at the place of `me` adds nothing to the alignment, cohesion and
/// separation vectors of `me`: they are the same with it as without it.
pub proof fn lemma_coincident_excluded(me: BoidView, boids: Seq<BoidView>, i: int)
    requires
        0 <= i < boids.len(),
        boids[i].x == me.x,
        boids[i].y == me.y,
    ensures
        alignment(me, boids) == alignment(me, boids.remove(i)),
        cohesion(me, boids) == cohesion(me, boids.remove(i)),
        separation(me, boids) == separation(me, boids.remove(i)),
{
    lemma_dist_sq_zero(me, boids[i]);
    lemma_neighbors_remove(me, boids, i, ALIGNMENT_RADIUS as int);
    lemma_neighbors_remove(me, boids, i, COHESION_RADIUS as int);
    lemma_neighbors_remove(me, boids, i, SEPARATION_RADIUS as int);
}

/// A boid adds nothing to its own alignment, cohesion and separation vectors.
pub proof fn lemma_self_excluded(boids: Seq<BoidView>, i: int)
    requires
        0 <= i < boids.len(),
    ensures
        alignment(boids[i], boids) == alignment(boids[i], boids.remove(i)),
        cohesion(boids[i], boids) == cohesion(boids[i], boids.remove(i)),
        separation(boids[i], boids) == separation(boids[i], boids.remove(i)),
{
    lemma_coincident_excluded(boids[i], boids, i);
}

/// A sum over two sequences joined is the sum of the two sums.
pub proof fn lemma_total_add(a: Seq<BoidView>, b: Seq<BoidView>, f: spec_fn(BoidView) -> int)
    ensures
        total(a + b, f) == total(a, f) + total(b, f),
    decreases b.len(),
{
    if b.len() == 0 {
        assert(a + b =~= a);
    } else {
        lemma_total_add(a, b.drop_last(), f);
        assert((a + b).drop_last() =~= a + b.drop_last());
    }
}

/// Each separation neighbour adds its own offset to the separation vector:
/// with the neighbour at `j` the vector of `me` is what it is without it, and
/// the offset from that neighbour to `me`. So a neighbour to the right pushes
/// to the left, and one to the left pushes to the right.
pub proof fn lemma_separation_share(me: BoidView, boids: Seq<BoidView>, j: int)
    requires
        0 <= j < boids.len(),
        me.is_neighbor(boids[j], SEPARATION_RADIUS as int),
    ensures
        separation(me, boids).0 == separation(me, boids.remove(j)).0 + (me.x - boids[j].x),
        separation(me, boids).1 == separation(me, boids.remove(j)).1 + (me.y - boids[j].y),
        me.x < boids[j].x ==> separation(me, boids).0 < separation(me, boids.remove(j)).0,
        me.x > boids[j].x ==> separation(me, boids).0 > separation(me, boids.remove(j)).0,
{
    let radius = SEPARATION_RADIUS as int;
    let pred = |b: BoidView| me.is_neighbor(b, radius);
    let head = boids.take(j);
    let tail = boids.skip(j + 1);
    assert(boids =~= head.push(boids[j]) + tail);
    assert(boids.remove(j) =~= head + tail);
    head.lemma_filter_push(boids[j], pred);
    Seq::filter_distributes_over_add(head.push(boids[j]), tail, pred);
    Seq::filter_distributes_over_add(head, tail, pred);
    let near_head = neighbors(me, head, radius);
    let near_tail = neighbors(me, tail, radius);
    assert(neighbors(me, boids, radius) == near_head.push(boids[j]) + near_tail);
    assert(neighbors(me, boids.remove(j), radius) == near_head + near_tail);
    let dx = |b: BoidView| me.x - b.x;
    let dy = |b: BoidView| me.y - b.y;
    lemma_total_add(near_head.push(boids[j]), near_tail, dx);
    lemma_total_add(near_head, near_tail, dx);
    lemma_total_push(near_head, boids[j], dx);
    lemma_total_add(near_head.push(boids[j]), near_tail, dy);
    lemma_total_add(near_head, near_tail, dy);
    lemma_total_push(near_head, boids[j], dy);
}

/// `me` has no neighbour among `boids` within any of the three radii.
pub open spec fn isolated(me: BoidView, boids: Seq<BoidView>) -> bool {
    forall|j: int|
        0 <= j < boids.len() ==> {
            &&& !me.is_neighbor(#[trigger] boids[j], ALIGNMENT_RADIUS as int)
            &&& !me.is_neighbor(boids[j], COHESION_RADIUS as int)
            &&& !me.is_neighbor(boids[j], SEPARATION_RADIUS as int)
        }
}

/// Where no boid is within `radius` of `me`, `me` has no neighbours.
pub proof fn lemma_no_neighbors(me: BoidView, boids: Seq<BoidView>, radius: int)
    requires
        forall|j: int| 0 <= j < boids.len() ==> !me.is_neighbor(#[trigger] boids[j], radius),
    ensures
        neighbors(me, boids, radius) == Seq::<BoidView>::empty(),
    decreases boids.len(),
{
    let pred = |b: BoidView| me.is_neighbor(b, radius);
    if boids.len() == 0 {
        reveal_with_fuel(Seq::filter, 1);
        assert(boids.filter(pred) =~= Seq::<BoidView>::empty());
    } else {
        let rest = boids.drop_last();
        lemma_no_neighbors(me, rest, radius);
        assert(boids =~= rest.push(boids.last()));
        rest.lemma_filter_push(boids.last(), pred);
    }
}

/// An isolated boid has alignment, cohesion and separation zero. A tick
/// leaves it its velocity, clipped to `MAX_SPEED`.
pub proof fn lemma_isolated_rules(me: BoidView, boids: Seq<BoidView>)
    requires
        isolated(me, boids),
    ensures
        alignment(me, boids) == (0int, 0int),
        cohesion(me, boids) == (0int, 0int),
        separation(me, boids) == (0int, 0int),
        new_velocity(me, boids) == (clamp(me.vx, MAX_SPEED as int), clamp(me.vy, MAX_SPEED as int)),
{
    lemma_no_neighbors(me, boids, ALIGNMENT_RADIUS as int);
    lemma_no_neighbors(me, boids, COHESION_RADIUS as int);
    lemma_no_neighbors(me, boids, SEPARATION_RADIUS as int);
}

/// A tick moves an isolated boid of a flock by its clipped velocity for one
/// tick's time, and then brings it back into view.
pub proof fn lemma_isolated_step(f: FlockView, i: int)
    requires
        0 <= i < f.boids.len(),
        isolated(f.boids[i], f.boids),
    ensures
        f.step().boids[i].vx == clamp(f.boids[i].vx, MAX_SPEED as int),
        f.step().boids[i].vy == clamp(f.boids[i].vy, MAX_SPEED as int),
        f.drifted(i).0 == f.boids[i].x + quot(
            clamp(f.boids[i].vx, MAX_SPEED as int),
            f.ticks_per_second,
        ),
        f.drifted(i).1 == f.boids[i].y + quot(
            clamp(f.boids[i].vy, MAX_SPEED as int),
            f.ticks_per_second,
        ),
        f.step().boids[i].x == wrap(f.drifted(i).0, f.span_x()),
        f.step().boids[i].y == wrap(f.drifted(i).1, f.span_y()),
{
    lemma_isolated_rules(f.boids[i], f.boids);
}

/// Flocks with the same canvas, the same tick rate and the same boids are the
/// same flock after a tick.
pub proof fn lemma_step_deterministic(a: FlockView, b: FlockView)
    requires
        a.width == b.width,
        a.height == b.height,
        a.ticks_per_second == b.ticks_per_second,
        a.boids.len() == b.boids.len(),
        forall|i: int| 0 <= i < a.boids.len() ==> a.boids[i] == b.boids[i],
    ensures
        a.step() == b.step(),
{
    assert(a.boids =~= b.boids);
}

/// Of two boids alone that are separation neighbours, the left one is pushed
/// to the left and the right one to the right, each by their offset in x.
pub proof fn lemma_separation_sign(a: BoidView, b: BoidView)
    requires
        a.is_neighbor(b, SEPARATION_RADIUS as int),
        a.x < b.x,
    ensures
        separation(a, seq![a, b]).0 == a.x - b.x,
        separation(a, seq![a, b]).0 < 0,
        separation(b, seq![a, b]).0 == b.x - a.x,
        separation(b, seq![a, b]).0 > 0,
{
    let radius = SEPARATION_RADIUS as int;
    let none = Seq::<BoidView>::empty();
    assert(seq![a, b] =~= none.push(a).push(b));
    lemma_no_neighbors(a, none, radius);
    lemma_no_neighbors(b, none, radius);
    lemma_dist_sq_zero(a, a);
    lemma_dist_sq_zero(b, b);
    lemma_neighbor_symmetric(a, b, radius);

    let near_a = |o: BoidView| a.is_neighbor(o, radius);
    none.lemma_filter_push(a, near_a);
    none.push(a).lemma_filter_push(b, near_a);
    assert(neighbors(a, seq![a, b], radius) == none.push(b));
    lemma_total_push(none, b, |o: BoidView| a.x - o.x);

    let near_b = |o: BoidView| b.is_neighbor(o, radius);
    none.lemma_filter_push(a, near_b);
    none.push(a).lemma_filter_push(b, near_b);
    assert(neighbors(b, seq![a, b], radius) == none.push(a));
    lemma_total_push(none, a, |o: BoidView| b.x - o.x);
}

} // verus!
