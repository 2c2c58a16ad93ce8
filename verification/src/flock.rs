//! The flock: a fixed population of boids on a canvas, advanced tick by tick.

use vstd::prelude::*;
use crate::boid::{is_spawn, new_velocity, views, Boid, BoidView, BOID_SIZE, MAX_SPEED};
use crate::fixed::{lemma_quot_bounds, lemma_units_bound, quot, units, wrap, SCALE};

verus! {

/// Why a flock cannot be made.
#[derive(Clone, Copy, Debug, PartialEq, Eq, Structural)]
pub enum ConfigError {
    /// The canvas has no width or no height.
    EmptyCanvas,
    /// The tick rate is zero.
    ZeroTickRate,
    /// A boid at full speed would cross more than the whole canvas in one
    /// tick, so that one shift could not bring it back.
    CanvasTooSmall,
    /// A boid lies outside the canvas.
    BoidOutOfView,
}

/// What a flock is: its canvas in pixels, its tick rate, and its boids in
/// their order.
pub struct FlockView {
    pub width: int,
    pub height: int,
    pub ticks_per_second: int,
    pub boids: Seq<BoidView>,
}

/// The farthest that a boid moves along one axis in one tick, at the given
/// tick rate.
pub open spec fn reach(ticks_per_second: int) -> int {
    (MAX_SPEED as int) / ticks_per_second
}

/// What is wrong with a canvas of `width` by `height` pixels that is updated
/// `ticks_per_second` times a second, if anything: the first of the faults in
/// the order of `ConfigError`.
pub open spec fn config_error(width: int, height: int, ticks_per_second: int) -> Option<ConfigError> {
    if width <= 0 || height <= 0 {
        Some(ConfigError::EmptyCanvas)
    } else if ticks_per_second <= 0 {
        Some(ConfigError::ZeroTickRate)
    } else if reach(ticks_per_second) > width * SCALE || reach(ticks_per_second) > height * SCALE {
        Some(ConfigError::CanvasTooSmall)
    } else {
        None
    }
}

impl FlockView {
    /// The width of the canvas in units.
    pub open spec fn span_x(self) -> int {
        self.width * SCALE
    }

    /// The height of the canvas in units.
    pub open spec fn span_y(self) -> int {
        self.height * SCALE
    }

    /// `b` lies on the canvas, its edges included.
    pub open spec fn in_view(self, b: BoidView) -> bool {
        0 <= b.x <= self.span_x() && 0 <= b.y <= self.span_y()
    }

    /// The canvas and the tick rate are valid and every boid lies on the
    /// canvas.
    pub open spec fn wf(self) -> bool {
        &&& config_error(self.width, self.height, self.ticks_per_second) is None
        &&& forall|i: int| 0 <= i < self.boids.len() ==> self.in_view(#[trigger] self.boids[i])
    }

    /// What keeps these values from being a flock, if anything: a fault of the
    /// canvas or the tick rate, else a boid off the canvas.
    pub open spec fn fault(self) -> Option<ConfigError> {
        let e = config_error(self.width, self.height, self.ticks_per_second);
        if e is Some {
            e
        } else if exists|i: int| 0 <= i < self.boids.len() && !self.in_view(#[trigger] self.boids[i]) {
            Some(ConfigError::BoidOutOfView)
        } else {
            None
        }
    }

    /// `b` may be a boid of this flock as `Flock::new` makes it: somewhere on
    /// the canvas short of its far edges, no velocity component negative or as
    /// large as `BOID_SIZE`.
    pub open spec fn newly_placed(self, b: BoidView) -> bool {
        &&& is_spawn(b, self.width, self.height)
        &&& 0 <= b.x < self.span_x()
        &&& 0 <= b.y < self.span_y()
        &&& 0 <= b.vx < BOID_SIZE
        &&& 0 <= b.vy < BOID_SIZE
    }

    /// Where boid `i` would be after a tick if the plane had no edges.
    pub open spec fn drifted(self, i: int) -> (int, int) {
        let me = self.boids[i];
        let v = new_velocity(me, self.boids);
        (me.x + quot(v.0, self.ticks_per_second), me.y + quot(v.1, self.ticks_per_second))
    }

    /// Boid `i` after a tick: its new velocity comes from the boids as they
    /// are before the tick, its position moves by that velocity for one
    /// tick's time and is then brought back into view.
    pub open spec fn moved(self, i: int) -> BoidView {
        let v = new_velocity(self.boids[i], self.boids);
        let p = self.drifted(i);
        BoidView { x: wrap(p.0, self.span_x()), y: wrap(p.1, self.span_y()), vx: v.0, vy: v.1 }
    }

    /// The flock after a tick.
    pub open spec fn step(self) -> FlockView {
        FlockView {
            width: self.width,
            height: self.height,
            ticks_per_second: self.ticks_per_second,
            boids: Seq::new(self.boids.len(), |i: int| self.moved(i)),
        }
    }

    /// The flock after the given number of ticks.
    pub open spec fn after(self, ticks: nat) -> FlockView
        decreases ticks,
    {
        if ticks == 0 {
            self
        } else {
            self.after((ticks - 1) as nat).step()
        }
    }
}

/// A fixed population of boids on a canvas.
#[derive(Debug)]
pub struct Flock {
    boids: Vec<Boid>,
    width: u32,
    height: u32,
    ups: u64,
}

impl View for Flock {
    type V = FlockView;

    closed spec fn view(&self) -> FlockView {
        FlockView {
            width: self.width as int,
            height: self.height as int,
            ticks_per_second: self.ups as int,
            boids: views(self.boids@),
        }
    }
}

impl Flock {
    #[verifier::type_invariant]
    spec fn inv(self) -> bool {
        self@.wf()
    }

    /// A flock of `count` boids, each at a random place on a canvas of `width`
    /// by `height` pixels, that is updated `ups` times a second. Fails where
    /// the canvas is empty, the tick rate is zero, or the canvas is narrower or
    /// lower than the way of a boid at full speed in one tick. A flock of no
    /// boids is valid.
    pub fn new(width: u32, height: u32, count: u32, ups: u64) -> (r: Result<Flock, ConfigError>)
        ensures
            r is Ok <==> config_error(width as int, height as int, ups as int) is None,
            match r {
                Ok(flock) => {
                    &&& flock@.width == width
                    &&& flock@.height == height
                    &&& flock@.ticks_per_second == ups
                    &&& flock@.boids.len() == count
                    &&& flock@.wf()
                    &&& forall|i: int|
                        0 <= i < count ==> flock@.newly_placed(#[trigger] flock@.boids[i])
                },
                Err(e) => config_error(width as int, height as int, ups as int) == Some(e),
            },
    {
        if let Some(e) = config_fault(width, height, ups) {
            return Err(e);
        }
        let ghost canvas = FlockView {
            width: width as int,
            height: height as int,
            ticks_per_second: ups as int,
            boids: Seq::empty(),
        };
        let mut boids: Vec<Boid> = Vec::new();

        for i in 0..count
            invariant
                boids.len() == i,
                width > 0,
                height > 0,
                canvas.width == width,
                canvas.height == height,
                forall|j: int| 0 <= j < i ==> canvas.newly_placed(#[trigger] views(boids@)[j]),
        {
            let boid = Boid::new(width, height);
            proof {
                assert(views(boids@.push(boid)) =~= views(boids@).push(boid@));
            }
            boids.push(boid);
        }
        Ok(Flock { boids, width, height, ups })
    }

    /// The flock of the given boids, in their order, on a canvas of `width` by
    /// `height` pixels that is updated `ups` times a second. Fails where
    /// `Flock::new` fails, and where a boid lies off the canvas.
    pub fn from_boids(
        width: u32,
        height: u32,
        ups: u64,
        boids: Vec<Boid>,
    ) -> (r: Result<Flock, ConfigError>)
        ensures
            r is Ok <==> (FlockView {
                width: width as int,
                height: height as int,
                ticks_per_second: ups as int,
                boids: views(boids@),
            }).fault() is None,
            match r {
                Ok(flock) => {
                    &&& flock@.width == width
                    &&& flock@.height == height
                    &&& flock@.ticks_per_second == ups
                    &&& flock@.boids == views(boids@)
                    &&& flock@.wf()
                },
                Err(e) => (FlockView {
                    width: width as int,
                    height: height as int,
                    ticks_per_second: ups as int,
                    boids: views(boids@),
                }).fault() == Some(e),
            },
    {
        if let Some(e) = config_fault(width, height, ups) {
            return Err(e);
        }
        let ghost canvas = FlockView {
            width: width as int,
            height: height as int,
            ticks_per_second: ups as int,
            boids: views(boids@),
        };
        let span_x = units(width);
        let span_y = units(height);
        for i in 0..boids.len()
            invariant
                config_error(canvas.width, canvas.height, canvas.ticks_per_second) is None,
                span_x == canvas.span_x(),
                span_y == canvas.span_y(),
                canvas == (FlockView {
                    width: width as int,
                    height: height as int,
                    ticks_per_second: ups as int,
                    boids: views(boids@),
                }),
                forall|j: int| 0 <= j < i ==> canvas.in_view(#[trigger] canvas.boids[j]),
        {
            let (x, y) = boids[i].position();
            if x < 0 || x > span_x || y < 0 || y > span_y {
                proof {
                    assert(!canvas.in_view(canvas.boids[i as int]));
                }
                return Err(ConfigError::BoidOutOfView);
            }
        }
        Ok(Flock { boids, width, height, ups })
    }

    /// The positions of the boids, in their order. Each lies on the canvas.
    pub fn snapshot(&self) -> (r: Vec<(i64, i64)>)
        ensures
            self@.wf(),
            r.len() == self@.boids.len(),
            forall|i: int|
                0 <= i < r.len() ==> (#[trigger] r[i]).0 == self@.boids[i].x && r[i].1
                    == self@.boids[i].y,
    {
        proof {
            use_type_invariant(self);
        }
        let mut positions: Vec<(i64, i64)> = Vec::with_capacity(self.boids.len());
        for i in 0..self.boids.len()
            invariant
                positions.len() == i,
                forall|j: int|
                    0 <= j < i ==> (#[trigger] positions[j]).0 == self@.boids[j].x && positions[j].1
                        == self@.boids[j].y,
        {
            positions.push(self.boids[i].position());
        }
        positions
    }

    /// Advances every boid by one tick. All of them steer by the flock as it
    /// was before the tick.
    pub fn step(&mut self)
        ensures
            final(self)@ == old(self)@.step(),
            final(self)@.wf(),
            final(self)@.boids.len() == old(self)@.boids.len(),
            forall|i: int|
                0 <= i < final(self)@.boids.len() ==> {
                    let b = #[trigger] final(self)@.boids[i];
                    &&& 0 <= b.x <= final(self)@.span_x()
                    &&& 0 <= b.y <= final(self)@.span_y()
                    &&& -MAX_SPEED <= b.vx <= MAX_SPEED
                    &&& -MAX_SPEED <= b.vy <= MAX_SPEED
                },
    {
        proof {
            use_type_invariant(&*self);
        }
        let n = self.boids.len();
        let mut next: Vec<Boid> = Vec::with_capacity(n);
        for i in 0..n
            invariant
                *self == *old(self),
                self@.wf(),
                n == self.boids.len(),
                next.len() == i,
                forall|j: int| 0 <= j < i ==> (#[trigger] next[j])@ == self@.moved(j),
        {
            let boid = &self.boids[i];
            let (vx, vy) = boid.flock(self.boids.as_slice());
            let (px, py) = boid.position();
            proof {
                lemma_units_bound(self.width);
                lemma_units_bound(self.height);
                assert(self@.in_view(self@.boids[i as int]));
                lemma_quot_bounds(vx as int, self.ups as int, MAX_SPEED as int);
                lemma_quot_bounds(vy as int, self.ups as int, MAX_SPEED as int);
                lemma_moved_in_view(self@, i as int);
            }
            let x = px + (vx as i128 / self.ups as i128) as i64;
            let y = py + (vy as i128 / self.ups as i128) as i64;

            let (x, y) = self.stay_in_view(x, y);

            next.push(Boid::at(x, y, vx, vy).unwrap());
        }
        proof {
            assert(views(next@) =~= old(self)@.step().boids);
            lemma_step_wf(old(self)@);
        }
        self.boids = next;
    }

    /// Brings a position that has left the canvas back by one canvas width or
    /// height.
    pub fn stay_in_view(&self, x: i64, y: i64) -> (p: (i64, i64))
        ensures
            p.0 == wrap(x as int, self@.span_x()),
            p.1 == wrap(y as int, self@.span_y()),
    {
        let width = units(self.width);
        let height = units(self.height);
        let mut x = x;
        let mut y = y;

        if x > width {
            x -= width;
        } else if x < 0 {
            x += width;
        }

        if y > height {
            y -= height;
        } else if y < 0 {
            y += height;
        }

        (x, y)
    }

    /// The width of the canvas in pixels.
    pub fn width(&self) -> (w: u32)
        ensures
            w == self@.width,
    {
        self.width
    }

    /// The height of the canvas in pixels.
    pub fn height(&self) -> (h: u32)
        ensures
            h == self@.height,
    {
        self.height
    }

    /// The number of ticks in a second.
    pub fn ticks_per_second(&self) -> (ups: u64)
        ensures
            ups == self@.ticks_per_second,
    {
        self.ups
    }

    /// The number of boids.
    pub fn len(&self) -> (n: usize)
        ensures
            n == self@.boids.len(),
    {
        self.boids.len()
    }

    /// The boid at `index` in the flock's order, if there is one.
    pub fn boid(&self, index: usize) -> (b: Option<Boid>)
        ensures
            b is Some <==> index < self@.boids.len(),
            b is Some ==> b->0@ == self@.boids[index as int],
    {
        if index < self.boids.len() {
            Some(self.boids[index])
        } else {
            None
        }
    }
}

/// The fault of a canvas of `width` by `height` pixels that is updated `ups`
/// times a second, if it has one.
fn config_fault(width: u32, height: u32, ups: u64) -> (r: Option<ConfigError>)
    ensures
        r == config_error(width as int, height as int, ups as int),
{
    if width == 0 || height == 0 {
        return Some(ConfigError::EmptyCanvas);
    }
    if ups == 0 {
        return Some(ConfigError::ZeroTickRate);
    }
    let reach: u64 = MAX_SPEED as u64 / ups;
    if reach > units(width) as u64 || reach > units(height) as u64 {
        return Some(ConfigError::CanvasTooSmall);
    }
    None
}

/// A tick leaves every boid on the canvas, its edges included.
pub proof fn lemma_moved_in_view(f: FlockView, i: int)
    requires
        f.wf(),
        0 <= i < f.boids.len(),
    ensures
        f.in_view(f.moved(i)),
        -MAX_SPEED <= f.moved(i).vx <= MAX_SPEED,
        -MAX_SPEED <= f.moved(i).vy <= MAX_SPEED,
{
    let me = f.boids[i];
    let v = new_velocity(me, f.boids);
    assert(f.in_view(me));
    lemma_quot_bounds(v.0, f.ticks_per_second, MAX_SPEED as int);
    lemma_quot_bounds(v.1, f.ticks_per_second, MAX_SPEED as int);
}

/// A tick leaves the flock well formed.
pub proof fn lemma_step_wf(f: FlockView)
    requires
        f.wf(),
    ensures
        f.step().wf(),
{
    assert forall|i: int| 0 <= i < f.step().boids.len() implies f.step().in_view(
        #[trigger] f.step().boids[i],
    ) by {
        lemma_moved_in_view(f, i);
    }
}

} // verus!
