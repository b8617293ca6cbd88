//! Short-lived particles spawned on beats, aged each frame and culled when
//! their life runs out.
use vstd::prelude::*;
use crate::fixed::{ONE, scale_trunc, mul_div_trunc};
use crate::angle::{TWO_PI, spec_sin, spec_cos, sin_approx, cos_approx};
use crate::rng::random_u64;
use crate::geometry::{Point, Rgba, Dot};

verus! {

/// Largest per-frame time step, in seconds of `1 / ONE`: one minute.
pub const MAX_DT: u64 = 600_000;

/// Largest coordinate or velocity component a particle may take.
pub const COORD_LIMIT: i64 = 0x100_0000_0000;

/// Velocity kept per frame, 0.98.
pub const DRAG: u64 = 9800;

pub open spec fn clamp_coord(v: int) -> int {
    if v > COORD_LIMIT { COORD_LIMIT as int } else if v < -COORD_LIMIT { -COORD_LIMIT } else { v }
}

/// Life lost over a step of `dt`: `dt / max_life`, rounded up so that a
/// particle never outlives its lifetime.
pub open spec fn life_loss(dt: int, max_life: int) -> int {
    (dt * ONE + max_life - 1) / max_life
}

#[derive(Clone, Copy, Debug)]
pub struct Particle {
    pub pos: Point,
    /// Pixels per second.
    pub vel: Point,
    /// Remaining life, from `ONE` down to 0.
    pub life: u64,
    /// Lifetime in seconds.
    pub max_life: u64,
    pub size: u64,
    pub color: Rgba,
}

/// What the caller draws at random for one new particle.
#[derive(Clone, Copy, Debug)]
pub struct Launch {
    pub vel: Point,
    pub size: u64,
    pub color: Rgba,
}

pub open spec fn coord_ok(p: Point) -> bool {
    -COORD_LIMIT <= p.x <= COORD_LIMIT && -COORD_LIMIT <= p.y <= COORD_LIMIT
}

impl Particle {
    pub open spec fn wf(&self) -> bool {
        &&& coord_ok(self.pos)
        &&& coord_ok(self.vel)
        &&& self.max_life > 0
        &&& self.max_life <= MAX_DT
        &&& self.life <= ONE
    }

    pub open spec fn spec_stepped(self, dt: int) -> Particle {
        Particle {
            pos: Point {
                x: clamp_coord(self.pos.x + scale_trunc(self.vel.x as int, dt, ONE as int)) as i64,
                y: clamp_coord(self.pos.y + scale_trunc(self.vel.y as int, dt, ONE as int)) as i64,
            },
            vel: Point {
                x: scale_trunc(self.vel.x as int, DRAG as int, ONE as int) as i64,
                y: scale_trunc(self.vel.y as int, DRAG as int, ONE as int) as i64,
            },
            life: if self.life >= life_loss(dt, self.max_life as int) {
                (self.life - life_loss(dt, self.max_life as int)) as u64
            } else {
                0
            },
            ..self
        }
    }

    /// A particle at `center` moving at `speed` in direction `angle`, with
    /// full life, a one-second lifetime and a random size in [3, 8].
    pub fn new(center: Point, angle: u64, speed: u64, color: Rgba) -> (r: Particle)
        requires
            coord_ok(center),
            angle < TWO_PI,
            speed <= MAX_SPEED,
        ensures
            r.pos == center,
            r.vel == heading(angle as int, speed as int),
            r.life == ONE,
            r.max_life == ONE,
            MIN_SIZE <= r.size <= MAX_SIZE,
            r.color == color,
            r.wf(),
    {
        let vel = heading_exec(angle, speed);
        let size = MIN_SIZE + random_u64() % (MAX_SIZE - MIN_SIZE + 1);
        Particle { pos: center, vel, life: ONE, max_life: ONE, size, color }
    }

    /// Moves the particle by its velocity over `dt`, applies drag and ages it.
    pub fn update(&mut self, dt: u64)
        requires
            old(self).wf(),
            dt <= MAX_DT,
        ensures
            *final(self) == old(self).spec_stepped(dt as int),
            final(self).wf(),
    {
        let dx = scale_toward_zero(self.vel.x, dt, ONE);
        let dy = scale_toward_zero(self.vel.y, dt, ONE);
        self.pos = Point { x: clamp(self.pos.x + dx), y: clamp(self.pos.y + dy) };
        self.vel = Point {
            x: scale_toward_zero(self.vel.x, DRAG, ONE),
            y: scale_toward_zero(self.vel.y, DRAG, ONE),
        };
        let loss = (dt * ONE + self.max_life - 1) / self.max_life;
        self.life = if self.life >= loss { self.life - loss } else { 0 };
    }

    pub fn is_alive(&self) -> (r: bool)
        ensures
            r == (self.life > 0),
    {
        self.life > 0
    }
}

/// Slowest and fastest launch speed, 30 and 110 pixels per second.
pub const MIN_SPEED: u64 = 30 * ONE;

pub const MAX_SPEED: u64 = 110 * ONE;

/// Smallest and largest particle size, 3 and 8 pixels.
pub const MIN_SIZE: u64 = 3 * ONE;

pub const MAX_SIZE: u64 = 8 * ONE;

/// Velocity of `speed` in direction `angle`: `(cos, sin) * speed`.
pub open spec fn heading(angle: int, speed: int) -> Point {
    Point {
        x: scale_trunc(spec_cos(angle), speed, ONE as int) as i64,
        y: scale_trunc(spec_sin(angle), speed, ONE as int) as i64,
    }
}

fn heading_exec(angle: u64, speed: u64) -> (r: Point)
    requires
        angle < TWO_PI,
        speed <= MAX_SPEED,
    ensures
        r == heading(angle as int, speed as int),
        coord_ok(r),
{
    let c = cos_approx(angle as i64);
    let s = sin_approx(angle as i64);
    assert(-(speed as int) <= scale_trunc(c as int, speed as int, ONE as int) <= speed) by (nonlinear_arith)
        requires -(ONE as int) <= c <= ONE;
    assert(-(speed as int) <= scale_trunc(s as int, speed as int, ONE as int) <= speed) by (nonlinear_arith)
        requires -(ONE as int) <= s <= ONE;
    Point { x: mul_div_trunc(c, speed, ONE), y: mul_div_trunc(s, speed, ONE) }
}

/// A launch in direction `angle` at `speed`, of the given size and color.
pub fn launch_toward(angle: u64, speed: u64, size: u64, color: Rgba) -> (r: Launch)
    requires
        angle < TWO_PI,
        speed <= MAX_SPEED,
    ensures
        r.vel == heading(angle as int, speed as int),
        r.size == size,
        r.color == color,
        coord_ok(r.vel),
{
    Launch { vel: heading_exec(angle, speed), size, color }
}

/// What every random launch satisfies: some direction, a speed in
/// [30, 110], a size in [3, 8], and the given color.
pub open spec fn launch_ok(l: Launch, color: Rgba) -> bool {
    &&& exists|angle: int, speed: int|
        0 <= angle < TWO_PI && MIN_SPEED <= speed <= MAX_SPEED && l.vel == heading(angle, speed)
    &&& MIN_SIZE <= l.size <= MAX_SIZE
    &&& l.color == color
}

/// `count` launches with a uniformly drawn direction, speed and size.
pub fn random_launches(count: usize, color: Rgba) -> (r: Vec<Launch>)
    ensures
        r@.len() == count,
        forall|i: int| 0 <= i < count ==> launch_ok(#[trigger] r@[i], color),
        forall|i: int| 0 <= i < count ==> coord_ok(#[trigger] r@[i].vel),
{
    let mut out: Vec<Launch> = Vec::new();
    let mut i: usize = 0;
    while i < count
        invariant
            i <= count,
            out@.len() == i,
            forall|j: int| 0 <= j < i ==> launch_ok(#[trigger] out@[j], color),
            forall|j: int| 0 <= j < i ==> coord_ok(#[trigger] out@[j].vel),
        decreases count - i,
    {
        let angle = random_u64() % TWO_PI;
        let speed = MIN_SPEED + random_u64() % (MAX_SPEED - MIN_SPEED + 1);
        let size = MIN_SIZE + random_u64() % (MAX_SIZE - MIN_SIZE + 1);
        let l = launch_toward(angle, speed, size, color);
        assert(launch_ok(l, color)) by {
            assert(0 <= angle < TWO_PI && MIN_SPEED <= speed <= MAX_SPEED
                && l.vel == heading(angle as int, speed as int));
        }
        out.push(l);
        i = i + 1;
    }
    out
}

/// Particles spawned at `origin`, one per launch.
pub open spec fn spawned(origin: Point, launches: Seq<Launch>) -> Seq<Particle> {
    Seq::new(
        launches.len(),
        |i: int|
            Particle {
                pos: origin,
                vel: launches[i].vel,
                life: ONE,
                max_life: ONE,
                size: launches[i].size,
                color: launches[i].color,
            },
    )
}

/// Every particle stepped by `dt`, keeping those still alive, in order.
pub open spec fn survivors(ps: Seq<Particle>, dt: int) -> Seq<Particle>
    decreases ps.len(),
{
    if ps.len() == 0 {
        ps
    } else {
        let rest = survivors(ps.drop_last(), dt);
        let q = ps.last().spec_stepped(dt);
        if q.life > 0 { rest.push(q) } else { rest }
    }
}

/// The newest `cap` particles: the oldest excess is dropped.
pub open spec fn keep_newest(ps: Seq<Particle>, cap: int) -> Seq<Particle> {
    if ps.len() > cap { ps.subrange(ps.len() - cap, ps.len() as int) } else { ps }
}

/// Number of particles to spawn on a beat: a tenth of the configured count,
/// at least one.
pub open spec fn spec_spawn_count(particle_count: int) -> int {
    if particle_count / 10 >= 1 { particle_count / 10 } else { 1 }
}

pub fn spawn_count(particle_count: u32) -> (r: usize)
    ensures
        r == spec_spawn_count(particle_count as int),
{
    let n = particle_count / 10;
    if n >= 1 { n as usize } else { 1 }
}

/// The live particles, oldest first.
pub struct ParticleSystem {
    pub particles: Vec<Particle>,
}

impl ParticleSystem {
    pub open spec fn wf(&self) -> bool {
        forall|i: int| 0 <= i < self.particles@.len() ==> (#[trigger] self.particles@[i]).wf()
    }

    pub fn new() -> (r: ParticleSystem)
        ensures
            r.particles@.len() == 0,
            r.wf(),
    {
        ParticleSystem { particles: Vec::new() }
    }

    /// One frame: on a beat, one particle per launch is spawned at `origin`;
    /// then every particle is moved and aged by `dt`, the dead are removed,
    /// and of the rest only the newest `cap` are kept.
    pub fn on_frame(&mut self, beat: bool, dt: u64, origin: Point, launches: &Vec<Launch>, cap: usize)
        requires
            old(self).wf(),
            dt <= MAX_DT,
            coord_ok(origin),
            forall|i: int| 0 <= i < launches@.len() ==> coord_ok(#[trigger] launches@[i].vel),
        ensures
            final(self).wf(),
            final(self).particles@ == keep_newest(
                survivors(
                    if beat {
                        old(self).particles@ + spawned(origin, launches@)
                    } else {
                        old(self).particles@
                    },
                    dt as int,
                ),
                cap as int,
            ),
    {
        let ghost before = self.particles@;
        if beat {
            let mut i: usize = 0;
            while i < launches.len()
                invariant
                    i <= launches@.len(),
                    self.particles@ == before + spawned(origin, launches@).subrange(0, i as int),
                    forall|j: int| 0 <= j < self.particles@.len() ==> (#[trigger] self.particles@[j]).wf(),
                    dt <= MAX_DT,
                    coord_ok(origin),
                    forall|k: int| 0 <= k < launches@.len() ==> coord_ok(#[trigger] launches@[k].vel),
                decreases launches@.len() - i,
            {
                let l = launches[i];
                self.particles.push(
                    Particle { pos: origin, vel: l.vel, life: ONE, max_life: ONE, size: l.size, color: l.color },
                );
                i = i + 1;
                assert(self.particles@ =~= before + spawned(origin, launches@).subrange(0, i as int));
            }
            assert(spawned(origin, launches@).subrange(0, i as int) =~= spawned(origin, launches@));
        }
        let ghost all = self.particles@;
        let mut live: Vec<Particle> = Vec::new();
        let mut i: usize = 0;
        while i < self.particles.len()
            invariant
                self.particles@ == all,
                i <= all.len(),
                live@ == survivors(all.subrange(0, i as int), dt as int),
                forall|j: int| 0 <= j < all.len() ==> (#[trigger] all[j]).wf(),
                forall|j: int| 0 <= j < live@.len() ==> (#[trigger] live@[j]).wf(),
                dt <= MAX_DT,
            decreases all.len() - i,
        {
            let mut p = self.particles[i];
            p.update(dt);
            assert(all.subrange(0, i + 1).drop_last() =~= all.subrange(0, i as int));
            if p.is_alive() {
                live.push(p);
            }
            i = i + 1;
        }
        assert(all.subrange(0, all.len() as int) =~= all);
        let ghost kept = live@;
        if live.len() > cap {
            let start = live.len() - cap;
            let mut newest: Vec<Particle> = Vec::new();
            let mut j: usize = start;
            while j < live.len()
                invariant
                    live@ == kept,
                    start <= j <= kept.len(),
                    newest@ == kept.subrange(start as int, j as int),
                decreases kept.len() - j,
            {
                newest.push(live[j]);
                j = j + 1;
                assert(newest@ =~= kept.subrange(start as int, j as int));
            }
            self.particles = newest;
        } else {
            self.particles = live;
        }
    }
}

/// How a particle is drawn: shifted by `offset`, shrinking and fading with
/// its life.
pub open spec fn particle_dot(p: Particle, offset: Point) -> Dot {
    Dot {
        center: Point { x: (p.pos.x + offset.x) as i64, y: (p.pos.y + offset.y) as i64 },
        radius: (p.size * p.life / ONE as int) as u64,
        color: Rgba { r: p.color.r, g: p.color.g, b: p.color.b, a: (p.life * 255 / ONE as int) as u8 },
    }
}

impl ParticleSystem {
    /// One dot per live particle, oldest first.
    pub fn draw_particles(&self, offset: Point) -> (r: Vec<Dot>)
        requires
            self.wf(),
            coord_ok(offset),
        ensures
            r@.len() == self.particles@.len(),
            forall|i: int| 0 <= i < r@.len() ==> #[trigger] r@[i] == particle_dot(self.particles@[i], offset),
    {
        let mut out: Vec<Dot> = Vec::new();
        let mut i: usize = 0;
        while i < self.particles.len()
            invariant
                self.wf(),
                coord_ok(offset),
                i <= self.particles@.len(),
                out@.len() == i,
                forall|j: int| 0 <= j < i ==> #[trigger] out@[j] == particle_dot(self.particles@[j], offset),
            decreases self.particles@.len() - i,
        {
            let p = self.particles[i];
            assert(p.wf());
            assert((p.size as int) * (p.life as int) / (ONE as int) <= p.size) by (nonlinear_arith)
                requires p.life <= ONE;
            assert((p.size as int) * (p.life as int) <= 0xffff_ffff_ffff_ffff * ONE) by (nonlinear_arith)
                requires p.life <= ONE, p.size <= 0xffff_ffff_ffff_ffffu64;
            let radius = ((p.size as u128) * (p.life as u128) / (ONE as u128)) as u64;
            let alpha = (p.life * 255 / ONE) as u8;
            out.push(Dot {
                center: Point { x: p.pos.x + offset.x, y: p.pos.y + offset.y },
                radius,
                color: Rgba { r: p.color.r, g: p.color.g, b: p.color.b, a: alpha },
            });
            i = i + 1;
        }
        out
    }
}

/// Frames without a beat, one per step in `dts`.
pub open spec fn run_quiet(ps: Seq<Particle>, dts: Seq<u64>, cap: int) -> Seq<Particle>
    decreases dts.len(),
{
    if dts.len() == 0 {
        ps
    } else {
        run_quiet(keep_newest(survivors(ps, dts[0] as int), cap), dts.drop_first(), cap)
    }
}

pub open spec fn total_time(dts: Seq<u64>) -> int
    decreases dts.len(),
{
    if dts.len() == 0 { 0 } else { dts[0] + total_time(dts.drop_first()) }
}

/// Life left is bounded by the part of the lifetime not yet used up.
pub open spec fn within_lifetime(p: Particle, elapsed: int, bound: int) -> bool {
    &&& 0 < p.max_life <= bound
    &&& p.life * p.max_life + ONE * elapsed <= ONE * p.max_life
}

proof fn lemma_step_within(p: Particle, elapsed: int, dt: int, bound: int)
    requires
        within_lifetime(p, elapsed, bound),
        dt >= 0,
        p.spec_stepped(dt).life > 0,
    ensures
        within_lifetime(p.spec_stepped(dt), elapsed + dt, bound),
{
    let ml = p.max_life as int;
    let loss = life_loss(dt, ml);
    assert(loss * ml >= dt * ONE) by (nonlinear_arith)
        requires ml > 0, dt >= 0, loss == (dt * ONE + ml - 1) / ml;
    let l2 = p.life - loss;
    assert(l2 * ml + ONE * (elapsed + dt) <= ONE * ml) by (nonlinear_arith)
        requires
            loss * ml >= dt * ONE,
            p.life * ml + ONE * elapsed <= ONE * ml,
            l2 == p.life - loss,
    ;
}

proof fn lemma_survivors_within(ps: Seq<Particle>, elapsed: int, dt: int, bound: int)
    requires
        forall|i: int| 0 <= i < ps.len() ==> within_lifetime(#[trigger] ps[i], elapsed, bound),
        dt >= 0,
    ensures
        forall|i: int|
            0 <= i < survivors(ps, dt).len() ==> within_lifetime(
                #[trigger] survivors(ps, dt)[i],
                elapsed + dt,
                bound,
            ) && survivors(ps, dt)[i].life > 0,
    decreases ps.len(),
{
    if ps.len() > 0 {
        let init = ps.drop_last();
        assert forall|i: int| 0 <= i < init.len() implies within_lifetime(
            #[trigger] init[i],
            elapsed,
            bound,
        ) by {
            assert(init[i] == ps[i]);
        }
        lemma_survivors_within(init, elapsed, dt, bound);
        let rest = survivors(init, dt);
        let q = ps.last().spec_stepped(dt);
        assert(within_lifetime(ps[ps.len() - 1], elapsed, bound));
        if q.life > 0 {
            lemma_step_within(ps.last(), elapsed, dt, bound);
            let out = survivors(ps, dt);
            assert(out == rest.push(q));
            assert forall|i: int| 0 <= i < out.len() implies within_lifetime(
                #[trigger] out[i],
                elapsed + dt,
                bound,
            ) && out[i].life > 0 by {
                if i < rest.len() {
                    assert(out[i] == rest[i]);
                }
            }
        }
    }
}

proof fn lemma_run_within(ps: Seq<Particle>, dts: Seq<u64>, cap: int, elapsed: int, bound: int)
    requires
        forall|i: int| 0 <= i < ps.len() ==> within_lifetime(#[trigger] ps[i], elapsed, bound),
        dts.len() > 0 || forall|i: int| 0 <= i < ps.len() ==> (#[trigger] ps[i]).life > 0,
        cap >= 0,
    ensures
        forall|i: int|
            0 <= i < run_quiet(ps, dts, cap).len() ==> within_lifetime(
                #[trigger] run_quiet(ps, dts, cap)[i],
                elapsed + total_time(dts),
                bound,
            ) && run_quiet(ps, dts, cap)[i].life > 0,
    decreases dts.len(),
{
    if dts.len() > 0 {
        let dt = dts[0] as int;
        lemma_survivors_within(ps, elapsed, dt, bound);
        let sv = survivors(ps, dt);
        let next = keep_newest(sv, cap);
        assert forall|i: int| 0 <= i < next.len() implies within_lifetime(
            #[trigger] next[i],
            elapsed + dt,
            bound,
        ) && next[i].life > 0 by {
            if sv.len() > cap {
                assert(next[i] == sv[sv.len() - cap + i]);
            }
        }
        lemma_run_within(next, dts.drop_first(), cap, elapsed + dt, bound);
        assert(run_quiet(ps, dts, cap) == run_quiet(next, dts.drop_first(), cap));
        assert(total_time(dts) == dt + total_time(dts.drop_first()));
    } else {
        assert(run_quiet(ps, dts, cap) == ps);
        assert(total_time(dts) == 0);
    }
}

/// Particles with at most full life all expire once the frames' time steps
/// add up to their lifetimes: after quiet frames whose steps sum to at least
/// every particle's `max_life`, none is left.
pub proof fn lemma_particles_expire(ps: Seq<Particle>, dts: Seq<u64>, cap: int)
    requires
        forall|i: int|
            0 <= i < ps.len() ==> (#[trigger] ps[i]).life <= ONE && 0 < ps[i].max_life
                <= total_time(dts),
        cap >= 0,
    ensures
        run_quiet(ps, dts, cap).len() == 0,
{
    let total = total_time(dts);
    assert forall|i: int| 0 <= i < ps.len() implies within_lifetime(#[trigger] ps[i], 0, total) by {
        let p = ps[i];
        assert(p.life * p.max_life <= ONE * p.max_life) by (nonlinear_arith)
            requires p.life <= ONE, p.max_life > 0;
    }
    if dts.len() == 0 {
        if ps.len() > 0 {
            assert(ps[0].max_life <= total);
        }
        return;
    }
    lemma_run_within(ps, dts, cap, 0, total);
    let out = run_quiet(ps, dts, cap);
    if out.len() > 0 {
        let p = out[0];
        assert(within_lifetime(p, total, total));
        assert(p.life > 0);
        assert(false) by (nonlinear_arith)
            requires
                p.life * p.max_life + ONE * total_time(dts) <= ONE * p.max_life,
                p.life > 0,
                p.max_life > 0,
                total_time(dts) >= p.max_life,
        {
        }
    }
}

fn scale_toward_zero(v: i64, m: u64, d: u64) -> (r: i64)
    requires
        -COORD_LIMIT <= v <= COORD_LIMIT,
        m <= MAX_DT,
        d == ONE,
    ensures
        r == scale_trunc(v as int, m as int, d as int),
        -(COORD_LIMIT as int) * (MAX_DT as int) / (ONE as int) <= r
            <= (COORD_LIMIT as int) * (MAX_DT as int) / (ONE as int),
{
    let a: u64 = if v < 0 { (-v) as u64 } else { v as u64 };
    assert(a * m <= COORD_LIMIT * MAX_DT) by (nonlinear_arith)
        requires a <= COORD_LIMIT, m <= MAX_DT;
    let q = a * m / d;
    assert(q <= (COORD_LIMIT as int) * (MAX_DT as int) / (ONE as int)) by (nonlinear_arith)
        requires
            a * m <= COORD_LIMIT * MAX_DT,
            q as int == (a as int * m as int) / (d as int),
            d == ONE,
    ;
    if v < 0 { -(q as i64) } else { q as i64 }
}

fn clamp(v: i64) -> (r: i64)
    ensures
        r == clamp_coord(v as int),
{
    if v > COORD_LIMIT {
        COORD_LIMIT
    } else if v < -COORD_LIMIT {
        -COORD_LIMIT
    } else {
        v
    }
}

} // verus!
