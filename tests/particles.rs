use music_visualizer::fixed::ONE;
use music_visualizer::geometry::{Point, Rgba};
use music_visualizer::angle::HALF_PI;
use music_visualizer::particle::{launch_toward, random_launches, spawn_count, Launch, Particle, ParticleSystem, MAX_SIZE, MIN_SIZE};

fn launch(i: u64) -> Launch {
    Launch {
        vel: Point { x: 100 * ONE as i64, y: -50 * ONE as i64 },
        size: i,
        color: Rgba { r: 1, g: 2, b: 3, a: 255 },
    }
}

fn origin() -> Point {
    Point { x: 400 * ONE as i64, y: 300 * ONE as i64 }
}

#[test]
fn particles_expire_after_their_lifetime() {
    let mut ps = ParticleSystem::new();
    let launches: Vec<Launch> = (0..5).map(launch).collect();
    ps.on_frame(true, 0, origin(), &launches, 100);
    assert_eq!(ps.particles.len(), 5);
    for _ in 0..3 {
        ps.on_frame(false, 3000, origin(), &Vec::new(), 100);
        assert_eq!(ps.particles.len(), 5);
    }
    // 0.9 s so far; the last step brings the total to 1.2 s
    ps.on_frame(false, 3000, origin(), &Vec::new(), 100);
    assert_eq!(ps.particles.len(), 0);
}

#[test]
fn exact_lifetime_steps_leave_nothing() {
    let mut ps = ParticleSystem::new();
    let launches: Vec<Launch> = (0..5).map(launch).collect();
    ps.on_frame(true, 2500, origin(), &launches, 100);
    for _ in 0..3 {
        ps.on_frame(false, 2500, origin(), &Vec::new(), 100);
    }
    assert!(ps.particles.is_empty());
}

#[test]
fn particle_moves_and_slows() {
    let mut p = Particle::new(origin(), 0, 100 * ONE, Rgba { r: 0, g: 0, b: 0, a: 255 });
    assert_eq!(p.life, ONE);
    assert_eq!(p.vel, Point { x: 100 * ONE as i64, y: 0 });
    assert!(MIN_SIZE <= p.size && p.size <= MAX_SIZE);
    p.update(1000);
    // 0.1 s at 100 px/s
    assert_eq!(p.pos, Point { x: 410 * ONE as i64, y: 300 * ONE as i64 });
    assert_eq!(p.vel, Point { x: 98 * ONE as i64, y: 0 });
    assert_eq!(p.life, 9000);
    assert!(p.is_alive());
    p.update(9000);
    assert_eq!(p.life, 0);
    assert!(!p.is_alive());
}

#[test]
fn spawn_count_is_a_tenth_and_at_least_one() {
    assert_eq!(spawn_count(50), 5);
    assert_eq!(spawn_count(5), 1);
    assert_eq!(spawn_count(0), 1);
    assert_eq!(spawn_count(123), 12);
}

#[test]
fn cap_drops_the_oldest() {
    let mut ps = ParticleSystem::new();
    let first: Vec<Launch> = (0..3).map(launch).collect();
    ps.on_frame(true, 100, origin(), &first, 4);
    let second: Vec<Launch> = (10..13).map(launch).collect();
    ps.on_frame(true, 100, origin(), &second, 4);
    let sizes: Vec<u64> = ps.particles.iter().map(|p| p.size).collect();
    assert_eq!(sizes, vec![2, 10, 11, 12]);
}

#[test]
fn no_beat_spawns_nothing() {
    let mut ps = ParticleSystem::new();
    let launches: Vec<Launch> = (0..5).map(launch).collect();
    ps.on_frame(false, 100, origin(), &launches, 10);
    assert!(ps.particles.is_empty());
}

#[test]
fn launch_direction_and_random_ranges() {
    let c = Rgba { r: 1, g: 2, b: 3, a: 255 };
    let l = launch_toward(HALF_PI, 50 * ONE, 4 * ONE, c);
    assert_eq!(l.vel, Point { x: 0, y: 50 * ONE as i64 });
    let ls = random_launches(200, c);
    assert_eq!(ls.len(), 200);
    for l in &ls {
        assert!(MIN_SIZE <= l.size && l.size <= MAX_SIZE);
        assert_eq!(l.color, c);
        let speed = ((l.vel.x as f64).powi(2) + (l.vel.y as f64).powi(2)).sqrt() / ONE as f64;
        // the fixed-point sine is within a fraction of a percent
        assert!(speed >= 29.0 && speed <= 111.0);
    }
}
