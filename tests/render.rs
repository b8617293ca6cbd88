use music_visualizer::analysis::AudioAnalysis;
use music_visualizer::angle::{cos_approx, sin_approx, wrap_angle, HALF_PI, PI, TWO_PI};
use music_visualizer::color::{get_current_color, hsl_to_rgb};
use music_visualizer::config::VisualizerConfig;
use music_visualizer::fixed::{isqrt, smooth, ONE};
use music_visualizer::fractal::{background_color, draw_branch, draw_fractal, fractal_frame, glow, BranchStyle};
use music_visualizer::geometry::{Point, Rect, Rgba};
use music_visualizer::ridgeline::UnknownPleasuresVisualizer;

fn big_rect() -> Rect {
    Rect { min: Point { x: -1_000_000_000, y: -1_000_000_000 }, max: Point { x: 1_000_000_000, y: 1_000_000_000 } }
}

fn white() -> Rgba {
    Rgba { r: 255, g: 255, b: 255, a: 255 }
}

#[test]
fn sine_approximation_hits_the_quadrants() {
    assert_eq!(sin_approx(0), 0);
    assert_eq!(sin_approx(HALF_PI as i64), ONE as i64);
    assert_eq!(cos_approx(0), ONE as i64);
    assert_eq!(sin_approx(-(HALF_PI as i64)), -(ONE as i64));
    assert_eq!(wrap_angle(-1), TWO_PI - 1);
    assert_eq!(wrap_angle(TWO_PI as i64 + 5), 5);
    // sin(pi/6) = 0.5 within the approximation's error
    let s = sin_approx((PI / 6) as i64);
    assert!((s - 5000).abs() <= 20);
}

#[test]
fn integer_square_root() {
    assert_eq!(isqrt(0), 0);
    assert_eq!(isqrt(15), 3);
    assert_eq!(isqrt(16), 4);
    assert_eq!(isqrt(u64::MAX), 0xffff_ffff);
}

#[test]
fn smoothing_step() {
    assert_eq!(smooth(0, 10000, 1500), 1500);
    assert_eq!(smooth(10000, 0, 1500), 8500);
    assert_eq!(smooth(4000, 4000, 1500), 4000);
}

#[test]
fn tree_of_depth_sixteen_is_bounded() {
    let st = BranchStyle { base_depth: 16, brightness: ONE, color: white(), clip: big_rect(), angle_mod: 0, decay: 6500 };
    let mut out = Vec::new();
    draw_branch(&st, &mut out, Point { x: 0, y: 0 }, 100 * ONE, 0, 7854, 16);
    // 100 px shrinks by 0.65 per level and falls under 2 px after ten levels
    assert_eq!(out.len(), 1023);
    assert!(out.len() + 1 <= 1 << 17);
    assert_eq!(out[0].start, Point { x: 0, y: 0 });
    assert_eq!(out[0].end, Point { x: 100 * ONE as i64, y: 0 });
    assert_eq!(out[0].color.a, 255);
    assert_eq!(out[0].width, 16000);
}

#[test]
fn zero_depth_draws_nothing() {
    let st = BranchStyle { base_depth: 16, brightness: ONE, color: white(), clip: big_rect(), angle_mod: 0, decay: 6500 };
    let mut out = Vec::new();
    draw_branch(&st, &mut out, Point { x: 0, y: 0 }, 100 * ONE, 0, 7854, 0);
    assert!(out.is_empty());
    draw_branch(&st, &mut out, Point { x: 0, y: 0 }, ONE, 0, 7854, 16);
    assert!(out.is_empty());
}

#[test]
fn off_view_branch_is_skipped() {
    let clip = Rect { min: Point { x: 0, y: 0 }, max: Point { x: 10 * ONE as i64, y: 10 * ONE as i64 } };
    let st = BranchStyle { base_depth: 4, brightness: ONE, color: white(), clip, angle_mod: 0, decay: 6500 };
    let mut out = Vec::new();
    draw_branch(&st, &mut out, Point { x: 50 * ONE as i64, y: 50 * ONE as i64 }, 10 * ONE, 0, 7854, 4);
    assert!(out.is_empty());
    // a branch crossing the clip rectangle with both ends outside is kept
    draw_branch(&st, &mut out, Point { x: -(ONE as i64), y: 5 * ONE as i64 }, 20 * ONE, 0, 7854, 1);
    assert_eq!(out.len(), 1);
}

#[test]
fn deeper_branches_fade() {
    let st = BranchStyle { base_depth: 4, brightness: ONE, color: white(), clip: big_rect(), angle_mod: 0, decay: 5000 };
    let mut out = Vec::new();
    draw_branch(&st, &mut out, Point { x: 0, y: 0 }, 100 * ONE, 0, 7854, 4);
    assert_eq!(out[0].color, Rgba { r: 255, g: 255, b: 255, a: 255 });
    assert_eq!(out[1].color, Rgba { r: 191, g: 191, b: 191, a: 191 });
}

#[test]
fn fractal_frame_parameters() {
    let cfg = VisualizerConfig::default();
    let mut a = AudioAnalysis::new();
    a.smooth_bass = ONE;
    a.smooth_treble = 5000;
    a.spectral_centroid = 5000;
    let f = fractal_frame(&cfg, &a);
    assert_eq!(f.zoom, 1000 + 1000);
    assert_eq!(f.width, 10000 + 3000);
    assert_eq!(f.depth, 18);
    assert_eq!(f.brightness, 8000 + 2000);
}

#[test]
fn fractal_draws_from_the_center() {
    let cfg = VisualizerConfig::default();
    let a = AudioAnalysis::new();
    let rect = Rect { min: Point { x: 0, y: 0 }, max: Point { x: 8_000_000, y: 6_000_000 } };
    let segs = draw_fractal(&cfg, &a, rect, 0, white());
    assert!(!segs.is_empty());
    assert_eq!(segs[0].start, Point { x: 4_000_000, y: 3_000_000 });
    // root length 600 px * 0.35 * 0.1 = 21 px, pointing up
    assert_eq!(segs[0].end, Point { x: 4_000_000, y: 3_000_000 - 210_000 });
    let mut none = VisualizerConfig::default();
    none.base_depth = 0;
    assert!(draw_fractal(&none, &a, rect, 0, white()).is_empty());
}

fn full_spectrum() -> AudioAnalysis {
    let mut a = AudioAnalysis::new();
    a.update_from_fft(&vec![255u8; 256], &vec![128u8; 256]);
    a.smooth_bass = 0;
    a.smooth_mid = 0;
    a.smooth_treble = 0;
    a
}

fn edges(lines: usize, bins: usize) -> Vec<usize> {
    (0..=lines).map(|i| i * bins / lines).collect()
}

#[test]
fn ridgeline_smoothing_approaches_a_constant_input() {
    let a = full_spectrum();
    let mut cfg = VisualizerConfig::default();
    cfg.up_max_lines = 8;
    let mut v = UnknownPleasuresVisualizer::new();
    let rect = Rect { min: Point { x: 0, y: 0 }, max: Point { x: 8_000_000, y: 6_000_000 } };
    let e = edges(8, 256);
    let raw = ONE as f64;
    let k = 0.15;
    let mut prev = 0.0f64;
    for n in 1..=30 {
        let lines = v.layout(rect, &a, &cfg, &e);
        let amp = lines[3].amplitude as f64;
        assert!(amp >= prev && amp <= raw);
        let bound = raw * (1.0 - k as f64).powi(n) + n as f64;
        assert!(raw - amp <= bound);
        prev = amp;
    }
    assert!(raw - prev < 150.0);
}

#[test]
fn ridgeline_memory_grows_and_never_shrinks() {
    let a = full_spectrum();
    let mut cfg = VisualizerConfig::default();
    let mut v = UnknownPleasuresVisualizer::new();
    let rect = Rect { min: Point { x: 0, y: 0 }, max: Point { x: 8_000_000, y: 6_000_000 } };
    let lines = v.layout(rect, &a, &cfg, &edges(80, 256));
    assert_eq!(lines.len(), 80);
    assert_eq!(v.last_amplitudes.len(), 80);
    cfg.up_max_lines = 10;
    let lines = v.layout(rect, &a, &cfg, &edges(10, 256));
    assert_eq!(lines.len(), 10);
    assert_eq!(v.last_amplitudes.len(), 80);
    cfg.up_max_lines = 0;
    assert!(v.layout(rect, &a, &cfg, &vec![0]).is_empty());
}

#[test]
fn ridgeline_perspective_and_bins() {
    let a = full_spectrum();
    let mut cfg = VisualizerConfig::default();
    cfg.up_max_lines = 4;
    let mut v = UnknownPleasuresVisualizer::new();
    let rect = Rect { min: Point { x: 0, y: 0 }, max: Point { x: 8_000_000, y: 6_000_000 } };
    // equal edges still give one bin per line
    let lines = v.layout(rect, &a, &cfg, &vec![0, 0, 0, 300, 300]);
    assert_eq!((lines[0].bin_start, lines[0].bin_end), (0, 1));
    assert_eq!((lines[2].bin_start, lines[2].bin_end), (0, 256));
    assert_eq!((lines[3].bin_start, lines[3].bin_end), (255, 256));
    assert_eq!(lines[0].z, 0);
    assert_eq!(lines[2].z, 5000);
    // perspective 0.6: the line halfway back is scaled by 0.7
    assert_eq!(lines[2].scale, 7000);
    assert_eq!(lines[0].thickness, 15000);
    assert_eq!(lines[2].thickness, 10500);
    assert_eq!(lines[0].color.a, 200);
    assert_eq!(lines[2].color.a, 100);
    assert_eq!(lines[0].baseline, 6_000_000);
    assert_eq!(lines[0].amplitude, 1500);
}

#[test]
fn ridgeline_points_span_the_width() {
    let a = full_spectrum();
    let mut cfg = VisualizerConfig::default();
    cfg.up_max_lines = 2;
    cfg.up_samples = 3;
    let mut v = UnknownPleasuresVisualizer::new();
    let rect = Rect { min: Point { x: 0, y: 0 }, max: Point { x: 8_000_000, y: 6_000_000 } };
    let lines = v.draw(rect, &a, &cfg, 0, &edges(2, 256));
    assert_eq!(lines.len(), 2);
    assert_eq!(lines[0].points.len(), 3);
    assert_eq!(lines[0].points[0].x, 0);
    assert_eq!(lines[0].points[1].x, 4_000_000);
    assert_eq!(lines[0].points[2].x, 8_000_000);
    cfg.up_samples = 0;
    let lines = v.draw(rect, &a, &cfg, 0, &edges(2, 256));
    assert!(lines[0].points.is_empty());
}

#[test]
fn hsl_primaries() {
    assert_eq!(hsl_to_rgb(0, ONE, 5000), Rgba { r: 255, g: 0, b: 0, a: 255 });
    assert_eq!(hsl_to_rgb(3333, ONE, 5000), Rgba { r: 0, g: 255, b: 0, a: 255 });
    assert_eq!(hsl_to_rgb(6667, ONE, 5000), Rgba { r: 0, g: 0, b: 255, a: 255 });
    assert_eq!(hsl_to_rgb(0, 0, ONE), Rgba { r: 255, g: 255, b: 255, a: 255 });
}

#[test]
fn current_color_cycles_or_stays() {
    let mut cfg = VisualizerConfig::default();
    cfg.color_cycle = false;
    assert_eq!(get_current_color(&cfg, 12345), cfg.base_color);
    cfg.color_cycle = true;
    // hue 0 at time 0: saturation 0.8, lightness 0.6
    assert_eq!(get_current_color(&cfg, 0), hsl_to_rgb(0, 8000, 6000));
    assert_eq!(get_current_color(&cfg, 0), Rgba { r: 234, g: 71, b: 71, a: 255 });
}

#[test]
fn configuration_presets() {
    let d = VisualizerConfig::default();
    assert_eq!(d.base_depth, 16);
    assert_eq!(d.up_max_lines, 80);
    assert_eq!(d.particle_count, 50);
    let p = VisualizerConfig::preset_unknown_pleasures_image();
    assert_eq!(p.up_samples, 180);
    assert_eq!(p.up_smoothing, 2200);
    assert!(!p.color_cycle);
    let mut c = VisualizerConfig::preset_unknown_pleasures_image();
    c.base_zoom = 77;
    c.base_depth = 3;
    c.reset_fractal_to_default();
    assert_eq!(c.base_zoom, 1000);
    assert_eq!(c.base_depth, 16);
    assert_eq!(c.up_samples, 180);
}

#[test]
fn glow_and_flash() {
    let mut cfg = VisualizerConfig::default();
    let mut a = AudioAnalysis::new();
    a.smooth_volume = 4000;
    a.smooth_bass = ONE;
    let rect = Rect { min: Point { x: 0, y: 0 }, max: Point { x: 8_000_000, y: 6_000_000 } };
    let g = glow(&cfg, &a, rect, white()).unwrap();
    assert_eq!(g.center, Point { x: 4_000_000, y: 3_000_000 });
    // root length 600 * 0.35 * 0.2 = 42 px; glow radius 42 * 0.5 * 2
    assert_eq!(g.radius, 420_000);
    assert_eq!(g.color.a, 20);
    cfg.glow_intensity = 0;
    assert!(glow(&cfg, &a, rect, white()).is_none());
    assert_eq!(background_color(&cfg, 0), cfg.background_color);
    assert_eq!(background_color(&cfg, ONE), Rgba { r: 40, g: 25, b: 50, a: 255 });
}

#[test]
fn mid_wobble_turns_both_children_the_same_way() {
    let st = BranchStyle { base_depth: 2, brightness: ONE, color: white(), clip: big_rect(), angle_mod: 1000, decay: 5000 };
    let mut out = Vec::new();
    // root points along +x; children at -0.5 + 0.1 and +0.5 + 0.1 radians
    draw_branch(&st, &mut out, Point { x: 0, y: 0 }, 100 * ONE, 0, 5000, 2);
    assert_eq!(out.len(), 3);
    let left = out[1].end.y - out[1].start.y;
    let right = out[2].end.y - out[2].start.y;
    // sin(-0.4) and sin(0.6): the right child is turned further
    assert!(left < 0 && right > 0 && right > -left);
}
