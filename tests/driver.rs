use music_visualizer::config::VisualizerConfig;
use music_visualizer::fixed::ONE;
use music_visualizer::frame::{advance_rotation, spawns_particles, time_parts, VisualizerMode, ROTATION_PERIOD};
use music_visualizer::geometry::{Point, Rect, Rgba};
use music_visualizer::graph::{LogEdge, LogNodeData};
use music_visualizer::panels::{draw_spectrum, draw_waveform};
use music_visualizer::particle::{Launch, ParticleSystem};
use music_visualizer::playlist::{PlaylistState, PlaylistTrack};

fn track(name: &str) -> PlaylistTrack {
    PlaylistTrack { name: name.to_string(), path: format!("/music/{}.wav", name), duration: 180 * ONE, file_type: "wav".to_string() }
}

fn playlist(n: usize) -> PlaylistState {
    let mut p = PlaylistState::new();
    for i in 0..n {
        p.tracks.push(track(&format!("t{}", i)));
    }
    p
}

#[test]
fn next_and_previous_in_order() {
    let mut p = playlist(3);
    assert_eq!(p.get_next_index(), Some(0));
    assert_eq!(p.get_prev_index(), Some(0));
    p.current_index = Some(1);
    assert_eq!(p.get_next_index(), Some(2));
    assert_eq!(p.get_prev_index(), Some(0));
    p.current_index = Some(2);
    assert_eq!(p.get_next_index(), None);
    p.current_index = Some(0);
    assert_eq!(p.get_prev_index(), None);
    assert!(PlaylistState::new().get_next_index().is_none());
}

#[test]
fn next_and_previous_through_the_shuffle() {
    let mut p = playlist(4);
    p.is_shuffled = true;
    p.shuffle_order = vec![2, 0, 3, 1];
    p.current_index = Some(0);
    assert_eq!(p.get_next_index(), Some(3));
    assert_eq!(p.get_prev_index(), Some(2));
    p.current_index = Some(1);
    assert_eq!(p.get_next_index(), None);
    p.current_index = Some(2);
    assert_eq!(p.get_prev_index(), None);
}

#[test]
fn shuffle_is_a_permutation() {
    let mut p = playlist(10);
    for _ in 0..20 {
        p.shuffle_playlist();
        let mut seen = p.shuffle_order.clone();
        seen.sort();
        assert_eq!(seen, (0..10).collect::<Vec<usize>>());
    }
    let mut empty = PlaylistState::new();
    empty.shuffle_order = vec![7];
    empty.shuffle_playlist();
    assert_eq!(empty.shuffle_order, vec![7]);
}

#[test]
fn current_track_and_progress() {
    let mut p = playlist(2);
    assert!(p.get_current_track().is_none());
    p.current_index = Some(1);
    assert_eq!(p.get_current_track().map(|t| t.name.clone()), Some("t1".to_string()));
    p.current_index = Some(5);
    assert!(p.get_current_track().is_none());
    assert_eq!(p.get_progress(), 0);
    p.duration = 200 * ONE;
    p.current_time = 50 * ONE;
    assert_eq!(p.get_progress(), 2500);
}

#[test]
fn minutes_and_seconds() {
    assert_eq!(time_parts(125 * ONE + 9999), (2, 5));
    assert_eq!(time_parts(0), (0, 0));
    assert_eq!(time_parts(3599 * ONE), (59, 59));
}

#[test]
fn rotation_advances_and_wraps() {
    let mut cfg = VisualizerConfig::default();
    // speed 1.0 rad/s for 0.5 s, plus the beat boost of 0.1 rad/s
    assert_eq!(advance_rotation(0, &cfg, false, 5000), 5000);
    assert_eq!(advance_rotation(0, &cfg, true, 5000), 5500);
    assert_eq!(advance_rotation(ROTATION_PERIOD - 1, &cfg, false, 1), 0);
    cfg.auto_rotate = false;
    assert_eq!(advance_rotation(1234, &cfg, true, 5000), 1234);
}

#[test]
fn particles_spawn_only_on_pulsing_beats_outside_the_ridgeline() {
    let mut cfg = VisualizerConfig::default();
    assert!(spawns_particles(true, &cfg, VisualizerMode::Fractal));
    assert!(!spawns_particles(false, &cfg, VisualizerMode::Fractal));
    assert!(!spawns_particles(true, &cfg, VisualizerMode::UnknownPleasures));
    cfg.pulse_on_beat = false;
    assert!(!spawns_particles(true, &cfg, VisualizerMode::Fractal));
}

#[test]
fn particle_dots_fade_with_life() {
    let mut ps = ParticleSystem::new();
    let l = Launch { vel: Point { x: 0, y: 0 }, size: 4 * ONE, color: Rgba { r: 9, g: 8, b: 7, a: 255 } };
    ps.on_frame(true, 5000, Point { x: ONE as i64, y: 2 * ONE as i64 }, &vec![l], 10);
    let dots = ps.draw_particles(Point { x: 10, y: -10 });
    assert_eq!(dots.len(), 1);
    assert_eq!(dots[0].center, Point { x: ONE as i64 + 10, y: 2 * ONE as i64 - 10 });
    assert_eq!(dots[0].radius, 2 * ONE);
    assert_eq!(dots[0].color, Rgba { r: 9, g: 8, b: 7, a: 127 });
}

#[test]
fn spectrum_bars() {
    let rect = Rect { min: Point { x: 0, y: 0 }, max: Point { x: 640 * ONE as i64, y: 100 * ONE as i64 } };
    let mut f = vec![0u64; 128];
    f[0] = 255 * ONE;
    f[2] = 51 * ONE;
    let bars = draw_spectrum(&f, rect);
    assert_eq!(bars.len(), 64);
    assert_eq!(bars[0].rect.min, Point { x: 0, y: 0 });
    assert_eq!(bars[0].rect.max, Point { x: 9 * ONE as i64, y: 100 * ONE as i64 });
    assert_eq!(bars[1].rect.min, Point { x: 10 * ONE as i64, y: 80 * ONE as i64 });
    assert_eq!(bars[2].rect.min.y, 100 * ONE as i64);
    assert!(draw_spectrum(&Vec::new(), rect).iter().all(|b| b.rect.min.y == 100 * ONE as i64));
}

#[test]
fn waveform_strokes() {
    let rect = Rect { min: Point { x: 0, y: 0 }, max: Point { x: 400 * ONE as i64, y: 100 * ONE as i64 } };
    let t = vec![0i64, ONE as i64, -(ONE as i64), 0];
    let segs = draw_waveform(&t, rect);
    assert_eq!(segs.len(), 3);
    assert_eq!(segs[0].start, Point { x: 0, y: 50 * ONE as i64 });
    assert_eq!(segs[0].end, Point { x: 100 * ONE as i64, y: 100 * ONE as i64 });
    assert_eq!(segs[1].end, Point { x: 200 * ONE as i64, y: 0 });
    assert_eq!(segs[2].width, 2 * ONE);
    assert!(draw_waveform(&vec![5], rect).is_empty());
}

#[test]
fn note_graph_payloads() {
    let n = LogNodeData::new("Index".to_string(), "[[Other]]".to_string());
    assert_eq!(n.label, "Index");
    assert_eq!(n.content, "[[Other]]");
    assert!(LogEdge::new(true).selected);
    assert_eq!(LogEdge::new(false), LogEdge { selected: false });
}

#[test]
fn removing_tracks_keeps_the_current_one() {
    let mut p = playlist(4);
    p.current_index = Some(2);
    assert!(!p.remove_track(0));
    assert_eq!(p.tracks.len(), 3);
    assert_eq!(p.current_index, Some(1));
    assert_eq!(p.tracks[1].name, "t2");
    assert!(!p.remove_track(9));
    assert_eq!(p.tracks.len(), 3);
    assert!(p.remove_track(1));
    assert_eq!(p.current_index, None);
    p.is_shuffled = true;
    p.shuffle_playlist();
    assert!(!p.remove_track(0));
    let mut order = p.shuffle_order.clone();
    order.sort();
    assert_eq!(order, vec![0]);
    p.clear_playlist();
    assert!(p.tracks.is_empty());
    assert!(p.shuffle_order.is_empty());
    assert_eq!(p.current_index, None);
}
