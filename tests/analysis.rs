use music_visualizer::analysis::AudioAnalysis;
use music_visualizer::demo::demo_signal;
use music_visualizer::fixed::ONE;

fn same_scalars(a: &AudioAnalysis, b: &AudioAnalysis) -> bool {
    a.bass == b.bass
        && a.low_mid == b.low_mid
        && a.mid == b.mid
        && a.high_mid == b.high_mid
        && a.treble == b.treble
        && a.volume == b.volume
        && a.peak == b.peak
        && a.beat == b.beat
        && a.beat_intensity == b.beat_intensity
        && a.spectral_centroid == b.spectral_centroid
        && a.spectral_flux == b.spectral_flux
        && a.smooth_bass == b.smooth_bass
        && a.smooth_mid == b.smooth_mid
        && a.smooth_treble == b.smooth_treble
        && a.smooth_volume == b.smooth_volume
        && a.frequency_data == b.frequency_data
        && a.time_data == b.time_data
}

#[test]
fn simulate_demo_updates_fields() {
    let mut a = AudioAnalysis::new();
    a.simulate_demo(1000);
    assert!(a.bass <= ONE);
    assert!(a.volume <= ONE * 3 / 2);
    assert!(a.frequency_data.len() > 0);
    assert!(a.time_data.len() > 0);
}

#[test]
fn demo_beat_follows_envelope() {
    let mut a = AudioAnalysis::new();
    let mut s = demo_signal(0);
    s.beat_envelope = 9000;
    a.apply_demo_signal(&s);
    assert!(a.beat);
    assert_eq!(a.beat_intensity, 9000);
    assert_eq!(a.bass, 3000 + 4500);
    assert_eq!(a.volume, 4000 + 2700);
    assert_eq!(a.peak, 6700 * 12 / 10);
    assert_eq!(a.spectral_flux, 4500);
    // smoothing at 0.1 from zero
    assert_eq!(a.smooth_bass, 750);
    s.beat_envelope = 8000;
    a.apply_demo_signal(&s);
    assert!(!a.beat);
    assert_eq!(a.beat_intensity, 0);
}

#[test]
fn empty_window_keeps_every_field() {
    let mut a = AudioAnalysis::new();
    a.update_from_cpal(&[5000, -2000, 7000, 100, 0, 3000, -4000, 2500]);
    let before = AudioAnalysis {
        frequency_data: a.frequency_data.clone(),
        time_data: a.time_data.clone(),
        ..a
    };
    a.update_from_cpal(&[]);
    assert!(same_scalars(&a, &before));
}

#[test]
fn empty_spectrum_keeps_every_field() {
    let mut a = AudioAnalysis::new();
    a.update_from_fft(&[10, 200, 30, 40], &[0, 255, 128, 100]);
    let before = AudioAnalysis {
        frequency_data: a.frequency_data.clone(),
        time_data: a.time_data.clone(),
        ..a
    };
    a.update_from_fft(&[], &[]);
    assert!(same_scalars(&a, &before));
    assert_eq!(a.frequency_data.len(), 4);
    assert_eq!(a.time_data.len(), 4);
}

#[test]
fn alternating_full_scale_has_unit_volume() {
    let buf: Vec<i32> = (0..512).map(|i| if i % 2 == 0 { -(ONE as i32) } else { ONE as i32 }).collect();
    let mut a = AudioAnalysis::new();
    a.update_from_cpal(&buf);
    assert_eq!(a.volume, ONE);
    assert_eq!(a.peak, ONE);
    assert_eq!(a.bass, ONE);
    assert_eq!(a.treble, ONE);
}

#[test]
fn bass_step_fires_beat() {
    let buf = vec![5000i32; 512];
    let mut a = AudioAnalysis::new();
    assert_eq!(a.smooth_bass, 0);
    a.update_from_cpal(&buf);
    assert_eq!(a.bass, 5000);
    assert!(a.beat);
    assert_eq!(a.beat_intensity, 5000);
    // smoothed bass moves by 0.15 of the step
    assert_eq!(a.smooth_bass, 750);
}

#[test]
fn small_bass_rise_does_not_fire() {
    let mut a = AudioAnalysis::new();
    a.update_from_cpal(&vec![2500i32; 64]);
    assert!(!a.beat);
    assert_eq!(a.beat_intensity, 0);
    // raised over the smoothed value but below the floor of 0.3
    assert_eq!(a.bass, 2500);
}

#[test]
fn maximum_amplitude_stays_in_unit_range() {
    let mut a = AudioAnalysis::new();
    for _ in 0..50 {
        a.update_from_cpal(&vec![ONE as i32; 256]);
        for v in [a.bass, a.low_mid, a.mid, a.high_mid, a.treble, a.volume, a.peak] {
            assert!(v <= ONE);
        }
        for v in [a.smooth_bass, a.smooth_mid, a.smooth_treble, a.smooth_volume] {
            assert!(v <= ONE);
        }
    }
    let mut b = AudioAnalysis::new();
    for _ in 0..50 {
        b.update_from_fft(&vec![255u8; 256], &vec![0u8; 256]);
        assert_eq!(b.bass, ONE);
        assert_eq!(b.treble, ONE);
        assert_eq!(b.volume, ONE);
        assert_eq!(b.peak, ONE);
        assert!(b.smooth_bass <= ONE && b.smooth_volume <= ONE);
    }
}

#[test]
fn raw_bands_split_the_window_in_eighths() {
    // eight samples: one per eighth
    let buf = [1000, -2000, 3000, 5000, -4000, 6000, 7000, -9000];
    let mut a = AudioAnalysis::new();
    a.update_from_cpal(&buf);
    assert_eq!(a.bass, 1000);
    assert_eq!(a.low_mid, 2000);
    assert_eq!(a.mid, 4000);
    assert_eq!(a.high_mid, 5000);
    assert_eq!(a.treble, 8000);
    assert_eq!(a.peak, 9000);
}

#[test]
fn raw_flux_sums_rises_only() {
    let mut a = AudioAnalysis::new();
    a.update_from_cpal(&[ONE as i32, 0, 0, 0]);
    // first bin rises from 0 to 255 on the 0..=255 scale
    assert_eq!(a.spectral_flux, 255 * ONE);
    a.update_from_cpal(&[0, 0, 0, 0]);
    assert_eq!(a.spectral_flux, 0);
    a.update_from_cpal(&[0, 2000, 0, 0]);
    assert_eq!(a.spectral_flux, 2000 * 255);
}

#[test]
fn byte_bands_follow_the_spectrum_split() {
    // 16 bins: bass 0..1, low-mid 1..2, mid 2..4, high-mid 4..8, treble 8..16
    let mut freq = vec![0u8; 16];
    freq[0] = 255;
    freq[1] = 51;
    freq[2] = 255;
    for i in 8..16 {
        freq[i] = 102;
    }
    let mut a = AudioAnalysis::new();
    a.update_from_fft(&freq, &[128, 128]);
    assert_eq!(a.bass, ONE);
    assert_eq!(a.low_mid, 2000);
    assert_eq!(a.mid, 5000);
    assert_eq!(a.high_mid, 0);
    assert_eq!(a.treble, 4000);
    assert_eq!(a.volume, 0);
    assert_eq!(a.peak, 0);
}

#[test]
fn byte_beat_needs_the_higher_floor() {
    let mut freq = vec![0u8; 16];
    freq[0] = 128; // bass about 0.5: below 0.6
    let mut a = AudioAnalysis::new();
    a.update_from_fft(&freq, &[128; 4]);
    assert!(!a.beat);
    freq[0] = 204; // bass 0.8
    let mut b = AudioAnalysis::new();
    b.update_from_fft(&freq, &[128; 4]);
    assert!(b.beat);
    assert_eq!(b.beat_intensity, 8000);
}

#[test]
fn byte_flux_is_measured_against_the_previous_frame() {
    let mut a = AudioAnalysis::new();
    a.update_from_fft(&vec![255u8; 256], &vec![128u8; 256]);
    assert_eq!(a.spectral_flux, ONE);
    a.update_from_fft(&vec![255u8; 256], &vec![128u8; 256]);
    assert_eq!(a.spectral_flux, 0);
    a.update_from_fft(&vec![0u8; 256], &vec![128u8; 256]);
    assert_eq!(a.spectral_flux, 0);
}

#[test]
fn centroid_holds_on_silence() {
    let mut a = AudioAnalysis::new();
    a.update_from_fft(&[0, 255], &[128]);
    assert_eq!(a.spectral_centroid, 5000);
    a.update_from_fft(&[0, 0], &[128]);
    assert_eq!(a.spectral_centroid, 5000);
}

#[test]
fn byte_time_data_is_centered() {
    let mut a = AudioAnalysis::new();
    a.update_from_fft(&[1], &[0, 128, 255]);
    assert_eq!(a.time_data, vec![-(ONE as i64), 0, 9921]);
    assert_eq!(a.frequency_data, vec![ONE]);
}

#[test]
fn byte_rms_of_a_square_wave() {
    let mut a = AudioAnalysis::new();
    a.update_from_fft(&[1], &[64, 192, 64, 192]);
    // |x - 128| = 64 everywhere: RMS 0.5
    assert_eq!(a.volume, 5000);
    assert_eq!(a.peak, 5000);
}

#[test]
fn update_from_fft_handles_empty() {
    let mut a = AudioAnalysis::new();
    // Should not panic on empty slices; an empty frame changes nothing
    a.update_from_fft(&[], &[]);
    assert_eq!(a.frequency_data.len(), 256);
    assert_eq!(a.time_data.len(), 256);
}

#[test]
fn empty_time_array_keeps_every_field() {
    let mut a = AudioAnalysis::new();
    a.update_from_fft(&[10, 200, 30, 40], &[0, 255, 128, 100]);
    let before = AudioAnalysis {
        frequency_data: a.frequency_data.clone(),
        time_data: a.time_data.clone(),
        ..a
    };
    a.update_from_fft(&[255; 16], &[]);
    assert!(same_scalars(&a, &before));
}

#[test]
fn byte_flux_compares_only_common_bins() {
    let mut a = AudioAnalysis::new();
    a.update_from_fft(&[0], &[128]);
    // one old bin; the second new bin has nothing to rise from
    a.update_from_fft(&[0, 255], &[128]);
    assert_eq!(a.spectral_flux, 0);
    a.update_from_fft(&[255, 255], &[128]);
    assert_eq!(a.spectral_flux, 5000);
}

#[test]
fn demo_signal_follows_the_beat() {
    // at time 0 the beat sine is 0: envelope (1/2)^4
    let s = demo_signal(0);
    assert_eq!(s.beat_envelope, 625);
    assert_eq!(s.low_mid_wave, ONE);
    // a quarter of a beat period later the sine peaks: full envelope
    let s = demo_signal(1250);
    assert_eq!(s.beat_envelope, ONE);
}

#[test]
fn demo_fills_the_display_arrays() {
    let mut a = AudioAnalysis::new();
    a.simulate_demo(0);
    assert_eq!(a.frequency_data.len(), 256);
    assert_eq!(a.time_data.len(), 256);
    // bass 0.3 + 0.0625 * 0.5: first bin is 0.33 * 200
    assert_eq!(a.bass, 3312);
    assert_eq!(a.frequency_data[0], 66 * ONE);
    assert_eq!(a.time_data[0], 0);
    assert!(a.time_data.iter().any(|&v| v > 0));
    assert!(a.frequency_data.iter().all(|&v| v <= 255 * ONE));
}
