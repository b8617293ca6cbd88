//! The configuration snapshot read by the renderers: one group of parameters
//! for the fractal tree and one for the ridgeline stack. Scalars are
//! fixed-point numbers in units of `1 / ONE`.
use vstd::prelude::*;
use crate::geometry::Rgba;
use crate::fixed::ONE;

verus! {

/// Bound on each multiplier, scale and base value of the configuration,
/// 1000.0.
pub const PARAM_LIMIT: u64 = 1000 * ONE;

pub struct VisualizerConfig {
    pub base_zoom: u64,
    pub base_width: u64,
    pub base_depth: u32,
    pub base_brightness: u64,
    pub zoom_bass_mult: u64,
    pub width_bass_mult: u64,
    pub depth_complexity_mult: u64,
    pub brightness_treble_mult: u64,
    pub rotation_beat_mult: u64,
    pub auto_rotate: bool,
    pub rotation_speed: u64,
    pub pulse_on_beat: bool,
    pub color_cycle: bool,
    pub color_cycle_speed: u64,
    pub base_color: Rgba,
    pub accent_color: Rgba,
    pub background_color: Rgba,
    pub glow_intensity: u64,
    pub particle_count: u32,
    pub up_line_thickness: u64,
    pub up_perspective: u64,
    pub up_vertical_scale: u64,
    pub up_line_length: u64,
    pub up_zoom: u64,
    pub up_isometric_rotate: bool,
    /// Rotation of the ridgeline stack in degrees.
    pub up_rotation_deg: i64,
    pub up_bass_mult: u64,
    pub up_mid_mult: u64,
    pub up_treble_mult: u64,
    pub up_max_lines: u32,
    pub up_samples: u32,
    pub up_freq_curve_exponent: u64,
    pub up_monochrome: bool,
    pub up_smoothing: u64,
}

pub open spec fn rgb(r: u8, g: u8, b: u8) -> Rgba {
    Rgba { r, g, b, a: 255 }
}

pub open spec fn fractal_defaults(c: VisualizerConfig) -> bool {
    &&& c.base_zoom == 1000
    &&& c.base_width == 10000
    &&& c.base_depth == 16
    &&& c.base_brightness == 8000
    &&& c.zoom_bass_mult == 1000
    &&& c.width_bass_mult == 3000
    &&& c.depth_complexity_mult == 40000
    &&& c.brightness_treble_mult == 4000
    &&& c.rotation_beat_mult == 1000
}

impl VisualizerConfig {
    /// The parameters of the default configuration other than the fractal
    /// group.
    pub open spec fn other_defaults(&self) -> bool {
        &&& self.auto_rotate
        &&& self.rotation_speed == 10000
        &&& self.pulse_on_beat
        &&& self.color_cycle
        &&& self.color_cycle_speed == 1000
        &&& self.base_color == rgb(100, 200, 255)
        &&& self.accent_color == rgb(255, 100, 200)
        &&& self.background_color == rgb(10, 10, 20)
        &&& self.glow_intensity == 5000
        &&& self.particle_count == 50
        &&& self.up_line_thickness == 15000
        &&& self.up_perspective == 6000
        &&& self.up_vertical_scale == 10000
        &&& self.up_line_length == 10000
        &&& self.up_zoom == 10000
        &&& !self.up_isometric_rotate
        &&& self.up_rotation_deg == 150000
        &&& self.up_bass_mult == 12000
        &&& self.up_mid_mult == 6000
        &&& self.up_treble_mult == 2000
        &&& self.up_max_lines == 80
        &&& self.up_samples == 120
        &&& self.up_freq_curve_exponent == 25000
        &&& self.up_monochrome
        &&& self.up_smoothing == 1500
    }

    /// Preset tuned to mimic a monochrome stack of spectra on a near-black
    /// background.
    pub fn preset_unknown_pleasures_image() -> (c: Self)
        ensures
            fractal_defaults(c),
            c.base_color == rgb(255, 255, 255),
            c.background_color == rgb(6, 6, 10),
            c.accent_color == rgb(200, 200, 200),
            c.up_monochrome,
            c.up_line_thickness == 20000,
            c.up_perspective == 7500,
            c.up_vertical_scale == 16000,
            c.up_line_length == 15000,
            c.up_zoom == 10500,
            c.up_rotation_deg == 120000,
            c.up_max_lines == 80,
            c.up_samples == 180,
            c.up_freq_curve_exponent == 32000,
            c.up_smoothing == 2200,
            !c.pulse_on_beat,
            !c.color_cycle,
            c.auto_rotate,
            c.rotation_speed == 10000,
            c.color_cycle_speed == 1000,
            c.glow_intensity == 5000,
            c.particle_count == 50,
            !c.up_isometric_rotate,
            c.up_bass_mult == 12000,
            c.up_mid_mult == 6000,
            c.up_treble_mult == 2000,
    {
        let mut c = Self::default();
        c.base_color = Rgba { r: 255, g: 255, b: 255, a: 255 };
        c.background_color = Rgba { r: 6, g: 6, b: 10, a: 255 };
        c.accent_color = Rgba { r: 200, g: 200, b: 200, a: 255 };
        c.up_monochrome = true;
        c.up_line_thickness = 20000;
        c.up_perspective = 7500;
        c.up_vertical_scale = 16000;
        c.up_line_length = 15000;
        c.up_zoom = 10500;
        c.up_rotation_deg = 120000;
        c.up_max_lines = 80;
        c.up_samples = 180;
        c.up_freq_curve_exponent = 32000;
        c.up_smoothing = 2200;
        c.pulse_on_beat = false;
        c.color_cycle = false;
        c
    }

    /// Resets the fractal parameters to their defaults, leaving the rest.
    pub fn reset_fractal_to_default(&mut self)
        ensures
            fractal_defaults(*final(self)),
            final(self).auto_rotate == old(self).auto_rotate,
            final(self).rotation_speed == old(self).rotation_speed,
            final(self).pulse_on_beat == old(self).pulse_on_beat,
            final(self).color_cycle == old(self).color_cycle,
            final(self).color_cycle_speed == old(self).color_cycle_speed,
            final(self).base_color == old(self).base_color,
            final(self).accent_color == old(self).accent_color,
            final(self).background_color == old(self).background_color,
            final(self).glow_intensity == old(self).glow_intensity,
            final(self).particle_count == old(self).particle_count,
            final(self).up_line_thickness == old(self).up_line_thickness,
            final(self).up_perspective == old(self).up_perspective,
            final(self).up_vertical_scale == old(self).up_vertical_scale,
            final(self).up_line_length == old(self).up_line_length,
            final(self).up_zoom == old(self).up_zoom,
            final(self).up_isometric_rotate == old(self).up_isometric_rotate,
            final(self).up_rotation_deg == old(self).up_rotation_deg,
            final(self).up_bass_mult == old(self).up_bass_mult,
            final(self).up_mid_mult == old(self).up_mid_mult,
            final(self).up_treble_mult == old(self).up_treble_mult,
            final(self).up_max_lines == old(self).up_max_lines,
            final(self).up_samples == old(self).up_samples,
            final(self).up_freq_curve_exponent == old(self).up_freq_curve_exponent,
            final(self).up_monochrome == old(self).up_monochrome,
            final(self).up_smoothing == old(self).up_smoothing,
    {
        let d = VisualizerConfig::default();
        self.base_zoom = d.base_zoom;
        self.base_width = d.base_width;
        self.base_depth = d.base_depth;
        self.base_brightness = d.base_brightness;
        self.zoom_bass_mult = d.zoom_bass_mult;
        self.width_bass_mult = d.width_bass_mult;
        self.depth_complexity_mult = d.depth_complexity_mult;
        self.brightness_treble_mult = d.brightness_treble_mult;
        self.rotation_beat_mult = d.rotation_beat_mult;
    }
}

impl Default for VisualizerConfig {
    fn default() -> (c: Self)
        ensures
            fractal_defaults(c),
            c.other_defaults(),
    {
        VisualizerConfig {
            base_zoom: 1000,
            base_width: 10000,
            base_depth: 16,
            base_brightness: 8000,
            zoom_bass_mult: 1000,
            width_bass_mult: 3000,
            depth_complexity_mult: 40000,
            brightness_treble_mult: 4000,
            rotation_beat_mult: 1000,
            auto_rotate: true,
            rotation_speed: 10000,
            pulse_on_beat: true,
            color_cycle: true,
            color_cycle_speed: 1000,
            base_color: Rgba { r: 100, g: 200, b: 255, a: 255 },
            accent_color: Rgba { r: 255, g: 100, b: 200, a: 255 },
            background_color: Rgba { r: 10, g: 10, b: 20, a: 255 },
            glow_intensity: 5000,
            particle_count: 50,
            up_line_thickness: 15000,
            up_perspective: 6000,
            up_vertical_scale: 10000,
            up_line_length: 10000,
            up_zoom: 10000,
            up_isometric_rotate: false,
            up_rotation_deg: 150000,
            up_bass_mult: 12000,
            up_mid_mult: 6000,
            up_treble_mult: 2000,
            up_max_lines: 80,
            up_samples: 120,
            up_freq_curve_exponent: 25000,
            up_monochrome: true,
            up_smoothing: 1500,
        }
    }
}

} // verus!
