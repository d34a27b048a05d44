use vstd::prelude::*;
use crate::library::SCALE_ONE;

verus! {

/// Bit pattern of the `f32` value `400.0`, the default width of the main surface.
pub const DEFAULT_WINDOW_WIDTH: u32 = 0x43c8_0000;

/// Bit pattern of the `f32` value `520.0`, the default height of the main surface.
pub const DEFAULT_WINDOW_HEIGHT: u32 = 0x4402_0000;

/// Global preferences. Float quantities are held as `f32` bit patterns.
#[derive(Debug, Clone)]
pub struct AppSettings {
    pub current_image_path: Option<String>,
    pub speed: i64,
    pub image_scale: u32,
    pub window_width: u32,
    pub window_height: u32,
}

impl Default for AppSettings {
    /// No image, native speed, scale one, a 400 by 520 main surface.
    fn default() -> (r: Self)
        ensures
            r.current_image_path is None,
            r.speed == 0,
            r.image_scale == SCALE_ONE,
            r.window_width == DEFAULT_WINDOW_WIDTH,
            r.window_height == DEFAULT_WINDOW_HEIGHT,
    {
        AppSettings {
            current_image_path: None,
            speed: 0,
            image_scale: SCALE_ONE,
            window_width: DEFAULT_WINDOW_WIDTH,
            window_height: DEFAULT_WINDOW_HEIGHT,
        }
    }
}

} // verus!
