//! Game profiles: telemetry parsing per game.

pub mod action_rpg;

use vstd::prelude::*;

use crate::state::{GameMetrics, PixelGrid, RgbView};

verus! {

/// Pixel dimensions of the frame passed to [`GameProfile::parse_telemetry`].
#[derive(Debug, Clone, Copy, PartialEq, Eq, Structural)]
pub struct Resolution {
    pub width: u32,
    pub height: u32,
}

impl Resolution {
    pub fn new(width: u32, height: u32) -> (r: Self)
        ensures
            r.width == width,
            r.height == height,
    {
        Resolution { width, height }
    }
}

/// A game whose telemetry can be read off its screen.
pub trait GameProfile: Send + Sync {
    /// Whether `metrics` is what the profile reads off a frame laid out for `resolution`.
    spec fn reads(&self, pixels: PixelGrid, resolution: Resolution, metrics: GameMetrics) -> bool;

    /// Identifier of the profile.
    fn id(&self) -> (r: &'static str);

    /// Reads live telemetry out of `pixels`, which is laid out for `resolution`.
    fn parse_telemetry(&self, pixels: &RgbView, resolution: Resolution) -> (r: GameMetrics)
        ensures
            self.reads(pixels@, resolution, r),
    ;
}

} // verus!
