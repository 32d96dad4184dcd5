//! Geometry of the Waveshare 7.5" V2 e-paper panel: the logical canvas size
//! for a rotation, and the rotation the panel buffer is set to.
//!
//! Driving the panel itself (SPI, GPIO) is the application's side.

use vstd::prelude::*;

use crate::config::{Config, Pins};

verus! {

/// `epd_waveshare::epd7in5_v2::WIDTH`, the panel's native width in pixels
/// (the crate defines it as 800).
#[verifier::external_body]
fn panel_width() -> (w: u32)
    ensures
        w == 800,
{
    epd_waveshare::epd7in5_v2::WIDTH
}

/// `epd_waveshare::epd7in5_v2::HEIGHT`, the panel's native height in pixels
/// (the crate defines it as 480).
#[verifier::external_body]
fn panel_height() -> (h: u32)
    ensures
        h == 480,
{
    epd_waveshare::epd7in5_v2::HEIGHT
}

/// Logical canvas dimensions for the configured rotation. The render layout
/// uses these so the panel's own rotation mapping lines up 1:1: a quarter
/// turn (90 or 270 degrees) swaps the native 800 × 480.
pub fn canvas_size(config: &Config) -> (r: (u32, u32))
    ensures
        r == if config.display.rotation == 90 || config.display.rotation == 270 {
            (480u32, 800u32)
        } else {
            (800u32, 480u32)
        },
{
    match config.display.rotation {
        90 | 270 => (panel_height(), panel_width()),
        _ => (panel_width(), panel_height()),
    }
}

/// The panel buffer's rotation.
#[derive(Debug, Clone, Copy, PartialEq, Eq, Structural)]
pub enum Rotation {
    Rotate0,
    Rotate90,
    Rotate180,
    Rotate270,
}

/// The panel rotation for a configured angle in degrees; any angle other than
/// 90, 180 or 270 leaves the panel unrotated.
pub fn rotation(degrees: u16) -> (r: Rotation)
    ensures
        r == if degrees == 90 {
            Rotation::Rotate90
        } else if degrees == 180 {
            Rotation::Rotate180
        } else if degrees == 270 {
            Rotation::Rotate270
        } else {
            Rotation::Rotate0
        },
{
    match degrees {
        90 => Rotation::Rotate90,
        180 => Rotation::Rotate180,
        270 => Rotation::Rotate270,
        _ => Rotation::Rotate0,
    }
}

/// Whether a canvas pixel is drawn black on the panel: foreground pixels are
/// black, unless `invert` swaps black and white for a panel that renders its
/// colours inverted.
pub fn panel_black(on: bool, invert: bool) -> (r: bool)
    ensures
        r == (on != invert),
{
    on != invert
}

/// The power-enable pin to drive high before the controller responds; 255
/// disables it.
pub fn power_pin(pins: &Pins) -> (r: Option<u8>)
    ensures
        r == if pins.power == 255 {
            None::<u8>
        } else {
            Some(pins.power)
        },
{
    if pins.power == 255 {
        None
    } else {
        Some(pins.power)
    }
}

} // verus!
