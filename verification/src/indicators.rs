//! The colour of the robot's status light.

use vstd::prelude::*;
use crate::systems::StatusKind;

verus! {

/// A colour of the status light: red, green and blue levels.
#[derive(Debug, Clone, Copy, PartialEq, Eq, Default, Structural)]
pub struct Rgb {
    pub r: u8,
    pub g: u8,
    pub b: u8,
}

/// How much the status light is dimmed: every level is divided by this.
pub const DIMMING: u8 = 3;

/// The colour of a status that does not depend on the speed, on tick `tick`
/// of the light, before dimming: blinking blue (on for two ticks of three)
/// without a peer, blue while disarmed, green while ready. `None` while
/// moving, whose colour follows the speed.
pub open spec fn steady_color_spec(status: StatusKind, tick: usize) -> Option<Rgb> {
    match status {
        StatusKind::NoPeer => Some(Rgb { r: 0, g: 0, b: if tick % 3 == 0 { 0 } else { 255 } }),
        StatusKind::Disarmed => Some(Rgb { r: 0, g: 0, b: 255 }),
        StatusKind::Ready => Some(Rgb { r: 0, g: 255, b: 0 }),
        StatusKind::Moving => None,
    }
}

/// The colour of a status that does not depend on the speed, before dimming.
pub fn steady_color(status: StatusKind, tick: usize) -> (c: Option<Rgb>)
    ensures
        c == steady_color_spec(status, tick),
{
    match status {
        StatusKind::NoPeer => {
            let on: u8 = if tick % 3 == 0 { 0 } else { 1 };
            Some(Rgb { r: 0, g: 0, b: 255 * on })
        },
        StatusKind::Disarmed => Some(Rgb { r: 0, g: 0, b: 255 }),
        StatusKind::Ready => Some(Rgb { r: 0, g: 255, b: 0 }),
        StatusKind::Moving => None,
    }
}

/// Status light law: while a surface is connected and the motors are
/// disarmed, the light is a steady pure blue, the same blue that blinks while
/// no surface is connected; it never shows the colour of the ready (armed)
/// status, nor any colour that changes with the tick.
pub proof fn lemma_disarmed_is_steady_blue(t1: usize, t2: usize)
    ensures
        steady_color_spec(StatusKind::Disarmed, t1) == steady_color_spec(StatusKind::Disarmed, t2),
        steady_color_spec(StatusKind::Disarmed, t1) matches Some(c) && c.r == 0 && c.g == 0 && c.b == 255,
        t2 % 3 != 0 ==> steady_color_spec(StatusKind::Disarmed, t1) == steady_color_spec(StatusKind::NoPeer, t2),
        steady_color_spec(StatusKind::Disarmed, t1) != steady_color_spec(StatusKind::Ready, t2),
        steady_color_spec(StatusKind::Ready, t1) matches Some(c) && c.g > 0 && c.b == 0,
{
}

/// A colour dimmed for the light: every level divided by the dimming factor.
pub fn dim(c: Rgb) -> (d: Rgb)
    ensures
        d.r == c.r / DIMMING,
        d.g == c.g / DIMMING,
        d.b == c.b / DIMMING,
{
    Rgb { r: c.r / DIMMING, g: c.g / DIMMING, b: c.b / DIMMING }
}

} // verus!
