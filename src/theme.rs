use vstd::prelude::*;

use crate::color::{Color, MAX_CHROMA, MAX_LIGHTNESS, MIN_CHROMA, MIN_LIGHTNESS};
use crate::math::{normalize, UNIT};

verus! {

/// Chroma at or below which a colour is not vivid at all.
pub const VIVID_MIN_CHROMA: u64 = 6000;

/// Chroma above which a colour is not muted at all.
pub const MUTED_MAX_CHROMA: u64 = 8000;

/// The theme of a colour.
#[derive(Clone, Copy, Debug, PartialEq, Eq, Structural)]
pub enum Theme {
    Basic,
    Vivid,
    Muted,
    Light,
    Dark,
}

pub open spec fn ratio(v: int, min: int, max: int) -> int {
    (v - min) * UNIT / (max - min)
}

/// The score of a colour under a theme, `UNIT` being a perfect fit.
pub open spec fn theme_score(theme: Theme, c: Color) -> int {
    match theme {
        Theme::Basic => UNIT as int,
        Theme::Vivid => if c.spec_chroma() <= VIVID_MIN_CHROMA {
            0
        } else {
            ratio(c.spec_chroma() as int, MIN_CHROMA as int, MAX_CHROMA as int)
        },
        Theme::Muted => if c.spec_chroma() <= MUTED_MAX_CHROMA {
            UNIT - ratio(c.spec_chroma() as int, MIN_CHROMA as int, MAX_CHROMA as int)
        } else {
            0
        },
        Theme::Light => if c.spec_is_light() {
            ratio(c.l as int, MIN_LIGHTNESS as int, MAX_LIGHTNESS as int)
        } else {
            0
        },
        Theme::Dark => if !c.spec_is_light() {
            UNIT - ratio(c.l as int, MIN_LIGHTNESS as int, MAX_LIGHTNESS as int)
        } else {
            0
        },
    }
}

impl Theme {
    /// Scores the colour under this theme.
    pub fn score(&self, color: &Color) -> (r: u64)
        ensures
            r == theme_score(*self, *color),
    {
        match self {
            Theme::Basic => score_basic(color),
            Theme::Vivid => score_vivid(color),
            Theme::Muted => score_muted(color),
            Theme::Light => score_light(color),
            Theme::Dark => score_dark(color),
        }
    }
}

pub fn score_basic(_color: &Color) -> (r: u64)
    ensures
        r == theme_score(Theme::Basic, *_color),
{
    UNIT
}

pub fn score_vivid(color: &Color) -> (r: u64)
    ensures
        r == theme_score(Theme::Vivid, *color),
{
    let chroma = color.chroma();
    if chroma <= VIVID_MIN_CHROMA {
        0
    } else {
        normalize(chroma, MIN_CHROMA, MAX_CHROMA)
    }
}

pub fn score_muted(color: &Color) -> (r: u64)
    ensures
        r == theme_score(Theme::Muted, *color),
{
    let chroma = color.chroma();
    if chroma <= MUTED_MAX_CHROMA {
        UNIT - normalize(chroma, MIN_CHROMA, MAX_CHROMA)
    } else {
        0
    }
}

pub fn score_light(color: &Color) -> (r: u64)
    ensures
        r == theme_score(Theme::Light, *color),
{
    if color.is_light() {
        normalize(color.lightness(), MIN_LIGHTNESS, MAX_LIGHTNESS)
    } else {
        0
    }
}

pub fn score_dark(color: &Color) -> (r: u64)
    ensures
        r == theme_score(Theme::Dark, *color),
{
    if color.is_dark() {
        UNIT - normalize(color.lightness(), MIN_LIGHTNESS, MAX_LIGHTNESS)
    } else {
        0
    }
}

} // verus!
