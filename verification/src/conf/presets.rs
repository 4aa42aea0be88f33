//! The built-in presets: each carries the seven palette roles, the two
//! wallpaper tints and a hand-tuned 16-colour terminal set. Their TOML
//! sources are read by the tool.
use vstd::prelude::*;
use crate::conf::theme::Palette;

verus! {

pub struct Preset {
    pub palette: Palette,
    pub lifewall: PresetWall,
    pub ansi: Ansi,
}

pub struct PresetWall {
    pub mature: String,
    pub newborn: String,
}

/// The 16 terminal colour slots, in kitty's naming.
pub struct Ansi {
    pub color0: String,
    pub color8: String,
    pub color1: String,
    pub color9: String,
    pub color2: String,
    pub color10: String,
    pub color3: String,
    pub color11: String,
    pub color4: String,
    pub color12: String,
    pub color5: String,
    pub color13: String,
    pub color6: String,
    pub color14: String,
    pub color7: String,
    pub color15: String,
}

/// The presets in cycling order: the three classic themes, then the
/// vivid, rainbow, pastel and light groups.
pub const NAMES: [&'static str; 23] = [
    "olive",
    "slate",
    "moss",
    "vivid-red",
    "vivid-yellow",
    "vivid-green",
    "vivid-cyan",
    "vivid-blue",
    "vivid-magenta",
    "rainbow-orange",
    "rainbow-lime",
    "rainbow-teal",
    "rainbow-sky",
    "rainbow-violet",
    "rainbow-pink",
    "pastel-pink",
    "pastel-mint",
    "pastel-lavender",
    "pastel-peach",
    "pastel-butter",
    "pastel-sky",
    "light-daylight",
    "light-paper",
];

} // verus!
