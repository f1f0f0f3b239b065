//! Which colour each piece and each sector has.
//!
//! Colours are samples of a rainbow, made lighter or darker. Lightness is
//! counted in parts of [`LIGHTNESS_FULL`]: half of it leaves the sample as it
//! is, more lays white over it, less lays black over it. Brightness, which
//! scales lightness, is given in hundredths.

use super::config::PuzzleConfig;
use crate::trusted::{rainbow, rainbow_sample};
use vstd::prelude::*;

verus! {

/// The lightness of pure white.
pub const LIGHTNESS_FULL: u64 = 10_000;

/// The lightness that leaves a colour as it is.
pub const LIGHTNESS_PLAIN: u64 = 5_000;

/// A red, green and blue value.
#[derive(Debug, Copy, Clone, PartialEq, Eq, Hash, Structural)]
pub struct Rgb {
    pub r: u8,
    pub g: u8,
    pub b: u8,
}

/// What is laid over a colour to change its lightness.
#[derive(Debug, Copy, Clone, PartialEq, Eq, Hash, Structural)]
pub enum Veil {
    White,
    Black,
}

/// How a colour is to be made, before the rainbow is asked.
#[derive(Debug, Copy, Clone, PartialEq, Eq, Hash, Structural)]
pub enum ColorRecipe {
    /// Plain dark grey.
    DarkGray,
    /// Colour `index` of a rainbow of `count` colours, at `lightness` parts
    /// of [`LIGHTNESS_FULL`].
    Rainbow { index: u32, count: u32, lightness: u64 },
}

/// The colour of a piece or of a sector.
#[derive(Debug, Copy, Clone, PartialEq, Eq, Hash, Structural)]
pub enum PieceColor {
    /// Plain dark grey.
    DarkGray,
    /// `base` with `veil` laid over it at a strength of `strength` parts of
    /// [`LIGHTNESS_FULL`].
    Veiled { base: Rgb, veil: Veil, strength: u64 },
}

/// `base` at the given lightness: above [`LIGHTNESS_PLAIN`] white is laid
/// over it, else black, the more strongly the further the lightness is from
/// plain.
pub open spec fn spec_at_lightness(base: Rgb, lightness: int) -> PieceColor {
    if lightness > LIGHTNESS_PLAIN {
        PieceColor::Veiled {
            base,
            veil: Veil::White,
            strength: (2 * lightness - LIGHTNESS_FULL) as u64,
        }
    } else {
        PieceColor::Veiled {
            base,
            veil: Veil::Black,
            strength: (LIGHTNESS_FULL - 2 * lightness) as u64,
        }
    }
}

/// `base` at the given lightness.
pub fn at_lightness(base: Rgb, lightness: u64) -> (r: PieceColor)
    requires
        2 * lightness <= u64::MAX,
    ensures
        r == spec_at_lightness(base, lightness as int),
{
    if lightness > LIGHTNESS_PLAIN {
        PieceColor::Veiled { base, veil: Veil::White, strength: 2 * lightness - LIGHTNESS_FULL }
    } else {
        PieceColor::Veiled { base, veil: Veil::Black, strength: LIGHTNESS_FULL - 2 * lightness }
    }
}

/// The colour that a recipe gives: the rainbow sample it names, brought to
/// its lightness.
pub open spec fn spec_color_of(recipe: ColorRecipe) -> PieceColor {
    match recipe {
        ColorRecipe::DarkGray => PieceColor::DarkGray,
        ColorRecipe::Rainbow { index, count, lightness } => spec_at_lightness(
            rainbow(index as int, count as int),
            lightness as int,
        ),
    }
}

/// Makes the colour that `recipe` describes.
pub fn color_of(recipe: ColorRecipe) -> (r: PieceColor)
    requires
        recipe matches ColorRecipe::Rainbow { count, lightness, .. } ==> count > 0 && 2 * lightness
            <= u64::MAX,
    ensures
        r == spec_color_of(recipe),
        recipe is DarkGray <==> r is DarkGray,
{
    match recipe {
        ColorRecipe::DarkGray => PieceColor::DarkGray,
        ColorRecipe::Rainbow { index, count, lightness } => at_lightness(
            rainbow_sample(index, count),
            lightness,
        ),
    }
}

impl PuzzleConfig {
    /// The recipe for the shared piece. On a puzzle whose disk `B` has two
    /// sectors it has the same lightness in both themes.
    pub open spec fn spec_shared_recipe(self, brightness: u32, dark_mode: bool) -> ColorRecipe {
        let factor: int = if self.b == 2 {
            50
        } else if dark_mode {
            45
        } else {
            65
        };
        ColorRecipe::Rainbow { index: 0, count: 1, lightness: (brightness * factor) as u64 }
    }

    /// The recipe for piece `i` of disk `A`, where 0 is the shared piece: the
    /// other pieces run through a rainbow of as many colours as the disk has
    /// sectors, backwards.
    pub open spec fn spec_a_recipe(self, i: u32, brightness: u32, dark_mode: bool) -> ColorRecipe {
        if i == 0 {
            self.spec_shared_recipe(brightness, dark_mode)
        } else {
            ColorRecipe::Rainbow {
                index: (self.a - i) as u32,
                count: self.a,
                lightness: (brightness * 50) as u64,
            }
        }
    }

    /// The recipe for piece `i` of disk `B`, where 0 is the shared piece: the
    /// other pieces run through a rainbow of as many colours as the disk has
    /// sectors, but the lone other piece of a disk with two sectors is grey.
    pub open spec fn spec_b_recipe(self, i: u32, brightness: u32, dark_mode: bool) -> ColorRecipe {
        if i == 0 {
            self.spec_shared_recipe(brightness, dark_mode)
        } else if self.b == 2 {
            ColorRecipe::DarkGray
        } else {
            ColorRecipe::Rainbow {
                index: i,
                count: self.b,
                lightness: (brightness * (if dark_mode {
                    25int
                } else {
                    75int
                })) as u64,
            }
        }
    }

    /// The recipe for piece `i` of the puzzle: the pieces below `a` belong to
    /// disk `A`, those from `a` on are the pieces 1, 2, .. of disk `B`.
    pub open spec fn spec_color_recipe(
        self,
        i: u32,
        brightness: u32,
        dark_mode: bool,
    ) -> ColorRecipe {
        if i < self.a {
            self.spec_a_recipe(i, brightness, dark_mode)
        } else {
            self.spec_b_recipe((i - self.a + 1) as u32, brightness, dark_mode)
        }
    }

    /// The brightness of a piece: full in the dark theme, dimmed in the light
    /// one.
    pub open spec fn spec_sticker_brightness(dark_mode: bool) -> u32 {
        if dark_mode {
            100
        } else {
            85
        }
    }

    /// The brightness of a sector.
    pub open spec fn spec_sector_brightness() -> u32 {
        90
    }

    fn shared_recipe(self, brightness: u32, dark_mode: bool) -> (r: ColorRecipe)
        ensures
            r == self.spec_shared_recipe(brightness, dark_mode),
    {
        let factor: u64 = if self.b == 2 {
            50
        } else if dark_mode {
            45
        } else {
            65
        };
        ColorRecipe::Rainbow { index: 0, count: 1, lightness: brightness as u64 * factor }
    }

    fn a_recipe(self, i: u32, brightness: u32, dark_mode: bool) -> (r: ColorRecipe)
        requires
            i < self.a,
        ensures
            r == self.spec_a_recipe(i, brightness, dark_mode),
    {
        if i == 0 {
            self.shared_recipe(brightness, dark_mode)
        } else {
            ColorRecipe::Rainbow {
                index: self.a - i,
                count: self.a,
                lightness: brightness as u64 * 50,
            }
        }
    }

    fn b_recipe(self, i: u32, brightness: u32, dark_mode: bool) -> (r: ColorRecipe)
        ensures
            r == self.spec_b_recipe(i, brightness, dark_mode),
    {
        if i == 0 {
            self.shared_recipe(brightness, dark_mode)
        } else if self.b == 2 {
            ColorRecipe::DarkGray
        } else {
            let factor: u64 = if dark_mode {
                25
            } else {
                75
            };
            ColorRecipe::Rainbow { index: i, count: self.b, lightness: brightness as u64 * factor }
        }
    }

    /// How the colour of piece `i` is made at the given brightness, in
    /// hundredths, and theme.
    pub fn color_recipe(self, i: u32, brightness: u32, dark_mode: bool) -> (r: ColorRecipe)
        requires
            self.valid(),
        ensures
            r == self.spec_color_recipe(i, brightness, dark_mode),
            r matches ColorRecipe::Rainbow { count, lightness, .. } ==> (count == self.a || count
                == self.b || count == 1) && lightness <= brightness * 75,
    {
        if i < self.a {
            self.a_recipe(i, brightness, dark_mode)
        } else {
            self.b_recipe(i - self.a + 1, brightness, dark_mode)
        }
    }

    /// The colour of piece `i` at the given brightness, in hundredths, and
    /// theme.
    pub fn color(self, i: u32, brightness: u32, dark_mode: bool) -> (r: PieceColor)
        requires
            self.valid(),
        ensures
            r == spec_color_of(self.spec_color_recipe(i, brightness, dark_mode)),
    {
        color_of(self.color_recipe(i, brightness, dark_mode))
    }

    /// The colour of piece `i` where it is drawn as a piece.
    pub fn sticker_color(self, i: u32, dark_mode: bool) -> (r: PieceColor)
        requires
            self.valid(),
        ensures
            r == spec_color_of(
                self.spec_color_recipe(i, Self::spec_sticker_brightness(dark_mode), dark_mode),
            ),
    {
        self.color(
            i,
            if dark_mode {
                100
            } else {
                85
            },
            dark_mode,
        )
    }

    /// The colour of the sector that has the number of piece `i`.
    pub fn sector_color(self, i: u32, dark_mode: bool) -> (r: PieceColor)
        requires
            self.valid(),
        ensures
            r == spec_color_of(
                self.spec_color_recipe(i, Self::spec_sector_brightness(), dark_mode),
            ),
    {
        self.color(i, 90, dark_mode)
    }
}

/// Colours do not change from one asking to the next: the same puzzle, piece,
/// brightness and theme always give the same colour.
pub proof fn lemma_color_is_stable(
    c1: PuzzleConfig,
    c2: PuzzleConfig,
    i: u32,
    brightness: u32,
    dark_mode: bool,
)
    requires
        c1.a == c2.a,
        c1.b == c2.b,
    ensures
        spec_color_of(c1.spec_color_recipe(i, brightness, dark_mode)) == spec_color_of(
            c2.spec_color_recipe(i, brightness, dark_mode),
        ),
{
}

} // verus!
