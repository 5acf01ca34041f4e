//! Shape-style icons: an emoji over a polygon or circle.
//!
//! The fixed draw order is: emoji, border color (contrasting with white),
//! fill color (contrasting with the border), number of sides, rotation.
//! One or two sides make no polygon, so those draws yield a circle.  The
//! rotation draw is biased: a quarter of outcomes each pin the offset to the
//! two aligned positions, the rest spread evenly below one half.
//!
//! The offset is kept in hundredths, so `offset_hundredths == 50` stands for
//! one half of the polygon's angle step.

use vstd::prelude::*;

verus! {

use vstd::arithmetic::power2::pow2;
use crate::color::{Color, contrast_set, contrasting};
use crate::error::IconError;
use crate::pool::{EntropyPool, seed_val};

/// A shape.
#[derive(Debug, Clone, Copy, PartialEq, Eq, Structural)]
pub enum ShapeType {
    /// A polygon of `n` sides.
    Polygon(u8),
    /// A circle.
    Circle,
}

/// A description of a shape icon.
#[derive(Debug, Clone, Copy, PartialEq, Eq, Structural)]
pub struct ShapeIconData {
    /// The emoji to overlay on the icon.
    pub emoji: char,
    /// The icon's shape.
    pub shape: ShapeType,
    /// The icon's fill color.
    pub fill_color: Color,
    /// The icon's border color.
    pub border_color: Color,
    /// The icon's rotation offset, in hundredths of the angle step.
    pub offset_hundredths: u8,
}

/// The white reference color that the border must contrast with.
pub open spec fn white_spec() -> Color {
    Color { r: 255, g: 255, b: 255 }
}

/// The offset rule: rotations of 75 and above pin the offset to one half,
/// rotations of 50 to 74 pin it to zero, and the rest spread below one half.
pub open spec fn offset_rule(rotation: nat) -> nat {
    if rotation >= 75 {
        50
    } else if rotation >= 50 {
        0
    } else {
        2 * rotation
    }
}

/// What the shape-style composer produces from a pool holding `rem0` under
/// bound `max0`, over the given palette and emoji table: either the finished
/// descriptor or the error that aborts the composition.
pub open spec fn compose_shape(rem0: nat, max0: nat, palette: Seq<Color>, emojis: Seq<char>) -> Result<
    ShapeIconData,
    IconError,
> {
    let ne = emojis.len();
    if ne == 0 {
        Err(IconError::InvalidRange)
    } else if ne > max0 {
        Err(IconError::EntropyExhausted)
    } else {
        let emoji = emojis[(rem0 % ne) as int];
        let rem1 = rem0 / ne;
        let max1 = max0 / ne;
        let wset = contrast_set(palette, white_spec());
        let nw = wset.len();
        if nw == 0 {
            Err(IconError::InvalidRange)
        } else if nw > max1 {
            Err(IconError::EntropyExhausted)
        } else {
            let border = wset[(rem1 % nw) as int];
            let rem2 = rem1 / nw;
            let max2 = max1 / nw;
            let bset = contrast_set(palette, border);
            let nb = bset.len();
            if nb == 0 {
                Err(IconError::InvalidRange)
            } else if nb > max2 {
                Err(IconError::EntropyExhausted)
            } else {
                let fill = bset[(rem2 % nb) as int];
                let rem3 = rem2 / nb;
                let max3 = max2 / nb;
                if 9 > max3 {
                    Err(IconError::EntropyExhausted)
                } else {
                    let sides = 1 + rem3 % 9;
                    let rem4 = rem3 / 9;
                    let max4 = max3 / 9;
                    if 100 > max4 {
                        Err(IconError::EntropyExhausted)
                    } else {
                        let rotation = rem4 % 100;
                        let shape = if sides <= 2 {
                            ShapeType::Circle
                        } else {
                            ShapeType::Polygon(sides as u8)
                        };
                        Ok(
                            ShapeIconData {
                                emoji,
                                shape,
                                fill_color: fill,
                                border_color: border,
                                offset_hundredths: offset_rule(rotation) as u8,
                            },
                        )
                    }
                }
            }
        }
    }
}

impl ShapeIconData {
    /// Compose a shape icon by drawing from the pool in the fixed order.
    /// The result, success or failure, is exactly `compose_shape` applied to
    /// the pool's state and the tables.
    pub fn gen(pool: &mut EntropyPool, palette: &Vec<Color>, emojis: &Vec<char>) -> (res: Result<
        ShapeIconData,
        IconError,
    >)
        requires
            old(pool).wf(),
        ensures
            final(pool).wf(),
            final(pool).max_val() <= old(pool).max_val(),
            res == compose_shape(old(pool).rem_val(), old(pool).max_val(), palette@, emojis@),
    {
        let emoji = match pool.pick(emojis) {
            Ok(e) => e,
            Err(e) => {
                return Err(e);
            },
        };
        let white = Color::white();
        let contrasts_with_white = contrasting(palette, white);
        let border_color = match pool.pick(&contrasts_with_white) {
            Ok(c) => c,
            Err(e) => {
                return Err(e);
            },
        };
        let contrasts_with_border = contrasting(palette, border_color);
        let fill_color = match pool.pick(&contrasts_with_border) {
            Ok(c) => c,
            Err(e) => {
                return Err(e);
            },
        };
        let num_sides = match pool.range(1, 10) {
            Ok(s) => s,
            Err(e) => {
                return Err(e);
            },
        };
        let shape = if num_sides <= 2 {
            ShapeType::Circle
        } else {
            ShapeType::Polygon(num_sides as u8)
        };
        let rotation = match pool.range(0, 100) {
            Ok(r) => r,
            Err(e) => {
                return Err(e);
            },
        };
        let offset_hundredths: u8 = if rotation >= 75 {
            50
        } else if rotation >= 50 {
            0
        } else {
            (2 * rotation) as u8
        };
        Ok(ShapeIconData { emoji, shape, fill_color, border_color, offset_hundredths })
    }

    /// Hash the input and compose a shape icon from the digest: the result is
    /// a function of the seed string and the tables alone.
    pub fn from_input(input: &str, palette: &Vec<Color>, emojis: &Vec<char>) -> (res: Result<
        ShapeIconData,
        IconError,
    >)
        ensures
            res == compose_shape(seed_val(input@), pow2(512), palette@, emojis@),
    {
        let mut pool = EntropyPool::via_sha512(input);
        ShapeIconData::gen(&mut pool, palette, emojis)
    }
}

impl Default for ShapeIconData {
    /// A plain placeholder icon: the letter A over a white circle with a
    /// black border, unrotated.
    fn default() -> (res: ShapeIconData)
        ensures
            res == (ShapeIconData {
                emoji: 'A',
                shape: ShapeType::Circle,
                fill_color: Color { r: 255, g: 255, b: 255 },
                border_color: Color { r: 0, g: 0, b: 0 },
                offset_hundredths: 0,
            }),
    {
        ShapeIconData {
            emoji: 'A',
            shape: ShapeType::Circle,
            fill_color: Color::white(),
            border_color: Color::black(),
            offset_hundredths: 0,
        }
    }
}

/// Every shape icon that a composition run can produce keeps both contrast
/// rules: white against the border, and the border against the fill.
pub proof fn lemma_shape_contrast(rem0: nat, max0: nat, palette: Seq<Color>, emojis: Seq<char>)
    requires
        compose_shape(rem0, max0, palette, emojis) is Ok,
    ensures
        crate::color::contrasts_spec(
            white_spec(),
            compose_shape(rem0, max0, palette, emojis)->Ok_0.border_color,
        ),
        crate::color::contrasts_spec(
            compose_shape(rem0, max0, palette, emojis)->Ok_0.border_color,
            compose_shape(rem0, max0, palette, emojis)->Ok_0.fill_color,
        ),
{
    let d = compose_shape(rem0, max0, palette, emojis)->Ok_0;
    let rem1 = rem0 / emojis.len();
    let wset = contrast_set(palette, white_spec());
    crate::color::lemma_contrast_set_contrasts(
        palette,
        white_spec(),
        (rem1 % wset.len()) as int,
    );
    let rem2 = rem1 / wset.len();
    let bset = contrast_set(palette, d.border_color);
    crate::color::lemma_contrast_set_contrasts(
        palette,
        d.border_color,
        (rem2 % bset.len()) as int,
    );
}

/// Determinism: two composition runs over the same seed string and the same
/// tables have the same outcome, field for field.
pub proof fn lemma_shape_deterministic(
    seed: Seq<char>,
    palette: Seq<Color>,
    emojis: Seq<char>,
    r1: Result<ShapeIconData, IconError>,
    r2: Result<ShapeIconData, IconError>,
)
    requires
        r1 == compose_shape(seed_val(seed), pow2(512), palette, emojis),
        r2 == compose_shape(seed_val(seed), pow2(512), palette, emojis),
    ensures
        r1 == r2,
{
}

/// A composition run never yields a one- or two-sided polygon: those draws
/// become circles, and any polygon has between three and nine sides.
pub proof fn lemma_shape_sides(rem0: nat, max0: nat, palette: Seq<Color>, emojis: Seq<char>)
    requires
        compose_shape(rem0, max0, palette, emojis) is Ok,
    ensures
        compose_shape(rem0, max0, palette, emojis)->Ok_0.shape matches ShapeType::Polygon(s)
            ==> 3 <= s <= 9,
{
}

} // verus!
