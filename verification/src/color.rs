//! RGB colors and the luminance-contrast rule.
//!
//! Luminance is kept in integer form: the usual coefficients 0.2126, 0.7152
//! and 0.0722 are scaled by 10_000, so a color's luminance lies in
//! `[0, 2_550_000]` and the contrast threshold of 75.0 becomes 750_000.

use vstd::prelude::*;

verus! {

use vstd::string::StringExecFns;

/// Scale factor applied to the luminance coefficients.
pub const LUMINANCE_SCALE: u32 = 10000;

/// The contrast threshold (75.0), scaled by `LUMINANCE_SCALE`.
pub const CONTRAST_THRESHOLD: u32 = 750000;

/// An RGB color.
#[derive(Clone, Copy, Debug, PartialEq, Eq, Structural, Hash)]
pub struct Color {
    /// Red component
    pub r: u8,
    /// Green component
    pub g: u8,
    /// Blue component
    pub b: u8,
}

/// Luminance of a color, scaled by `LUMINANCE_SCALE`.
pub open spec fn luminance_spec(c: Color) -> int {
    2126 * (c.r as int) + 7152 * (c.g as int) + 722 * (c.b as int)
}

/// Whether two colors differ in luminance by more than the contrast threshold.
pub open spec fn contrasts_spec(a: Color, b: Color) -> bool {
    luminance_spec(a) - luminance_spec(b) > CONTRAST_THRESHOLD
        || luminance_spec(b) - luminance_spec(a) > CONTRAST_THRESHOLD
}

/// The character for one decimal digit.
pub open spec fn digit_char(d: int) -> char {
    if d == 0 {
        '0'
    } else if d == 1 {
        '1'
    } else if d == 2 {
        '2'
    } else if d == 3 {
        '3'
    } else if d == 4 {
        '4'
    } else if d == 5 {
        '5'
    } else if d == 6 {
        '6'
    } else if d == 7 {
        '7'
    } else if d == 8 {
        '8'
    } else {
        '9'
    }
}

/// The decimal digits of a number, most significant first, no leading zeroes.
pub open spec fn dec_digits(n: nat) -> Seq<char>
    decreases n,
{
    if n < 10 {
        seq![digit_char(n as int)]
    } else {
        dec_digits(n / 10) + seq![digit_char((n % 10) as int)]
    }
}

/// A color as a CSS color: `rgb(` and the three decimal components.
pub open spec fn css_color_spec(c: Color) -> Seq<char> {
    "rgb("@ + dec_digits(c.r as nat) + ","@ + dec_digits(c.g as nat) + ","@ + dec_digits(c.b as nat)
        + ")"@
}

/// The string for one decimal digit.
fn digit_str(d: u8) -> (res: &'static str)
    requires
        d < 10,
    ensures
        res@ == seq![digit_char(d as int)],
{
    proof {
        reveal_strlit("0");
        reveal_strlit("1");
        reveal_strlit("2");
        reveal_strlit("3");
        reveal_strlit("4");
        reveal_strlit("5");
        reveal_strlit("6");
        reveal_strlit("7");
        reveal_strlit("8");
        reveal_strlit("9");
    }
    let res = match d {
        0 => "0",
        1 => "1",
        2 => "2",
        3 => "3",
        4 => "4",
        5 => "5",
        6 => "6",
        7 => "7",
        8 => "8",
        _ => "9",
    };
    proof {
        assert(res@ =~= seq![digit_char(d as int)]);
    }
    res
}

/// Append the decimal digits of a byte.
fn push_u8_decimal(s: &mut String, n: u8)
    ensures
        final(s)@ == old(s)@ + dec_digits(n as nat),
{
    if n >= 100 {
        s.append(digit_str(n / 100));
    }
    if n >= 10 {
        s.append(digit_str((n / 10) % 10));
    }
    s.append(digit_str(n % 10));
    proof {
        if n >= 10 {
            assert(dec_digits((n / 10) as nat) == if n / 10 >= 10 {
                dec_digits(((n / 10) / 10) as nat) + seq![digit_char(((n / 10) % 10) as int)]
            } else {
                seq![digit_char((n / 10) as int)]
            });
            assert((n / 10) / 10 == n / 100);
            if n >= 100 {
                assert(dec_digits((n / 100) as nat) == seq![digit_char((n / 100) as int)]);
            }
        }
        assert(final(s)@ =~= old(s)@ + dec_digits(n as nat));
    }
}

/// The palette entries that contrast well with `with`, in palette order.
pub open spec fn contrast_set(palette: Seq<Color>, with: Color) -> Seq<Color> {
    palette.filter(|c: Color| contrasts_spec(with, c))
}

/// Growing the palette by one entry grows its contrast set exactly when the
/// entry contrasts.
proof fn lemma_contrast_set_step(palette: Seq<Color>, with: Color, i: int)
    requires
        0 <= i < palette.len(),
    ensures
        contrast_set(palette.take(i + 1), with) == if contrasts_spec(with, palette[i]) {
            contrast_set(palette.take(i), with).push(palette[i])
        } else {
            contrast_set(palette.take(i), with)
        },
{
    reveal(Seq::filter);
    let t1 = palette.take(i + 1);
    assert(t1.drop_last() =~= palette.take(i));
    assert(t1.last() == palette[i]);
}

/// Every member of a contrast set contrasts well with the reference color.
pub proof fn lemma_contrast_set_contrasts(palette: Seq<Color>, with: Color, i: int)
    requires
        0 <= i < contrast_set(palette, with).len(),
    ensures
        contrasts_spec(with, contrast_set(palette, with)[i]),
{
    palette.lemma_filter_pred(|c: Color| contrasts_spec(with, c), i);
}

/// The palette entries that contrast well with `with`, as a vector.
pub fn contrasting(palette: &Vec<Color>, with: Color) -> (res: Vec<Color>)
    ensures
        res@ == contrast_set(palette@, with),
{
    let mut res: Vec<Color> = Vec::new();
    let mut i: usize = 0;
    proof {
        reveal(Seq::filter);
        assert(palette@.take(0) =~= Seq::<Color>::empty());
    }
    while i < palette.len()
        invariant
            i <= palette@.len(),
            res@ == contrast_set(palette@.take(i as int), with),
        decreases palette@.len() - i,
    {
        proof {
            lemma_contrast_set_step(palette@, with, i as int);
        }
        if with.contrasts_well(&palette[i]) {
            res.push(palette[i]);
        }
        i += 1;
    }
    proof {
        assert(palette@.take(palette@.len() as int) =~= palette@);
    }
    res
}

impl Color {
    /// The black color.
    pub fn black() -> (c: Color)
        ensures
            c == (Color { r: 0, g: 0, b: 0 }),
    {
        Color { r: 0, g: 0, b: 0 }
    }

    /// The white color.
    pub fn white() -> (c: Color)
        ensures
            c == (Color { r: 255, g: 255, b: 255 }),
    {
        Color { r: 255, g: 255, b: 255 }
    }

    /// This color's luminance, scaled by `LUMINANCE_SCALE`.
    pub fn luminance(&self) -> (l: u32)
        ensures
            l == luminance_spec(*self),
    {
        2126 * (self.r as u32) + 7152 * (self.g as u32) + 722 * (self.b as u32)
    }

    /// Format this color as a CSS color, `rgb(r,g,b)` in decimal.
    pub fn css_color(&self) -> (res: String)
        ensures
            res@ == css_color_spec(*self),
    {
        let mut s = String::from_str("rgb(");
        push_u8_decimal(&mut s, self.r);
        s.append(",");
        push_u8_decimal(&mut s, self.g);
        s.append(",");
        push_u8_decimal(&mut s, self.b);
        s.append(")");
        proof {
            assert(s@ =~= css_color_spec(*self));
        }
        s
    }

    /// Does this color contrast well with that other color?
    pub fn contrasts_well(&self, other: &Color) -> (res: bool)
        ensures
            res == contrasts_spec(*self, *other),
    {
        let la = self.luminance();
        let lb = other.luminance();
        if la >= lb {
            la - lb > CONTRAST_THRESHOLD
        } else {
            lb - la > CONTRAST_THRESHOLD
        }
    }
}

} // verus!
