//! Shield-style icons: an emoji over a colored field with a treatment.
//!
//! The fixed draw order is: field color, pattern color (contrasting with the
//! field), emoji, treatment kind (weighted one part plain, four parts
//! two-color, six parts striped), then the treatment's own draws: an angle
//! for a two-color treatment; a stripe count, a padding and an angle for a
//! striped one.
//!
//! Stripe geometry, with `count` stripes and a padding of `padding_tenths`
//! tenths: the stride is `(1 - 2 * padding) / (2 * count + 1)` and stripe `i`
//! sits at `padding + stride * (2 * i + 1)`, both kept as exact fractions
//! over the denominator `10 * (2 * count + 1)`.

use vstd::prelude::*;

verus! {

use vstd::arithmetic::power2::pow2;
use crate::color::{Color, contrast_set, contrasting};
use crate::error::IconError;
use crate::frac::Frac;
use crate::pool::{EntropyPool, seed_val, sum_weights, weighted_index};

/// The tags of the three treatments, used for the weighted draw.
#[derive(Debug, Clone, Copy, PartialEq, Eq, Structural)]
pub enum TreatmentKind {
    /// A single, solid shield color.
    SingleColor,
    /// A second color applied at an angle.
    TwoColor,
    /// Stripes of a second color.
    Stripes,
}

/// A description of a treatment for a shield.
#[derive(Debug, Clone, PartialEq)]
pub enum ShieldIconTreatment {
    /// A single, solid shield color, aka no treatment.
    SingleColor,
    /// A treatment that results in a two-color shield pattern, by applying
    /// another color at an angle.
    TwoColor {
        /// The color of the pattern.
        pattern_color: Color,
        /// The treatment's angle.
        angle: u16,
    },
    /// A treatment that results in a two-color striped shield pattern.
    Stripes {
        /// The color of the stripes we are adding.
        pattern_color: Color,
        /// The stripes' stride.
        stride: Frac,
        /// X coordinates for the stripes.
        stripe_xs: Vec<Frac>,
        /// Angle of the stripes.
        angle: u16,
    },
}

/// A description of a shield icon.
#[derive(Debug, Clone, PartialEq)]
pub struct ShieldIconData {
    /// How the field is decorated.
    pub treatment: ShieldIconTreatment,
    /// The field color.
    pub field_color: Color,
    /// The emoji to overlay on the icon.
    pub emoji: char,
}

/// The mathematical value of a treatment: as `ShieldIconTreatment`, with the
/// stripe positions as a sequence.
#[verifier::ext_equal]
pub enum TreatmentView {
    /// A single, solid shield color.
    SingleColor,
    /// A second color applied at an angle.
    TwoColor {
        /// The color of the pattern.
        pattern_color: Color,
        /// The treatment's angle.
        angle: u16,
    },
    /// Stripes of a second color.
    Stripes {
        /// The color of the stripes.
        pattern_color: Color,
        /// The stripes' stride.
        stride: Frac,
        /// X coordinates for the stripes.
        stripe_xs: Seq<Frac>,
        /// Angle of the stripes.
        angle: u16,
    },
}

/// The mathematical value of a shield icon.
#[verifier::ext_equal]
pub struct ShieldIconView {
    /// How the field is decorated.
    pub treatment: TreatmentView,
    /// The field color.
    pub field_color: Color,
    /// The emoji to overlay on the icon.
    pub emoji: char,
}

impl View for ShieldIconTreatment {
    type V = TreatmentView;

    open spec fn view(&self) -> TreatmentView {
        match self {
            ShieldIconTreatment::SingleColor => TreatmentView::SingleColor,
            ShieldIconTreatment::TwoColor { pattern_color, angle } => TreatmentView::TwoColor {
                pattern_color: *pattern_color,
                angle: *angle,
            },
            ShieldIconTreatment::Stripes { pattern_color, stride, stripe_xs, angle } => {
                TreatmentView::Stripes {
                    pattern_color: *pattern_color,
                    stride: *stride,
                    stripe_xs: stripe_xs@,
                    angle: *angle,
                }
            },
        }
    }
}

impl View for ShieldIconData {
    type V = ShieldIconView;

    open spec fn view(&self) -> ShieldIconView {
        ShieldIconView {
            treatment: self.treatment@,
            field_color: self.field_color,
            emoji: self.emoji,
        }
    }
}

/// The weighted table of treatment kinds: one part plain, four parts
/// two-color, six parts striped, in this order.
pub open spec fn treatment_table() -> Seq<(TreatmentKind, u64)> {
    seq![
        (TreatmentKind::SingleColor, 1u64),
        (TreatmentKind::TwoColor, 4u64),
        (TreatmentKind::Stripes, 6u64),
    ]
}

/// The eight treatment angles: multiples of 45 degrees.
pub open spec fn angles_spec() -> Seq<u16> {
    seq![0u16, 45u16, 90u16, 135u16, 180u16, 225u16, 270u16, 315u16]
}

/// The weights of the treatment table sum to eleven.
proof fn lemma_treatment_table_sum()
    ensures
        sum_weights(treatment_table()) == 11,
{
    let t = treatment_table();
    let t1 = t.drop_first();
    let t2 = t1.drop_first();
    let t3 = t2.drop_first();
    assert(t3 =~= Seq::<(TreatmentKind, u64)>::empty());
    assert(sum_weights(t3) == 0);
    assert(sum_weights(t2) == 6);
    assert(sum_weights(t1) == 10);
}

/// Common denominator of the stripe fractions: ten times one more than twice
/// the stripe count.
pub open spec fn stripe_den(count: nat) -> nat {
    10 * (2 * count + 1)
}

/// The stride between stripes: `(1 - 2 * padding) / (2 * count + 1)` as an
/// exact fraction.
pub open spec fn stride_frac(count: nat, padding_tenths: nat) -> Frac {
    Frac { num: (10 - 2 * padding_tenths) as u32, den: stripe_den(count) as u32 }
}

/// Position of stripe `i`: `padding + stride * (2 * i + 1)` as an exact
/// fraction over the common denominator.
pub open spec fn stripe_x_frac(count: nat, padding_tenths: nat, i: int) -> Frac {
    Frac {
        num: (padding_tenths * (2 * count + 1) + (10 - 2 * padding_tenths) * (2 * i + 1)) as u32,
        den: stripe_den(count) as u32,
    }
}

/// All stripe positions, in order.
pub open spec fn stripe_xs_seq(count: nat, padding_tenths: nat) -> Seq<Frac> {
    Seq::new(count, |i: int| stripe_x_frac(count, padding_tenths, i))
}

/// What the shield-style composer produces from a pool holding `rem0` under
/// bound `max0`, over the given palette and emoji table: either the finished
/// descriptor or the error that aborts the composition.
pub open spec fn compose_shield(rem0: nat, max0: nat, palette: Seq<Color>, emojis: Seq<char>) -> Result<
    ShieldIconView,
    IconError,
> {
    let np = palette.len();
    if np == 0 {
        Err(IconError::InvalidRange)
    } else if np > max0 {
        Err(IconError::EntropyExhausted)
    } else {
        let field = palette[(rem0 % np) as int];
        let rem1 = rem0 / np;
        let max1 = max0 / np;
        let cset = contrast_set(palette, field);
        let nc = cset.len();
        if nc == 0 {
            Err(IconError::InvalidRange)
        } else if nc > max1 {
            Err(IconError::EntropyExhausted)
        } else {
            let pattern = cset[(rem1 % nc) as int];
            let rem2 = rem1 / nc;
            let max2 = max1 / nc;
            let ne = emojis.len();
            if ne == 0 {
                Err(IconError::InvalidRange)
            } else if ne > max2 {
                Err(IconError::EntropyExhausted)
            } else {
                let emoji = emojis[(rem2 % ne) as int];
                let rem3 = rem2 / ne;
                let max3 = max2 / ne;
                if 11 > max3 {
                    Err(IconError::EntropyExhausted)
                } else {
                    let kind = treatment_table()[weighted_index(treatment_table(), rem3 % 11)].0;
                    let rem4 = rem3 / 11;
                    let max4 = max3 / 11;
                    if kind == TreatmentKind::SingleColor {
                        Ok(
                            ShieldIconView {
                                treatment: TreatmentView::SingleColor,
                                field_color: field,
                                emoji,
                            },
                        )
                    } else if kind == TreatmentKind::TwoColor {
                        if 8 > max4 {
                            Err(IconError::EntropyExhausted)
                        } else {
                            let angle = angles_spec()[(rem4 % 8) as int];
                            Ok(
                                ShieldIconView {
                                    treatment: TreatmentView::TwoColor {
                                        pattern_color: pattern,
                                        angle,
                                    },
                                    field_color: field,
                                    emoji,
                                },
                            )
                        }
                    } else {
                        if 3 > max4 {
                            Err(IconError::EntropyExhausted)
                        } else {
                            let count = 1 + rem4 % 3;
                            let rem5 = rem4 / 3;
                            let max5 = max4 / 3;
                            if 3 > max5 {
                                Err(IconError::EntropyExhausted)
                            } else {
                                let padding = 1 + rem5 % 3;
                                let rem6 = rem5 / 3;
                                let max6 = max5 / 3;
                                if 8 > max6 {
                                    Err(IconError::EntropyExhausted)
                                } else {
                                    let angle = angles_spec()[(rem6 % 8) as int];
                                    Ok(
                                        ShieldIconView {
                                            treatment: TreatmentView::Stripes {
                                                pattern_color: pattern,
                                                stride: stride_frac(count, padding),
                                                stripe_xs: stripe_xs_seq(count, padding),
                                                angle,
                                            },
                                            field_color: field,
                                            emoji,
                                        },
                                    )
                                }
                            }
                        }
                    }
                }
            }
        }
    }
}

/// The eight treatment angles as a vector.
fn make_angles() -> (res: Vec<u16>)
    ensures
        res@ == angles_spec(),
{
    let mut res: Vec<u16> = Vec::new();
    res.push(0);
    res.push(45);
    res.push(90);
    res.push(135);
    res.push(180);
    res.push(225);
    res.push(270);
    res.push(315);
    proof {
        assert(res@ =~= angles_spec());
    }
    res
}

/// The weighted treatment table as a vector.
fn make_treatment_table() -> (res: Vec<(TreatmentKind, u64)>)
    ensures
        res@ == treatment_table(),
{
    let mut res: Vec<(TreatmentKind, u64)> = Vec::new();
    res.push((TreatmentKind::SingleColor, 1));
    res.push((TreatmentKind::TwoColor, 4));
    res.push((TreatmentKind::Stripes, 6));
    proof {
        assert(res@ =~= treatment_table());
    }
    res
}

/// The stripe positions for `count` stripes at the given padding, as a
/// vector of exact fractions.
fn make_stripe_xs(count: u64, padding_tenths: u64) -> (res: Vec<Frac>)
    requires
        1 <= count <= 3,
        1 <= padding_tenths <= 3,
    ensures
        res@ == stripe_xs_seq(count as nat, padding_tenths as nat),
{
    let den: u32 = 10 * (2 * (count as u32) + 1);
    let mut res: Vec<Frac> = Vec::new();
    let mut i: u64 = 0;
    while i < count
        invariant
            i <= count,
            count <= 3,
            padding_tenths <= 3,
            1 <= padding_tenths,
            den == stripe_den(count as nat),
            res@.len() == i,
            forall|k: int|
                0 <= k < i ==> res@[k] == stripe_x_frac(count as nat, padding_tenths as nat, k),
        decreases count - i,
    {
        proof {
            assert((padding_tenths as u32) * (2 * (count as u32) + 1) <= 21) by (nonlinear_arith)
                requires
                    padding_tenths <= 3,
                    count <= 3,
            ;
            assert((10 - 2 * (padding_tenths as u32)) * (2 * (i as u32) + 1) <= 56)
                by (nonlinear_arith)
                requires
                    1 <= padding_tenths <= 3,
                    i < count <= 3,
            ;
        }
        let num: u32 = (padding_tenths as u32) * (2 * (count as u32) + 1) + (10 - 2
            * (padding_tenths as u32)) * (2 * (i as u32) + 1);
        res.push(Frac { num, den });
        i += 1;
    }
    proof {
        assert(res@ =~= stripe_xs_seq(count as nat, padding_tenths as nat));
    }
    res
}

impl ShieldIconData {
    /// Compose a shield icon by drawing from the pool in the fixed order.
    /// The result, success or failure, is exactly `compose_shield` applied to
    /// the pool's state and the tables.
    pub fn gen(pool: &mut EntropyPool, palette: &Vec<Color>, emojis: &Vec<char>) -> (res: Result<
        ShieldIconData,
        IconError,
    >)
        requires
            old(pool).wf(),
        ensures
            final(pool).wf(),
            final(pool).max_val() <= old(pool).max_val(),
            res is Ok ==> compose_shield(
                old(pool).rem_val(),
                old(pool).max_val(),
                palette@,
                emojis@,
            ) == Ok::<ShieldIconView, IconError>(res->Ok_0@),
            res is Err ==> compose_shield(
                old(pool).rem_val(),
                old(pool).max_val(),
                palette@,
                emojis@,
            ) == Err::<ShieldIconView, IconError>(res->Err_0),
    {
        let field_color = match pool.pick(palette) {
            Ok(c) => c,
            Err(e) => {
                return Err(e);
            },
        };
        let contrasting_colors = contrasting(palette, field_color);
        let pattern_color = match pool.pick(&contrasting_colors) {
            Ok(c) => c,
            Err(e) => {
                return Err(e);
            },
        };
        let emoji = match pool.pick(emojis) {
            Ok(e) => e,
            Err(e) => {
                return Err(e);
            },
        };
        let table = make_treatment_table();
        proof {
            lemma_treatment_table_sum();
        }
        let kind = match pool.choose_weighted(&table) {
            Ok(k) => k,
            Err(e) => {
                return Err(e);
            },
        };
        let treatment = match kind {
            TreatmentKind::SingleColor => ShieldIconTreatment::SingleColor,
            TreatmentKind::TwoColor => {
                let angles = make_angles();
                let angle = match pool.pick(&angles) {
                    Ok(a) => a,
                    Err(e) => {
                        return Err(e);
                    },
                };
                ShieldIconTreatment::TwoColor { pattern_color, angle }
            },
            TreatmentKind::Stripes => {
                let count = match pool.range(1, 4) {
                    Ok(c) => c,
                    Err(e) => {
                        return Err(e);
                    },
                };
                let padding_tenths = match pool.range(1, 4) {
                    Ok(p) => p,
                    Err(e) => {
                        return Err(e);
                    },
                };
                let stride = Frac {
                    num: 10 - 2 * (padding_tenths as u32),
                    den: 10 * (2 * (count as u32) + 1),
                };
                let stripe_xs = make_stripe_xs(count, padding_tenths);
                let angles = make_angles();
                let angle = match pool.pick(&angles) {
                    Ok(a) => a,
                    Err(e) => {
                        return Err(e);
                    },
                };
                ShieldIconTreatment::Stripes { pattern_color, stride, stripe_xs, angle }
            },
        };
        let data = ShieldIconData { treatment, field_color, emoji };
        proof {
            assert(compose_shield(old(pool).rem_val(), old(pool).max_val(), palette@, emojis@)
                =~= Ok::<ShieldIconView, IconError>(data@));
        }
        Ok(data)
    }

    /// Hash the input and compose a shield icon from the digest: the result
    /// is a function of the seed string and the tables alone.
    pub fn from_input(input: &str, palette: &Vec<Color>, emojis: &Vec<char>) -> (res: Result<
        ShieldIconData,
        IconError,
    >)
        ensures
            res is Ok ==> compose_shield(seed_val(input@), pow2(512), palette@, emojis@) == Ok::<
                ShieldIconView,
                IconError,
            >(res->Ok_0@),
            res is Err ==> compose_shield(seed_val(input@), pow2(512), palette@, emojis@) == Err::<
                ShieldIconView,
                IconError,
            >(res->Err_0),
    {
        let mut pool = EntropyPool::via_sha512(input);
        ShieldIconData::gen(&mut pool, palette, emojis)
    }
}

impl Default for ShieldIconData {
    /// A plain placeholder icon: the letter A over an untreated black field.
    fn default() -> (res: ShieldIconData)
        ensures
            res.treatment is SingleColor,
            res.field_color == (Color { r: 0, g: 0, b: 0 }),
            res.emoji == 'A',
    {
        ShieldIconData {
            treatment: ShieldIconTreatment::SingleColor,
            field_color: Color::black(),
            emoji: 'A',
        }
    }
}

/// Every shield icon that a composition run can produce keeps the contrast
/// rule: a two-color or striped pattern color contrasts well with the field.
pub proof fn lemma_shield_contrast(rem0: nat, max0: nat, palette: Seq<Color>, emojis: Seq<char>)
    requires
        compose_shield(rem0, max0, palette, emojis) is Ok,
    ensures
        ({
            let d = compose_shield(rem0, max0, palette, emojis)->Ok_0;
            &&& d.treatment matches TreatmentView::TwoColor { pattern_color, .. }
                ==> crate::color::contrasts_spec(d.field_color, pattern_color)
            &&& d.treatment matches TreatmentView::Stripes { pattern_color, .. }
                ==> crate::color::contrasts_spec(d.field_color, pattern_color)
        }),
{
    let d = compose_shield(rem0, max0, palette, emojis)->Ok_0;
    let rem1 = rem0 / palette.len();
    let cset = contrast_set(palette, d.field_color);
    if cset.len() > 0 {
        crate::color::lemma_contrast_set_contrasts(
            palette,
            d.field_color,
            (rem1 % cset.len()) as int,
        );
    }
}

/// Determinism: two composition runs over the same seed string and the same
/// tables have the same outcome, field for field.
pub proof fn lemma_shield_deterministic(
    seed: Seq<char>,
    palette: Seq<Color>,
    emojis: Seq<char>,
    r1: Result<ShieldIconView, IconError>,
    r2: Result<ShieldIconView, IconError>,
)
    requires
        r1 == compose_shield(seed_val(seed), pow2(512), palette, emojis),
        r2 == compose_shield(seed_val(seed), pow2(512), palette, emojis),
    ensures
        r1 == r2,
{
}

/// The stripe geometry of every striped shield follows the closed form: with
/// `count` stripes and `padding_tenths` tenths of padding, the common
/// denominator is `10 * (2 * count + 1)`, the stride is
/// `(1 - 2 * padding) / (2 * count + 1)`, and stripe `i` sits at
/// `padding + stride * (2 * i + 1)`.
pub proof fn lemma_shield_stripe_geometry(
    rem0: nat,
    max0: nat,
    palette: Seq<Color>,
    emojis: Seq<char>,
)
    requires
        compose_shield(rem0, max0, palette, emojis) is Ok,
        compose_shield(rem0, max0, palette, emojis)->Ok_0.treatment is Stripes,
    ensures
        ({
            let t = compose_shield(rem0, max0, palette, emojis)->Ok_0.treatment;
            exists|count: nat, padding: nat|
                {
                    &&& 1 <= count <= 3
                    &&& 1 <= padding <= 3
                    &&& #[trigger] t->Stripes_stripe_xs.len() == count
                    &&& t->Stripes_stride == stride_frac(count, padding)
                    &&& forall|i: int|
                        0 <= i < count ==> t->Stripes_stripe_xs[i] == #[trigger] stripe_x_frac(
                            count,
                            padding,
                            i,
                        )
                }
        }),
{
    let t = compose_shield(rem0, max0, palette, emojis)->Ok_0.treatment;
    let np = palette.len();
    let rem1 = rem0 / np;
    let cset = contrast_set(palette, palette[(rem0 % np) as int]);
    let rem2 = rem1 / cset.len();
    let rem3 = rem2 / emojis.len();
    let rem4 = rem3 / 11;
    let count = 1 + rem4 % 3;
    let rem5 = rem4 / 3;
    let padding = 1 + rem5 % 3;
    assert(1 <= count <= 3 && 1 <= padding <= 3);
    assert(t->Stripes_stripe_xs =~= stripe_xs_seq(count, padding));
    assert({
        &&& 1 <= count <= 3
        &&& 1 <= padding <= 3
        &&& t->Stripes_stripe_xs.len() == count
        &&& t->Stripes_stride == stride_frac(count, padding)
        &&& forall|i: int|
            0 <= i < count ==> t->Stripes_stripe_xs[i] == #[trigger] stripe_x_frac(
                count,
                padding,
                i,
            )
    });
}

} // verus!
