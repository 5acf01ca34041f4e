//! End-to-end tests of the two composers over the stock palette and emoji
//! table.

use identicons::color::Color;
use identicons::frac::Frac;
use identicons::shape::{ShapeIconData, ShapeType};
use identicons::shield::{ShieldIconData, ShieldIconTreatment};
use identicons::error::IconError;

fn palette() -> Vec<Color> {
    vec![
        Color { r: 69, g: 161, b: 255 },
        Color { r: 10, g: 132, b: 255 },
        Color { r: 0, g: 96, b: 223 },
        Color { r: 0, g: 62, b: 170 },
        Color { r: 0, g: 34, b: 117 },
        Color { r: 0, g: 15, b: 64 },
        Color { r: 48, g: 230, b: 11 },
        Color { r: 18, g: 188, b: 0 },
        Color { r: 5, g: 139, b: 0 },
        Color { r: 0, g: 101, b: 4 },
        Color { r: 0, g: 55, b: 6 },
        Color { r: 249, g: 249, b: 250 },
        Color { r: 237, g: 237, b: 240 },
        Color { r: 215, g: 215, b: 219 },
        Color { r: 177, g: 177, b: 179 },
        Color { r: 115, g: 115, b: 115 },
        Color { r: 74, g: 74, b: 79 },
        Color { r: 56, g: 56, b: 61 },
        Color { r: 42, g: 42, b: 46 },
        Color { r: 12, g: 12, b: 13 },
        Color { r: 54, g: 57, b: 89 },
        Color { r: 32, g: 35, b: 64 },
        Color { r: 15, g: 17, b: 38 },
        Color { r: 255, g: 26, b: 217 },
        Color { r: 237, g: 0, b: 181 },
        Color { r: 181, g: 0, b: 127 },
        Color { r: 125, g: 0, b: 79 },
        Color { r: 68, g: 0, b: 39 },
        Color { r: 255, g: 148, b: 0 },
        Color { r: 215, g: 110, b: 0 },
        Color { r: 164, g: 73, b: 0 },
        Color { r: 113, g: 43, b: 0 },
        Color { r: 62, g: 19, b: 0 },
        Color { r: 148, g: 0, b: 255 },
        Color { r: 128, g: 0, b: 215 },
        Color { r: 98, g: 0, b: 164 },
        Color { r: 68, g: 0, b: 113 },
        Color { r: 37, g: 0, b: 62 },
        Color { r: 255, g: 0, b: 57 },
        Color { r: 215, g: 0, b: 34 },
        Color { r: 164, g: 0, b: 15 },
        Color { r: 90, g: 0, b: 2 },
        Color { r: 62, g: 2, b: 0 },
        Color { r: 0, g: 254, b: 255 },
        Color { r: 0, g: 200, b: 215 },
        Color { r: 0, g: 142, b: 164 },
        Color { r: 0, g: 90, b: 113 },
        Color { r: 0, g: 45, b: 62 },
        Color { r: 255, g: 233, b: 0 },
        Color { r: 215, g: 182, b: 0 },
        Color { r: 164, g: 127, b: 0 },
        Color { r: 113, g: 81, b: 0 },
        Color { r: 62, g: 40, b: 0 },
    ]
}

fn emojis() -> Vec<char> {
    vec![
        '😄', '😃', '😀', '😊', '😉', '😍', '😘', '😚', '😗', '😙', '😜', '😝', '😛',
        '😳', '😁', '😔', '😌', '😒', '😞', '😣', '😢', '😂', '😭', '😪', '😥', '😰',
        '😅', '😓', '😨', '😱', '😠', '😡', '😤', '😖', '😆', '😋', '😷', '😎', '😴',
        '😵', '😲', '😟', '😦', '😧', '😈', '👿', '😮', '😬', '😐', '😯', '😶', '😇',
        '😏', '😑', '👼', '😺', '😻', '😽', '😼', '🙀', '😿', '😹', '😾', '👹', '👺',
        '🙈', '🙉', '🙊', '💀', '👽', '💩', '🔥', '✨', '🌟', '💫', '💥', '💦', '💧',
        '💤', '👂', '👀', '👃', '👅', '👄', '👍', '👎', '👌', '👊', '✊', '👋', '✋',
        '👐', '👆', '🙌', '🙏', '👏', '💪', '💃', '🎩', '👑', '👒', '👟', '👞', '👡',
        '👠', '👢', '💼', '👜', '👝', '👛', '👓', '🎀', '🌂', '💄', '💛', '💙', '💜',
        '💚', '💔', '💗', '💓', '💕', '💖', '💞', '💘', '💌', '💋', '💍', '💎', '👣',
        '🐶', '🐺', '🐱', '🐭', '🐹', '🐰', '🐸', '🐯', '🐨', '🐻', '🐷', '🐽', '🐮',
        '🐗', '🐵', '🐒', '🐴', '🐑', '🐘', '🐼', '🐧', '🐦', '🐤', '🐥', '🐣', '🐔',
        '🐍', '🐢', '🐛', '🐝', '🐜', '🐞', '🐌', '🐙', '🐚', '🐠', '🐟', '🐬', '🐳',
        '🐋', '🐄', '🐏', '🐀', '🐃', '🐅', '🐇', '🐉', '🐎', '🐐', '🐓', '🐕', '🐖',
        '🐁', '🐂', '🐲', '🐡', '🐊', '🐫', '🐪', '🐆', '🐈', '🐩', '🐾', '💐', '🌸',
        '🌷', '🍀', '🌹', '🌻', '🌺', '🍁', '🍃', '🍂', '🌿', '🌾', '🍄', '🌵', '🌴',
        '🌲', '🌳', '🌰', '🌱', '🌼', '🌐', '🌞', '🌝', '🌚', '🌜', '🌛', '🌙', '🌍',
        '🌎', '🌏', '⭐', '⛅', '⛄', '🌀', '💝', '🎒', '🎓', '🎏', '🎃', '👻', '🎄',
        '🎁', '🎋', '🎉', '🎈', '🔮', '🎥', '📷', '📹', '📼', '💿', '📀', '💽', '💾',
        '💻', '📱', '📞', '📟', '📠', '📡', '📺', '📻', '🔊', '🔔', '📢', '⏳', '⏰',
        '🔓', '🔒', '🔏', '🔐', '🔑', '🔎', '💡', '🔦', '🔆', '🔅', '🔌', '🔋', '🔍',
        '🛁', '🚿', '🚽', '🔧', '🔨', '🚪', '💣', '🔫', '🔪', '💊', '💉', '💰', '💸',
        '📨', '📬', '📌', '📎', '📕', '📓', '📚', '📖', '🔬', '🔭', '🎨', '🎬', '🎤',
        '🎵', '🎹', '🎻', '🎺', '🎷', '🎸', '👾', '🎮', '🃏', '🎲', '🎯', '🏈', '🏀',
        '⚽', '🎾', '🎱', '🏉', '🎳', '⛳', '🚴', '🏁', '🏇', '🏆', '🎿', '🏂', '🏄',
        '🎣', '🍵', '🍶', '🍼', '🍺', '🍻', '🍸', '🍹', '🍷', '🍴', '🍕', '🍔', '🍟',
        '🍗', '🍤', '🍞', '🍩', '🍮', '🍦', '🍨', '🍧', '🎂', '🍰', '🍪', '🍫', '🍬',
        '🍭', '🍯', '🍎', '🍏', '🍊', '🍋', '🍒', '🍇', '🍉', '🍓', '🍑', '🍌', '🍐',
        '🍍', '🍆', '🍅', '🌽', '🏠', '🏡', '⛵', '🚤', '🚣', '🚀', '🚁', '🚂', '🚎',
        '🚌', '🚍', '🚙', '🚘', '🚗', '🚕', '🚖', '🚛', '🚚', '🚨', '🚓', '🚔', '🚒',
        '🚑', '🚐', '🚲', '🚜', '💈', '🚦', '🚧', '🏮', '🎰', '🗿', '🎪', '🎭', '📍',
        '🚩', '💯',
    ]
}

/// Certain seeds must always generate the same icon data, so that icons do
/// not change over time.
#[test]
fn shapes_test_consistent_icons() {
    let expected = ShapeIconData {
        emoji: '\u{1F3BA}',
        shape: ShapeType::Polygon(4),
        fill_color: Color { r: 18, g: 188, b: 0 },
        border_color: Color { r: 128, g: 0, b: 215 },
        offset_hundredths: 0,
    };
    let actual = ShapeIconData::from_input("one", &palette(), &emojis()).unwrap();
    assert_eq!(expected, actual);

    // ----

    let expected = ShapeIconData {
        emoji: '\u{1F69B}',
        shape: ShapeType::Polygon(6),
        fill_color: Color { r: 90, g: 0, b: 2 },
        border_color: Color { r: 48, g: 230, b: 11 },
        offset_hundredths: 4,
    };
    let actual = ShapeIconData::from_input("two", &palette(), &emojis()).unwrap();
    assert_eq!(expected, actual);
}

/// Certain seeds must always generate the same shield data.
#[test]
fn shields_test_consistent_icons() {
    let expected = ShieldIconData {
        emoji: '\u{1F42A}',
        field_color: Color { r: 125, g: 0, b: 79 },
        treatment: ShieldIconTreatment::TwoColor {
            pattern_color: Color { r: 0, g: 254, b: 255 },
            angle: 0,
        },
    };
    let actual = ShieldIconData::from_input("one", &palette(), &emojis()).unwrap();
    assert_eq!(expected, actual);

    // ----

    let expected = ShieldIconData {
        emoji: '\u{1F50D}',
        field_color: Color { r: 148, g: 0, b: 255 },
        treatment: ShieldIconTreatment::TwoColor {
            pattern_color: Color { r: 48, g: 230, b: 11 },
            angle: 180,
        },
    };
    let actual = ShieldIconData::from_input("two", &palette(), &emojis()).unwrap();
    assert_eq!(expected, actual);
}

/// A seed whose treatment draw lands on the single-color band.
#[test]
fn shield_single_color_treatment() {
    let actual = ShieldIconData::from_input("six", &palette(), &emojis()).unwrap();
    assert_eq!(actual.emoji, '\u{1F63D}');
    assert_eq!(actual.field_color, Color { r: 18, g: 188, b: 0 });
    assert_eq!(actual.treatment, ShieldIconTreatment::SingleColor);
}

/// A striped shield carries the exact closed-form geometry: one stripe at
/// padding one tenth gives a stride of (1 - 2*0.1)/3 and a first stripe at
/// padding + stride.
#[test]
fn shield_stripe_geometry() {
    let actual = ShieldIconData::from_input("eight", &palette(), &emojis()).unwrap();
    assert_eq!(actual.emoji, '\u{1F489}');
    assert_eq!(actual.field_color, Color { r: 113, g: 43, b: 0 });
    match actual.treatment {
        ShieldIconTreatment::Stripes { pattern_color, stride, stripe_xs, angle } => {
            assert_eq!(pattern_color, Color { r: 0, g: 200, b: 215 });
            assert_eq!(stride, Frac { num: 8, den: 30 });
            assert_eq!(stripe_xs, vec![Frac { num: 11, den: 30 }]);
            assert_eq!(angle, 0);
            // closed form, within floating-point tolerance
            let count = 1.0f64;
            let padding = 0.1f64;
            let stride_f = (1.0 - 2.0 * padding) / (2.0 * count + 1.0);
            let x0 = padding + stride_f * 1.0;
            assert!((stride.num as f64 / stride.den as f64 - stride_f).abs() < 1e-12);
            assert!((stripe_xs[0].num as f64 / stripe_xs[0].den as f64 - x0).abs() < 1e-12);
        }
        other => panic!("expected stripes, got {:?}", other),
    }
}

/// One- and two-sided draws become circles; polygons have 3 to 9 sides.
#[test]
fn shape_sides_boundary() {
    for seed in ["five", "ten", "a"] {
        let d = ShapeIconData::from_input(seed, &palette(), &emojis()).unwrap();
        assert_eq!(d.shape, ShapeType::Circle);
    }
    for seed in ["one", "two", "three", "four", "six", "seven", "eight", "nine"] {
        let d = ShapeIconData::from_input(seed, &palette(), &emojis()).unwrap();
        if let ShapeType::Polygon(s) = d.shape {
            assert!((3..=9).contains(&s));
        }
    }
}

/// Every generated shape icon keeps both contrast rules.
#[test]
fn shape_contrast_holds() {
    let white = Color::white();
    for seed in ["one", "two", "three", "four", "five", "six", "seven", "eight"] {
        let d = ShapeIconData::from_input(seed, &palette(), &emojis()).unwrap();
        assert!(white.contrasts_well(&d.border_color));
        assert!(d.border_color.contrasts_well(&d.fill_color));
    }
}

/// Every generated shield icon keeps the contrast rule between the field and
/// the pattern color.
#[test]
fn shield_contrast_holds() {
    for seed in ["one", "two", "three", "four", "five", "six", "seven", "eight"] {
        let d = ShieldIconData::from_input(seed, &palette(), &emojis()).unwrap();
        match d.treatment {
            ShieldIconTreatment::SingleColor => {}
            ShieldIconTreatment::TwoColor { pattern_color, .. } => {
                assert!(d.field_color.contrasts_well(&pattern_color));
            }
            ShieldIconTreatment::Stripes { pattern_color, .. } => {
                assert!(d.field_color.contrasts_well(&pattern_color));
            }
        }
    }
}

/// The same seed and style always yield the same descriptor.
#[test]
fn composer_is_deterministic() {
    for seed in ["one", "two", "stripe", ""] {
        let a = ShapeIconData::from_input(seed, &palette(), &emojis()).unwrap();
        let b = ShapeIconData::from_input(seed, &palette(), &emojis()).unwrap();
        assert_eq!(a, b);
        let a = ShieldIconData::from_input(seed, &palette(), &emojis()).unwrap();
        let b = ShieldIconData::from_input(seed, &palette(), &emojis()).unwrap();
        assert_eq!(a, b);
    }
}

/// Distinct seeds yield different descriptors for these sample pairs.
#[test]
fn composer_is_sensitive() {
    let pairs = [("one", "two"), ("two", "three"), ("a", "b")];
    for (s1, s2) in pairs {
        let d1 = ShapeIconData::from_input(s1, &palette(), &emojis()).unwrap();
        let d2 = ShapeIconData::from_input(s2, &palette(), &emojis()).unwrap();
        assert_ne!(d1, d2);
        let d1 = ShieldIconData::from_input(s1, &palette(), &emojis()).unwrap();
        let d2 = ShieldIconData::from_input(s2, &palette(), &emojis()).unwrap();
        assert_ne!(d1, d2);
    }
}

/// An empty palette cannot supply a color: the composition fails rather than
/// returning a partial descriptor.
#[test]
fn empty_tables_fail() {
    let empty_colors: Vec<Color> = vec![];
    let empty_emojis: Vec<char> = vec![];
    let r = ShieldIconData::from_input("one", &empty_colors, &emojis());
    assert_eq!(r, Err(IconError::InvalidRange));
    let r = ShapeIconData::from_input("one", &palette(), &empty_emojis);
    assert_eq!(r, Err(IconError::InvalidRange));
}

/// The placeholder descriptors that `Default` provides.
#[test]
fn default_icons() {
    let d = ShapeIconData::default();
    assert_eq!(d.shape, ShapeType::Circle);
    assert_eq!(d.emoji, 'A');
    assert_eq!(d.fill_color, Color { r: 255, g: 255, b: 255 });
    assert_eq!(d.border_color, Color { r: 0, g: 0, b: 0 });
    assert_eq!(d.offset_hundredths, 0);
    let s = ShieldIconData::default();
    assert_eq!(s.treatment, ShieldIconTreatment::SingleColor);
    assert_eq!(s.field_color, Color { r: 0, g: 0, b: 0 });
    assert_eq!(s.emoji, 'A');
}
