use rars::anchor::{capitalize_anchor_name, default_anchor, layer_anchor, Anchor, AnchorSet};
use rars::digits::{chars_of, digit_of, parse_u32_radix, IntErrorKind};
use rars::themes::{parse_color, Appearance, ColorError, ColorPair, Palette, TextVariant, Theme};

#[test]
fn chars_of_keeps_every_character() {
    assert_eq!(chars_of("aé#"), vec!['a', 'é', '#']);
    assert_eq!(chars_of(""), Vec::<char>::new());
}

#[test]
fn digit_of_reads_both_cases() {
    assert_eq!(digit_of('7', 10), Some(7));
    assert_eq!(digit_of('a', 16), Some(10));
    assert_eq!(digit_of('F', 16), Some(15));
    assert_eq!(digit_of('g', 16), None);
    assert_eq!(digit_of('a', 10), None);
    assert_eq!(digit_of('z', 36), Some(35));
}

#[test]
fn parse_hex_values() {
    assert_eq!(parse_u32_radix("ff", 16), Ok(255));
    assert_eq!(parse_u32_radix("+1A", 16), Ok(26));
    assert_eq!(parse_u32_radix("FFFFFFFF", 16), Ok(u32::MAX));
    assert_eq!(parse_u32_radix("0000000000ff", 16), Ok(255));
}

#[test]
fn parse_decimal_values() {
    assert_eq!(parse_u32_radix("4294967295", 10), Ok(u32::MAX));
    assert_eq!(parse_u32_radix("0", 10), Ok(0));
    assert_eq!(parse_u32_radix("12345", 10), Ok(12345));
}

#[test]
fn parse_errors_follow_from_str_radix() {
    assert_eq!(parse_u32_radix("", 16), Err(IntErrorKind::Empty));
    assert_eq!(parse_u32_radix("+", 16), Err(IntErrorKind::InvalidDigit));
    assert_eq!(parse_u32_radix("-", 16), Err(IntErrorKind::InvalidDigit));
    assert_eq!(parse_u32_radix("-1", 10), Err(IntErrorKind::InvalidDigit));
    assert_eq!(parse_u32_radix("12 ", 10), Err(IntErrorKind::InvalidDigit));
    assert_eq!(parse_u32_radix("1_000", 10), Err(IntErrorKind::InvalidDigit));
    assert_eq!(parse_u32_radix("100000000", 16), Err(IntErrorKind::PosOverflow));
    assert_eq!(parse_u32_radix("4294967296", 10), Err(IntErrorKind::PosOverflow));
    // the first problem from the left decides
    assert_eq!(parse_u32_radix("FFFFFFFFFZ", 16), Err(IntErrorKind::PosOverflow));
    assert_eq!(parse_u32_radix("Z0FFFFFFFFF", 16), Err(IntErrorKind::InvalidDigit));
}

#[test]
fn parse_agrees_with_std() {
    let cases = ["", "+", "-", "0", "+7", "-7", "ff", "FF", "fF0", "1a2b3c4d", "ffffffff", "100000000", "xyz", " 1", "é"];
    for c in cases {
        let ours = parse_u32_radix(c, 16);
        match u32::from_str_radix(c, 16) {
            Ok(v) => assert_eq!(ours, Ok(v), "{c}"),
            Err(e) => {
                let kind = match e.kind() {
                    std::num::IntErrorKind::Empty => IntErrorKind::Empty,
                    std::num::IntErrorKind::InvalidDigit => IntErrorKind::InvalidDigit,
                    std::num::IntErrorKind::PosOverflow => IntErrorKind::PosOverflow,
                    _ => panic!("unexpected kind"),
                };
                assert_eq!(ours, Err(kind), "{c}");
                assert_eq!(kind.description(), e.to_string());
            }
        }
    }
}

#[test]
fn parse_color_reads_hex_codes() {
    assert_eq!(parse_color("#1a1b26"), Ok(0x1a1b26));
    assert_eq!(parse_color("#C0CAF5"), Ok(0xc0caf5));
    assert_eq!(parse_color("#+ff"), Ok(0xff));
}

#[test]
fn parse_color_errors() {
    assert_eq!(parse_color("1a1b26"), Err(ColorError::InvalidFormat));
    assert_eq!(parse_color(""), Err(ColorError::InvalidFormat));
    assert_eq!(parse_color("#"), Err(ColorError::Int(IntErrorKind::Empty)));
    assert_eq!(parse_color("#zz"), Err(ColorError::Int(IntErrorKind::InvalidDigit)));
    assert_eq!(parse_color("#123456789"), Err(ColorError::Int(IntErrorKind::PosOverflow)));
    assert_eq!(ColorError::InvalidFormat.description(), "Invalid color format");
    assert_eq!(
        ColorError::Int(IntErrorKind::InvalidDigit).description(),
        "invalid digit found in string"
    );
}

#[test]
fn theme_draws_primary_colours() {
    let palette = Palette { primary: ColorPair { bg: 0x1a1b26, fg: 0xc0caf5 } };
    let theme = Theme::new(palette);
    assert_eq!(*theme.palette(), palette);
    assert_eq!(theme.default_style(), Appearance { background_color: 0x1a1b26, text_color: 0xc0caf5 });
    assert_eq!(TextVariant::default(), TextVariant::Default);
}

#[test]
fn anchor_names_are_capitalised() {
    assert_eq!(capitalize_anchor_name("TOP"), "Top");
    assert_eq!(capitalize_anchor_name("bottom"), "Bottom");
    assert_eq!(capitalize_anchor_name("lEfT"), "Left");
    assert_eq!(capitalize_anchor_name("Right"), "Right");
    assert_eq!(capitalize_anchor_name(""), "");
    assert_eq!(capitalize_anchor_name("ÉTÉ"), "été");
    assert_eq!(capitalize_anchor_name("1top"), "1top");
}

#[test]
fn layer_anchor_spans_the_edge() {
    assert_eq!(default_anchor(), Anchor::Top);
    assert_eq!(layer_anchor(Anchor::Top), AnchorSet { top: true, bottom: false, left: true, right: true });
    assert_eq!(layer_anchor(Anchor::Bottom), AnchorSet { top: false, bottom: true, left: true, right: true });
    assert_eq!(layer_anchor(Anchor::Left), AnchorSet { top: true, bottom: true, left: true, right: false });
    assert_eq!(layer_anchor(Anchor::Right), AnchorSet { top: true, bottom: true, left: false, right: true });
}
