//! Colours of the bar: the palette read from the configuration and the
//! styles drawn from it.
use vstd::prelude::*;

use crate::digits::{parse_u32_radix_chars, chars_of, spec_parse_u32_radix, IntErrorKind};

verus! {

/// Why a colour code was refused.
#[derive(Clone, Copy, Debug, PartialEq, Eq, Structural)]
pub enum ColorError {
    /// The code does not begin with `#`.
    InvalidFormat,
    /// What follows the `#` is no hexadecimal `u32`.
    Int(IntErrorKind),
}

impl ColorError {
    /// The sentence that describes the error.
    pub fn description(&self) -> (s: String)
        ensures
            s@ == match self {
                ColorError::InvalidFormat => "Invalid color format"@,
                ColorError::Int(k) => k.spec_description(),
            },
    {
        match self {
            ColorError::InvalidFormat => String::from_str("Invalid color format"),
            ColorError::Int(k) => k.description(),
        }
    }
}

/// A colour code `#` followed by a hexadecimal number (an optional `+`, then
/// hex digits of either case), read as `0xRRGGBB`.
pub open spec fn spec_parse_color(code: Seq<char>) -> Result<u32, ColorError> {
    if code.len() > 0 && code[0] == '#' {
        match spec_parse_u32_radix(code.drop_first(), 16) {
            Ok(v) => Ok(v),
            Err(k) => Err(ColorError::Int(k)),
        }
    } else {
        Err(ColorError::InvalidFormat)
    }
}

/// Reads a colour code such as `#1a1b26` into its number `0x1a1b26`.
pub fn parse_color(code: &str) -> (r: Result<u32, ColorError>)
    ensures
        r == spec_parse_color(code@),
{
    let cs = chars_of(code);
    if cs.len() > 0 && cs[0] == '#' {
        let mut rest: Vec<char> = Vec::new();
        let n = cs.len();
        for i in 1..n
            invariant
                n == cs@.len(),
                n > 0,
                rest@ == cs@.subrange(1, i as int),
        {
            rest.push(cs[i]);
            assert(cs@.subrange(1, i + 1) == cs@.subrange(1, i as int).push(cs@[i as int]));
        }
        assert(rest@ == cs@.drop_first());
        match parse_u32_radix_chars(&rest, 16) {
            Ok(v) => Ok(v),
            Err(k) => Err(ColorError::Int(k)),
        }
    } else {
        Err(ColorError::InvalidFormat)
    }
}

/// A background and a foreground colour, each `0xRRGGBB`.
#[derive(Clone, Copy, Debug, PartialEq, Eq, Structural)]
pub struct ColorPair {
    pub bg: u32,
    pub fg: u32,
}

/// The colours of the bar.
#[derive(Clone, Copy, Debug, PartialEq, Eq, Structural)]
pub struct Palette {
    pub primary: ColorPair,
}

/// The colours the layer surface is drawn with, each `0xRRGGBB`.
#[derive(Clone, Copy, Debug, PartialEq, Eq, Structural)]
pub struct Appearance {
    pub background_color: u32,
    pub text_color: u32,
}

/// The bar's theme.
#[derive(Clone, Copy, Debug)]
pub struct Theme {
    palette: Palette,
}

impl Theme {
    /// A theme with the given palette.
    pub fn new(palette: Palette) -> (t: Self)
        ensures
            t.spec_palette() == palette,
    {
        Theme { palette }
    }

    pub closed spec fn spec_palette(&self) -> Palette {
        self.palette
    }

    /// The theme's palette.
    pub fn palette(&self) -> (p: &Palette)
        ensures
            *p == self.spec_palette(),
    {
        &self.palette
    }

    /// The surface is drawn in the primary colours: the background behind,
    /// the foreground for text.
    pub fn default_style(&self) -> (a: Appearance)
        ensures
            a == (Appearance {
                background_color: self.spec_palette().primary.bg,
                text_color: self.spec_palette().primary.fg,
            }),
    {
        Appearance { background_color: self.palette.primary.bg, text_color: self.palette.primary.fg }
    }
}

/// How text is styled; there is one way.
#[derive(Clone, Copy, Debug, Default, PartialEq, Eq, Structural)]
pub enum TextVariant {
    #[default]
    Default,
}

} // verus!
