//! Formatting overlays: colour, font, decorations and shadow.
use vstd::prelude::*;
use crate::text::{chars_of, copy_opt_string, opt_view, owned};

verus! {

/// A text colour: one of the sixteen named colours, or an RGB triple.
#[derive(Clone, Copy, Debug, PartialEq, Eq, Structural)]
pub enum Color {
    Black,
    DarkBlue,
    DarkGreen,
    DarkAqua,
    DarkRed,
    DarkPurple,
    Gold,
    Gray,
    DarkGray,
    Blue,
    Green,
    Aqua,
    Red,
    LightPurple,
    Yellow,
    White,
    Hex(u8, u8, u8),
}

/// Optional formatting fields; an absent field is inherited from the parent.
#[derive(Debug)]
pub struct Format {
    pub color: Option<Color>,
    pub font: Option<String>,
    pub bold: Option<bool>,
    pub italic: Option<bool>,
    pub underline: Option<bool>,
    pub strikethrough: Option<bool>,
    pub obfuscated: Option<bool>,
    pub shadow_color: Option<u32>,
}

/// The mathematical value of a [Format].
pub struct FormatModel {
    pub color: Option<Color>,
    pub font: Option<Seq<char>>,
    pub bold: Option<bool>,
    pub italic: Option<bool>,
    pub underline: Option<bool>,
    pub strikethrough: Option<bool>,
    pub obfuscated: Option<bool>,
    pub shadow_color: Option<u32>,
}

impl View for Format {
    type V = FormatModel;

    open spec fn view(&self) -> FormatModel {
        FormatModel {
            color: self.color,
            font: opt_view(self.font),
            bold: self.bold,
            italic: self.italic,
            underline: self.underline,
            strikethrough: self.strikethrough,
            obfuscated: self.obfuscated,
            shadow_color: self.shadow_color,
        }
    }
}

/// `a` when it is set, else `b`.
pub open spec fn or_else<T>(a: Option<T>, b: Option<T>) -> Option<T> {
    if a is Some {
        a
    } else {
        b
    }
}

/// The format with no field set.
pub open spec fn empty_format() -> FormatModel {
    FormatModel {
        color: None,
        font: None,
        bold: None,
        italic: None,
        underline: None,
        strikethrough: None,
        obfuscated: None,
        shadow_color: None,
    }
}

/// Field-wise merge: each field of `a` when set, else that of `b`.
pub open spec fn mix_format(a: FormatModel, b: FormatModel) -> FormatModel {
    FormatModel {
        color: or_else(a.color, b.color),
        font: or_else(a.font, b.font),
        bold: or_else(a.bold, b.bold),
        italic: or_else(a.italic, b.italic),
        underline: or_else(a.underline, b.underline),
        strikethrough: or_else(a.strikethrough, b.strikethrough),
        obfuscated: or_else(a.obfuscated, b.obfuscated),
        shadow_color: or_else(a.shadow_color, b.shadow_color),
    }
}

/// The font that a reset format names.
pub open spec fn default_font() -> Seq<char> {
    seq!['m', 'i', 'n', 'e', 'c', 'r', 'a', 'f', 't', ':', 'd', 'e', 'f', 'a', 'u', 'l', 't']
}

/// The reset format: white, default font, no decoration, no shadow.
pub open spec fn reset_format() -> FormatModel {
    FormatModel {
        color: Some(Color::White),
        font: Some(default_font()),
        bold: Some(false),
        italic: Some(false),
        underline: Some(false),
        strikethrough: Some(false),
        obfuscated: Some(false),
        shadow_color: None,
    }
}

/// The value of a hexadecimal digit, if `c` is one.
pub open spec fn hex_value(c: char) -> Option<u8> {
    if '0' <= c <= '9' {
        Some((c as u32 - '0' as u32) as u8)
    } else if 'a' <= c <= 'f' {
        Some((c as u32 - 'a' as u32 + 10) as u8)
    } else if 'A' <= c <= 'F' {
        Some((c as u32 - 'A' as u32 + 10) as u8)
    } else {
        None
    }
}

/// The colour written `#rrggbb`, if `s` is exactly that.
pub open spec fn hex_color(s: Seq<char>) -> Option<Color> {
    if s.len() == 7 && s[0] == '#' && (forall|i: int| 1 <= i < 7 ==> hex_value(s[i]) is Some) {
        Some(
            Color::Hex(
                (hex_value(s[1])->0 * 16 + hex_value(s[2])->0) as u8,
                (hex_value(s[3])->0 * 16 + hex_value(s[4])->0) as u8,
                (hex_value(s[5])->0 * 16 + hex_value(s[6])->0) as u8,
            ),
        )
    } else {
        None
    }
}

/// The packed ARGB value of a shadow colour.
pub open spec fn argb(a: u8, r: u8, g: u8, b: u8) -> int {
    a * 16777216 + r * 65536 + g * 256 + b
}

fn hex_digit(c: char) -> (r: Option<u8>)
    ensures
        r == hex_value(c),
{
    if '0' <= c && c <= '9' {
        Some((c as u32 - '0' as u32) as u8)
    } else if 'a' <= c && c <= 'f' {
        Some((c as u32 - 'a' as u32 + 10) as u8)
    } else if 'A' <= c && c <= 'F' {
        Some((c as u32 - 'A' as u32 + 10) as u8)
    } else {
        None
    }
}

/// Reads a colour written `#rrggbb`.
pub fn parse_hex_color(s: &Vec<char>) -> (r: Option<Color>)
    ensures
        r == hex_color(s@),
{
    if s.len() != 7 || s[0] != '#' {
        return None;
    }
    let mut digits: Vec<u8> = Vec::new();
    let mut i: usize = 1;
    while i < 7
        invariant
            s@.len() == 7,
            1 <= i <= 7,
            digits@.len() == i - 1,
            forall|j: int| 1 <= j < i ==> hex_value(#[trigger] s@[j]) == Some(digits@[j - 1]),
        decreases 7 - i,
    {
        match hex_digit(s[i]) {
            Some(d) => digits.push(d),
            None => return None,
        }
        i += 1;
    }
    assert(forall|j: int| 1 <= j < 7 ==> hex_value(#[trigger] s@[j]) is Some);
    assert(forall|j: int| 0 <= j < 6 ==> #[trigger] digits@[j] < 16) by {
        assert forall|j: int| 0 <= j < 6 implies #[trigger] digits@[j] < 16 by {
            assert(hex_value(s@[j + 1]) == Some(digits@[j]));
        }
    }
    Some(Color::Hex(digits[0] * 16 + digits[1], digits[2] * 16 + digits[3], digits[4] * 16 + digits[5]))
}

impl Default for Format {
    fn default() -> (r: Format)
        ensures
            r@ == empty_format(),
    {
        Format::new()
    }
}

impl Format {
    /// A format with no field set.
    pub fn new() -> (r: Format)
        ensures
            r@ == empty_format(),
    {
        Format {
            color: None,
            font: None,
            bold: None,
            italic: None,
            underline: None,
            strikethrough: None,
            obfuscated: None,
            shadow_color: None,
        }
    }

    /// Sets the colour.
    pub fn color(self, color: Color) -> (r: Format)
        ensures
            r@ == (FormatModel { color: Some(color), ..self@ }),
    {
        Format { color: Some(color), ..self }
    }

    /// Sets the colour from `#rrggbb`; any other text leaves the format unchanged.
    pub fn color_hex(self, color: &str) -> (r: Format)
        ensures
            hex_color(color@) is Some ==> r@ == (FormatModel { color: hex_color(color@), ..self@ }),
            hex_color(color@) is None ==> r@ == self@,
    {
        let cs = chars_of(color);
        match parse_hex_color(&cs) {
            Some(c) => Format { color: Some(c), ..self },
            None => self,
        }
    }

    /// Sets the font.
    pub fn font(self, font: String) -> (r: Format)
        ensures
            r@ == (FormatModel { font: Some(font@), ..self@ }),
    {
        Format { font: Some(font), ..self }
    }

    /// Sets bold.
    pub fn bold(self, value: bool) -> (r: Format)
        ensures
            r@ == (FormatModel { bold: Some(value), ..self@ }),
    {
        Format { bold: Some(value), ..self }
    }

    /// Sets italic.
    pub fn italic(self, value: bool) -> (r: Format)
        ensures
            r@ == (FormatModel { italic: Some(value), ..self@ }),
    {
        Format { italic: Some(value), ..self }
    }

    /// Sets underline.
    pub fn underline(self, value: bool) -> (r: Format)
        ensures
            r@ == (FormatModel { underline: Some(value), ..self@ }),
    {
        Format { underline: Some(value), ..self }
    }

    /// Sets strikethrough.
    pub fn strikethrough(self, value: bool) -> (r: Format)
        ensures
            r@ == (FormatModel { strikethrough: Some(value), ..self@ }),
    {
        Format { strikethrough: Some(value), ..self }
    }

    /// Sets obfuscation.
    pub fn obfuscated(self, value: bool) -> (r: Format)
        ensures
            r@ == (FormatModel { obfuscated: Some(value), ..self@ }),
    {
        Format { obfuscated: Some(value), ..self }
    }

    /// Sets the shadow colour from its alpha, red, green and blue parts.
    pub fn shadow_color(self, a: u8, r: u8, g: u8, b: u8) -> (out: Format)
        ensures
            out@ == (FormatModel { shadow_color: Some(argb(a, r, g, b) as u32), ..self@ }),
    {
        let v: u32 = (a as u32) * 16777216 + (r as u32) * 65536 + (g as u32) * 256 + (b as u32);
        Format { shadow_color: Some(v), ..self }
    }

    /// Sets every field to its default: white, default font, no decoration, no shadow.
    pub fn reset(self) -> (r: Format)
        ensures
            r@ == reset_format(),
    {
        let font = owned("minecraft:default");
        proof {
            reveal_strlit("minecraft:default");
        }
        assert(font@ =~= default_font());
        Format {
            color: Some(Color::White),
            font: Some(font),
            bold: Some(false),
            italic: Some(false),
            underline: Some(false),
            strikethrough: Some(false),
            obfuscated: Some(false),
            shadow_color: None,
        }
    }

    /// Field-wise merge: each field of `self` when set, else that of `other`.
    pub fn mix(&self, other: &Format) -> (r: Format)
        ensures
            r@ == mix_format(self@, other@),
    {
        Format {
            color: if self.color.is_some() { self.color } else { other.color },
            font: if self.font.is_some() { copy_opt_string(&self.font) } else { copy_opt_string(&other.font) },
            bold: if self.bold.is_some() { self.bold } else { other.bold },
            italic: if self.italic.is_some() { self.italic } else { other.italic },
            underline: if self.underline.is_some() { self.underline } else { other.underline },
            strikethrough: if self.strikethrough.is_some() { self.strikethrough } else { other.strikethrough },
            obfuscated: if self.obfuscated.is_some() { self.obfuscated } else { other.obfuscated },
            shadow_color: if self.shadow_color.is_some() { self.shadow_color } else { other.shadow_color },
        }
    }

    /// Whether no field is set.
    pub fn is_none(&self) -> (r: bool)
        ensures
            r == (self@ == empty_format()),
    {
        self.color.is_none() && self.font.is_none() && self.bold.is_none() && self.italic.is_none()
            && self.underline.is_none() && self.strikethrough.is_none() && self.obfuscated.is_none()
            && self.shadow_color.is_none()
    }

    /// A copy of this format.
    pub fn copy(&self) -> (r: Format)
        ensures
            r@ == self@,
    {
        Format {
            color: self.color,
            font: copy_opt_string(&self.font),
            bold: self.bold,
            italic: self.italic,
            underline: self.underline,
            strikethrough: self.strikethrough,
            obfuscated: self.obfuscated,
            shadow_color: self.shadow_color,
        }
    }
}

/// Merging takes each field from the first format when it is set and from the second
/// otherwise, independently for every field; merging three formats gives the same
/// result however the merges are grouped, and the empty format is neutral on both sides.
pub proof fn lemma_mix_fallback(a: FormatModel, b: FormatModel, c: FormatModel)
    ensures
        mix_format(a, b).color == (if a.color is Some { a.color } else { b.color }),
        mix_format(a, b).font == (if a.font is Some { a.font } else { b.font }),
        mix_format(a, b).bold == (if a.bold is Some { a.bold } else { b.bold }),
        mix_format(a, b).italic == (if a.italic is Some { a.italic } else { b.italic }),
        mix_format(a, b).underline == (if a.underline is Some { a.underline } else { b.underline }),
        mix_format(a, b).strikethrough == (if a.strikethrough is Some { a.strikethrough } else { b.strikethrough }),
        mix_format(a, b).obfuscated == (if a.obfuscated is Some { a.obfuscated } else { b.obfuscated }),
        mix_format(a, b).shadow_color == (if a.shadow_color is Some { a.shadow_color } else { b.shadow_color }),
        mix_format(mix_format(a, b), c) == mix_format(a, mix_format(b, c)),
        mix_format(a, empty_format()) == a,
        mix_format(empty_format(), a) == a,
{
}

} // verus!
