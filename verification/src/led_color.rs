use vstd::prelude::*;
use vstd::string::StringExecFns;
use vstd::string::StrSliceExecFns;

verus! {

/// A 24-bit RGB colour, one byte per channel.
#[derive(Debug, Clone, Copy, PartialEq, Eq, Structural)]
pub struct LedColor {
    pub red: u8,
    pub green: u8,
    pub blue: u8,
}

/// The packed form of a colour: red in bits 16..24, green in bits 8..16,
/// blue in bits 0..8.
pub open spec fn pack(red: int, green: int, blue: int) -> int {
    red * 65536 + green * 256 + blue
}

/// The colour that a packed integer stands for; bits above the low 24 are
/// ignored.
pub open spec fn unpack(packed: int) -> LedColor {
    LedColor {
        red: ((packed / 65536) % 256) as u8,
        green: ((packed / 256) % 256) as u8,
        blue: (packed % 256) as u8,
    }
}

impl LedColor {
    /// The packed integer of this colour.
    pub open spec fn packed(self) -> u32 {
        pack(self.red as int, self.green as int, self.blue as int) as u32
    }

    /// Black.
    pub fn zero() -> (c: Self)
        ensures
            c == (LedColor { red: 0, green: 0, blue: 0 }),
            c.packed() == 0,
    {
        Self { red: 0, green: 0, blue: 0 }
    }

    /// Decodes a packed integer, discarding everything above bit 23.
    pub fn from_packed(color: u32) -> (c: Self)
        ensures
            c == unpack(color as int),
    {
        let r: u32 = (color >> 16) & 0xFF;
        let g: u32 = (color >> 8) & 0xFF;
        let b: u32 = color & 0xFF;
        assert(r == (color / 65536) % 256 && g == (color / 256) % 256 && b == color % 256)
            by (bit_vector)
            requires
                r == (color >> 16) & 0xFF,
                g == (color >> 8) & 0xFF,
                b == color & 0xFF,
        ;
        Self { red: r as u8, green: g as u8, blue: b as u8 }
    }

    /// Encodes this colour as a packed integer below 2^24.
    pub fn to_packed(self) -> (u: u32)
        ensures
            u == self.packed(),
            u < 0x100_0000,
    {
        let r: u32 = self.red as u32;
        let g: u32 = self.green as u32;
        let b: u32 = self.blue as u32;
        let u: u32 = (r << 16) | (g << 8) | b;
        assert(u == r * 65536 + g * 256 + b && u < 0x100_0000) by (bit_vector)
            requires
                u == (r << 16) | (g << 8) | b,
                r < 256,
                g < 256,
                b < 256,
        ;
        u
    }
}

impl From<u32> for LedColor {
    /// Decodes a packed integer, discarding everything above bit 23.
    fn from(color: u32) -> (c: Self) {
        LedColor::from_packed(color)
    }
}

impl vstd::std_specs::convert::FromSpecImpl<u32> for LedColor {
    open spec fn obeys_from_spec() -> bool {
        true
    }

    open spec fn from_spec(color: u32) -> Self {
        unpack(color as int)
    }
}

impl From<LedColor> for u32 {
    /// Encodes a colour as a packed integer below 2^24.
    fn from(color: LedColor) -> (u: u32) {
        color.to_packed()
    }
}

impl vstd::std_specs::convert::FromSpecImpl<LedColor> for u32 {
    open spec fn obeys_from_spec() -> bool {
        true
    }

    open spec fn from_spec(color: LedColor) -> u32 {
        color.packed()
    }
}

/// Decoding a packed integer below 2^24 and encoding the colour again gives
/// the integer back.
pub proof fn lemma_unpack_then_pack(u: u32)
    requires
        u < 0x100_0000,
    ensures
        unpack(u as int).packed() == u,
{
}

/// Whatever stands above bit 23 of a packed integer is lost in decoding:
/// encoding the colour again gives the low 24 bits.
pub proof fn lemma_unpack_discards_high_bits(u: u32)
    ensures
        unpack(u as int).packed() == u % 0x100_0000,
        unpack(u as int) == unpack((u % 0x100_0000) as int),
{
    let low: u32 = u % 0x100_0000;
    assert(((u / 65536) % 256) * 65536 + ((u / 256) % 256) * 256 + u % 256 == low) by (bit_vector)
        requires
            low == u % 0x100_0000,
    ;
    assert((low / 65536) % 256 == (u / 65536) % 256 && (low / 256) % 256 == (u / 256) % 256 && low
        % 256 == u % 256) by (bit_vector)
        requires
            low == u % 0x100_0000,
    ;
}

/// Encoding a colour and decoding the integer gives the colour back.
pub proof fn lemma_pack_then_unpack(c: LedColor)
    ensures
        unpack(c.packed() as int) == c,
{
}

/// The upper-case hexadecimal digit for a value below sixteen.
pub open spec fn hex_digit(d: int) -> char {
    if d == 0 {
        '0'
    } else if d == 1 {
        '1'
    } else if d == 2 {
        '2'
    } else if d == 3 {
        '3'
    } else if d == 4 {
        '4'
    } else if d == 5 {
        '5'
    } else if d == 6 {
        '6'
    } else if d == 7 {
        '7'
    } else if d == 8 {
        '8'
    } else if d == 9 {
        '9'
    } else if d == 10 {
        'A'
    } else if d == 11 {
        'B'
    } else if d == 12 {
        'C'
    } else if d == 13 {
        'D'
    } else if d == 14 {
        'E'
    } else {
        'F'
    }
}

/// The text `#RRGGBB` of a colour: two upper-case hexadecimal digits per
/// channel.
pub open spec fn hex_text(c: LedColor) -> Seq<char> {
    seq![
        '#',
        hex_digit(c.red as int / 16),
        hex_digit(c.red as int % 16),
        hex_digit(c.green as int / 16),
        hex_digit(c.green as int % 16),
        hex_digit(c.blue as int / 16),
        hex_digit(c.blue as int % 16),
    ]
}

fn hex_digit_str(d: u8) -> (s: &'static str)
    requires
        d < 16,
    ensures
        s@ == seq![hex_digit(d as int)],
{
    proof {
        reveal_strlit("0");
        reveal_strlit("1");
        reveal_strlit("2");
        reveal_strlit("3");
        reveal_strlit("4");
        reveal_strlit("5");
        reveal_strlit("6");
        reveal_strlit("7");
        reveal_strlit("8");
        reveal_strlit("9");
        reveal_strlit("A");
        reveal_strlit("B");
        reveal_strlit("C");
        reveal_strlit("D");
        reveal_strlit("E");
        reveal_strlit("F");
    }
    let s = match d {
        0 => "0",
        1 => "1",
        2 => "2",
        3 => "3",
        4 => "4",
        5 => "5",
        6 => "6",
        7 => "7",
        8 => "8",
        9 => "9",
        10 => "A",
        11 => "B",
        12 => "C",
        13 => "D",
        14 => "E",
        _ => "F",
    };
    assert(s@ =~= seq![hex_digit(d as int)]);
    s
}

impl LedColor {
    /// Renders the colour as `#RRGGBB` in upper-case hexadecimal.
    pub fn to_hex(self) -> (text: String)
        ensures
            text@ == hex_text(self),
    {
        proof {
            reveal_strlit("#");
        }
        let mut text = String::new();
        text.append("#");
        text.append(hex_digit_str(self.red / 16));
        text.append(hex_digit_str(self.red % 16));
        text.append(hex_digit_str(self.green / 16));
        text.append(hex_digit_str(self.green % 16));
        text.append(hex_digit_str(self.blue / 16));
        text.append(hex_digit_str(self.blue % 16));
        assert(text@ =~= hex_text(self));
        text
    }
}

/// Why a text is not a hexadecimal colour.
#[derive(Debug, Clone, Copy, PartialEq, Eq, Structural)]
pub enum ColorParseError {
    /// Nothing follows the optional `#`.
    Empty,
    /// A character is not a hexadecimal digit, or no digit follows the `+`.
    InvalidDigit,
    /// The digits are a number above 2^32 - 1.
    TooLarge,
}

/// The value of a hexadecimal digit of either case.
pub open spec fn hex_value(c: char) -> Option<int> {
    let code = c as int;
    if 48 <= code <= 57 {
        Some(code - 48)
    } else if 65 <= code <= 70 {
        Some(code - 55)
    } else if 97 <= code <= 102 {
        Some(code - 87)
    } else {
        None
    }
}

/// Whether every character is a hexadecimal digit.
pub open spec fn all_hex(digits: Seq<char>) -> bool {
    forall|i: int| 0 <= i < digits.len() ==> hex_value(#[trigger] digits[i]) is Some
}

/// The number that a run of hexadecimal digits writes, most significant
/// digit first.
pub open spec fn hex_number(digits: Seq<char>) -> int
    decreases digits.len(),
{
    if digits.len() == 0 {
        0
    } else {
        hex_number(digits.drop_last()) * 16 + match hex_value(digits.last()) {
            Some(d) => d,
            None => 0,
        }
    }
}

/// `text` without its first character, where that is `marker`.
pub open spec fn strip_marker(text: Seq<char>, marker: char) -> Seq<char> {
    if text.len() > 0 && text[0] == marker {
        text.subrange(1, text.len() as int)
    } else {
        text
    }
}

/// The colour that a text writes: an optional `#`, an optional `+`, then
/// one or more hexadecimal digits of either case that write a number below
/// 2^32, of which the low 24 bits are the colour.
pub open spec fn parse_hex(text: Seq<char>) -> Result<LedColor, ColorParseError> {
    let body = strip_marker(text, '#');
    let digits = strip_marker(body, '+');
    if body.len() == 0 {
        Err(ColorParseError::Empty)
    } else if digits.len() == 0 || !all_hex(digits) {
        Err(ColorParseError::InvalidDigit)
    } else if hex_number(digits) > u32::MAX {
        Err(ColorParseError::TooLarge)
    } else {
        Ok(unpack(hex_number(digits)))
    }
}

fn hex_value_of(c: char) -> (value: Option<u64>)
    ensures
        match value {
            Some(d) => hex_value(c) == Some(d as int) && d < 16,
            None => hex_value(c) is None,
        },
{
    let code: u32 = c as u32;
    if 48 <= code && code <= 57 {
        Some((code - 48) as u64)
    } else if 65 <= code && code <= 70 {
        Some((code - 55) as u64)
    } else if 97 <= code && code <= 102 {
        Some((code - 87) as u64)
    } else {
        None
    }
}

impl LedColor {
    /// Reads a colour from hexadecimal text such as `#2EC866` or `2EC866`.
    pub fn from_hex(text: &str) -> (parsed: Result<LedColor, ColorParseError>)
        ensures
            parsed == parse_hex(text@),
    {
        let len: usize = text.unicode_len();
        let mut i: usize = 0;
        if i < len && text.get_char(i) == '#' {
            i = 1;
        }
        let ghost body = strip_marker(text@, '#');
        assert(body =~= text@.subrange(i as int, len as int));
        if i == len {
            return Err(ColorParseError::Empty);
        }
        if text.get_char(i) == '+' {
            i = i + 1;
        }
        let ghost digits = strip_marker(body, '+');
        let first: usize = i;
        assert(digits =~= text@.subrange(first as int, len as int));
        if i == len {
            return Err(ColorParseError::InvalidDigit);
        }
        let mut value: u64 = 0;
        let mut too_large: bool = false;
        while i < len
            invariant
                first <= i <= len,
                len == text@.len(),
                digits == text@.subrange(first as int, len as int),
                body == strip_marker(text@, '#'),
                digits == strip_marker(body, '+'),
                body.len() > 0,
                digits.len() > 0,
                all_hex(text@.subrange(first as int, i as int)),
                !too_large ==> value == hex_number(text@.subrange(first as int, i as int))
                    && value <= u32::MAX,
                too_large ==> hex_number(text@.subrange(first as int, i as int)) > u32::MAX,
            decreases len - i,
        {
            let c = text.get_char(i);
            assert(text@.subrange(first as int, i + 1).drop_last() =~= text@.subrange(
                first as int,
                i as int,
            ));
            assert(text@.subrange(first as int, i + 1).last() == c);
            match hex_value_of(c) {
                None => {
                    assert(digits[i - first] == c);
                    return Err(ColorParseError::InvalidDigit);
                },
                Some(d) => {
                    if !too_large {
                        value = value * 16 + d;
                        if value > 0xffff_ffff {
                            too_large = true;
                        }
                    }
                },
            }
            assert forall|k: int| 0 <= k < i + 1 - first implies hex_value(
                #[trigger] text@.subrange(first as int, i + 1)[k],
            ) is Some by {
                if k < i - first {
                    assert(text@.subrange(first as int, i as int)[k] == text@.subrange(
                        first as int,
                        i + 1,
                    )[k]);
                }
            }
            i = i + 1;
        }
        assert(text@.subrange(first as int, i as int) =~= digits);
        if too_large {
            Err(ColorParseError::TooLarge)
        } else {
            Ok(LedColor::from_packed(value as u32))
        }
    }
}

} // verus!
