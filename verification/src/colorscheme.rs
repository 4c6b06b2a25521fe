//! Colour schemes for highlighted code, built from `#rrggbb` colour strings.

use vstd::prelude::*;
use crate::utf8_lines::bytes;

verus! {

/// A hexadecimal digit, in either case.
pub open spec fn is_hex_digit(b: u8) -> bool {
    (48 <= b && b <= 57) || (97 <= b && b <= 102) || (65 <= b && b <= 70)
}

/// The value of a hexadecimal digit.
pub open spec fn hex_digit_value(b: u8) -> int {
    if b <= 57 {
        b - 48
    } else if b >= 97 {
        b - 87
    } else {
        b - 55
    }
}

/// A `#` followed by six hexadecimal digits starts at byte `i` of `b`.
pub open spec fn hex_color_at(b: Seq<u8>, i: int) -> bool {
    &&& 0 <= i
    &&& i + 7 <= b.len()
    &&& b[i] == 35
    &&& forall|k: int| 1 <= k < 7 ==> is_hex_digit(#[trigger] b[i + k])
}

/// The first position at or after `j` where a colour starts, or -1 where none does.
pub open spec fn first_hex_color_from(b: Seq<u8>, j: int) -> int
    decreases b.len() - j,
{
    if j < 0 || j + 7 > b.len() {
        -1
    } else if hex_color_at(b, j) {
        j
    } else {
        first_hex_color_from(b, j + 1)
    }
}

proof fn lemma_first_hex_color(b: Seq<u8>, j: int)
    requires
        first_hex_color_from(b, j) >= 0,
    ensures
        hex_color_at(b, first_hex_color_from(b, j)),
    decreases b.len() - j,
{
    if j >= 0 && j + 7 <= b.len() && !hex_color_at(b, j) {
        lemma_first_hex_color(b, j + 1);
    }
}

/// The text holds a colour: a `#` and six hexadecimal digits, case ignored.
pub open spec fn holds_hex_color(color: Seq<char>) -> bool {
    first_hex_color_from(bytes(color), 0) >= 0
}

/// The byte value of the two hexadecimal digits at `i`.
pub open spec fn hex_byte(b: Seq<u8>, i: int) -> int {
    16 * hex_digit_value(b[i]) + hex_digit_value(b[i + 1])
}

/// The red, green and blue components of the first colour in the text.
pub open spec fn hex_color_value(color: Seq<char>) -> [u8; 3] {
    let b = bytes(color);
    let i = first_hex_color_from(b, 0);
    [hex_byte(b, i + 1) as u8, hex_byte(b, i + 3) as u8, hex_byte(b, i + 5) as u8]
}

/// A colour that could not be read.
#[derive(Debug)]
pub enum ColorError {
    InvalidHexColor,
}

fn hex_digit(b: u8) -> (r: bool)
    ensures
        r == is_hex_digit(b),
{
    (48 <= b && b <= 57) || (97 <= b && b <= 102) || (65 <= b && b <= 70)
}

fn digit_value(b: u8) -> (r: u8)
    requires
        is_hex_digit(b),
    ensures
        r == hex_digit_value(b),
        r < 16,
{
    if b <= 57 {
        b - 48
    } else if b >= 97 {
        b - 87
    } else {
        b - 55
    }
}

/// The first position where a colour starts, if any.
fn find_hex_color(b: &[u8]) -> (r: Option<usize>)
    ensures
        match r {
            Some(i) => i == first_hex_color_from(b@, 0),
            None => first_hex_color_from(b@, 0) < 0,
        },
{
    let n = b.len();
    let mut j: usize = 0;
    while j < n && n - j >= 7
        invariant
            n == b@.len(),
            first_hex_color_from(b@, 0) == first_hex_color_from(b@, j as int),
        decreases n - j,
    {
        if b[j] == 35u8 && hex_digit(b[j + 1]) && hex_digit(b[j + 2]) && hex_digit(b[j + 3])
            && hex_digit(b[j + 4]) && hex_digit(b[j + 5]) && hex_digit(b[j + 6]) {
            proof {
                assert forall|k: int| 1 <= k < 7 implies is_hex_digit(#[trigger] b@[j + k]) by {
                    if k == 1 {
                    } else if k == 2 {
                    } else if k == 3 {
                    } else if k == 4 {
                    } else if k == 5 {
                    } else {
                    }
                }
            }
            return Some(j);
        }
        proof {
            if hex_color_at(b@, j as int) {
                assert(is_hex_digit(b@[j + 1]));
                assert(is_hex_digit(b@[j + 2]));
                assert(is_hex_digit(b@[j + 3]));
                assert(is_hex_digit(b@[j + 4]));
                assert(is_hex_digit(b@[j + 5]));
                assert(is_hex_digit(b@[j + 6]));
            }
        }
        j = j + 1;
    }
    None
}

/// `true` when the text holds a colour `#rrggbb` (digits in either case).
pub fn is_hex_color(color: &str) -> (r: bool)
    ensures
        r == holds_hex_color(color@),
{
    find_hex_color(color.as_bytes()).is_some()
}

/// The red, green and blue components of the first `#rrggbb` colour in the text,
/// hexadecimal digits read in either case.
pub fn hex_color(color: &str) -> (r: Result<[u8; 3], ColorError>)
    requires
        holds_hex_color(color@),
    ensures
        r == Ok::<[u8; 3], ColorError>(hex_color_value(color@)),
{
    let b = color.as_bytes();
    let i = find_hex_color(b).unwrap();
    proof {
        lemma_first_hex_color(b@, 0);
        assert(hex_color_at(b@, i as int));
        assert(is_hex_digit(b@[i + 1]));
        assert(is_hex_digit(b@[i + 2]));
        assert(is_hex_digit(b@[i + 3]));
        assert(is_hex_digit(b@[i + 4]));
        assert(is_hex_digit(b@[i + 5]));
        assert(is_hex_digit(b@[i + 6]));
    }
    let n = b.len();
    assert(i + 7 <= n);
    let r = 16 * digit_value(b[i + 1]) + digit_value(b[i + 2]);
    let g = 16 * digit_value(b[i + 3]) + digit_value(b[i + 4]);
    let bl = 16 * digit_value(b[i + 5]) + digit_value(b[i + 6]);
    let rgb = [r, g, bl];
    proof {
        assert(rgb@ =~= hex_color_value(color@)@);
    }
    Ok(rgb)
}

/// The colours of highlighted code, as red, green and blue bytes.
pub struct ColorScheme {
    pub text_color: [u8; 3],
    pub keyword_color: [u8; 3],
    pub type_color: [u8; 3],
    pub function_color: [u8; 3],
    pub string_color: [u8; 3],
    pub primitive_color: [u8; 3],
    pub property_color: [u8; 3],
    pub operator_color: [u8; 3],
    pub comment_color: [u8; 3],
    pub punctuation_color: [u8; 3],
    pub line_number_color: [u8; 3],
}

/// The colours of a scheme, each as a `#rrggbb` string.
pub struct ColorSchemeBuilder {
    pub text_color: &'static str,
    pub keyword_color: &'static str,
    pub type_color: &'static str,
    pub function_color: &'static str,
    pub string_color: &'static str,
    pub primitive_color: &'static str,
    pub property_color: &'static str,
    pub operator_color: &'static str,
    pub comment_color: &'static str,
    pub punctuation_color: &'static str,
    pub line_number_color: &'static str,
}

impl Default for ColorSchemeBuilder {
    fn default() -> (r: Self)
        ensures
            r.text_color@ == "#F64740"@,
            r.keyword_color@ == "#7a28cb"@,
            r.type_color@ == "#ffd952"@,
            r.function_color@ == "#166088"@,
            r.string_color@ == "#4AAD52"@,
            r.primitive_color@ == "#DC2E3F"@,
            r.property_color@ == "#F489FA"@,
            r.operator_color@ == "#FFFFFF"@,
            r.comment_color@ == "#676779"@,
            r.punctuation_color@ == "#FFFFFF"@,
            r.line_number_color@ == "#FFFFFF"@,
    {
        Self {
            text_color: "#F64740",
            keyword_color: "#7a28cb",
            type_color: "#ffd952",
            function_color: "#166088",
            string_color: "#4AAD52",
            primitive_color: "#DC2E3F",
            property_color: "#F489FA",
            operator_color: "#FFFFFF",
            comment_color: "#676779",
            punctuation_color: "#FFFFFF",
            line_number_color: "#FFFFFF",
        }
    }
}

impl ColorSchemeBuilder {
    /// Every colour of the builder holds a `#rrggbb` colour.
    pub open spec fn all_colors_valid(&self) -> bool {
        &&& holds_hex_color(self.text_color@)
        &&& holds_hex_color(self.keyword_color@)
        &&& holds_hex_color(self.type_color@)
        &&& holds_hex_color(self.function_color@)
        &&& holds_hex_color(self.string_color@)
        &&& holds_hex_color(self.primitive_color@)
        &&& holds_hex_color(self.property_color@)
        &&& holds_hex_color(self.operator_color@)
        &&& holds_hex_color(self.comment_color@)
        &&& holds_hex_color(self.punctuation_color@)
        &&& holds_hex_color(self.line_number_color@)
    }

    /// The scheme the builder's colours give.
    pub open spec fn scheme(&self) -> ColorScheme {
        ColorScheme {
            text_color: hex_color_value(self.text_color@),
            keyword_color: hex_color_value(self.keyword_color@),
            type_color: hex_color_value(self.type_color@),
            function_color: hex_color_value(self.function_color@),
            string_color: hex_color_value(self.string_color@),
            primitive_color: hex_color_value(self.primitive_color@),
            property_color: hex_color_value(self.property_color@),
            operator_color: hex_color_value(self.operator_color@),
            comment_color: hex_color_value(self.comment_color@),
            punctuation_color: hex_color_value(self.punctuation_color@),
            line_number_color: hex_color_value(self.line_number_color@),
        }
    }

    /// `true` when every colour of the builder holds a `#rrggbb` colour.
    pub fn colors_valid(&self) -> (r: bool)
        ensures
            r == self.all_colors_valid(),
    {
        is_hex_color(self.text_color) && is_hex_color(self.keyword_color) && is_hex_color(
            self.type_color,
        ) && is_hex_color(self.function_color) && is_hex_color(self.string_color)
            && is_hex_color(self.primitive_color) && is_hex_color(self.property_color)
            && is_hex_color(self.operator_color) && is_hex_color(self.comment_color)
            && is_hex_color(self.punctuation_color) && is_hex_color(self.line_number_color)
    }

    /// The colour scheme of the builder's colours.
    pub fn build(&self) -> (r: Result<ColorScheme, ColorError>)
        requires
            self.all_colors_valid(),
        ensures
            r matches Ok(scheme) && scheme == self.scheme(),
    {
        let text_color = hex_color(self.text_color)?;
        let keyword_color = hex_color(self.keyword_color)?;
        let type_color = hex_color(self.type_color)?;
        let function_color = hex_color(self.function_color)?;
        let string_color = hex_color(self.string_color)?;
        let primitive_color = hex_color(self.primitive_color)?;
        let property_color = hex_color(self.property_color)?;
        let operator_color = hex_color(self.operator_color)?;
        let comment_color = hex_color(self.comment_color)?;
        let punctuation_color = hex_color(self.punctuation_color)?;
        let line_number_color = hex_color(self.line_number_color)?;
        Ok(
            ColorScheme {
                text_color,
                keyword_color,
                type_color,
                function_color,
                string_color,
                primitive_color,
                property_color,
                operator_color,
                comment_color,
                punctuation_color,
                line_number_color,
            },
        )
    }

    pub fn text_color(self, text_color: &'static str) -> (r: Self)
        ensures
            r == (Self { text_color, ..self }),
    {
        Self { text_color, ..self }
    }

    pub fn keyword_color(self, keyword_color: &'static str) -> (r: Self)
        ensures
            r == (Self { keyword_color, ..self }),
    {
        Self { keyword_color, ..self }
    }

    pub fn type_color(self, type_color: &'static str) -> (r: Self)
        ensures
            r == (Self { type_color, ..self }),
    {
        Self { type_color, ..self }
    }

    pub fn function_color(self, function_color: &'static str) -> (r: Self)
        ensures
            r == (Self { function_color, ..self }),
    {
        Self { function_color, ..self }
    }

    pub fn string_color(self, string_color: &'static str) -> (r: Self)
        ensures
            r == (Self { string_color, ..self }),
    {
        Self { string_color, ..self }
    }

    pub fn primitive_color(self, primitive_color: &'static str) -> (r: Self)
        ensures
            r == (Self { primitive_color, ..self }),
    {
        Self { primitive_color, ..self }
    }

    pub fn property_color(self, property_color: &'static str) -> (r: Self)
        ensures
            r == (Self { property_color, ..self }),
    {
        Self { property_color, ..self }
    }

    pub fn operator_color(self, operator_color: &'static str) -> (r: Self)
        ensures
            r == (Self { operator_color, ..self }),
    {
        Self { operator_color, ..self }
    }

    pub fn comment_color(self, comment_color: &'static str) -> (r: Self)
        ensures
            r == (Self { comment_color, ..self }),
    {
        Self { comment_color, ..self }
    }

    pub fn punctuation_color(self, punctuation_color: &'static str) -> (r: Self)
        ensures
            r == (Self { punctuation_color, ..self }),
    {
        Self { punctuation_color, ..self }
    }

    pub fn line_number_color(self, line_number_color: &'static str) -> (r: Self)
        ensures
            r == (Self { line_number_color, ..self }),
    {
        Self { line_number_color, ..self }
    }
}

} // verus!
