//! Colour schemes: sixteen RGB colours each, in the order of the ANSI
//! colour codes (eight dark, then eight bright).
use vstd::prelude::*;

use crate::text::{chars_of, push_char, push_str, same_text};

verus! {

/// A set of sixteen colours.
#[derive(Debug, PartialEq, Eq)]
pub enum ColourScheme {
    /// The classic VGA colours.
    CLASSIC,
    /// A softer, modern look.
    MODERN,
    /// Colours after the catppuccin palette.
    CATPPUCCIN,
    /// Colours after the dracula palette.
    DRACULA,
    /// Colours after the rose-pine palette.
    ROSEPINE,
    /// Colours given by the user.
    CUSTOM([[u8; 3]; 16]),
}

impl Clone for ColourScheme {
    fn clone(&self) -> (r: ColourScheme)
        ensures
            r == *self,
    {
        match self {
            ColourScheme::CLASSIC => ColourScheme::CLASSIC,
            ColourScheme::MODERN => ColourScheme::MODERN,
            ColourScheme::CATPPUCCIN => ColourScheme::CATPPUCCIN,
            ColourScheme::DRACULA => ColourScheme::DRACULA,
            ColourScheme::ROSEPINE => ColourScheme::ROSEPINE,
            ColourScheme::CUSTOM(c) => ColourScheme::CUSTOM(*c),
        }
    }
}

/// A colour as `0xRRGGBB`.
pub open spec fn rgb_of(c: [u8; 3]) -> u32 {
    (c[0] * 65536 + c[1] * 256 + c[2]) as u32
}

/// The sixteen colours of a scheme, as `0xRRGGBB`.
pub open spec fn palette(s: ColourScheme) -> Seq<u32> {
    match s {
        ColourScheme::CLASSIC => seq![
            0x000000u32,
            0xAB0000u32,
            0x00AB00u32,
            0xAB5700u32,
            0x0000ABu32,
            0xAB00ABu32,
            0x00ABABu32,
            0xABABABu32,
            0x575757u32,
            0xFF5757u32,
            0x57FF57u32,
            0xFFFF57u32,
            0x5757FFu32,
            0xFF57FFu32,
            0x57FFFFu32,
            0xFFFFFFu32,
        ],
        ColourScheme::MODERN => seq![
            0x0A0A0Au32,
            0x994D4Du32,
            0x8C994Du32,
            0xCC9966u32,
            0x4D6699u32,
            0xB35986u32,
            0x4D9999u32,
            0x999999u32,
            0x4D4D4Du32,
            0xCC7A7Au32,
            0xBECC7Au32,
            0xFFCC99u32,
            0x7A96CCu32,
            0xE68AB8u32,
            0x7ACCCCu32,
            0xE6E6E6u32,
        ],
        ColourScheme::CATPPUCCIN => seq![
            0x232634u32,
            0xDB6363u32,
            0x82BD64u32,
            0xD4AA68u32,
            0x6C8AE6u32,
            0xE693CDu32,
            0x4EB5ABu32,
            0xA5ADCEu32,
            0x51576Du32,
            0xE78284u32,
            0xA6D189u32,
            0xE5C890u32,
            0x8CAAEEu32,
            0xF4B8E4u32,
            0x81C8BEu32,
            0xC6D0F5u32,
        ],
        ColourScheme::DRACULA => seq![
            0x21222Cu32,
            0xFF5555u32,
            0x50FA7Bu32,
            0xF1FA8Cu32,
            0xBD93F9u32,
            0xFF79C6u32,
            0x8BE9FDu32,
            0xF8F8F2u32,
            0x6272A4u32,
            0xFF6E6Eu32,
            0x69FF94u32,
            0xFFFFA5u32,
            0xD6ACFFu32,
            0xFF92DFu32,
            0xA4FFFFu32,
            0xFFFFFFu32,
        ],
        ColourScheme::ROSEPINE => seq![
            0x191724u32,
            0xB4526Eu32,
            0x8B954Du32,
            0xC49656u32,
            0x31748Fu32,
            0x907AA9u32,
            0x56949Fu32,
            0x908CAAu32,
            0x403D52u32,
            0xEB6F92u32,
            0xB7C46Au32,
            0xF6C177u32,
            0x3E8FB0u32,
            0xC4A7E7u32,
            0x9CCFD8u32,
            0xE0DEF4u32,
        ],
        ColourScheme::CUSTOM(c) => Seq::new(16, |i: int| rgb_of(c[i])),
    }
}

/// A lower-case hexadecimal digit.
pub open spec fn lower_digit(d: nat) -> char {
    if d < 10 {
        ((d + 48) as u8) as char
    } else {
        ((d + 87) as u8) as char
    }
}

/// A colour written `#rrggbb`.
pub open spec fn colour_code(c: [u8; 3]) -> Seq<char> {
    seq![
        '#',
        lower_digit((c[0] / 16) as nat),
        lower_digit((c[0] % 16) as nat),
        lower_digit((c[1] / 16) as nat),
        lower_digit((c[1] % 16) as nat),
        lower_digit((c[2] / 16) as nat),
        lower_digit((c[2] % 16) as nat),
    ]
}

/// The first `k` colour codes, separated by commas.
pub open spec fn colour_codes(c: [[u8; 3]; 16], k: int) -> Seq<char>
    decreases k,
{
    if k <= 0 {
        seq![]
    } else if k == 1 {
        colour_code(c[0])
    } else {
        colour_codes(c, k - 1) + seq![','] + colour_code(c[k - 1])
    }
}

/// The name of a scheme, as `get` reads it.
pub open spec fn scheme_name(s: ColourScheme) -> Seq<char> {
    match s {
        ColourScheme::CLASSIC => "CLASSIC"@,
        ColourScheme::MODERN => "MODERN"@,
        ColourScheme::CATPPUCCIN => "CATPPUCCIN"@,
        ColourScheme::DRACULA => "DRACULA"@,
        ColourScheme::ROSEPINE => "ROSEPINE"@,
        ColourScheme::CUSTOM(c) => "CUSTOM("@ + colour_codes(c, 16) + ")"@,
    }
}

/// The value of an upper-case hexadecimal digit, if it is one.
pub open spec fn hex_value(c: char) -> Option<nat> {
    if '0' <= c && c <= '9' {
        Some((c as nat - 48) as nat)
    } else if 'A' <= c && c <= 'F' {
        Some((c as nat - 55) as nat)
    } else {
        None
    }
}

/// Whether a text is `CUSTOM(` followed by sixteen `#RRGGBB` codes in upper
/// case, separated by commas, and `)`.
pub open spec fn is_custom_text(u: Seq<char>) -> bool {
    &&& u.len() == 135
    &&& u.subrange(0, 7) == "CUSTOM("@
    &&& u[134] == ')'
    &&& forall|k: int| 0 <= k < 16 ==> #[trigger] u[7 + 8 * k] == '#'
    &&& forall|k: int| 0 <= k < 15 ==> #[trigger] u[14 + 8 * k] == ','
    &&& forall|k: int, j: int|
        0 <= k < 16 && 1 <= j <= 6 ==> (#[trigger] hex_value(u[7 + 8 * k + j])) is Some
}

/// The byte written by the two digits at `at` and `at + 1`.
pub open spec fn hex_byte(u: Seq<char>, at: int) -> u8 {
    (hex_value(u[at])->0 * 16 + hex_value(u[at + 1])->0) as u8
}

/// Whether the colours are those that a custom text writes.
pub open spec fn colours_of_text(c: [[u8; 3]; 16], u: Seq<char>) -> bool {
    forall|k: int, j: int|
        0 <= k < 16 && 0 <= j < 3 ==> #[trigger] c[k][j] == hex_byte(u, 8 + 8 * k + 2 * j)
}

/// The preset scheme that an upper-case text names, if any.
pub open spec fn named_scheme(u: Seq<char>) -> Option<ColourScheme> {
    if u == "CLASSIC"@ {
        Some(ColourScheme::CLASSIC)
    } else if u == "MODERN"@ {
        Some(ColourScheme::MODERN)
    } else if u == "CATPPUCCIN"@ {
        Some(ColourScheme::CATPPUCCIN)
    } else if u == "DRACULA"@ {
        Some(ColourScheme::DRACULA)
    } else if u == "ROSEPINE"@ {
        Some(ColourScheme::ROSEPINE)
    } else {
        None
    }
}

/// Whether a text starts with `CUSTOM(`.
pub open spec fn starts_custom(u: Seq<char>) -> bool {
    u.len() >= 7 && u.subrange(0, 7) == "CUSTOM("@
}

/// What reading a scheme gives for a name whose upper-case form is `u`.
pub open spec fn reads_as(r: Result<ColourScheme, String>, u: Seq<char>, name: Seq<char>) -> bool {
    if named_scheme(u) is Some {
        r == Ok::<ColourScheme, String>(named_scheme(u)->0)
    } else if is_custom_text(u) {
        r matches Ok(ColourScheme::CUSTOM(c)) && colours_of_text(c, u)
    } else if starts_custom(u) {
        r matches Err(e) && e@ == "Unparseable colour scheme: "@ + name
    } else {
        r matches Err(e) && e@ == "Unknown scheme: "@ + name
    }
}

/// The text in upper case, as `str::to_uppercase` gives it.
pub uninterp spec fn upper_of(s: Seq<char>) -> Seq<char>;

/// Relies on `str::to_uppercase`: the result depends on the text alone.
#[verifier::external_body]
fn to_upper(s: &str) -> (r: String)
    ensures
        r@ == upper_of(s@),
{
    s.to_uppercase()
}

fn hex_digit_value(c: char) -> (r: u8)
    requires
        hex_value(c) is Some,
    ensures
        r as nat == hex_value(c)->0,
        r < 16,
{
    if c <= '9' {
        (c as u32 - 48) as u8
    } else {
        (c as u32 - 55) as u8
    }
}

fn parse_hex(hi: char, lo: char) -> (r: u8)
    requires
        hex_value(hi) is Some,
        hex_value(lo) is Some,
    ensures
        r as nat == hex_value(hi)->0 * 16 + hex_value(lo)->0,
{
    hex_digit_value(hi) * 16 + hex_digit_value(lo)
}

fn starts_with_custom(u: &[char]) -> (r: bool)
    ensures
        r == starts_custom(u@),
{
    proof {
        reveal_strlit("CUSTOM(");
    }
    if u.len() < 7 {
        return false;
    }
    let r = u[0] == 'C' && u[1] == 'U' && u[2] == 'S' && u[3] == 'T' && u[4] == 'O' && u[5] == 'M'
        && u[6] == '(';
    if r {
        assert(u@.subrange(0, 7) =~= "CUSTOM("@);
    } else {
        assert(u@.subrange(0, 7) != "CUSTOM("@) by {
            if u@.subrange(0, 7) == "CUSTOM("@ {
                assert(u@.subrange(0, 7)[0] == u@[0]);
                assert(u@.subrange(0, 7)[1] == u@[1]);
                assert(u@.subrange(0, 7)[2] == u@[2]);
                assert(u@.subrange(0, 7)[3] == u@[3]);
                assert(u@.subrange(0, 7)[4] == u@[4]);
                assert(u@.subrange(0, 7)[5] == u@[5]);
                assert(u@.subrange(0, 7)[6] == u@[6]);
            }
        }
    }
    r
}

fn is_custom_chars(u: &[char]) -> (r: bool)
    ensures
        r == is_custom_text(u@),
{
    if u.len() != 135 || !starts_with_custom(u) || u[134] != ')' {
        return false;
    }
    let mut k: usize = 0;
    while k < 16
        invariant
            u@.len() == 135,
            starts_custom(u@),
            u@[134] == ')',
            k <= 16,
            forall|x: int| 0 <= x < k ==> #[trigger] u@[7 + 8 * x] == '#',
            forall|x: int| 0 <= x < k && x < 15 ==> #[trigger] u@[14 + 8 * x] == ',',
            forall|x: int, j: int|
                0 <= x < k && 1 <= j <= 6 ==> (#[trigger] hex_value(u@[7 + 8 * x + j])) is Some,
        decreases 16 - k,
    {
        let at = 7 + 8 * k;
        if u[at] != '#' {
            return false;
        }
        if k < 15 && u[at + 7] != ',' {
            assert(u@[14 + 8 * k] != ',');
            return false;
        }
        let mut j: usize = 1;
        while j <= 6
            invariant
                u@.len() == 135,
                k < 16,
                at == 7 + 8 * k,
                1 <= j <= 7,
                forall|i: int| 1 <= i < j ==> (#[trigger] hex_value(u@[at + i])) is Some,
            decreases 7 - j,
        {
            let c = u[at + j];
            if !(('0' <= c && c <= '9') || ('A' <= c && c <= 'F')) {
                assert(hex_value(u@[7 + 8 * k + j]) is None);
                return false;
            }
            j = j + 1;
        }
        k = k + 1;
    }
    true
}

proof fn lemma_custom_digits(u: Seq<char>)
    requires
        is_custom_text(u),
    ensures
        forall|p: int|
            8 <= p <= 133 && (p - 7) % 8 != 0 && (p - 7) % 8 != 7 ==> (#[trigger] hex_value(
                u[p],
            )) is Some,
{
    assert forall|p: int| 8 <= p <= 133 && (p - 7) % 8 != 0 && (p - 7) % 8 != 7 implies (
    #[trigger] hex_value(u[p])) is Some by {
        let k = (p - 7) / 8;
        let j = (p - 7) % 8;
        assert(p == 7 + 8 * k + j);
    }
}

fn custom_colour(u: &[char], k: usize) -> (r: [u8; 3])
    requires
        is_custom_text(u@),
        k < 16,
    ensures
        forall|j: int| 0 <= j < 3 ==> #[trigger] r[j] == hex_byte(u@, 8 + 8 * k + 2 * j),
{
    proof {
        lemma_custom_digits(u@);
    }
    let at = 8 + 8 * k;
    [parse_hex(u[at], u[at + 1]), parse_hex(u[at + 2], u[at + 3]), parse_hex(u[at + 4], u[at + 5])]
}

fn custom_colours(u: &[char]) -> (r: [[u8; 3]; 16])
    requires
        is_custom_text(u@),
    ensures
        colours_of_text(r, u@),
{
    let r = [
        custom_colour(u, 0),
        custom_colour(u, 1),
        custom_colour(u, 2),
        custom_colour(u, 3),
        custom_colour(u, 4),
        custom_colour(u, 5),
        custom_colour(u, 6),
        custom_colour(u, 7),
        custom_colour(u, 8),
        custom_colour(u, 9),
        custom_colour(u, 10),
        custom_colour(u, 11),
        custom_colour(u, 12),
        custom_colour(u, 13),
        custom_colour(u, 14),
        custom_colour(u, 15),
    ];
    r
}

/// Reads a scheme from its upper-case name; `name` is the name as given,
/// which the error messages quote.
pub fn from_upper(upper: &str, name: &str) -> (r: Result<ColourScheme, String>)
    ensures
        reads_as(r, upper@, name@),
{
    let u = upper;
    let named = if same_text(u, "CLASSIC") {
        Some(ColourScheme::CLASSIC)
    } else if same_text(u, "MODERN") {
        Some(ColourScheme::MODERN)
    } else if same_text(u, "CATPPUCCIN") {
        Some(ColourScheme::CATPPUCCIN)
    } else if same_text(u, "DRACULA") {
        Some(ColourScheme::DRACULA)
    } else if same_text(u, "ROSEPINE") {
        Some(ColourScheme::ROSEPINE)
    } else {
        None
    };
    if let Some(s) = named {
        return Ok(s);
    }
    let cs = chars_of(upper);
    if is_custom_chars(cs.as_slice()) {
        return Ok(ColourScheme::CUSTOM(custom_colours(cs.as_slice())));
    }
    let mut e = String::new();
    if starts_with_custom(cs.as_slice()) {
        push_str(&mut e, "Unparseable colour scheme: ");
    } else {
        push_str(&mut e, "Unknown scheme: ");
    }
    push_str(&mut e, name);
    Err(e)
}

fn lower_hex_digit(d: u8) -> (c: char)
    requires
        d < 16,
    ensures
        c == lower_digit(d as nat),
{
    if d < 10 {
        (d + 48) as char
    } else {
        (d + 87) as char
    }
}

/// Appends a colour written `#rrggbb`.
fn push_colour_code(r: &mut String, c: [u8; 3])
    ensures
        final(r)@ == old(r)@ + colour_code(c),
{
    push_char(r, '#');
    push_char(r, lower_hex_digit(c[0] / 16));
    push_char(r, lower_hex_digit(c[0] % 16));
    push_char(r, lower_hex_digit(c[1] / 16));
    push_char(r, lower_hex_digit(c[1] % 16));
    push_char(r, lower_hex_digit(c[2] / 16));
    push_char(r, lower_hex_digit(c[2] % 16));
    assert(r@ =~= old(r)@ + colour_code(c));
}

impl ColourScheme {
    /// The scheme's name, as `get` reads it back.
    pub fn name(&self) -> (r: String)
        ensures
            r@ == scheme_name(*self),
    {
        match self {
            ColourScheme::CLASSIC => "CLASSIC".to_owned(),
            ColourScheme::MODERN => "MODERN".to_owned(),
            ColourScheme::CATPPUCCIN => "CATPPUCCIN".to_owned(),
            ColourScheme::DRACULA => "DRACULA".to_owned(),
            ColourScheme::ROSEPINE => "ROSEPINE".to_owned(),
            ColourScheme::CUSTOM(c) => {
                let mut r = String::new();
                push_str(&mut r, "CUSTOM(");
                let mut k: usize = 0;
                while k < 16
                    invariant
                        k <= 16,
                        r@ == "CUSTOM("@ + colour_codes(*c, k as int),
                    decreases 16 - k,
                {
                    if k > 0 {
                        push_char(&mut r, ',');
                    }
                    push_colour_code(&mut r, c[k]);
                    k = k + 1;
                    assert(r@ =~= "CUSTOM("@ + colour_codes(*c, k as int));
                }
                push_str(&mut r, ")");
                r
            },
        }
    }

    /// Reads a scheme by name, in any case: a preset's name, or `CUSTOM(`
    /// followed by sixteen comma-separated `#RRGGBB` codes and `)`.
    pub fn get(name: &String) -> (r: Result<ColourScheme, String>)
        ensures
            reads_as(r, upper_of(name@), name@),
    {
        let upper = to_upper(name.as_str());
        from_upper(upper.as_str(), name.as_str())
    }

    /// The scheme's sixteen colours.
    pub fn colours(&self) -> (r: [[u8; 3]; 16])
        ensures
            forall|i: int| 0 <= i < 16 ==> rgb_of(#[trigger] r[i]) == palette(*self)[i],
            self matches ColourScheme::CUSTOM(c) ==> r == c,
    {
        match self {
            ColourScheme::CLASSIC => [
                [0x00, 0x00, 0x00],
                [0xAB, 0x00, 0x00],
                [0x00, 0xAB, 0x00],
                [0xAB, 0x57, 0x00],
                [0x00, 0x00, 0xAB],
                [0xAB, 0x00, 0xAB],
                [0x00, 0xAB, 0xAB],
                [0xAB, 0xAB, 0xAB],
                [0x57, 0x57, 0x57],
                [0xFF, 0x57, 0x57],
                [0x57, 0xFF, 0x57],
                [0xFF, 0xFF, 0x57],
                [0x57, 0x57, 0xFF],
                [0xFF, 0x57, 0xFF],
                [0x57, 0xFF, 0xFF],
                [0xFF, 0xFF, 0xFF],
            ],
            ColourScheme::MODERN => [
                [0x0A, 0x0A, 0x0A],
                [0x99, 0x4D, 0x4D],
                [0x8C, 0x99, 0x4D],
                [0xCC, 0x99, 0x66],
                [0x4D, 0x66, 0x99],
                [0xB3, 0x59, 0x86],
                [0x4D, 0x99, 0x99],
                [0x99, 0x99, 0x99],
                [0x4D, 0x4D, 0x4D],
                [0xCC, 0x7A, 0x7A],
                [0xBE, 0xCC, 0x7A],
                [0xFF, 0xCC, 0x99],
                [0x7A, 0x96, 0xCC],
                [0xE6, 0x8A, 0xB8],
                [0x7A, 0xCC, 0xCC],
                [0xE6, 0xE6, 0xE6],
            ],
            ColourScheme::CATPPUCCIN => [
                [0x23, 0x26, 0x34],
                [0xDB, 0x63, 0x63],
                [0x82, 0xBD, 0x64],
                [0xD4, 0xAA, 0x68],
                [0x6C, 0x8A, 0xE6],
                [0xE6, 0x93, 0xCD],
                [0x4E, 0xB5, 0xAB],
                [0xA5, 0xAD, 0xCE],
                [0x51, 0x57, 0x6D],
                [0xE7, 0x82, 0x84],
                [0xA6, 0xD1, 0x89],
                [0xE5, 0xC8, 0x90],
                [0x8C, 0xAA, 0xEE],
                [0xF4, 0xB8, 0xE4],
                [0x81, 0xC8, 0xBE],
                [0xC6, 0xD0, 0xF5],
            ],
            ColourScheme::DRACULA => [
                [0x21, 0x22, 0x2C],
                [0xFF, 0x55, 0x55],
                [0x50, 0xFA, 0x7B],
                [0xF1, 0xFA, 0x8C],
                [0xBD, 0x93, 0xF9],
                [0xFF, 0x79, 0xC6],
                [0x8B, 0xE9, 0xFD],
                [0xF8, 0xF8, 0xF2],
                [0x62, 0x72, 0xA4],
                [0xFF, 0x6E, 0x6E],
                [0x69, 0xFF, 0x94],
                [0xFF, 0xFF, 0xA5],
                [0xD6, 0xAC, 0xFF],
                [0xFF, 0x92, 0xDF],
                [0xA4, 0xFF, 0xFF],
                [0xFF, 0xFF, 0xFF],
            ],
            ColourScheme::ROSEPINE => [
                [0x19, 0x17, 0x24],
                [0xB4, 0x52, 0x6E],
                [0x8B, 0x95, 0x4D],
                [0xC4, 0x96, 0x56],
                [0x31, 0x74, 0x8F],
                [0x90, 0x7A, 0xA9],
                [0x56, 0x94, 0x9F],
                [0x90, 0x8C, 0xAA],
                [0x40, 0x3D, 0x52],
                [0xEB, 0x6F, 0x92],
                [0xB7, 0xC4, 0x6A],
                [0xF6, 0xC1, 0x77],
                [0x3E, 0x8F, 0xB0],
                [0xC4, 0xA7, 0xE7],
                [0x9C, 0xCF, 0xD8],
                [0xE0, 0xDE, 0xF4],
            ],
            ColourScheme::CUSTOM(c) => *c,
        }
    }

    /// One colour of the scheme.
    pub fn colour(&self, index: u8) -> (r: [u8; 3])
        requires
            index < 16,
        ensures
            rgb_of(r) == palette(*self)[index as int],
    {
        let all = self.colours();
        all[index as usize]
    }
}

} // verus!
