//! The escape-sequence interpreter: walks the bytes of a file and tells
//! where each visible byte goes and in which colours.
//!
//! It understands SGR colour codes (`ESC[...m`), a custom RGB code
//! (`ESC[target;r;g;bt`), cursor down (`ESC[nB`) and cursor right
//! (`ESC[nC`). Other sequences are reported and dropped.
use vstd::prelude::*;
use vstd::utf8::valid_utf8;

verus! {

/// A byte drawn at a cell, in its background and foreground colours.
#[derive(Debug, PartialEq, Eq)]
pub struct Glyph {
    pub byte: u8,
    pub x: u16,
    pub y: u16,
    pub bg: [u8; 3],
    pub fg: [u8; 3],
}

/// Something in the input that was dropped.
#[derive(Debug, PartialEq, Eq)]
pub enum Warning {
    /// An SGR code that is not understood.
    UnknownSgr(u64),
    /// A custom RGB code whose target is neither 0 nor 1.
    InvalidRgbTarget(Vec<u8>),
    /// A sequence ended by a byte that is not understood.
    InvalidControl(u8),
}

/// What one byte of input produced.
#[derive(Debug, PartialEq, Eq)]
pub enum Event {
    Draw(Glyph),
    Warn(Warning),
}

/// Why an escape sequence could not be read.
#[derive(Debug, PartialEq, Eq)]
pub enum RenderError {
    /// A parameter that is not a number in range.
    BadNumber,
    /// A custom RGB code with fewer than four parameters.
    MissingField,
    /// A sequence that ends right after the escape byte.
    NoParameters,
    /// A custom RGB target that is not UTF-8 text.
    NotText,
}

/// The active colours.
pub struct Colour {
    pub bg: [u8; 3],
    pub fg: [u8; 3],
    pub bright: bool,
}

impl Clone for Colour {
    fn clone(&self) -> (r: Colour)
        ensures
            r == *self,
    {
        Colour { bg: self.bg, fg: self.fg, bright: self.bright }
    }
}

pub const ESC: u8 = 0x1B;

/// Whether a byte is an ASCII digit.
pub open spec fn is_digit(b: u8) -> bool {
    48 <= b <= 57
}

/// Whether every byte is an ASCII digit.
pub open spec fn all_digits(s: Seq<u8>) -> bool {
    forall|i: int| 0 <= i < s.len() ==> is_digit(#[trigger] s[i])
}

/// The value of a run of digits.
pub open spec fn digits_value(s: Seq<u8>) -> nat
    decreases s.len(),
{
    if s.len() == 0 {
        0
    } else {
        digits_value(s.drop_last()) * 10 + (s.last() - 48) as nat
    }
}

/// A decimal number as `str::parse` reads an unsigned integer: an optional
/// `+` and one or more digits, no greater than `max`.
pub open spec fn number(s: Seq<u8>, max: nat) -> Option<nat> {
    let d = if s.len() >= 1 && s[0] == 0x2B { s.drop_first() } else { s };
    if d.len() >= 1 && all_digits(d) && digits_value(d) <= max {
        Some(digits_value(d))
    } else {
        None
    }
}

proof fn lemma_digits_grow(s: Seq<u8>, k: int)
    requires
        0 <= k <= s.len(),
        all_digits(s),
    ensures
        digits_value(s.subrange(0, k)) <= digits_value(s),
    decreases s.len() - k,
{
    if k < s.len() {
        lemma_digits_grow(s, k + 1);
        assert(s.subrange(0, k + 1).drop_last() =~= s.subrange(0, k));
    } else {
        assert(s.subrange(0, k) =~= s);
    }
}

/// Reads `s[lo..hi]` as a number no greater than `max`.
pub fn parse_number(s: &[u8], lo: usize, hi: usize, max: u64) -> (r: Option<u64>)
    requires
        lo <= hi <= s@.len(),
    ensures
        r == (match number(s@.subrange(lo as int, hi as int), max as nat) {
            Some(v) => Some(v as u64),
            None => None::<u64>,
        }),
{
    let ghost t = s@.subrange(lo as int, hi as int);
    let start = if lo < hi && s[lo] == 0x2B { lo + 1 } else { lo };
    let ghost d = s@.subrange(start as int, hi as int);
    assert(d =~= (if t.len() >= 1 && t[0] == 0x2B { t.drop_first() } else { t }));
    if start >= hi {
        return None;
    }
    let mut v: u64 = 0;
    let mut i: usize = start;
    while i < hi
        invariant
            lo <= start <= i <= hi <= s@.len(),
            d == s@.subrange(start as int, hi as int),
            t == s@.subrange(lo as int, hi as int),
            d == (if t.len() >= 1 && t[0] == 0x2B { t.drop_first() } else { t }),
            all_digits(s@.subrange(start as int, i as int)),
            v as nat == digits_value(s@.subrange(start as int, i as int)),
            v <= max,
        decreases hi - i,
    {
        let b = s[i];
        assert(s@.subrange(start as int, i + 1).drop_last() =~= s@.subrange(start as int, i as int));
        if b < 48 || b > 57 {
            assert(!is_digit(d[i - start]));
            return None;
        }
        let digit = (b - 48) as u64;
        if digit > max || v > (max - digit) / 10 {
            proof {
                let w = digits_value(s@.subrange(start as int, i + 1));
                assert(w == v * 10 + digit);
                assert(w > max) by (nonlinear_arith)
                    requires
                        w == v * 10 + digit,
                        digit > max || v > (max - digit) / 10,
                {
                }
                if all_digits(d) {
                    lemma_digits_grow(d, i + 1 - start);
                    assert(d.subrange(0, i + 1 - start) =~= s@.subrange(start as int, i + 1));
                }
            }
            return None;
        }
        v = v * 10 + digit;
        i = i + 1;
        assert forall|j: int| 0 <= j < i - start implies is_digit(
            #[trigger] s@.subrange(start as int, i as int)[j],
        ) by {
            if j < i - 1 - start {
                assert(s@.subrange(start as int, i - 1)[j] == s@.subrange(start as int, i as int)[j]);
            }
        }
    }
    assert(s@.subrange(start as int, i as int) =~= d);
    Some(v)
}

/// The parameters of a sequence, split at `;`; there is always at least one.
pub open spec fn fields(s: Seq<u8>) -> Seq<Seq<u8>>
    decreases s.len(),
{
    if s.len() == 0 {
        seq![seq![]]
    } else {
        let f = fields(s.drop_last());
        if s.last() == 0x3B {
            f.push(seq![])
        } else {
            f.update(f.len() - 1, f.last().push(s.last()))
        }
    }
}

proof fn lemma_fields_len(s: Seq<u8>)
    ensures
        fields(s).len() >= 1,
    decreases s.len(),
{
    if s.len() > 0 {
        lemma_fields_len(s.drop_last());
    }
}

/// The bounds of each `;`-separated field of `s[lo..hi]`.
fn split_fields(s: &[u8], lo: usize, hi: usize) -> (r: Vec<(usize, usize)>)
    requires
        lo <= hi <= s@.len(),
    ensures
        r@.len() == fields(s@.subrange(lo as int, hi as int)).len(),
        forall|k: int|
            #![trigger r@[k]]
            0 <= k < r@.len() ==> r@[k].0 <= r@[k].1 <= hi && s@.subrange(
                r@[k].0 as int,
                r@[k].1 as int,
            ) == fields(s@.subrange(lo as int, hi as int))[k],
{
    let mut r: Vec<(usize, usize)> = Vec::new();
    let mut start: usize = lo;
    let mut i: usize = lo;
    proof {
        assert(s@.subrange(lo as int, lo as int) =~= Seq::<u8>::empty());
    }
    while i < hi
        invariant
            lo <= start <= i <= hi <= s@.len(),
            fields(s@.subrange(lo as int, i as int)).len() == r@.len() + 1,
            fields(s@.subrange(lo as int, i as int)).last() == s@.subrange(start as int, i as int),
            forall|k: int|
                #![trigger r@[k]]
                0 <= k < r@.len() ==> r@[k].0 <= r@[k].1 <= i && s@.subrange(
                    r@[k].0 as int,
                    r@[k].1 as int,
                ) == fields(s@.subrange(lo as int, i as int))[k],
        decreases hi - i,
    {
        let ghost f = fields(s@.subrange(lo as int, i as int));
        let ghost g = fields(s@.subrange(lo as int, i + 1));
        proof {
            lemma_fields_len(s@.subrange(lo as int, i as int));
        }
        assert(s@.subrange(lo as int, i + 1).drop_last() =~= s@.subrange(lo as int, i as int));
        assert(s@.subrange(lo as int, i + 1).last() == s@[i as int]);
        if s[i] == 0x3B {
            assert(g == f.push(seq![]));
            r.push((start, i));
            start = i + 1;
            assert(s@.subrange(start as int, i + 1) =~= Seq::<u8>::empty());
        } else {
            assert(g == f.update(f.len() - 1, f.last().push(s@[i as int])));
            assert(s@.subrange(start as int, i + 1) =~= s@.subrange(start as int, i as int).push(
                s@[i as int],
            ));
        }
        assert forall|k: int| #![trigger r@[k]] 0 <= k < r@.len() implies r@[k].0 <= r@[k].1 <= i + 1 && s@.subrange(
            r@[k].0 as int,
            r@[k].1 as int,
        ) == g[k] by {
            if k < r@.len() - 1 || s@[i as int] != 0x3B {
                assert(g[k] == f[k]);
            }
        }
        i = i + 1;
        assert(fields(s@.subrange(lo as int, i as int)) == g);

    }
    r.push((start, hi));
    r
}

/// Whether an SGR code is understood.
pub open spec fn is_known_sgr(n: nat) -> bool {
    n == 0 || n == 1 || (30 <= n <= 37) || n == 39 || (40 <= n <= 47) || n == 49 || (90 <= n <= 97)
        || (100 <= n <= 107)
}

/// The colours after one SGR code: 0 resets, 1 sets bright, 30-37 and
/// 90-97 pick the foreground, 40-47 and 100-107 the background, 39 and 49
/// restore the default foreground and background.
pub open spec fn sgr(c: Colour, n: nat, p: [[u8; 3]; 16]) -> Colour {
    if n == 0 {
        Colour { bg: p[0], fg: p[15], bright: false }
    } else if n == 1 {
        Colour { bright: true, ..c }
    } else if 30 <= n <= 37 {
        Colour { fg: p[n - 30 + if c.bright { 8int } else { 0int }], ..c }
    } else if n == 39 {
        Colour { fg: p[15], ..c }
    } else if 40 <= n <= 47 {
        Colour { bg: p[n - 40], ..c }
    } else if n == 49 {
        Colour { bg: p[0], ..c }
    } else if 90 <= n <= 97 {
        Colour { fg: p[n - 82], ..c }
    } else if 100 <= n <= 107 {
        Colour { bg: p[n - 92], ..c }
    } else {
        c
    }
}

/// The number an SGR field stands for: an empty field is 0.
pub open spec fn sgr_number(f: Seq<u8>) -> Option<nat> {
    if f.len() == 0 {
        Some(0)
    } else {
        number(f, u64::MAX as nat)
    }
}

/// SGR fields applied in order: the colours and the codes not understood,
/// or `None` where a field is not a number.
pub open spec fn sgr_fields(c: Colour, fs: Seq<Seq<u8>>, p: [[u8; 3]; 16]) -> Option<(Colour, Seq<u64>)>
    decreases fs.len(),
{
    if fs.len() == 0 {
        Some((c, seq![]))
    } else {
        match sgr_fields(c, fs.drop_last(), p) {
            None => None,
            Some((c1, w)) => match sgr_number(fs.last()) {
                None => None,
                Some(n) => Some(
                    (sgr(c1, n, p), if is_known_sgr(n) { w } else { w.push(n as u64) }),
                ),
            },
        }
    }
}

proof fn lemma_sgr_none_extends(c: Colour, fs: Seq<Seq<u8>>, k: int, p: [[u8; 3]; 16])
    requires
        0 <= k <= fs.len(),
        sgr_fields(c, fs.subrange(0, k), p) is None,
    ensures
        sgr_fields(c, fs, p) is None,
    decreases fs.len() - k,
{
    if k < fs.len() {
        assert(fs.subrange(0, k + 1).drop_last() =~= fs.subrange(0, k));
        lemma_sgr_none_extends(c, fs, k + 1, p);
    } else {
        assert(fs.subrange(0, k) =~= fs);
    }
}

fn apply_sgr(c: &Colour, n: u64, p: &[[u8; 3]; 16]) -> (r: Colour)
    ensures
        r == sgr(*c, n as nat, *p),
{
    if n == 0 {
        Colour { bg: p[0], fg: p[15], bright: false }
    } else if n == 1 {
        Colour { bg: c.bg, fg: c.fg, bright: true }
    } else if 30 <= n && n <= 37 {
        let i = (n - 30) as usize + if c.bright { 8 } else { 0 };
        Colour { bg: c.bg, fg: p[i], bright: c.bright }
    } else if n == 39 {
        Colour { bg: c.bg, fg: p[15], bright: c.bright }
    } else if 40 <= n && n <= 47 {
        Colour { bg: p[(n - 40) as usize], fg: c.fg, bright: c.bright }
    } else if n == 49 {
        Colour { bg: p[0], fg: c.fg, bright: c.bright }
    } else if 90 <= n && n <= 97 {
        Colour { bg: c.bg, fg: p[(n - 82) as usize], bright: c.bright }
    } else if 100 <= n && n <= 107 {
        Colour { bg: p[(n - 92) as usize], fg: c.fg, bright: c.bright }
    } else {
        c.clone()
    }
}

fn known_sgr(n: u64) -> (r: bool)
    ensures
        r == is_known_sgr(n as nat),
{
    n == 0 || n == 1 || (30 <= n && n <= 37) || n == 39 || (40 <= n && n <= 47) || n == 49 || (90
        <= n && n <= 97) || (100 <= n && n <= 107)
}

/// Applies the SGR fields of `s[lo..hi]` in order.
fn apply_sgr_fields(s: &[u8], lo: usize, hi: usize, c: &Colour, p: &[[u8; 3]; 16]) -> (r: Option<(Colour, Vec<u64>)>)
    requires
        lo <= hi <= s@.len(),
    ensures
        match r {
            None => sgr_fields(*c, fields(s@.subrange(lo as int, hi as int)), *p) is None,
            Some((c1, w)) => sgr_fields(*c, fields(s@.subrange(lo as int, hi as int)), *p) == Some(
                (c1, w@),
            ),
        },
{
    let ghost fs = fields(s@.subrange(lo as int, hi as int));
    let ranges = split_fields(s, lo, hi);
    let mut colour = c.clone();
    let mut warns: Vec<u64> = Vec::new();
    let mut k: usize = 0;
    while k < ranges.len()
        invariant
            lo <= hi <= s@.len(),
            fs == fields(s@.subrange(lo as int, hi as int)),
            ranges@.len() == fs.len(),
            forall|j: int|
                #![trigger ranges@[j]]
                0 <= j < ranges@.len() ==> ranges@[j].0 <= ranges@[j].1 <= hi && s@.subrange(
                    ranges@[j].0 as int,
                    ranges@[j].1 as int,
                ) == fs[j],
            k <= ranges@.len(),
            sgr_fields(*c, fs.subrange(0, k as int), *p) == Some((colour, warns@)),
        decreases ranges@.len() - k,
    {
        let (a, b) = ranges[k];
        assert(fs.subrange(0, k + 1).drop_last() =~= fs.subrange(0, k as int));
        assert(fs.subrange(0, k + 1).last() == fs[k as int]);
        let n = if a == b {
            0
        } else {
            match parse_number(s, a, b, u64::MAX) {
                Some(n) => n,
                None => {
                    proof {
                        lemma_sgr_none_extends(*c, fs, k + 1, *p);
                    }
                    return None;
                },
            }
        };
        colour = apply_sgr(&colour, n, p);
        if !known_sgr(n) {
            warns.push(n);
        }
        k = k + 1;
    }
    assert(fs.subrange(0, k as int) =~= fs);
    Some((colour, warns))
}

/// Relies on `std::str::from_utf8`: success exactly on valid UTF-8.
#[verifier::external_body]
fn is_utf8(b: &[u8]) -> (r: bool)
    ensures
        r == valid_utf8(b@),
{
    std::str::from_utf8(b).is_ok()
}

/// The state of one pass over a file: the cursor, the active colours and
/// the escape sequence read so far.
pub struct Renderer {
    pub x: u16,
    pub y: u16,
    pub colour: Colour,
    pub control: Vec<u8>,
    pub palette: [[u8; 3]; 16],
    pub width: u16,
    pub height: u16,
}

/// The parameters of the sequence read so far: what follows `ESC[`.
pub open spec fn params(s: Renderer) -> Seq<u8> {
    s.control@.subrange(2, s.control@.len() as int)
}

/// Position and colours unchanged.
pub open spec fn keeps(s: Renderer, t: Renderer) -> bool {
    t.x == s.x && t.y == s.y && t.colour == s.colour
}

/// Success without events.
pub open spec fn quiet(r: Result<Vec<Event>, RenderError>) -> bool {
    r matches Ok(ev) && ev@.len() == 0
}

/// What a byte does outside an escape sequence.
pub open spec fn idle_step(s: Renderer, b: u8, t: Renderer, r: Result<Vec<Event>, RenderError>) -> bool {
    if b == ESC {
        quiet(r) && keeps(s, t) && t.control@ == seq![ESC]
    } else if b == 0x0D {
        quiet(r) && t.x == 0 && t.y == s.y && t.colour == s.colour && t.control@.len() == 0
    } else if b == 0x0A {
        quiet(r) && t.x == 0 && t.y == s.y + 1 && t.colour == s.colour && t.control@.len() == 0
    } else {
        &&& r matches Ok(ev) && ev@ == seq![
            Event::Draw(Glyph { byte: b, x: s.x, y: s.y, bg: s.colour.bg, fg: s.colour.fg }),
        ]
        &&& if s.x + 1 >= s.width {
            t.x == 0 && t.y == s.y + 1
        } else {
            t.x == s.x + 1 && t.y == s.y
        }
        &&& t.colour == s.colour
        &&& t.control@.len() == 0
    }
}

/// What `ESC[...m` does.
pub open spec fn sgr_step(s: Renderer, t: Renderer, r: Result<Vec<Event>, RenderError>) -> bool {
    match sgr_fields(s.colour, fields(params(s)), s.palette) {
        None => r == Err::<Vec<Event>, RenderError>(RenderError::BadNumber),
        Some((c, w)) => {
            &&& r matches Ok(ev) && ev@ == w.map_values(|n: u64| Event::Warn(Warning::UnknownSgr(n)))
            &&& t.colour == c
            &&& t.x == s.x && t.y == s.y
            &&& t.control@.len() == 0
        },
    }
}

/// What `ESC[target;r;g;bt` does: target 0 sets the background, 1 the
/// foreground; parameters past the fourth are ignored.
pub open spec fn rgb_step(s: Renderer, t: Renderer, r: Result<Vec<Event>, RenderError>) -> bool {
    let f = fields(params(s));
    if f.len() < 4 {
        r == Err::<Vec<Event>, RenderError>(RenderError::MissingField)
    } else if number(f[1], 255) is None || number(f[2], 255) is None || number(f[3], 255) is None {
        r == Err::<Vec<Event>, RenderError>(RenderError::BadNumber)
    } else {
        let rgb = seq![number(f[1], 255)->0, number(f[2], 255)->0, number(f[3], 255)->0];
        let done = t.x == s.x && t.y == s.y && t.control@.len() == 0;
        if f[0] == seq![0x30u8] {
            quiet(r) && done && t.colour.fg == s.colour.fg && t.colour.bright == s.colour.bright
                && t.colour.bg@.map_values(|v: u8| v as nat) == rgb
        } else if f[0] == seq![0x31u8] {
            quiet(r) && done && t.colour.bg == s.colour.bg && t.colour.bright == s.colour.bright
                && t.colour.fg@.map_values(|v: u8| v as nat) == rgb
        } else if valid_utf8(f[0]) {
            &&& r matches Ok(ev) && ev@.len() == 1 && (ev@[0] matches Event::Warn(
                Warning::InvalidRgbTarget(target),
            ) && target@ == f[0])
            &&& done
            &&& t.colour == s.colour
        } else {
            r == Err::<Vec<Event>, RenderError>(RenderError::NotText)
        }
    }
}

/// What a byte does inside an escape sequence.
pub open spec fn escape_step(s: Renderer, b: u8, t: Renderer, r: Result<Vec<Event>, RenderError>) -> bool {
    if b == 0x6D || b == 0x74 || b == 0x42 || b == 0x43 {
        if s.control@.len() < 2 {
            r == Err::<Vec<Event>, RenderError>(RenderError::NoParameters)
        } else if b == 0x6D {
            sgr_step(s, t, r)
        } else if b == 0x74 {
            rgb_step(s, t, r)
        } else {
            match number(params(s), 65535) {
                None => r == Err::<Vec<Event>, RenderError>(RenderError::BadNumber),
                Some(n) => {
                    &&& quiet(r)
                    &&& t.colour == s.colour
                    &&& t.control@.len() == 0
                    &&& if b == 0x42 {
                        t.x == s.x && t.y == vstd::math::min(s.y + n, 65535)
                    } else {
                        t.y == s.y && t.x == vstd::math::min(s.x + n, s.width - 1)
                    }
                },
            }
        }
    } else if s.control@.len() > 1 && 0x40 <= b <= 0x7E {
        &&& r matches Ok(ev) && ev@ == seq![Event::Warn(Warning::InvalidControl(b))]
        &&& keeps(s, t)
        &&& t.control@.len() == 0
    } else {
        quiet(r) && keeps(s, t) && t.control@ == s.control@.push(b)
    }
}

/// What one byte does: nothing once the cursor is below the last row,
/// else as inside or outside an escape sequence.
pub open spec fn stepped(s: Renderer, b: u8, t: Renderer, r: Result<Vec<Event>, RenderError>) -> bool {
    if s.y >= s.height {
        quiet(r) && keeps(s, t) && t.control@ == s.control@
    } else if s.control@.len() == 0 {
        idle_step(s, b, t, r)
    } else {
        escape_step(s, b, t, r)
    }
}

impl Renderer {
    /// Whether the grid is not empty and the cursor is on it horizontally.
    pub open spec fn wf(&self) -> bool {
        self.width >= 1 && self.height >= 1 && self.x < self.width
    }

    /// A pass at the top left, in the scheme's default colours (background
    /// 0, foreground 15).
    pub fn new(width: u16, height: u16, palette: [[u8; 3]; 16]) -> (r: Renderer)
        requires
            width >= 1,
            height >= 1,
        ensures
            r.wf(),
            r.x == 0 && r.y == 0,
            r.colour == (Colour { bg: palette[0], fg: palette[15], bright: false }),
            r.control@.len() == 0,
            r.palette == palette && r.width == width && r.height == height,
    {
        Renderer {
            x: 0,
            y: 0,
            colour: Colour { bg: palette[0], fg: palette[15], bright: false },
            control: Vec::new(),
            palette,
            width,
            height,
        }
    }

    /// Reads one byte.
    pub fn step(&mut self, byte: u8) -> (r: Result<Vec<Event>, RenderError>)
        requires
            old(self).wf(),
        ensures
            final(self).palette == old(self).palette,
            final(self).width == old(self).width,
            final(self).height == old(self).height,
            r is Ok ==> final(self).wf(),
            stepped(*old(self), byte, *final(self), r),
    {
        if self.y >= self.height {
            return Ok(Vec::new());
        }
        if self.control.len() == 0 {
            if byte == ESC {
                self.control.push(byte);
                assert(self.control@ =~= seq![ESC]);
            } else if byte == 0x0D {
                self.x = 0;
            } else if byte == 0x0A {
                self.x = 0;
                self.y = self.y + 1;
            } else {
                let g = Glyph { byte, x: self.x, y: self.y, bg: self.colour.bg, fg: self.colour.fg };
                self.x = self.x + 1;
                if self.x >= self.width {
                    self.x = 0;
                    self.y = self.y + 1;
                }
                let mut ev: Vec<Event> = Vec::new();
                ev.push(Event::Draw(g));
                return Ok(ev);
            }
            return Ok(Vec::new());
        }
        if byte == 0x6D || byte == 0x74 || byte == 0x42 || byte == 0x43 {
            let len = self.control.len();
            if len < 2 {
                return Err(RenderError::NoParameters);
            }
            if byte == 0x6D {
                return self.finish_sgr();
            } else if byte == 0x74 {
                return self.finish_rgb();
            }
            let n = match parse_number(self.control.as_slice(), 2, len, 65535) {
                Some(n) => n as u32,
                None => {
                    return Err(RenderError::BadNumber);
                },
            };
            if byte == 0x42 {
                let y = self.y as u32 + n;
                self.y = if y > 65535 { 65535 } else { y as u16 };
            } else {
                let x = self.x as u32 + n;
                let last = (self.width - 1) as u32;
                self.x = if x > last { last as u16 } else { x as u16 };
            }
            self.control = Vec::new();
            return Ok(Vec::new());
        }
        if self.control.len() > 1 && 0x40 <= byte && byte <= 0x7E {
            self.control = Vec::new();
            let mut ev: Vec<Event> = Vec::new();
            ev.push(Event::Warn(Warning::InvalidControl(byte)));
            return Ok(ev);
        }
        self.control.push(byte);
        Ok(Vec::new())
    }

    fn finish_sgr(&mut self) -> (r: Result<Vec<Event>, RenderError>)
        requires
            old(self).wf(),
            old(self).control@.len() >= 2,
        ensures
            final(self).palette == old(self).palette,
            final(self).width == old(self).width,
            final(self).height == old(self).height,
            final(self).x == old(self).x,
            final(self).y == old(self).y,
            sgr_step(*old(self), *final(self), r),
    {
        let len = self.control.len();
        match apply_sgr_fields(self.control.as_slice(), 2, len, &self.colour, &self.palette) {
            None => Err(RenderError::BadNumber),
            Some((c, w)) => {
                self.colour = c;
                self.control = Vec::new();
                let mut ev: Vec<Event> = Vec::new();
                let mut i: usize = 0;
                while i < w.len()
                    invariant
                        i <= w@.len(),
                        ev@ == w@.subrange(0, i as int).map_values(
                            |n: u64| Event::Warn(Warning::UnknownSgr(n)),
                        ),
                    decreases w@.len() - i,
                {
                    ev.push(Event::Warn(Warning::UnknownSgr(w[i])));
                    i = i + 1;
                    assert(ev@ =~= w@.subrange(0, i as int).map_values(
                        |n: u64| Event::Warn(Warning::UnknownSgr(n)),
                    ));
                }
                assert(w@.subrange(0, i as int) =~= w@);
                Ok(ev)
            },
        }
    }

    fn finish_rgb(&mut self) -> (r: Result<Vec<Event>, RenderError>)
        requires
            old(self).wf(),
            old(self).control@.len() >= 2,
        ensures
            final(self).palette == old(self).palette,
            final(self).width == old(self).width,
            final(self).height == old(self).height,
            rgb_step(*old(self), *final(self), r),
    {
        let len = self.control.len();
        let s = self.control.as_slice();
        let f = split_fields(s, 2, len);
        if f.len() < 4 {
            return Err(RenderError::MissingField);
        }
        let (a1, b1) = f[1];
        let (a2, b2) = f[2];
        let (a3, b3) = f[3];
        let (r, g, b) = match (parse_number(s, a1, b1, 255), parse_number(s, a2, b2, 255), parse_number(s, a3, b3, 255)) {
            (Some(r), Some(g), Some(b)) => (r as u8, g as u8, b as u8),
            _ => {
                return Err(RenderError::BadNumber);
            },
        };
        let (a0, b0) = f[0];
        let ghost target = s@.subrange(a0 as int, b0 as int);
        let ghost fs = fields(params(*old(self)));
        assert(s@.subrange(2, len as int) == params(*old(self)));
        assert(target == fs[0]);
        assert(r as nat == number(fs[1], 255)->0);
        assert(g as nat == number(fs[2], 255)->0);
        assert(b as nat == number(fs[3], 255)->0);
        if b0 > a0 && b0 - a0 == 1 && s[a0] == 0x30 {
            assert(target =~= seq![0x30u8]);
            let fg = self.colour.fg;
            let bright = self.colour.bright;
            self.colour = Colour { bg: [r, g, b], fg, bright };
            self.control = Vec::new();
            assert(self.colour.fg == old(self).colour.fg);
            assert(self.colour.bg@.map_values(|v: u8| v as nat) =~= seq![r as nat, g as nat, b as nat]);
            Ok(Vec::new())
        } else if b0 > a0 && b0 - a0 == 1 && s[a0] == 0x31 {
            assert(target =~= seq![0x31u8]);
            assert(target[0] != seq![0x30u8][0]);
            self.colour = Colour { bg: self.colour.bg, fg: [r, g, b], bright: self.colour.bright };
            self.control = Vec::new();
            assert(self.colour.fg@.map_values(|v: u8| v as nat) =~= seq![r as nat, g as nat, b as nat]);
            Ok(Vec::new())
        } else {
            assert(target != seq![0x30u8] && target != seq![0x31u8]) by {
                if target.len() == 1 {
                    assert(target[0] == s@[a0 as int]);
                }
            }
            let mut t: Vec<u8> = Vec::new();
            let mut i: usize = a0;
            while i < b0
                invariant
                    a0 <= i <= b0 <= s@.len(),
                    t@ == s@.subrange(a0 as int, i as int),
                decreases b0 - i,
            {
                t.push(s[i]);
                i = i + 1;
                assert(t@ =~= s@.subrange(a0 as int, i as int));
            }
            if !is_utf8(t.as_slice()) {
                return Err(RenderError::NotText);
            }
            self.control = Vec::new();
            let mut ev: Vec<Event> = Vec::new();
            ev.push(Event::Warn(Warning::InvalidRgbTarget(t)));
            Ok(ev)
        }
    }
}

} // verus!
