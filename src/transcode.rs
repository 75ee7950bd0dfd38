//! Turning a code page 437 file into UTF-8 text for a terminal: every byte
//! is decoded (escape sequences pass through as they are), and a line break
//! is added where a row fills the grid's width.
use vstd::prelude::*;

use crate::cp437::{byte_to_char, cp437_char};
use crate::text::{push_char, push_str};

verus! {

/// The state of a pass: the cursor and the escape sequence read so far.
pub struct Transcoder {
    pub x: u16,
    pub y: u16,
    pub control: Vec<u8>,
    pub width: u16,
    pub height: u16,
}

/// The text that one byte gives: its character (NUL shows as a space),
/// then a line break where the byte fills a row.
pub open spec fn shown(b: u8, wraps: bool) -> Seq<char> {
    seq![cp437_char(if b == 0 { 0x20u8 } else { b })] + if wraps { "\r\n"@ } else { seq![] }
}

impl Transcoder {
    /// Whether the grid is not empty and the cursor is on it horizontally.
    pub open spec fn wf(&self) -> bool {
        self.width >= 1 && self.height >= 1 && self.x < self.width
    }

    /// A pass at the top left.
    pub fn new(width: u16, height: u16) -> (r: Transcoder)
        requires
            width >= 1,
            height >= 1,
        ensures
            r.wf(),
            r.x == 0 && r.y == 0 && r.control@.len() == 0,
            r.width == width && r.height == height,
    {
        Transcoder { x: 0, y: 0, control: Vec::new(), width, height }
    }

    /// Reads one byte and gives the text to write. Rows past the height
    /// give nothing; an escape sequence ends at its first byte in
    /// `0x40..=0x7E` after the opening two.
    pub fn step(&mut self, byte: u8) -> (r: String)
        requires
            old(self).wf(),
        ensures
            final(self).wf(),
            final(self).width == old(self).width && final(self).height == old(self).height,
            old(self).y >= old(self).height ==> r@.len() == 0 && final(self).x == old(self).x
                && final(self).y == old(self).y && final(self).control@ == old(self).control@,
            old(self).y < old(self).height ==> {
                let s = *old(self);
                let t = *final(self);
                if s.control@.len() > 0 {
                    &&& r@ == shown(byte, false)
                    &&& t.x == s.x && t.y == s.y
                    &&& t.control@ == if s.control@.len() > 1 && 0x40 <= byte <= 0x7E {
                        seq![]
                    } else {
                        s.control@.push(byte)
                    }
                } else if byte == 0x1B {
                    r@ == shown(byte, false) && t.x == s.x && t.y == s.y && t.control@ == seq![byte]
                } else if byte == 0x0D {
                    r@ == shown(byte, false) && t.x == 0 && t.y == s.y && t.control@.len() == 0
                } else if byte == 0x0A {
                    r@ == shown(byte, false) && t.x == 0 && t.y == s.y + 1 && t.control@.len() == 0
                } else {
                    &&& r@ == shown(byte, s.x + 1 >= s.width)
                    &&& if s.x + 1 >= s.width {
                        t.x == 0 && t.y == s.y + 1
                    } else {
                        t.x == s.x + 1 && t.y == s.y
                    }
                    &&& t.control@.len() == 0
                }
            },
    {
        let mut out = String::new();
        if self.y >= self.height {
            return out;
        }
        push_char(&mut out, byte_to_char(if byte == 0 { 0x20 } else { byte }));
        if self.control.len() > 0 {
            if self.control.len() > 1 && 0x40 <= byte && byte <= 0x7E {
                self.control = Vec::new();
            } else {
                self.control.push(byte);
            }
        } else if byte == 0x1B {
            self.control.push(byte);
            assert(self.control@ =~= seq![byte]);
        } else if byte == 0x0D {
            self.x = 0;
        } else if byte == 0x0A {
            self.x = 0;
            self.y = self.y + 1;
        } else {
            self.x = self.x + 1;
            if self.x >= self.width {
                push_str(&mut out, "\r\n");
                self.x = 0;
                self.y = self.y + 1;
            }
        }
        out
    }
}

} // verus!
