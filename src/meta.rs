//! A file's metadata record: the fields, their defaults and derived values,
//! and the rules that a record must follow.
use vstd::prelude::*;

pub use crate::record::{locate, parse, serialize};
pub use crate::validate::{
    check, check_author, check_char, check_date, check_flags, check_font, check_group, check_note,
    check_notes, check_str, check_title, check_type, file_type_name,
};

verus! {

/// A file's metadata.
#[derive(Debug, PartialEq, Eq)]
pub struct Meta {
    /// The image's title.
    pub title: String,
    /// The image's author.
    pub author: String,
    /// The author's team or group.
    pub group: String,
    /// The creation date, as `YYYYMMDD`, or empty.
    pub date: String,
    /// The size of the file without its metadata.
    pub size: u32,
    /// The file type as `(major, minor)`; `(0, 0)` is none, `(1, 0)` ASCII and
    /// `(1, 1)` ANSI.
    pub file_type: (u8, u8),
    /// Width in characters; 0 means the default.
    pub width: u16,
    /// Height in characters; 0 means the default.
    pub height: u16,
    /// Bit 0: non-blink mode; bits 1-2: letter spacing; bits 3-4: aspect ratio.
    pub flags: u8,
    /// The font's name.
    pub font: String,
    /// Free-text comments, in order.
    pub notes: Vec<String>,
}

/// The mathematical value of a [`Meta`].
pub struct MetaView {
    pub title: Seq<char>,
    pub author: Seq<char>,
    pub group: Seq<char>,
    pub date: Seq<char>,
    pub size: u32,
    pub file_type: (u8, u8),
    pub width: u16,
    pub height: u16,
    pub flags: u8,
    pub font: Seq<char>,
    pub notes: Seq<Seq<char>>,
}

impl View for Meta {
    type V = MetaView;

    open spec fn view(&self) -> MetaView {
        MetaView {
            title: self.title@,
            author: self.author@,
            group: self.group@,
            date: self.date@,
            size: self.size,
            file_type: self.file_type,
            width: self.width,
            height: self.height,
            flags: self.flags,
            font: self.font@,
            notes: self.notes@.map_values(|n: String| n@),
        }
    }
}

pub const DEFAULT_WIDTH: u16 = 80;

pub const DEFAULT_HEIGHT: u16 = 25;

/// The values assumed where a file has no metadata.
pub open spec fn default_view() -> MetaView {
    MetaView {
        title: seq![],
        author: seq![],
        group: seq![],
        date: seq![],
        size: 0,
        file_type: (1, 1),
        width: 80,
        height: 25,
        flags: 0x0D,
        font: "IBM VGA"@,
        notes: seq![],
    }
}

impl Clone for Meta {
    fn clone(&self) -> (r: Meta)
        ensures
            r@ == self@,
    {
        let mut notes: Vec<String> = Vec::new();
        let mut i: usize = 0;
        while i < self.notes.len()
            invariant
                i <= self.notes@.len(),
                notes@.len() == i,
                forall|j: int| 0 <= j < i ==> #[trigger] notes@[j]@ == self.notes@[j]@,
            decreases self.notes@.len() - i,
        {
            notes.push(self.notes[i].clone());
            i = i + 1;
        }
        assert(notes@.map_values(|n: String| n@) =~= self.notes@.map_values(|n: String| n@));
        Meta {
            title: self.title.clone(),
            author: self.author.clone(),
            group: self.group.clone(),
            date: self.date.clone(),
            size: self.size,
            file_type: (self.file_type.0, self.file_type.1),
            width: self.width,
            height: self.height,
            flags: self.flags,
            font: self.font.clone(),
            notes,
        }
    }
}

impl Default for Meta {
    fn default() -> (r: Meta)
        ensures
            r@ == default_view(),
    {
        let r = Meta {
            title: String::new(),
            author: String::new(),
            group: String::new(),
            date: String::new(),
            size: 0,
            file_type: (1, 1),
            width: DEFAULT_WIDTH,
            height: DEFAULT_HEIGHT,
            flags: 0x0D,
            font: "IBM VGA".to_owned(),
            notes: Vec::new(),
        };
        assert(r@.notes =~= Seq::<Seq<char>>::empty());
        r
    }
}

/// The letter-spacing bits of a flags byte.
pub open spec fn letter_spacing(flags: u8) -> u8 {
    ((flags / 2) % 4) as u8
}

/// The aspect-ratio bits of a flags byte.
pub open spec fn aspect_bits(flags: u8) -> u8 {
    ((flags / 8) % 4) as u8
}

impl Meta {
    /// The title, unless it is empty.
    pub fn title(&self) -> (r: Option<&String>)
        ensures
            r == (if self.title@.len() == 0 { None } else { Some(&self.title) }),
    {
        if self.title.as_str().is_empty() {
            None
        } else {
            Some(&self.title)
        }
    }

    /// The author, unless it is empty.
    pub fn author(&self) -> (r: Option<&String>)
        ensures
            r == (if self.author@.len() == 0 { None } else { Some(&self.author) }),
    {
        if self.author.as_str().is_empty() {
            None
        } else {
            Some(&self.author)
        }
    }

    /// The group, unless it is empty.
    pub fn group(&self) -> (r: Option<&String>)
        ensures
            r == (if self.group@.len() == 0 { None } else { Some(&self.group) }),
    {
        if self.group.as_str().is_empty() {
            None
        } else {
            Some(&self.group)
        }
    }

    /// The date, unless it is empty.
    pub fn date(&self) -> (r: Option<&String>)
        ensures
            r == (if self.date@.len() == 0 { None } else { Some(&self.date) }),
    {
        if self.date.as_str().is_empty() {
            None
        } else {
            Some(&self.date)
        }
    }

    /// The size of the file without its metadata.
    pub fn size(&self) -> (r: u32)
        ensures
            r == self.size,
    {
        self.size
    }

    /// The file type, where `(0, 0)` stands for the default `(1, 1)`.
    pub fn file_type(&self) -> (r: (u8, u8))
        ensures
            r == (if self.file_type == (0u8, 0u8) { (1u8, 1u8) } else { self.file_type }),
    {
        if self.file_type.0 == 0 && self.file_type.1 == 0 {
            (1, 1)
        } else {
            self.file_type
        }
    }

    /// The width, where 0 stands for the default.
    pub fn width(&self) -> (r: u16)
        ensures
            r == (if self.width > 0 { self.width } else { 80 }),
            r > 0,
    {
        if self.width > 0 {
            self.width
        } else {
            DEFAULT_WIDTH
        }
    }

    /// The height, where 0 stands for the default.
    pub fn height(&self) -> (r: u16)
        ensures
            r == (if self.height > 0 { self.height } else { 25 }),
            r > 0,
    {
        if self.height > 0 {
            self.height
        } else {
            DEFAULT_HEIGHT
        }
    }

    /// Width and height, with defaults applied.
    pub fn dimensions(&self) -> (r: (u16, u16))
        ensures
            r.0 == (if self.width > 0 { self.width } else { 80 }),
            r.1 == (if self.height > 0 { self.height } else { 25 }),
    {
        (self.width(), self.height())
    }

    /// The flags split into aspect ratio, letter spacing and non-blink bit.
    pub fn flags(&self) -> (r: (u8, u8, u8))
        ensures
            r == (aspect_bits(self.flags), letter_spacing(self.flags), (self.flags % 2) as u8),
    {
        ((self.flags / 8) % 4, (self.flags / 2) % 4, self.flags % 2)
    }

    /// The font, unless it is empty.
    pub fn font(&self) -> (r: Option<&String>)
        ensures
            r == (if self.font@.len() == 0 { None } else { Some(&self.font) }),
    {
        if self.font.as_str().is_empty() {
            None
        } else {
            Some(&self.font)
        }
    }

    /// The notes.
    pub fn notes(&self) -> (r: &Vec<String>)
        ensures
            r == &self.notes,
    {
        &self.notes
    }

    /// The pixel aspect ratio as `(x, y)`: square where the aspect bits are
    /// `10`, else 5:6 with eight-pixel letters, else 20:27.
    pub fn aspect_ratio(&self) -> (r: (u8, u8))
        ensures
            r == (if aspect_bits(self.flags) == 2 {
                (1u8, 1u8)
            } else if letter_spacing(self.flags) == 1 {
                (5u8, 6u8)
            } else {
                (20u8, 27u8)
            }),
    {
        let f = self.flags();
        if f.0 == 2 {
            (1, 1)
        } else if f.1 == 1 {
            (5, 6)
        } else {
            (20, 27)
        }
    }

    /// Letter width in pixels: 8 where the letter-spacing bits are `01`, else 9.
    pub fn font_width(&self) -> (r: u8)
        ensures
            r == (if letter_spacing(self.flags) == 1 { 8u8 } else { 9u8 }),
    {
        if self.flags().1 == 1 {
            8
        } else {
            9
        }
    }

    /// Letter height in pixels.
    pub fn font_height(&self) -> (r: u8)
        ensures
            r == 16,
    {
        16
    }

    /// Letter width and height in pixels.
    pub fn font_size(&self) -> (r: (u8, u8))
        ensures
            r == (if letter_spacing(self.flags) == 1 { 8u8 } else { 9u8 }, 16u8),
    {
        (self.font_width(), self.font_height())
    }
}

} // verus!
