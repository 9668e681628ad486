use vstd::prelude::*;

verus! {

/// One cell of a glyph's mask: its column and row inside the glyph, and
/// whether it is lit.
#[derive(Debug, Clone, Copy, PartialEq, Eq, Structural)]
pub struct GlyphPixel {
    pub x: u32,
    pub y: u32,
    pub is_set: bool,
}

/// The bitmap of one character: its extent and its cells, in the order in
/// which they are drawn.
#[derive(Debug)]
pub struct Glyph {
    pub codepoint: char,
    pub width: u32,
    pub height: u32,
    pub pixels: Vec<GlyphPixel>,
}

/// The first glyph for `c` among `glyphs[start..]`, if there is one.
pub open spec fn find_glyph(glyphs: Seq<Glyph>, c: char, start: int) -> Option<Glyph>
    decreases glyphs.len() - start,
{
    if start < 0 || start >= glyphs.len() {
        None
    } else if glyphs[start].codepoint == c {
        Some(glyphs[start])
    } else {
        find_glyph(glyphs, c, start + 1)
    }
}

/// A bitmap font: glyphs looked up by character. Where a character has
/// several glyphs, the first one counts.
pub struct LedFont {
    glyphs: Vec<Glyph>,
}

impl LedFont {
    /// The glyphs, in lookup order.
    pub closed spec fn glyphs(&self) -> Seq<Glyph> {
        self.glyphs@
    }

    /// The glyph that stands for `c`, if the font has one.
    pub open spec fn glyph_for(&self, c: char) -> Option<Glyph> {
        find_glyph(self.glyphs(), c, 0)
    }

    /// Whether the font has a glyph for every character of `text`.
    pub open spec fn covers(&self, text: Seq<char>) -> bool {
        forall|i: int| 0 <= i < text.len() ==> (#[trigger] self.glyph_for(text[i])) is Some
    }

    /// The glyphs of the characters of `text`, in order.
    pub open spec fn text_glyphs(&self, text: Seq<char>) -> Seq<Glyph> {
        Seq::new(text.len(), |i: int| self.glyph_for(text[i]).unwrap())
    }

    /// A font of the given glyphs.
    pub fn new(glyphs: Vec<Glyph>) -> (font: Self)
        ensures
            font.glyphs() == glyphs@,
    {
        Self { glyphs }
    }

    /// Looks up the glyph of `c`.
    pub fn glyph(&self, c: char) -> (found: Option<&Glyph>)
        ensures
            match found {
                Some(glyph) => self.glyph_for(c) == Some(*glyph),
                None => self.glyph_for(c) is None,
            },
    {
        let mut i: usize = 0;
        while i < self.glyphs.len()
            invariant
                i <= self.glyphs@.len(),
                find_glyph(self.glyphs@, c, 0) == find_glyph(self.glyphs@, c, i as int),
            decreases self.glyphs@.len() - i,
        {
            if self.glyphs[i].codepoint == c {
                return Some(&self.glyphs[i]);
            }
            i = i + 1;
        }
        None
    }

    /// Tells whether the font has a glyph for every character of `text`.
    pub fn covers_text(&self, text: &str) -> (all: bool)
        ensures
            all == self.covers(text@),
    {
        for c in it: text.chars()
            invariant
                it.seq() == text@,
                forall|i: int|
                    0 <= i < it.index() ==> (#[trigger] self.glyph_for(text@[i])) is Some,
        {
            if self.glyph(c).is_none() {
                return false;
            }
        }
        true
    }
}

} // verus!
