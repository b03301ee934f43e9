//! Bitmap-font atlas metadata and glyph layout.
//!
//! The data model mirrors the atlas description that ships beside a font
//! texture. Layout works in whole layout pixels: each drawable character
//! contributes one [`GlyphQuad`] — a screen rectangle and an atlas texel
//! rectangle — and the renderer divides texels by the atlas size for its
//! texture coordinates.

use vstd::prelude::*;

verus! {

/// Extra margin added to every glyph's screen position, in layout pixels.
pub const TEXT_MARGIN: i64 = 20;

/// Upper bound on the number of characters laid out in one call, so cursor
/// arithmetic stays within `i64`.
pub const MAX_TEXT_LEN: usize = 1_000_000;

#[derive(Debug, Clone, Copy, PartialEq, Eq, Structural)]
pub struct Glyph {
    pub id: u32,
    pub index: u32,
    pub page: u32,
    pub character: char,
    pub width: u32,
    pub height: u32,
    pub x: u32,
    pub y: u32,
    pub xoffset: i32,
    pub yoffset: i32,
    pub xadvance: u32,
    pub chnl: u32,
}

#[derive(Debug, Clone, PartialEq, Eq)]
pub struct FontInfo {
    pub face: String,
    pub size: u32,
    pub bold: u32,
    pub italic: u32,
    pub charset: Vec<char>,
    pub unicode: u32,
    pub stretch_h: u32,
    pub smooth: u32,
    pub aa: u32,
    pub padding: [u32; 4],
    pub spacing: [u32; 2],
}

#[derive(Debug, Clone, Copy, PartialEq, Eq, Structural)]
pub struct FontCommonInfo {
    pub line_height: u32,
    pub base: u32,
    pub scale_w: u32,
    pub scale_h: u32,
    pub pages: u32,
    pub packed: u32,
    pub alpha_channel: u32,
    pub red_channel: u32,
    pub green_channel: u32,
    pub blue_channel: u32,
}

#[derive(Debug, Clone, PartialEq, Eq)]
pub struct DistanceFieldInfo {
    pub field_type: String,
    pub distance_range: u32,
}

#[derive(Debug, Clone, PartialEq, Eq)]
pub struct FontData {
    pub pages: Vec<String>,
    pub glyphs: Vec<Glyph>,
    pub info: FontInfo,
    pub common: FontCommonInfo,
    pub distance_field: DistanceFieldInfo,
}

/// Why font data could not be taken into use.
#[derive(Debug, Clone, Copy, PartialEq, Eq, Structural)]
pub enum FontError {
    /// The designated fallback character has no glyph in the atlas.
    UnknownCharMissing,
}

/// The first glyph drawn for character `c`, if the atlas has one.
pub open spec fn find_glyph(glyphs: Seq<Glyph>, c: char) -> Option<int>
    decreases glyphs.len(),
{
    if glyphs.len() == 0 {
        None
    } else if glyphs.first().character == c {
        Some(0)
    } else {
        match find_glyph(glyphs.drop_first(), c) {
            Some(i) => Some(i + 1),
            None => None,
        }
    }
}

proof fn lemma_find_glyph_at(glyphs: Seq<Glyph>, c: char, i: int)
    requires
        0 <= i < glyphs.len(),
        glyphs[i].character == c,
        forall|k: int| 0 <= k < i ==> (#[trigger] glyphs[k]).character != c,
    ensures
        find_glyph(glyphs, c) == Some(i),
    decreases i,
{
    if i > 0 {
        assert(glyphs.first().character != c);
        assert(glyphs.drop_first()[i - 1].character == c);
        assert forall|k: int| 0 <= k < i - 1 implies (#[trigger] glyphs.drop_first()[k]).character
            != c by {
            assert(glyphs.drop_first()[k] == glyphs[k + 1]);
        }
        lemma_find_glyph_at(glyphs.drop_first(), c, i - 1);
    }
}

proof fn lemma_find_glyph_none(glyphs: Seq<Glyph>, c: char)
    requires
        forall|k: int| 0 <= k < glyphs.len() ==> (#[trigger] glyphs[k]).character != c,
    ensures
        find_glyph(glyphs, c) is None,
    decreases glyphs.len(),
{
    if glyphs.len() > 0 {
        assert forall|k: int|
            0 <= k < glyphs.drop_first().len() implies (#[trigger] glyphs.drop_first()[k]).character
            != c by {
            assert(glyphs.drop_first()[k] == glyphs[k + 1]);
        }
        lemma_find_glyph_none(glyphs.drop_first(), c);
    }
}

/// A loaded font: its atlas metadata and the fallback character, which is
/// guaranteed present.
pub struct Font {
    pub unknown_char: char,
    pub info: FontData,
}

/// The glyph `c` is drawn with: its own, or the fallback's.
pub open spec fn glyph_for(f: Font, c: char) -> Glyph {
    match find_glyph(f.info.glyphs@, c) {
        Some(i) => f.info.glyphs@[i],
        None => match find_glyph(f.info.glyphs@, f.unknown_char) {
            Some(j) => f.info.glyphs@[j],
            None => vstd::pervasive::arbitrary(),
        },
    }
}

impl Font {
    /// The fallback character has a glyph.
    pub open spec fn wf(self) -> bool {
        find_glyph(self.info.glyphs@, self.unknown_char) is Some
    }

    /// Take decoded atlas metadata into use. Rejected exactly when the
    /// fallback character has no glyph: every later lookup leans on it.
    pub fn from_data(info: FontData, unknown_char: char) -> (r: Result<Font, FontError>)
        ensures
            r matches Ok(f) ==> {
                &&& f.wf()
                &&& f.info == info
                &&& f.unknown_char == unknown_char
            },
            r is Ok <==> find_glyph(info.glyphs@, unknown_char) is Some,
            r is Err <==> r == Result::<Font, FontError>::Err(FontError::UnknownCharMissing),
    {
        let f = Font { unknown_char, info };
        if f.glyph(unknown_char).is_some() {
            Ok(f)
        } else {
            Err(FontError::UnknownCharMissing)
        }
    }

    /// The first glyph for `c`, if the atlas has one.
    pub fn glyph(&self, c: char) -> (r: Option<&Glyph>)
        ensures
            match r {
                Some(g) => find_glyph(self.info.glyphs@, c) == Some(
                    find_glyph(self.info.glyphs@, c)->Some_0,
                ) && *g == self.info.glyphs@[find_glyph(self.info.glyphs@, c)->Some_0],
                None => find_glyph(self.info.glyphs@, c) is None,
            },
    {
        let ghost gs = self.info.glyphs@;
        let n = self.info.glyphs.len();
        let mut i: usize = 0;
        while i < n
            invariant
                n == gs.len(),
                gs == self.info.glyphs@,
                i <= n,
                forall|k: int| 0 <= k < i ==> (#[trigger] gs[k]).character != c,
            decreases n - i,
        {
            if self.info.glyphs[i].character == c {
                proof {
                    lemma_find_glyph_at(gs, c, i as int);
                }
                return Some(&self.info.glyphs[i]);
            }
            i += 1;
        }
        proof {
            lemma_find_glyph_none(gs, c);
        }
        None
    }

    /// The fallback glyph.
    pub fn unknown_glyph(&self) -> (g: &Glyph)
        requires
            self.wf(),
        ensures
            *g == glyph_for(*self, self.unknown_char),
    {
        self.glyph(self.unknown_char).unwrap()
    }
}

/// One glyph's place: a screen rectangle in layout pixels and an atlas
/// rectangle in texels.
#[derive(Debug, Clone, Copy, PartialEq, Eq, Structural)]
pub struct GlyphQuad {
    pub x0: i64,
    pub y0: i64,
    pub x1: i64,
    pub y1: i64,
    pub u0: i64,
    pub v0: i64,
    pub u1: i64,
    pub v1: i64,
}

/// The quad glyph `g` occupies with the layout cursor at `(cx, cy)`.
pub open spec fn quad_of(g: Glyph, cx: int, cy: int) -> GlyphQuad {
    GlyphQuad {
        x0: (cx + g.xoffset + TEXT_MARGIN) as i64,
        y0: (cy + g.yoffset + TEXT_MARGIN) as i64,
        x1: (cx + g.xoffset + TEXT_MARGIN + g.width) as i64,
        y1: (cy + g.yoffset + TEXT_MARGIN + g.height) as i64,
        u0: g.x as i64,
        v0: g.y as i64,
        u1: (g.x + g.width) as i64,
        v1: (g.y + g.height) as i64,
    }
}

/// The quads of `chars` laid out from cursor `(cx, cy)`: a newline returns
/// the cursor to the line start one line height down, a zero-sized glyph
/// only advances, and every other glyph emits its quad and advances.
pub open spec fn layout_from(f: Font, chars: Seq<char>, cx: int, cy: int) -> Seq<GlyphQuad>
    decreases chars.len(),
{
    if chars.len() == 0 {
        Seq::empty()
    } else {
        let c = chars.first();
        let rest = chars.drop_first();
        if c == '\n' {
            layout_from(f, rest, 0, cy + f.info.common.line_height)
        } else {
            let g = glyph_for(f, c);
            if g.width == 0 || g.height == 0 {
                layout_from(f, rest, cx + g.xadvance, cy)
            } else {
                seq![quad_of(g, cx, cy)] + layout_from(f, rest, cx + g.xadvance, cy)
            }
        }
    }
}

impl Font {
    /// Lay the characters out as screen/atlas quads.
    pub fn layout_text(&self, chars: &Vec<char>) -> (r: Vec<GlyphQuad>)
        requires
            self.wf(),
            chars@.len() <= MAX_TEXT_LEN,
        ensures
            r@ == layout_from(*self, chars@, 0, 0),
    {
        let ghost cs = chars@;
        let mut quads: Vec<GlyphQuad> = Vec::new();
        let mut cx: i64 = 0;
        let mut cy: i64 = 0;
        let n = chars.len();
        let mut i: usize = 0;
        proof {
            assert(cs.skip(0) =~= cs);
            assert(quads@ + layout_from(*self, cs, 0, 0) =~= layout_from(*self, cs, 0, 0));
        }
        while i < n
            invariant
                self.wf(),
                n == cs.len(),
                cs == chars@,
                n <= MAX_TEXT_LEN,
                i <= n,
                0 <= cx <= i * 0x1_0000_0000,
                0 <= cy <= i * 0x1_0000_0000,
                layout_from(*self, cs, 0, 0) == quads@ + layout_from(
                    *self,
                    cs.skip(i as int),
                    cx as int,
                    cy as int,
                ),
            decreases n - i,
        {
            let c = chars[i];
            proof {
                assert(cs.skip(i as int).first() == cs[i as int]);
                assert(cs.skip(i as int).drop_first() =~= cs.skip(i + 1));
                assert((i + 1) * 0x1_0000_0000 == i * 0x1_0000_0000 + 0x1_0000_0000)
                    by (nonlinear_arith);
            }
            if c == '\n' {
                cx = 0;
                cy = cy + self.info.common.line_height as i64;
            } else {
                let g = match self.glyph(c) {
                    Some(g) => g,
                    None => self.unknown_glyph(),
                };
                proof {
                    assert(*g == glyph_for(*self, c));
                }
                if g.width == 0 || g.height == 0 {
                    cx = cx + g.xadvance as i64;
                } else {
                    let q = GlyphQuad {
                        x0: cx + g.xoffset as i64 + TEXT_MARGIN,
                        y0: cy + g.yoffset as i64 + TEXT_MARGIN,
                        x1: cx + g.xoffset as i64 + TEXT_MARGIN + g.width as i64,
                        y1: cy + g.yoffset as i64 + TEXT_MARGIN + g.height as i64,
                        u0: g.x as i64,
                        v0: g.y as i64,
                        u1: g.x as i64 + g.width as i64,
                        v1: g.y as i64 + g.height as i64,
                    };
                    proof {
                        assert(q == quad_of(*g, cx as int, cy as int));
                        assert((quads@ + seq![q]) + layout_from(
                            *self,
                            cs.skip(i + 1),
                            cx + g.xadvance,
                            cy as int,
                        ) =~= quads@ + (seq![q] + layout_from(
                            *self,
                            cs.skip(i + 1),
                            cx + g.xadvance,
                            cy as int,
                        )));
                        assert(quads@.push(q) =~= quads@ + seq![q]);
                    }
                    quads.push(q);
                    cx = cx + g.xadvance as i64;
                }
            }
            i += 1;
        }
        proof {
            assert(cs.skip(n as int) =~= Seq::<char>::empty());
            assert(quads@ + Seq::<GlyphQuad>::empty() =~= quads@);
        }
        quads
    }
}

/// The index pattern of `n` quads: each quad's four corners, in order, as
/// two triangles.
pub open spec fn quad_indices_spec(n: nat) -> Seq<u32>
    decreases n,
{
    if n == 0 {
        Seq::empty()
    } else {
        let b = (n - 1) * 4;
        quad_indices_spec((n - 1) as nat) + seq![
            b as u32,
            (b + 1) as u32,
            (b + 2) as u32,
            b as u32,
            (b + 2) as u32,
            (b + 3) as u32,
        ]
    }
}

/// The triangle indices that draw `count` quads.
pub fn quad_indices(count: u32) -> (r: Vec<u32>)
    requires
        count <= MAX_TEXT_LEN,
    ensures
        r@ == quad_indices_spec(count as nat),
{
    let mut r: Vec<u32> = Vec::new();
    let mut q: u32 = 0;
    while q < count
        invariant
            q <= count,
            count <= MAX_TEXT_LEN,
            r@ == quad_indices_spec(q as nat),
        decreases count - q,
    {
        let b: u32 = q * 4;
        let ghost before = r@;
        r.push(b);
        r.push(b + 1);
        r.push(b + 2);
        r.push(b);
        r.push(b + 2);
        r.push(b + 3);
        proof {
            assert(r@ =~= before + seq![
                b,
                (b + 1) as u32,
                (b + 2) as u32,
                b,
                (b + 2) as u32,
                (b + 3) as u32,
            ]);
        }
        q += 1;
    }
    r
}

} // verus!
