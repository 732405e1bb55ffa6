//! PC Screen Font, version 1: header parsing and glyph lookup.

use vstd::prelude::*;

verus! {

/// First magic byte of a PSF1 font.
pub const PSF1_MAGIC0: u8 = 0x36;

/// Second magic byte of a PSF1 font.
pub const PSF1_MAGIC1: u8 = 0x04;

/// Mode flag: the font has 512 glyphs instead of 256.
pub const PSF1_MODE_512: u8 = 0x01;

/// Mode flag: the font carries a unicode table.
pub const PSF1_MODE_HASTAB: u8 = 0x02;

/// Mode flag: the unicode table has sequences.
pub const PSF1_MODE_SEQ: u8 = 0x04;

/// Width in pixels of every PSF1 glyph.
pub const PSF1_WIDTH: usize = 8;

/// Size of the PSF1 header in bytes.
pub const PSF1_HEADER_LEN: usize = 4;

/// A mode byte is known when it holds no bit besides the three mode flags.
pub open spec fn psf1_mode_known(mode: u8) -> bool {
    mode <= (PSF1_MODE_512 | PSF1_MODE_HASTAB | PSF1_MODE_SEQ)
}

/// A font image is accepted when its mode byte is known and its header starts
/// with the two PSF1 magic bytes.
pub open spec fn psf1_accepts(font: Seq<u8>) -> bool {
    &&& font.len() >= PSF1_HEADER_LEN
    &&& psf1_mode_known(font[2])
    &&& font[0] == PSF1_MAGIC0
    &&& font[1] == PSF1_MAGIC1
}

/// A parsed PSF1 font that borrows its glyph bitmaps from the font image.
pub struct Psf1<'a> {
    magic: [u8; 2],
    mode: u8,
    pub width: usize,
    pub height: usize,
    glyphs: &'a [u8],
}

impl<'a> Psf1<'a> {
    /// The bitmap bytes that follow the header.
    pub closed spec fn glyph_bytes(&self) -> Seq<u8> {
        self.glyphs@
    }

    /// Width of a glyph in pixels.
    pub closed spec fn font_width(&self) -> usize {
        self.width
    }

    /// Height of a glyph in pixel rows, one byte per row.
    pub closed spec fn font_height(&self) -> usize {
        self.height
    }

    /// The mode byte of the header.
    pub closed spec fn mode_byte(&self) -> u8 {
        self.mode
    }

    /// The two magic bytes of the header.
    pub closed spec fn magic_bytes(&self) -> Seq<u8> {
        self.magic@
    }

    /// Parses a font image. `None` when the mode byte holds an unknown flag or
    /// the magic bytes are wrong. The image must hold its whole header, or at
    /// least its mode byte when that byte is unknown (the mode is checked
    /// before the height is read).
    pub fn new(font: &'a [u8]) -> (r: Option<Self>)
        requires
            font@.len() >= PSF1_HEADER_LEN || (font@.len() == 3 && !psf1_mode_known(font@[2])),
        ensures
            r.is_some() <==> psf1_accepts(font@),
            r matches Some(p) ==> {
                &&& p.font_width() == PSF1_WIDTH
                &&& p.font_height() == font@[3] as usize
                &&& p.mode_byte() == font@[2]
                &&& p.magic_bytes() == seq![PSF1_MAGIC0, PSF1_MAGIC1]
                &&& p.glyph_bytes() == font@.subrange(PSF1_HEADER_LEN as int, font@.len() as int)
            },
    {
        let mode = font[2];
        if mode > (PSF1_MODE_512 | PSF1_MODE_HASTAB | PSF1_MODE_SEQ) {
            return None;
        }
        let psf1 = Psf1 {
            magic: [font[0], font[1]],
            mode,
            width: PSF1_WIDTH,
            height: font[3] as usize,
            glyphs: vstd::slice::slice_subrange(font, PSF1_HEADER_LEN, font.len()),
        };
        if psf1.magic[0] != PSF1_MAGIC0 || psf1.magic[1] != PSF1_MAGIC1 {
            None
        } else {
            Some(psf1)
        }
    }

    /// The bitmap of glyph `c`: `height` bytes starting at `c * height`.
    pub fn glyph(&self, c: char) -> (r: &[u8])
        requires
            (c as int + 1) * self.font_height() <= self.glyph_bytes().len(),
        ensures
            r@ == self.glyph_bytes().subrange(
                c as int * self.font_height(),
                (c as int + 1) * self.font_height(),
            ),
    {
        let c = c as usize;
        proof {
            vstd::slice::axiom_spec_len(self.glyphs);
            let h = self.height as int;
            let ci = c as int;
            assert(ci * h <= (ci + 1) * h && (ci + 1) * h == ci * h + h) by (nonlinear_arith)
                requires
                    h >= 0,
                    ci >= 0,
            ;
        }
        let start = c * self.height;
        let end = start + self.height;
        vstd::slice::slice_subrange(self.glyphs, start, end)
    }
}

/// A mode byte is known exactly when no bit other than the three PSF1 mode
/// flags (bits 0, 1 and 2) is set; a font is accepted exactly when it holds
/// a four-byte header starting with the bytes 0x36 0x04 and such a mode byte.
pub proof fn lemma_psf1_header(font: Seq<u8>)
    ensures
        font.len() >= 3 ==> (psf1_mode_known(font[2]) <==> font[2] & 0xF8 == 0),
        psf1_accepts(font) <==> (font.len() >= 4 && font[0] == 0x36 && font[1] == 0x04
            && font[2] & 0xF8 == 0),
{
    assert((PSF1_MODE_512 | PSF1_MODE_HASTAB | PSF1_MODE_SEQ) == 7u8) by (bit_vector)
        requires
            PSF1_MODE_512 == 1u8,
            PSF1_MODE_HASTAB == 2u8,
            PSF1_MODE_SEQ == 4u8,
    ;
    if font.len() >= 3 {
        let m = font[2];
        assert((m <= 7u8) <==> (m & 0xF8u8 == 0)) by (bit_vector);
    }
}

} // verus!
