//! Bitmap-font atlas building: the printable characters are packed into a
//! grid of equal cells on one texture, with a texel rectangle per glyph.

use crate::math::{is_rounded_sqrt, u_sqrt};
use vstd::arithmetic::div_mod::{lemma_div_is_ordered, lemma_fundamental_div_mod};
use vstd::prelude::*;

verus! {

/// The first character of the printable set.
pub const CHAR_START: u32 = 32;

/// One past the last character of the printable set.
pub const CHAR_END: u32 = 127;

/// The number of characters in the printable set.
pub const CHARS: usize = 95;

/// The value of a texel that a glyph pixel covers; every other texel is 0.
pub const OPAQUE: u32 = 0xffff_ffff;

/// The character at `i` in the printable set.
pub open spec fn charset_char(i: int) -> char {
    ((CHAR_START + i) as u8) as char
}

/// The printable set, in order.
pub fn generate_font_charset() -> (r: Vec<char>)
    ensures
        r@.len() == CHARS,
        forall|i: int| 0 <= i < CHARS ==> r@[i] == charset_char(i),
{
    let mut chars: Vec<char> = Vec::new();
    let mut i: usize = 0;
    while i < CHARS
        invariant
            i <= CHARS,
            chars@.len() == i,
            forall|j: int| 0 <= j < i ==> chars@[j] == charset_char(j),
        decreases CHARS - i,
    {
        chars.push(charset_char_at(i));
        i = i + 1;
    }
    chars
}

fn charset_char_at(i: usize) -> (r: char)
    requires
        i < CHARS,
    ensures
        r == charset_char(i as int),
{
    ((i as u32 + CHAR_START) as u8) as char
}

/// A glyph of a bitmap font: `width` by `height` pixels, row by row, each
/// either set or clear.
pub struct Glyph {
    width: u32,
    height: u32,
    pixels: Vec<bool>,
}

impl Glyph {
    /// There is one pixel for each position of the glyph.
    #[verifier::type_invariant]
    spec fn wf(&self) -> bool {
        self.pixels@.len() == self.width as int * self.height as int
    }

    pub closed spec fn spec_width(&self) -> u32 {
        self.width
    }

    pub closed spec fn spec_height(&self) -> u32 {
        self.height
    }

    /// Whether the pixel at column `x` and row `y` is set.
    pub closed spec fn pixel(&self, x: int, y: int) -> bool {
        self.pixels@[y * self.width + x]
    }

    /// A glyph from its pixels, row by row; `None` unless there is exactly
    /// one pixel per position.
    pub fn new(width: u32, height: u32, pixels: Vec<bool>) -> (r: Option<Glyph>)
        ensures
            r is Some <==> pixels@.len() == width as int * height as int,
            r matches Some(g) ==> g.spec_width() == width && g.spec_height() == height
                && forall|x: int, y: int|
                0 <= x < width && 0 <= y < height ==> #[trigger] g.pixel(x, y) == pixels@[y
                    * width + x],
    {
        let w = width as u64;
        let h = height as u64;
        assert(w * h <= 0xffff_ffffu64 * 0xffff_ffffu64) by (nonlinear_arith)
            requires
                w <= 0xffff_ffff,
                h <= 0xffff_ffff,
        ;
        if pixels.len() as u64 == w * h {
            Some(Glyph { width, height, pixels })
        } else {
            None
        }
    }

    /// The width in pixels.
    pub fn width(&self) -> (r: u32)
        ensures
            r == self.spec_width(),
    {
        self.width
    }

    /// The height in pixels.
    pub fn height(&self) -> (r: u32)
        ensures
            r == self.spec_height(),
    {
        self.height
    }

    /// Whether the pixel at column `x` and row `y` is set.
    pub fn get(&self, x: u32, y: u32) -> (r: bool)
        requires
            x < self.spec_width(),
            y < self.spec_height(),
        ensures
            r == self.pixel(x as int, y as int),
    {
        proof {
            use_type_invariant(self);
        }
        let w = self.width as usize;
        let _n = self.pixels.len();
        proof {
            lemma_row_major_index(y as int, x as int, self.height as int, self.width as int);
            assert(y as int * w as int + x as int <= usize::MAX);
        }
        self.pixels[y as usize * w + x as usize]
    }
}

/// A position in a row-major grid of `h` rows of `w` entries lies inside it.
pub proof fn lemma_row_major_index(y: int, x: int, h: int, w: int)
    requires
        0 <= y < h,
        0 <= x < w,
    ensures
        0 <= y * w + x < h * w,
        y * w <= (h - 1) * w,
{
    assert(y * w + x < h * w) by (nonlinear_arith)
        requires
            0 <= y < h,
            0 <= x < w,
    ;
    assert(0 <= y * w) by (nonlinear_arith)
        requires
            0 <= y,
            0 <= w,
    ;
    assert(y * w <= (h - 1) * w) by (nonlinear_arith)
        requires
            y <= h - 1,
            0 <= w,
    ;
}

/// A bitmap font: glyphs keyed by the character they draw.
pub struct BitmapFont {
    pub glyphs: Vec<(char, Glyph)>,
}

/// The index of the first glyph for `c`, if the font has one.
pub open spec fn find_glyph(glyphs: Seq<(char, Glyph)>, c: char) -> Option<int>
    decreases glyphs.len(),
{
    if glyphs.len() == 0 {
        None
    } else {
        match find_glyph(glyphs.drop_last(), c) {
            Some(i) => Some(i),
            None => if glyphs.last().0 == c {
                Some(glyphs.len() - 1)
            } else {
                None
            },
        }
    }
}

proof fn lemma_find_glyph(glyphs: Seq<(char, Glyph)>, c: char)
    ensures
        match find_glyph(glyphs, c) {
            Some(i) => 0 <= i < glyphs.len() && glyphs[i].0 == c,
            None => forall|j: int| 0 <= j < glyphs.len() ==> glyphs[j].0 != c,
        },
    decreases glyphs.len(),
{
    if glyphs.len() > 0 {
        lemma_find_glyph(glyphs.drop_last(), c);
        assert forall|j: int| 0 <= j < glyphs.len() - 1 implies glyphs[j]
            == glyphs.drop_last()[j] by {}
    }
}

proof fn lemma_find_glyph_prefix(glyphs: Seq<(char, Glyph)>, n: int, c: char)
    requires
        0 <= n <= glyphs.len(),
        find_glyph(glyphs.subrange(0, n), c) is Some,
    ensures
        find_glyph(glyphs, c) == find_glyph(glyphs.subrange(0, n), c),
    decreases glyphs.len(),
{
    if n == glyphs.len() {
        assert(glyphs.subrange(0, n) =~= glyphs);
    } else {
        assert(glyphs.drop_last().subrange(0, n) =~= glyphs.subrange(0, n));
        lemma_find_glyph_prefix(glyphs.drop_last(), n, c);
    }
}

/// The index of the glyph that the atlas draws for `c`: its own, else the
/// glyph of the space character, else none (a blank cell).
pub open spec fn source_index(glyphs: Seq<(char, Glyph)>, c: char) -> Option<int> {
    match find_glyph(glyphs, c) {
        Some(i) => Some(i),
        None => find_glyph(glyphs, ' '),
    }
}

/// The width of the glyph that the atlas draws for `c`.
pub open spec fn source_width(glyphs: Seq<(char, Glyph)>, c: char) -> nat {
    match source_index(glyphs, c) {
        Some(i) => glyphs[i].1.spec_width() as nat,
        None => 0,
    }
}

/// The height of the glyph that the atlas draws for `c`.
pub open spec fn source_height(glyphs: Seq<(char, Glyph)>, c: char) -> nat {
    match source_index(glyphs, c) {
        Some(i) => glyphs[i].1.spec_height() as nat,
        None => 0,
    }
}

impl BitmapFont {
    /// The index of the first glyph for `c`, if the font has one.
    pub fn find(&self, c: char) -> (r: Option<usize>)
        ensures
            match r {
                Some(i) => find_glyph(self.glyphs@, c) == Some(i as int),
                None => find_glyph(self.glyphs@, c) is None,
            },
    {
        let mut i: usize = 0;
        assert(self.glyphs@.subrange(0, 0) =~= Seq::<(char, Glyph)>::empty());
        while i < self.glyphs.len()
            invariant
                i <= self.glyphs@.len(),
                find_glyph(self.glyphs@.subrange(0, i as int), c) is None,
            decreases self.glyphs@.len() - i,
        {
            let ghost next = self.glyphs@.subrange(0, i + 1);
            assert(next.drop_last() =~= self.glyphs@.subrange(0, i as int));
            if self.glyphs[i].0 == c {
                proof {
                    lemma_find_glyph_prefix(self.glyphs@, i + 1, c);
                }
                return Some(i);
            }
            i = i + 1;
        }
        assert(self.glyphs@.subrange(0, i as int) =~= self.glyphs@);
        None
    }

    /// The index of the glyph that the atlas draws for `c`.
    pub fn source(&self, c: char) -> (r: Option<usize>)
        ensures
            match r {
                Some(i) => source_index(self.glyphs@, c) == Some(i as int) && i
                    < self.glyphs@.len(),
                None => source_index(self.glyphs@, c) is None,
            },
    {
        proof {
            lemma_find_glyph(self.glyphs@, c);
            lemma_find_glyph(self.glyphs@, ' ');
        }
        match self.find(c) {
            Some(i) => Some(i),
            None => self.find(' '),
        }
    }
}

/// The widest glyph that the atlas draws for the first `n` characters of
/// the printable set.
pub open spec fn max_width_upto(glyphs: Seq<(char, Glyph)>, n: nat) -> nat
    decreases n,
{
    if n == 0 {
        0
    } else {
        let m = max_width_upto(glyphs, (n - 1) as nat);
        let w = source_width(glyphs, charset_char(n - 1));
        if w > m {
            w
        } else {
            m
        }
    }
}

/// The tallest glyph that the atlas draws for the first `n` characters of
/// the printable set.
pub open spec fn max_height_upto(glyphs: Seq<(char, Glyph)>, n: nat) -> nat
    decreases n,
{
    if n == 0 {
        0
    } else {
        let m = max_height_upto(glyphs, (n - 1) as nat);
        let h = source_height(glyphs, charset_char(n - 1));
        if h > m {
            h
        } else {
            m
        }
    }
}

proof fn lemma_max_bounds(glyphs: Seq<(char, Glyph)>, n: nat, i: int)
    requires
        0 <= i < n,
    ensures
        source_width(glyphs, charset_char(i)) <= max_width_upto(glyphs, n),
        source_height(glyphs, charset_char(i)) <= max_height_upto(glyphs, n),
    decreases n,
{
    if i < n - 1 {
        lemma_max_bounds(glyphs, (n - 1) as nat, i);
    }
}

/// The number of cell columns the atlas is sized for: the integer nearest
/// to the square root of the number of characters.
pub open spec fn grid_columns() -> int {
    10
}

/// The grid of equal cells that the atlas is packed into. Cell `i` holds
/// the `i`-th printable character; cells fill rows left to right.
#[derive(Clone, Copy, Debug, PartialEq, Eq, Structural)]
pub struct AtlasLayout {
    pub cell_width: usize,
    pub cell_height: usize,
    pub width: usize,
    pub height: usize,
    pub per_row: usize,
}

impl AtlasLayout {
    /// The layout that a font with the given largest glyph gets: cells one
    /// texel larger than the largest glyph, a row as wide as the grid
    /// columns plus one texel, as many cells per row as fit, and as many
    /// rows as the cells need plus one.
    pub open spec fn sized_for(self, max_width: int, max_height: int) -> bool {
        &&& self.cell_width == max_width + 1
        &&& self.cell_height == max_height + 1
        &&& self.width == grid_columns() * self.cell_width + 1
        &&& self.per_row as int == self.width as int / self.cell_width as int
        &&& self.height as int == (CHARS as int / self.per_row as int + 1) * self.cell_height as int
    }

    /// The layout that `glyphs` gets.
    pub open spec fn of_font(self, glyphs: Seq<(char, Glyph)>) -> bool {
        self.sized_for(
            max_width_upto(glyphs, CHARS as nat) as int,
            max_height_upto(glyphs, CHARS as nat) as int,
        )
    }

    /// Left edge of cell `i`, in texels.
    pub open spec fn cell_x(self, i: int) -> int {
        (i % self.per_row as int) * self.cell_width as int
    }

    /// Top edge of cell `i`, in texels (rows grow downwards).
    pub open spec fn cell_y(self, i: int) -> int {
        (i / self.per_row as int) * self.cell_height as int
    }
}

/// The number of texels of the atlas for a font whose largest glyph is
/// `max_width` by `max_height`.
pub open spec fn atlas_texels(max_width: int, max_height: int) -> int {
    let cw = max_width + 1;
    let w = grid_columns() * cw + 1;
    w * ((CHARS as int / (w / cw) + 1) * (max_height + 1))
}

/// The atlas of `glyphs` can be addressed in memory.
pub open spec fn atlas_fits(glyphs: Seq<(char, Glyph)>) -> bool {
    atlas_texels(
        max_width_upto(glyphs, CHARS as nat) as int,
        max_height_upto(glyphs, CHARS as nat) as int,
    ) <= usize::MAX
}

impl AtlasLayout {
    /// The grid for `font`, or `None` when its atlas would have more texels
    /// than memory can address.
    pub fn for_font(font: &BitmapFont) -> (r: Option<AtlasLayout>)
        ensures
            r is Some <==> atlas_fits(font.glyphs@),
            r matches Some(l) ==> l.of_font(font.glyphs@) && l.width as int * l.height as int
                <= usize::MAX,
    {
        let ghost glyphs = font.glyphs@;
        let mut max_w: u32 = 0;
        let mut max_h: u32 = 0;
        let mut i: usize = 0;
        while i < CHARS
            invariant
                i <= CHARS,
                font.glyphs@ == glyphs,
                max_w == max_width_upto(glyphs, i as nat),
                max_h == max_height_upto(glyphs, i as nat),
            decreases CHARS - i,
        {
            let c = charset_char_at(i);
            let (w, h) = match font.source(c) {
                Some(g) => (font.glyphs[g].1.width(), font.glyphs[g].1.height()),
                None => (0u32, 0u32),
            };
            if w > max_w {
                max_w = w;
            }
            if h > max_h {
                max_h = h;
            }
            i = i + 1;
        }
        let cols = u_sqrt(CHARS);
        assert(cols == 10) by (nonlinear_arith)
            requires
                is_rounded_sqrt(95, cols as int),
        ;
        let cw: u64 = max_w as u64 + 1;
        let ch: u64 = max_h as u64 + 1;
        let width: u64 = cols as u64 * cw + 1;
        let per_row: u64 = width / cw;
        proof {
            lemma_fundamental_div_mod(width as int, cw as int);
            assert(per_row >= 10) by (nonlinear_arith)
                requires
                    width == cw * per_row + width % cw,
                    width % cw < cw,
                    width == 10 * cw + 1,
                    cw >= 1,
            ;
            lemma_div_is_ordered(10, per_row as int, CHARS as int);
            assert(CHARS as int / per_row as int <= 9) by (nonlinear_arith)
                requires
                    per_row >= 10,
            ;
        }
        let rows: u64 = CHARS as u64 / per_row + 1;
        assert(rows * ch <= 10 * 0x1_0000_0000u64) by (nonlinear_arith)
            requires
                rows <= 10,
                ch <= 0x1_0000_0000u64,
        ;
        let height: u64 = rows * ch;
        assert(width as int * height as int <= 0x10_0000_0001int * 0xa_0000_0000int)
            by (nonlinear_arith)
            requires
                width <= 0x10_0000_0001u64,
                height <= 0xa_0000_0000u64,
        ;
        let total: u128 = width as u128 * height as u128;
        if total > usize::MAX as u128 {
            None
        } else {
            assert(ch <= height) by (nonlinear_arith)
                requires
                    height == rows * ch,
                    rows >= 1,
                    ch >= 1,
            ;
            assert(width <= total && height <= total && per_row <= width) by (nonlinear_arith)
                requires
                    total == width * height,
                    width >= 1,
                    height >= 1,
                    per_row == width / cw,
                    cw >= 1,
            ;
            Some(
                AtlasLayout {
                    cell_width: cw as usize,
                    cell_height: ch as usize,
                    width: width as usize,
                    height: height as usize,
                    per_row: per_row as usize,
                },
            )
        }
    }
}

/// Atlas packing: every cell of the printable set lies inside the atlas,
/// and no two cells overlap.
pub proof fn lemma_cells_packed(l: AtlasLayout, max_width: int, max_height: int, i: int, j: int)
    requires
        l.sized_for(max_width, max_height),
        max_width >= 0,
        max_height >= 0,
        0 <= i < CHARS,
        0 <= j < CHARS,
    ensures
        l.per_row >= 1,
        0 <= l.cell_x(i),
        l.cell_x(i) + l.cell_width <= l.width,
        0 <= l.cell_y(i),
        l.cell_y(i) + l.cell_height <= l.height,
        i != j ==> l.cell_x(i) + l.cell_width <= l.cell_x(j) || l.cell_x(j) + l.cell_width
            <= l.cell_x(i) || l.cell_y(i) + l.cell_height <= l.cell_y(j) || l.cell_y(j)
            + l.cell_height <= l.cell_y(i),
{
    let cw = l.cell_width as int;
    let ch = l.cell_height as int;
    let k = l.per_row as int;
    let w = l.width as int;
    lemma_fundamental_div_mod(w, cw);
    assert(k >= 1) by (nonlinear_arith)
        requires
            w == cw * k + w % cw,
            w % cw < cw,
            w == 10 * cw + 1,
            cw >= 1,
    ;
    assert(k * cw <= w) by (nonlinear_arith)
        requires
            w == cw * k + w % cw,
            w % cw >= 0,
    ;
    lemma_fundamental_div_mod(i, k);
    lemma_fundamental_div_mod(j, k);
    let (ri, ci, rj, cj) = (i / k, i % k, j / k, j % k);
    assert(0 <= ri) by (nonlinear_arith)
        requires
            i == k * ri + ci,
            0 <= ci < k,
            0 <= i,
    ;
    assert(0 <= rj) by (nonlinear_arith)
        requires
            j == k * rj + cj,
            0 <= cj < k,
            0 <= j,
    ;
    assert(0 <= ci * cw) by (nonlinear_arith)
        requires
            0 <= ci,
            0 <= cw,
    ;
    assert(0 <= ri * ch) by (nonlinear_arith)
        requires
            0 <= ri,
            0 <= ch,
    ;
    assert(ci * cw + cw <= w) by (nonlinear_arith)
        requires
            ci < k,
            k * cw <= w,
            0 <= cw,
    ;
    lemma_div_is_ordered(i, CHARS as int, k);
    assert(ri * ch + ch <= l.height) by (nonlinear_arith)
        requires
            ri <= CHARS as int / k,
            l.height == (CHARS as int / k + 1) * ch,
            0 <= ch,
    ;
    if i != j {
        if ri == rj {
            assert(ci != cj);
            if ci < cj {
                assert(ci * cw + cw <= cj * cw) by (nonlinear_arith)
                    requires
                        ci < cj,
                        0 <= cw,
                ;
            } else {
                assert(cj * cw + cw <= ci * cw) by (nonlinear_arith)
                    requires
                        cj < ci,
                        0 <= cw,
                ;
            }
        } else if ri < rj {
            assert(ri * ch + ch <= rj * ch) by (nonlinear_arith)
                requires
                    ri < rj,
                    0 <= ch,
            ;
        } else {
            assert(rj * ch + ch <= ri * ch) by (nonlinear_arith)
                requires
                    rj < ri,
                    0 <= ch,
            ;
        }
    }
}

/// Pixel (`gx`, `gy`) of the glyph that cell `i` draws is set.
pub open spec fn pixel_set(glyphs: Seq<(char, Glyph)>, i: int, gx: int, gy: int) -> bool {
    match source_index(glyphs, charset_char(i)) {
        Some(g) => {
            &&& 0 <= gx < glyphs[g].1.spec_width()
            &&& 0 <= gy < glyphs[g].1.spec_height()
            &&& glyphs[g].1.pixel(gx, gy)
        },
        None => false,
    }
}

/// The atlas texel that pixel (`gx`, `gy`) of the glyph of cell `i` lands
/// on: the glyph sits on the bottom of its cell, centred across it.
pub open spec fn texel_index(
    glyphs: Seq<(char, Glyph)>,
    l: AtlasLayout,
    i: int,
    gx: int,
    gy: int,
) -> int {
    let gw = source_width(glyphs, charset_char(i)) as int;
    let gh = source_height(glyphs, charset_char(i)) as int;
    (l.cell_y(i) + (l.cell_height - gh) + gy) * l.width + l.cell_x(i) + (l.cell_width - gw) / 2
        + gx
}

/// Some set glyph pixel lands on texel `t`.
pub open spec fn texel_covered(glyphs: Seq<(char, Glyph)>, l: AtlasLayout, t: int) -> bool {
    covered_by_first(glyphs, l, CHARS as int, t)
}

/// Some set pixel of the glyphs of the first `n` cells lands on texel `t`.
pub open spec fn covered_by_first(
    glyphs: Seq<(char, Glyph)>,
    l: AtlasLayout,
    n: int,
    t: int,
) -> bool {
    exists|i: int, gx: int, gy: int|
        0 <= i < n && pixel_set(glyphs, i, gx, gy) && #[trigger] texel_index(
            glyphs,
            l,
            i,
            gx,
            gy,
        ) == t
}

/// A rectangle, in texels of the atlas or in pixels of a glyph quad.
#[derive(Clone, Copy, Debug, PartialEq, Eq, Structural)]
pub struct Bounds {
    pub left: usize,
    pub right: usize,
    pub top: usize,
    pub bottom: usize,
}

/// Where a character's glyph is in the atlas: the corner of its cell, and
/// its texture rectangle in texels (`top` is the far edge from the texture
/// origin, as texture coordinates run upwards).
#[derive(Clone, Copy, Debug)]
pub struct CharInfo {
    pub atlas_position: (usize, usize),
    pub texture_coords: Bounds,
}

impl CharInfo {
    /// The entry of cell `i` of layout `l`.
    pub open spec fn of_cell(l: AtlasLayout, i: int) -> CharInfo {
        CharInfo {
            atlas_position: (l.cell_x(i) as usize, l.cell_y(i) as usize),
            texture_coords: Bounds {
                left: l.cell_x(i) as usize,
                right: (l.cell_x(i) + l.cell_width) as usize,
                top: (l.cell_y(i) + l.cell_height) as usize,
                bottom: l.cell_y(i) as usize,
            },
        }
    }

    /// The entry of a character that the atlas does not hold: an empty
    /// rectangle at the origin, which draws nothing.
    pub open spec fn blank() -> CharInfo {
        CharInfo {
            atlas_position: (0, 0),
            texture_coords: Bounds { left: 0, right: 0, top: 0, bottom: 0 },
        }
    }

    /// The glyph's rectangle in the atlas, in texels.
    pub fn quad_atlas_bounds(&self) -> (r: Bounds)
        ensures
            r == self.texture_coords,
    {
        self.texture_coords
    }

    /// The glyph quad placed with its corner at the origin: `width` across
    /// and `height` down.
    pub fn quad_plane_bounds(&self, width: usize, height: usize) -> (r: Bounds)
        ensures
            r == (Bounds { left: 0, right: width, top: 0, bottom: height }),
    {
        Bounds { left: 0, right: width, top: 0, bottom: height }
    }
}

/// The atlas of a bitmap font: one texel per pixel, `OPAQUE` where a glyph
/// pixel is set and 0 elsewhere, and the entry of each printable character.
pub struct FontAtlas {
    pub pixels: Vec<u32>,
    pub layout: AtlasLayout,
    pub char_info: Vec<CharInfo>,
}

impl AtlasLayout {
    /// The corner of cell `i`.
    pub fn cell_position(&self, i: usize) -> (r: (usize, usize))
        requires
            self.sized_for(self.cell_width - 1, self.cell_height - 1),
            self.cell_width >= 1,
            self.cell_height >= 1,
            i < CHARS,
        ensures
            r.0 as int == self.cell_x(i as int),
            r.1 as int == self.cell_y(i as int),
            r.0 + self.cell_width <= self.width,
            r.1 + self.cell_height <= self.height,
    {
        proof {
            lemma_cells_packed(
                *self,
                self.cell_width - 1,
                self.cell_height - 1,
                i as int,
                i as int,
            );
        }
        ((i % self.per_row) * self.cell_width, (i / self.per_row) * self.cell_height)
    }
}

fn blit_glyph(pixels: &mut Vec<u32>, font: &BitmapFont, l: AtlasLayout, i: usize)
    requires
        l.of_font(font.glyphs@),
        l.width as int * l.height as int <= usize::MAX,
        old(pixels)@.len() == l.width as int * l.height as int,
        i < CHARS,
    ensures
        final(pixels)@.len() == old(pixels)@.len(),
        forall|t: int|
            0 <= t < old(pixels)@.len() ==> #[trigger] final(pixels)@[t] == if exists|
                gx: int,
                gy: int,
            |
                pixel_set(font.glyphs@, i as int, gx, gy) && #[trigger] texel_index(
                    font.glyphs@,
                    l,
                    i as int,
                    gx,
                    gy,
                ) == t {
                OPAQUE
            } else {
                old(pixels)@[t]
            },
{
    let ghost glyphs = font.glyphs@;
    let ghost start = pixels@;
    let c = charset_char_at(i);
    let g = match font.source(c) {
        Some(g) => g,
        None => {
            assert forall|t: int| 0 <= t < start.len() implies #[trigger] pixels@[t] == if exists|
                gx: int,
                gy: int,
            |
                pixel_set(glyphs, i as int, gx, gy) && #[trigger] texel_index(
                    glyphs,
                    l,
                    i as int,
                    gx,
                    gy,
                ) == t {
                OPAQUE
            } else {
                start[t]
            } by {}
            return ;
        },
    };
    let glyph = &font.glyphs[g].1;
    proof {
        lemma_max_bounds(glyphs, CHARS as nat, i as int);
    }
    let gw = glyph.width();
    let gh = glyph.height();
    let (cx, cy) = l.cell_position(i);
    let x_offset = (l.cell_width - gw as usize) / 2;
    let y_offset = l.cell_height - gh as usize;
    let mut gx: u32 = 0;
    while gx < gw
        invariant
            glyphs == font.glyphs@,
            source_index(glyphs, c) == Some(g as int),
            g < glyphs.len(),
            *glyph == glyphs[g as int].1,
            c == charset_char(i as int),
            gw == glyph.spec_width(),
            gh == glyph.spec_height(),
            gw < l.cell_width,
            gh < l.cell_height,
            cx == l.cell_x(i as int),
            cy == l.cell_y(i as int),
            cx + l.cell_width <= l.width,
            cy + l.cell_height <= l.height,
            x_offset == (l.cell_width - gw) / 2,
            y_offset == l.cell_height - gh,
            l.width as int * l.height as int <= usize::MAX,
            pixels@.len() == start.len(),
            start.len() == l.width as int * l.height as int,
            gx <= gw,
            forall|t: int|
                0 <= t < start.len() ==> #[trigger] pixels@[t] == if exists|a: int, b: int|
                    a < gx && pixel_set(glyphs, i as int, a, b) && #[trigger] texel_index(
                        glyphs,
                        l,
                        i as int,
                        a,
                        b,
                    ) == t {
                    OPAQUE
                } else {
                    start[t]
                },
        decreases gw - gx,
    {
        let mut gy: u32 = 0;
        while gy < gh
            invariant
                glyphs == font.glyphs@,
                source_index(glyphs, c) == Some(g as int),
                g < glyphs.len(),
                *glyph == glyphs[g as int].1,
                c == charset_char(i as int),
                gw == glyph.spec_width(),
                gh == glyph.spec_height(),
                gw < l.cell_width,
                gh < l.cell_height,
                cx == l.cell_x(i as int),
                cy == l.cell_y(i as int),
                cx + l.cell_width <= l.width,
                cy + l.cell_height <= l.height,
                x_offset == (l.cell_width - gw) / 2,
                y_offset == l.cell_height - gh,
                l.width as int * l.height as int <= usize::MAX,
                pixels@.len() == start.len(),
                start.len() == l.width as int * l.height as int,
                gx < gw,
                gy <= gh,
                forall|t: int|
                    0 <= t < start.len() ==> #[trigger] pixels@[t] == if exists|a: int, b: int|
                        (a < gx || (a == gx && b < gy)) && pixel_set(glyphs, i as int, a, b)
                            && #[trigger] texel_index(glyphs, l, i as int, a, b) == t {
                        OPAQUE
                    } else {
                        start[t]
                    },
            decreases gh - gy,
        {
            let ax = cx + x_offset + gx as usize;
            let ay = cy + y_offset + gy as usize;
            proof {
                assert(x_offset + gw <= l.cell_width);
                assert(ax < l.width);
                assert(ay < l.height);
                lemma_row_major_index(ay as int, ax as int, l.height as int, l.width as int);
                assert(l.height as int * l.width as int == l.width as int * l.height as int)
                    by (nonlinear_arith);
            }
            let t0 = ay * l.width + ax;
            let set = glyph.get(gx, gy);
            let ghost before = pixels@;
            assert(t0 == texel_index(glyphs, l, i as int, gx as int, gy as int));
            assert(set == pixel_set(glyphs, i as int, gx as int, gy as int));
            if set {
                pixels.set(t0, OPAQUE);
            }
            assert forall|t: int| 0 <= t < start.len() implies #[trigger] pixels@[t] == if exists|
                a: int,
                b: int,
            |
                (a < gx || (a == gx && b < gy + 1)) && pixel_set(glyphs, i as int, a, b)
                    && #[trigger] texel_index(glyphs, l, i as int, a, b) == t {
                OPAQUE
            } else {
                start[t]
            } by {
                let ghost old_ex = exists|a: int, b: int|
                    (a < gx || (a == gx && b < gy)) && pixel_set(glyphs, i as int, a, b)
                        && #[trigger] texel_index(glyphs, l, i as int, a, b) == t;
                let ghost new_ex = exists|a: int, b: int|
                    (a < gx || (a == gx && b < gy + 1)) && pixel_set(glyphs, i as int, a, b)
                        && #[trigger] texel_index(glyphs, l, i as int, a, b) == t;
                assert(before[t] == if old_ex {
                    OPAQUE
                } else {
                    start[t]
                });
                if old_ex {
                    let (a, b) = choose|a: int, b: int|
                        (a < gx || (a == gx && b < gy)) && pixel_set(glyphs, i as int, a, b)
                            && #[trigger] texel_index(glyphs, l, i as int, a, b) == t;
                    assert((a < gx || (a == gx && b < gy + 1)) && pixel_set(glyphs, i as int, a, b)
                        && texel_index(glyphs, l, i as int, a, b) == t);
                }
                if set && t == t0 {
                    assert(pixel_set(glyphs, i as int, gx as int, gy as int) && texel_index(
                        glyphs,
                        l,
                        i as int,
                        gx as int,
                        gy as int,
                    ) == t);
                }
                if new_ex && !old_ex {
                    let (a, b) = choose|a: int, b: int|
                        (a < gx || (a == gx && b < gy + 1)) && pixel_set(glyphs, i as int, a, b)
                            && #[trigger] texel_index(glyphs, l, i as int, a, b) == t;
                    assert(a == gx && b == gy);
                }
            }
            gy = gy + 1;
        }
        assert forall|t: int| 0 <= t < start.len() implies #[trigger] pixels@[t] == if exists|
            a: int,
            b: int,
        |
            a < gx + 1 && pixel_set(glyphs, i as int, a, b) && #[trigger] texel_index(
                glyphs,
                l,
                i as int,
                a,
                b,
            ) == t {
            OPAQUE
        } else {
            start[t]
        } by {
            if exists|a: int, b: int|
                a < gx + 1 && pixel_set(glyphs, i as int, a, b) && #[trigger] texel_index(
                    glyphs,
                    l,
                    i as int,
                    a,
                    b,
                ) == t {
                let (a, b) = choose|a: int, b: int|
                    a < gx + 1 && pixel_set(glyphs, i as int, a, b) && #[trigger] texel_index(
                        glyphs,
                        l,
                        i as int,
                        a,
                        b,
                    ) == t;
                assert((a < gx || (a == gx && b < gh)) && pixel_set(glyphs, i as int, a, b)
                    && texel_index(glyphs, l, i as int, a, b) == t);
            }
        }
        gx = gx + 1;
    }
    assert forall|t: int| 0 <= t < start.len() implies #[trigger] pixels@[t] == if exists|
        a: int,
        b: int,
    |
        pixel_set(glyphs, i as int, a, b) && #[trigger] texel_index(glyphs, l, i as int, a, b)
            == t {
        OPAQUE
    } else {
        start[t]
    } by {
        if exists|a: int, b: int|
            pixel_set(glyphs, i as int, a, b) && #[trigger] texel_index(
                glyphs,
                l,
                i as int,
                a,
                b,
            ) == t {
            let (a, b) = choose|a: int, b: int|
                pixel_set(glyphs, i as int, a, b) && #[trigger] texel_index(
                    glyphs,
                    l,
                    i as int,
                    a,
                    b,
                ) == t;
            assert(a < gw && pixel_set(glyphs, i as int, a, b) && texel_index(
                glyphs,
                l,
                i as int,
                a,
                b,
            ) == t);
        }
    }
}

impl FontAtlas {
    /// Builds the atlas of `font`, or `None` when the atlas would have more
    /// texels than memory can address. A character the font lacks is drawn
    /// with the space glyph, and with nothing if that is missing too.
    pub fn build(font: &BitmapFont) -> (r: Option<FontAtlas>)
        ensures
            r is Some <==> atlas_fits(font.glyphs@),
            r matches Some(a) ==> {
                &&& a.layout.of_font(font.glyphs@)
                &&& a.pixels@.len() == a.layout.width as int * a.layout.height as int
                &&& forall|t: int|
                    0 <= t < a.pixels@.len() ==> #[trigger] a.pixels@[t] == if texel_covered(
                        font.glyphs@,
                        a.layout,
                        t,
                    ) {
                        OPAQUE
                    } else {
                        0
                    }
                &&& a.char_info@.len() == CHARS
                &&& forall|i: int|
                    0 <= i < CHARS ==> #[trigger] a.char_info@[i] == CharInfo::of_cell(a.layout, i)
                &&& forall|i: int|
                    0 <= i < CHARS ==> #[trigger] a.char_info@[i].texture_coords.left
                        <= a.char_info@[i].texture_coords.right <= a.layout.width
                        && a.char_info@[i].texture_coords.bottom
                        <= a.char_info@[i].texture_coords.top <= a.layout.height
                &&& forall|i: int, j: int|
                    0 <= i < CHARS && 0 <= j < CHARS && i != j ==> rects_apart(
                        #[trigger] a.char_info@[i].texture_coords,
                        #[trigger] a.char_info@[j].texture_coords,
                    )
            },
    {
        let l = match AtlasLayout::for_font(font) {
            Some(l) => l,
            None => {
                return None;
            },
        };
        let ghost glyphs = font.glyphs@;
        let ghost mw = max_width_upto(glyphs, CHARS as nat) as int;
        let ghost mh = max_height_upto(glyphs, CHARS as nat) as int;
        let n = l.width * l.height;
        let mut pixels: Vec<u32> = Vec::with_capacity(n);
        let mut t: usize = 0;
        while t < n
            invariant
                t <= n,
                pixels@.len() == t,
                forall|u: int| 0 <= u < t ==> pixels@[u] == 0,
            decreases n - t,
        {
            pixels.push(0);
            t = t + 1;
        }
        let mut char_info: Vec<CharInfo> = Vec::with_capacity(CHARS);
        let mut i: usize = 0;
        while i < CHARS
            invariant
                l.of_font(glyphs),
                i <= CHARS,
                char_info@.len() == i,
                forall|j: int| 0 <= j < i ==> #[trigger] char_info@[j] == CharInfo::of_cell(l, j),
            decreases CHARS - i,
        {
            let (x, y) = l.cell_position(i);
            let info = CharInfo {
                atlas_position: (x, y),
                texture_coords: Bounds {
                    left: x,
                    right: x + l.cell_width,
                    top: y + l.cell_height,
                    bottom: y,
                },
            };
            char_info.push(info);
            i = i + 1;
        }
        let mut i: usize = 0;
        while i < CHARS
            invariant
                glyphs == font.glyphs@,
                l.of_font(glyphs),
                l.width as int * l.height as int <= usize::MAX,
                n == l.width * l.height,
                i <= CHARS,
                pixels@.len() == n,
                forall|u: int|
                    0 <= u < n ==> #[trigger] pixels@[u] == if covered_by_first(
                        glyphs,
                        l,
                        i as int,
                        u,
                    ) {
                        OPAQUE
                    } else {
                        0
                    },
            decreases CHARS - i,
        {
            let ghost before = pixels@;
            blit_glyph(&mut pixels, font, l, i);
            assert forall|u: int| 0 <= u < n implies #[trigger] pixels@[u] == if covered_by_first(
                glyphs,
                l,
                i + 1,
                u,
            ) {
                OPAQUE
            } else {
                0
            } by {
                let ghost mine = exists|gx: int, gy: int|
                    pixel_set(glyphs, i as int, gx, gy) && #[trigger] texel_index(
                        glyphs,
                        l,
                        i as int,
                        gx,
                        gy,
                    ) == u;
                if mine {
                    let (gx, gy) = choose|gx: int, gy: int|
                        pixel_set(glyphs, i as int, gx, gy) && #[trigger] texel_index(
                            glyphs,
                            l,
                            i as int,
                            gx,
                            gy,
                        ) == u;
                    assert(0 <= i < i + 1 && pixel_set(glyphs, i as int, gx, gy) && texel_index(
                        glyphs,
                        l,
                        i as int,
                        gx,
                        gy,
                    ) == u);
                }
                if covered_by_first(glyphs, l, i as int, u) {
                    let (j, gx, gy) = choose|j: int, gx: int, gy: int|
                        0 <= j < i && pixel_set(glyphs, j, gx, gy) && #[trigger] texel_index(
                            glyphs,
                            l,
                            j,
                            gx,
                            gy,
                        ) == u;
                    assert(0 <= j < i + 1 && pixel_set(glyphs, j, gx, gy) && texel_index(
                        glyphs,
                        l,
                        j,
                        gx,
                        gy,
                    ) == u);
                }
                if covered_by_first(glyphs, l, i + 1, u) && !covered_by_first(
                    glyphs,
                    l,
                    i as int,
                    u,
                ) {
                    let (j, gx, gy) = choose|j: int, gx: int, gy: int|
                        0 <= j < i + 1 && pixel_set(glyphs, j, gx, gy) && #[trigger] texel_index(
                            glyphs,
                            l,
                            j,
                            gx,
                            gy,
                        ) == u;
                    if j < i {
                        assert(0 <= j < i && pixel_set(glyphs, j, gx, gy) && texel_index(
                            glyphs,
                            l,
                            j,
                            gx,
                            gy,
                        ) == u);
                    } else {
                        assert(pixel_set(glyphs, i as int, gx, gy) && texel_index(
                            glyphs,
                            l,
                            i as int,
                            gx,
                            gy,
                        ) == u);
                    }
                }
            }
            i = i + 1;
        }
        proof {
            assert forall|i: int|
                0 <= i < CHARS implies #[trigger] char_info@[i].texture_coords.left
                <= char_info@[i].texture_coords.right <= l.width
                && char_info@[i].texture_coords.bottom <= char_info@[i].texture_coords.top
                <= l.height by {
                lemma_cells_packed(l, mw, mh, i, i);
            }
            assert forall|i: int, j: int|
                0 <= i < CHARS && 0 <= j < CHARS && i != j implies rects_apart(
                #[trigger] char_info@[i].texture_coords,
                #[trigger] char_info@[j].texture_coords,
            ) by {
                lemma_cells_packed(l, mw, mh, i, j);
                lemma_cells_packed(l, mw, mh, j, i);
                assert(char_info@[i] == CharInfo::of_cell(l, i));
                assert(char_info@[j] == CharInfo::of_cell(l, j));
            }
        }
        Some(FontAtlas { pixels, layout: l, char_info })
    }

    /// The texels as bytes for an RGBA texture: four per texel, most
    /// significant first.
    pub fn rgba_bytes(&self) -> (r: Vec<u8>)
        requires
            4 * self.pixels@.len() <= usize::MAX,
        ensures
            r@.len() == 4 * self.pixels@.len(),
            forall|k: int|
                0 <= k < r@.len() ==> #[trigger] r@[k] == texel_byte(self.pixels@[k / 4], k % 4),
    {
        let n = self.pixels.len();
        let mut bytes: Vec<u8> = Vec::with_capacity(4 * n);
        let mut i: usize = 0;
        while i < n
            invariant
                i <= n,
                n == self.pixels@.len(),
                4 * n <= usize::MAX,
                bytes@.len() == 4 * i,
                forall|k: int|
                    0 <= k < bytes@.len() ==> #[trigger] bytes@[k] == texel_byte(
                        self.pixels@[k / 4],
                        k % 4,
                    ),
            decreases n - i,
        {
            let p = self.pixels[i];
            let mut j: u32 = 0;
            while j < 4
                invariant
                    i < n,
                    n == self.pixels@.len(),
                    4 * n <= usize::MAX,
                    p == self.pixels@[i as int],
                    j <= 4,
                    bytes@.len() == 4 * i + j,
                    forall|k: int|
                        0 <= k < bytes@.len() ==> #[trigger] bytes@[k] == texel_byte(
                            self.pixels@[k / 4],
                            k % 4,
                        ),
                decreases 4 - j,
            {
                proof {
                    vstd::arithmetic::div_mod::lemma_fundamental_div_mod_converse(
                        (4 * i + j) as int,
                        4,
                        i as int,
                        j as int,
                    );
                }
                bytes.push(((p >> (24 - 8 * j)) & 0xff) as u8);
                j = j + 1;
            }
            i = i + 1;
        }
        bytes
    }

    /// The size of the atlas, in texels.
    pub fn atlas_size(&self) -> (r: (usize, usize))
        ensures
            r == (self.layout.width, self.layout.height),
    {
        (self.layout.width, self.layout.height)
    }

    /// The size of one cell, in texels.
    pub fn cell_size(&self) -> (r: (usize, usize))
        ensures
            r == (self.layout.cell_width, self.layout.cell_height),
    {
        (self.layout.cell_width, self.layout.cell_height)
    }

    /// The entry of `c`; a character outside the printable set gets the
    /// blank entry.
    pub fn get_info(&self, c: char) -> (r: CharInfo)
        ensures
            CHAR_START <= (c as u32) < CHAR_END && self.char_info@.len() == CHARS ==> r
                == self.char_info@[(c as u32) - CHAR_START],
            !(CHAR_START <= (c as u32) < CHAR_END) ==> r == CharInfo::blank(),
    {
        let code = c as u32;
        if CHAR_START <= code && code < CHAR_END && ((code - CHAR_START) as usize)
            < self.char_info.len() {
            self.char_info[(code - CHAR_START) as usize]
        } else {
            CharInfo {
                atlas_position: (0, 0),
                texture_coords: Bounds { left: 0, right: 0, top: 0, bottom: 0 },
            }
        }
    }
}

/// Byte `j` (0 to 3, most significant first) of texel value `p`.
pub open spec fn texel_byte(p: u32, j: int) -> u8 {
    ((p >> ((24 - 8 * j) as u32)) & 0xff) as u8
}

/// Two rectangles share no texel.
pub open spec fn rects_apart(a: Bounds, b: Bounds) -> bool {
    a.right <= b.left || b.right <= a.left || a.top <= b.bottom || b.top <= a.bottom
}

} // verus!
