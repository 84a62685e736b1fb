use algurulgar::atlas::{
    generate_font_charset, AtlasLayout, BitmapFont, FontAtlas, Glyph, CHARS, OPAQUE,
};
use algurulgar::math::u_sqrt;

fn glyph(width: u32, height: u32, set: &[(u32, u32)]) -> Glyph {
    let mut pixels = vec![false; (width * height) as usize];
    for &(x, y) in set {
        pixels[(y * width + x) as usize] = true;
    }
    Glyph::new(width, height, pixels).unwrap()
}

fn small_font() -> BitmapFont {
    BitmapFont {
        glyphs: vec![
            ('A', glyph(3, 4, &[(0, 0), (2, 3), (1, 2)])),
            (' ', glyph(2, 2, &[])),
        ],
    }
}

#[test]
fn charset_is_printable_ascii() {
    let chars = generate_font_charset();
    assert_eq!(chars.len(), CHARS);
    assert_eq!(chars[0], ' ');
    assert_eq!(chars[33], 'A');
    assert_eq!(chars[94], '~');
}

#[test]
fn rounded_square_roots() {
    assert_eq!(u_sqrt(0), 0);
    assert_eq!(u_sqrt(1), 1);
    assert_eq!(u_sqrt(2), 1);
    assert_eq!(u_sqrt(3), 2);
    assert_eq!(u_sqrt(6), 2);
    assert_eq!(u_sqrt(7), 3);
    assert_eq!(u_sqrt(95), 10);
    assert_eq!(u_sqrt(usize::MAX), 1usize << (usize::BITS / 2));
}

#[test]
fn glyph_pixels_are_row_major() {
    let g = glyph(3, 2, &[(2, 1)]);
    assert!(g.get(2, 1));
    assert!(!g.get(1, 2 - 1));
    assert!(!g.get(0, 0));
}

#[test]
fn layout_sizes_cells_from_largest_glyph() {
    let font = small_font();
    let l = AtlasLayout::for_font(&font).unwrap();
    assert_eq!((l.cell_width, l.cell_height), (4, 5));
    assert_eq!(l.width, 41);
    assert_eq!(l.per_row, 10);
    assert_eq!(l.height, 50);
}

#[test]
fn atlas_places_cells_in_rows() {
    let font = small_font();
    let atlas = FontAtlas::build(&font).unwrap();
    assert_eq!(atlas.atlas_size(), (41, 50));
    assert_eq!(atlas.cell_size(), (4, 5));
    let a = atlas.get_info('A');
    assert_eq!(a.atlas_position, (12, 15));
    let b = a.quad_atlas_bounds();
    assert_eq!((b.left, b.right, b.top, b.bottom), (12, 16, 20, 15));
    let space = atlas.get_info(' ');
    assert_eq!(space.atlas_position, (0, 0));
    let tilde = atlas.get_info('~');
    assert_eq!(tilde.atlas_position, (16, 45));
}

#[test]
fn atlas_rects_are_inside_and_apart() {
    let font = small_font();
    let atlas = FontAtlas::build(&font).unwrap();
    let (w, h) = atlas.atlas_size();
    let rects: Vec<_> = generate_font_charset()
        .iter()
        .map(|c| atlas.get_info(*c).quad_atlas_bounds())
        .collect();
    for r in &rects {
        assert!(r.left < r.right && r.right <= w);
        assert!(r.bottom < r.top && r.top <= h);
        let uv = (r.left as f32 / w as f32, r.right as f32 / w as f32);
        assert!(0.0 <= uv.0 && uv.1 <= 1.0);
    }
    for i in 0..rects.len() {
        for j in 0..rects.len() {
            if i != j {
                let (a, b) = (rects[i], rects[j]);
                assert!(
                    a.right <= b.left || b.right <= a.left || a.top <= b.bottom || b.top <= a.bottom
                );
            }
        }
    }
}

#[test]
fn atlas_blits_glyph_bottom_aligned_and_centred() {
    let font = small_font();
    let atlas = FontAtlas::build(&font).unwrap();
    let w = atlas.atlas_size().0;
    // 'A' is 3 by 4 in a 4 by 5 cell at (12, 15): x offset 0, y offset 1.
    let at = |x: usize, y: usize| atlas.pixels[y * w + x];
    assert_eq!(at(12, 16), OPAQUE);
    assert_eq!(at(14, 19), OPAQUE);
    assert_eq!(at(13, 18), OPAQUE);
    assert_eq!(at(12, 15), 0);
    assert_eq!(at(13, 16), 0);
    let lit = atlas.pixels.iter().filter(|p| **p == OPAQUE).count();
    assert_eq!(lit, 3);
    assert!(atlas.pixels.iter().all(|p| *p == 0 || *p == OPAQUE));
}

#[test]
fn missing_glyph_uses_space_glyph() {
    let font = BitmapFont {
        glyphs: vec![(' ', glyph(1, 1, &[(0, 0)])), ('x', glyph(1, 1, &[]))],
    };
    let atlas = FontAtlas::build(&font).unwrap();
    // every printable character but 'x' draws the space glyph: one texel each
    let lit = atlas.pixels.iter().filter(|p| **p == OPAQUE).count();
    assert_eq!(lit, CHARS - 1);
    // cells are 2 by 2, glyph 1 by 1: centred at x offset 0, bottom row
    let b = atlas.get_info('B');
    let w = atlas.atlas_size().0;
    let (x, y) = b.atlas_position;
    assert_eq!(atlas.pixels[(y + 1) * w + x], OPAQUE);
}

#[test]
fn font_without_glyphs_gives_blank_atlas() {
    let font = BitmapFont { glyphs: vec![] };
    let atlas = FontAtlas::build(&font).unwrap();
    assert_eq!(atlas.cell_size(), (1, 1));
    assert_eq!(atlas.atlas_size(), (11, 9));
    assert!(atlas.pixels.iter().all(|p| *p == 0));
}

#[test]
fn unknown_character_gets_blank_entry() {
    let atlas = FontAtlas::build(&small_font()).unwrap();
    let info = atlas.get_info('é');
    assert_eq!(info.atlas_position, (0, 0));
    let b = info.quad_atlas_bounds();
    assert_eq!((b.left, b.right, b.top, b.bottom), (0, 0, 0, 0));
    let p = info.quad_plane_bounds(10, 12);
    assert_eq!((p.left, p.right, p.top, p.bottom), (0, 10, 0, 12));
}

#[test]
fn glyph_needs_one_pixel_per_position() {
    assert!(Glyph::new(2, 2, vec![false; 3]).is_none());
    assert!(Glyph::new(0, 5, vec![]).is_some());
    let g = Glyph::new(2, 1, vec![false, true]).unwrap();
    assert_eq!((g.width(), g.height()), (2, 1));
    assert!(g.get(1, 0));
}

#[test]
fn texels_become_rgba_bytes() {
    let font = BitmapFont { glyphs: vec![(' ', glyph(1, 1, &[(0, 0)]))] };
    let atlas = FontAtlas::build(&font).unwrap();
    let bytes = atlas.rgba_bytes();
    assert_eq!(bytes.len(), 4 * atlas.pixels.len());
    let expected: Vec<u8> = atlas.pixels.iter().flat_map(|p| p.to_be_bytes()).collect();
    assert_eq!(bytes, expected);
    assert!(bytes.iter().any(|b| *b == 0xff));
}

#[test]
fn texel_bytes_are_most_significant_first() {
    let layout = AtlasLayout { cell_width: 1, cell_height: 1, width: 2, height: 1, per_row: 2 };
    let atlas = FontAtlas { pixels: vec![0x1122_3344, 0xa0b0_c0d0], layout, char_info: vec![] };
    assert_eq!(atlas.rgba_bytes(), vec![0x11, 0x22, 0x33, 0x44, 0xa0, 0xb0, 0xc0, 0xd0]);
}
