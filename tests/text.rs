use algurulgar::text::{layout_text, PlacedGlyph};

fn g(ch: char, x: i128, y: i128) -> PlacedGlyph {
    PlacedGlyph { ch, x, y }
}

#[test]
fn newline_drops_one_cell_height() {
    let out = layout_text("A\nB", 10, 12);
    assert_eq!(out, vec![g('A', 0, 0), g('B', 0, -12)]);
    assert_eq!(out[1].y - out[0].y, -12);
}

#[test]
fn glyphs_advance_by_cell_width() {
    let out = layout_text("abc", 7, 9);
    assert_eq!(out, vec![g('a', 0, 0), g('b', 7, 0), g('c', 14, 0)]);
}

#[test]
fn tab_advances_four_cells_and_carriage_return_is_skipped() {
    let out = layout_text("a\tb\r\nc", 10, 12);
    assert_eq!(out, vec![g('a', 0, 0), g('b', 50, 0), g('c', 0, -12)]);
}

#[test]
fn empty_text_places_nothing() {
    assert!(layout_text("", 10, 12).is_empty());
    assert!(layout_text("\n\r\t", 10, 12).is_empty());
}

#[test]
fn unknown_characters_still_take_a_cell() {
    let out = layout_text("é\u{1F600}x", 5, 5);
    assert_eq!(out, vec![g('é', 0, 0), g('\u{1F600}', 5, 0), g('x', 10, 0)]);
}
