//! Text layout: where each glyph of a string goes, before scaling.

use vstd::prelude::*;

verus! {

/// The code of a carriage return, which layout skips.
pub const CARRIAGE_RETURN: u32 = 13;

/// The code of a line feed, which starts a new line.
pub const LINE_FEED: u32 = 10;

/// The code of a horizontal tab.
pub const TAB: u32 = 9;

/// How many glyph advances a tab moves the cursor.
pub const TAB_SIZE: u32 = 4;

/// A glyph of laid-out text: its character and the corner of its quad,
/// in pixels at unit scale and line spacing, relative to the text origin.
/// Lines go downwards, so `y` is 0 on the first line and negative below.
#[derive(Clone, Copy, Debug, PartialEq, Eq, Structural)]
pub struct PlacedGlyph {
    pub ch: char,
    pub x: i128,
    pub y: i128,
}

/// The glyph `c` placed at (`x`, `y`).
pub open spec fn placed(c: char, x: int, y: int) -> PlacedGlyph {
    PlacedGlyph { ch: c, x: x as i128, y: y as i128 }
}

/// The glyphs of `s` with the cursor starting at (`x`, `y`): a glyph
/// advances the cursor by a cell width, a tab by `TAB_SIZE` cell widths, a
/// newline returns it to the left edge one cell height lower, and a
/// carriage return does nothing.
pub open spec fn layout_from(s: Seq<char>, x: int, y: int, cw: int, ch: int) -> Seq<
    PlacedGlyph,
>
    decreases s.len(),
{
    if s.len() == 0 {
        Seq::empty()
    } else if s[0] as u32 == CARRIAGE_RETURN {
        layout_from(s.drop_first(), x, y, cw, ch)
    } else if s[0] as u32 == LINE_FEED {
        layout_from(s.drop_first(), 0, y - ch, cw, ch)
    } else if s[0] as u32 == TAB {
        layout_from(s.drop_first(), x + TAB_SIZE * cw, y, cw, ch)
    } else {
        seq![placed(s[0], x, y)] + layout_from(s.drop_first(), x + cw, y, cw, ch)
    }
}

/// The glyphs of `s` laid out from the origin with cells of `cw` by `ch`.
pub open spec fn layout(s: Seq<char>, cw: int, ch: int) -> Seq<PlacedGlyph> {
    layout_from(s, 0, 0, cw, ch)
}

proof fn lemma_layout_glyph(s: Seq<char>, x: int, y: int, cw: int, ch: int)
    requires
        s.len() > 0,
        s[0] as u32 != CARRIAGE_RETURN,
        s[0] as u32 != LINE_FEED,
        s[0] as u32 != TAB,
    ensures
        layout_from(s, x, y, cw, ch) == seq![placed(s[0], x, y)]
            + layout_from(s.drop_first(), x + cw, y, cw, ch),
{
}

proof fn lemma_append_assoc(a: Seq<PlacedGlyph>, b: Seq<PlacedGlyph>, c: Seq<PlacedGlyph>)
    ensures
        a + (b + c) == (a + b) + c,
{
    assert(a + (b + c) =~= (a + b) + c);
}

proof fn lemma_push_is_append(s: Seq<PlacedGlyph>, g: PlacedGlyph)
    ensures
        s.push(g) == s + seq![g],
{
    assert(s.push(g) =~= s + seq![g]);
}

/// Lays out `text` with cells of `cell_width` by `cell_height` pixels.
pub fn layout_text(text: &str, cell_width: u32, cell_height: u32) -> (r: Vec<PlacedGlyph>)
    ensures
        r@ == layout(
            text@,
            cell_width as int,
            cell_height as int,
        ),
{
    let n = text.unicode_len();
    let ghost s = text@;
    let ghost cw = cell_width as int;
    let ghost ch = cell_height as int;
    let mut out: Vec<PlacedGlyph> = Vec::new();
    let mut x: i128 = 0;
    let mut y: i128 = 0;
    assert(s.subrange(0, s.len() as int) =~= s);
    for c in it: text.chars()
        invariant
            it.seq() == s,
            s.len() == n,
            cw == cell_width as int,
            ch == cell_height as int,
            n <= usize::MAX,
            0 <= x <= TAB_SIZE * cw * it.index(),
            0 <= -y <= ch * it.index(),
            out@ + layout_from(
                s.subrange(it.index() as int, s.len() as int),
                x as int,
                y as int,
                cw,
                ch,
            ) == layout(s, cw, ch),
    {
        let ghost i = it.index();
        let ghost rest = s.subrange(i as int, s.len() as int);
        assert(rest[0] == c);
        assert(rest.drop_first() =~= s.subrange(i + 1, s.len() as int));
        proof {
            assert(TAB_SIZE * cw * i + TAB_SIZE * cw == TAB_SIZE * cw * (i + 1))
                by (nonlinear_arith);
            assert(ch * i + ch == ch * (i + 1)) by (nonlinear_arith);
            assert(TAB_SIZE * cw * (i + 1) <= TAB_SIZE * 0xffff_ffffint * 0xffff_ffff_ffff_ffffint)
                by (nonlinear_arith)
                requires
                    0 <= cw <= 0xffff_ffff,
                    0 <= i + 1 <= 0xffff_ffff_ffff_ffff,
            ;
            assert(ch * (i + 1) <= 0xffff_ffffint * 0xffff_ffff_ffff_ffffint) by (nonlinear_arith)
                requires
                    0 <= ch <= 0xffff_ffff,
                    0 <= i + 1 <= 0xffff_ffff_ffff_ffff,
            ;
            assert(0 <= TAB_SIZE * cw * i) by (nonlinear_arith)
                requires
                    0 <= cw,
                    0 <= i,
            ;
            assert(0 <= ch * i) by (nonlinear_arith)
                requires
                    0 <= ch,
                    0 <= i,
            ;
        }
        assert(i < n);
        let ghost next = s.subrange(i + 1, s.len() as int);
        let ghost done = out@;
        assert(rest.len() > 0);
        let code = c as u32;
        if code == CARRIAGE_RETURN {
            assert(layout_from(rest, x as int, y as int, cw, ch) == layout_from(
                next,
                x as int,
                y as int,
                cw,
                ch,
            ));
        } else if code == LINE_FEED {
            assert(layout_from(rest, x as int, y as int, cw, ch) == layout_from(
                next,
                0,
                y - ch,
                cw,
                ch,
            ));
            x = 0;
            y = y - cell_height as i128;
        } else if code == TAB {
            assert(layout_from(rest, x as int, y as int, cw, ch) == layout_from(
                next,
                x + TAB_SIZE * cw,
                y as int,
                cw,
                ch,
            ));
            x = x + TAB_SIZE as i128 * cell_width as i128;
        } else {
            proof {
                lemma_layout_glyph(rest, x as int, y as int, cw, ch);
                lemma_append_assoc(
                    done,
                    seq![placed(c, x as int, y as int)],
                    layout_from(next, x + cw, y as int, cw, ch),
                );
            }
            let ghost before = out@;
            let g = PlacedGlyph { ch: c, x, y };
            out.push(g);
            proof {
                lemma_push_is_append(before, g);
            }
            x = x + cell_width as i128;
        }
    }
    assert(s.subrange(n as int, n as int) =~= Seq::<char>::empty());
    assert(out@ + Seq::<PlacedGlyph>::empty() =~= out@);
    out
}

} // verus!
