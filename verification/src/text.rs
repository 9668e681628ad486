use vstd::prelude::*;
use crate::led_font::Glyph;

verus! {

/// The remainder of `a` by a positive `n` that takes the sign of `a`: a
/// coordinate past the right or bottom edge comes back in at the opposite
/// edge, and a negative one stays negative, off the canvas.
pub open spec fn wrap(a: int, n: int) -> int {
    if a >= 0 {
        a % n
    } else {
        -((-a) % n)
    }
}

/// The spacing added after each glyph: the kerning offset, or zero where it
/// is negative.
pub open spec fn spacing(kerning_offset: int) -> int {
    if kerning_offset < 0 {
        0
    } else {
        kerning_offset
    }
}

/// The cursor after a glyph drawn at `cursor`: moved by the glyph's extent
/// and the spacing along the writing axis, and wrapped to the canvas extent
/// on that axis.
pub open spec fn advance(
    cursor: (int, int),
    glyph: Glyph,
    kerning_offset: int,
    vertical: bool,
    width: int,
    height: int,
) -> (int, int) {
    if vertical {
        (cursor.0, wrap(cursor.1 + glyph.height + spacing(kerning_offset), height))
    } else {
        (wrap(cursor.0 + glyph.width + spacing(kerning_offset), width), cursor.1)
    }
}

/// The cursor at which glyph number `i` of a text is drawn.
pub open spec fn cursor_at(
    glyphs: Seq<Glyph>,
    i: int,
    start: (int, int),
    kerning_offset: int,
    vertical: bool,
    width: int,
    height: int,
) -> (int, int)
    decreases i,
{
    if i <= 0 {
        start
    } else {
        advance(
            cursor_at(glyphs, i - 1, start, kerning_offset, vertical, width, height),
            glyphs[i - 1],
            kerning_offset,
            vertical,
            width,
            height,
        )
    }
}

/// Whether one of the first `count` cells of `glyph` is lit and lands on
/// `(x, y)` when the glyph is drawn at `cursor`.
pub open spec fn glyph_covers_prefix(
    glyph: Glyph,
    count: int,
    cursor: (int, int),
    width: int,
    height: int,
    x: int,
    y: int,
) -> bool {
    exists|k: int|
        0 <= k < count && k < glyph.pixels@.len() && (#[trigger] glyph.pixels@[k]).is_set && wrap(
            glyph.pixels@[k].x + cursor.0,
            width,
        ) == x && wrap(glyph.pixels@[k].y + cursor.1, height) == y
}

/// Whether a lit cell of `glyph` lands on `(x, y)` when the glyph is drawn
/// at `cursor`.
pub open spec fn glyph_covers(
    glyph: Glyph,
    cursor: (int, int),
    width: int,
    height: int,
    x: int,
    y: int,
) -> bool {
    glyph_covers_prefix(glyph, glyph.pixels@.len() as int, cursor, width, height, x, y)
}

/// Whether one of the first `count` glyphs of a text lights `(x, y)`.
pub open spec fn text_covers_prefix(
    glyphs: Seq<Glyph>,
    count: int,
    start: (int, int),
    kerning_offset: int,
    vertical: bool,
    width: int,
    height: int,
    x: int,
    y: int,
) -> bool {
    exists|i: int|
        0 <= i < count && i < glyphs.len() && glyph_covers(
            glyphs[i],
            #[trigger] cursor_at(glyphs, i, start, kerning_offset, vertical, width, height),
            width,
            height,
            x,
            y,
        )
}

/// Whether a text of the given glyphs, drawn from `start`, lights `(x, y)`.
pub open spec fn text_covers(
    glyphs: Seq<Glyph>,
    start: (int, int),
    kerning_offset: int,
    vertical: bool,
    width: int,
    height: int,
    x: int,
    y: int,
) -> bool {
    text_covers_prefix(
        glyphs,
        glyphs.len() as int,
        start,
        kerning_offset,
        vertical,
        width,
        height,
        x,
        y,
    )
}

/// A wrapped coordinate is smaller in magnitude than the extent.
pub proof fn lemma_wrap_range(a: int, n: int)
    requires
        n > 0,
    ensures
        -n < wrap(a, n) < n,
        a >= 0 ==> 0 <= wrap(a, n),
        a <= 0 ==> wrap(a, n) <= 0,
{
    if a == 0 {
        vstd::arithmetic::div_mod::lemma_small_mod(0, n as nat);
    } else if a > 0 {
        vstd::arithmetic::div_mod::lemma_mod_pos_bound(a, n);
    } else {
        vstd::arithmetic::div_mod::lemma_mod_pos_bound(-a, n);
    }
}

/// A coordinate on the canvas is left where it is.
pub proof fn lemma_wrap_inside(a: int, n: int)
    requires
        0 <= a < n,
    ensures
        wrap(a, n) == a,
{
    vstd::arithmetic::div_mod::lemma_small_mod(a as nat, n as nat);
}

/// A coordinate `a` cells past the far edge comes back in `a` cells from
/// the near edge: the cell that would land on column `width` lands on
/// column zero.
pub proof fn lemma_wrap_past_edge(a: int, n: int)
    requires
        0 <= a < n,
    ensures
        wrap(n + a, n) == a,
{
    vstd::arithmetic::div_mod::lemma_fundamental_div_mod_converse(n + a, n, 1, a);
}

/// A lit glyph cell that would land `a` columns past the right edge of the
/// canvas is drawn `a` columns from the left edge, on its own row: it wraps
/// and is not dropped.
pub proof fn lemma_glyph_cell_wraps_at_right_edge(
    glyph: Glyph,
    k: int,
    cursor: (int, int),
    width: int,
    height: int,
    a: int,
)
    requires
        0 <= k < glyph.pixels@.len(),
        glyph.pixels@[k].is_set,
        0 <= a < width,
        glyph.pixels@[k].x + cursor.0 == width + a,
        0 <= glyph.pixels@[k].y + cursor.1 < height,
    ensures
        glyph_covers(glyph, cursor, width, height, a, glyph.pixels@[k].y + cursor.1),
{
    lemma_wrap_past_edge(a, width);
    lemma_wrap_inside(glyph.pixels@[k].y + cursor.1, height);
}

/// A lit glyph cell that would land `b` rows past the bottom edge of the
/// canvas is drawn `b` rows from the top edge, in its own column.
pub proof fn lemma_glyph_cell_wraps_at_bottom_edge(
    glyph: Glyph,
    k: int,
    cursor: (int, int),
    width: int,
    height: int,
    b: int,
)
    requires
        0 <= k < glyph.pixels@.len(),
        glyph.pixels@[k].is_set,
        0 <= b < height,
        glyph.pixels@[k].y + cursor.1 == height + b,
        0 <= glyph.pixels@[k].x + cursor.0 < width,
    ensures
        glyph_covers(glyph, cursor, width, height, glyph.pixels@[k].x + cursor.0, b),
{
    lemma_wrap_past_edge(b, height);
    lemma_wrap_inside(glyph.pixels@[k].x + cursor.0, width);
}

/// A text without characters lights no cell.
pub proof fn lemma_empty_text_covers_nothing(
    start: (int, int),
    kerning_offset: int,
    vertical: bool,
    width: int,
    height: int,
    x: int,
    y: int,
)
    ensures
        !text_covers(Seq::<Glyph>::empty(), start, kerning_offset, vertical, width, height, x, y),
{
}

/// A text of one character lights the cells of its glyph, drawn where the
/// text starts.
pub proof fn lemma_single_glyph_text(
    glyph: Glyph,
    start: (int, int),
    kerning_offset: int,
    vertical: bool,
    width: int,
    height: int,
    x: int,
    y: int,
)
    ensures
        text_covers(seq![glyph], start, kerning_offset, vertical, width, height, x, y)
            <==> glyph_covers(glyph, start, width, height, x, y),
{
    let glyphs = seq![glyph];
    assert(cursor_at(glyphs, 0, start, kerning_offset, vertical, width, height) == start);
    assert(glyphs[0] == glyph);
}

} // verus!
