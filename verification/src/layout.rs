//! Paragraph layout: from a text and a font's metrics to positioned glyphs,
//! with lines broken at newlines and where a glyph would pass the width.
//!
//! Positions are in sixty-fourths of a pixel, `x` to the right and `y` down.

use vstd::prelude::*;
use crate::font::ScaledFont;

verus! {

/// A position in sixty-fourths of a pixel.
#[derive(Clone, Copy, Debug, PartialEq, Eq, Structural)]
pub struct Point {
    pub x: i64,
    pub y: i64,
}

/// A glyph placed by the layout.
#[derive(Clone, Copy, Debug, PartialEq, Eq, Structural)]
pub struct Glyph {
    /// The character the glyph stands for.
    pub ch: char,
    /// The glyph's advance in the font it was laid out with.
    pub advance: i32,
    /// Where the pen stood when the glyph was placed: the glyph's origin on
    /// its baseline, kerning included.
    pub position: Point,
}

/// The mathematical model of a placed glyph.
pub struct PlacedGlyph {
    pub ch: char,
    pub advance: int,
    pub x: int,
    pub y: int,
}

impl View for Glyph {
    type V = PlacedGlyph;

    open spec fn view(&self) -> PlacedGlyph {
        PlacedGlyph {
            ch: self.ch,
            advance: self.advance as int,
            x: self.position.x as int,
            y: self.position.y as int,
        }
    }
}

/// The models of a sequence of glyphs.
pub open spec fn glyph_models(glyphs: Seq<Glyph>) -> Seq<PlacedGlyph> {
    glyphs.map_values(|g: Glyph| g@)
}

/// The most characters a text may hold for its layout to stay within `i64`.
pub const MAX_TEXT_CHARS: usize = 0x1000_0000;

/// The greatest magnitude of an origin coordinate and of a width for a layout
/// to stay within `i64`.
pub const MAX_COORDINATE: i64 = 0x2000_0000_0000_0000;

/// Whether `c` is a control code: general category Cc.
pub open spec fn is_control(c: char) -> bool {
    c as u32 <= 0x1f || 0x7f <= c as u32 <= 0x9f
}

/// Whether `c` is white space: a character with the property White_Space.
pub open spec fn is_whitespace(c: char) -> bool {
    let code = c as u32;
    ||| 0x09 <= code <= 0x0d
    ||| code == 0x20
    ||| code == 0x85
    ||| code == 0xa0
    ||| code == 0x1680
    ||| 0x2000 <= code <= 0x200a
    ||| code == 0x2028
    ||| code == 0x2029
    ||| code == 0x202f
    ||| code == 0x205f
    ||| code == 0x3000
}

/// Whether `c` is a control code.
pub fn is_control_char(c: char) -> (control: bool)
    ensures
        control == is_control(c),
{
    let code: u32 = c as u32;
    code <= 0x1f || (0x7f <= code && code <= 0x9f)
}

/// Whether `c` is white space.
pub fn is_whitespace_char(c: char) -> (space: bool)
    ensures
        space == is_whitespace(c),
{
    let code: u32 = c as u32;
    (0x09 <= code && code <= 0x0d) || code == 0x20 || code == 0x85 || code == 0xa0 || code
        == 0x1680 || (0x2000 <= code && code <= 0x200a) || code == 0x2028 || code == 0x2029
        || code == 0x202f || code == 0x205f || code == 0x3000
}

/// The models of a sequence with one more glyph are the models of the
/// sequence with one more model.
pub proof fn lemma_models_of_push(glyphs: Seq<Glyph>, glyph: Glyph)
    ensures
        glyph_models(glyphs.push(glyph)) == glyph_models(glyphs).push(glyph@),
{
    let left = glyph_models(glyphs.push(glyph));
    let right = glyph_models(glyphs).push(glyph@);
    assert(left.len() == right.len());
    assert forall|i: int| 0 <= i < left.len() implies left[i] == right[i] by {
        if i < glyphs.len() {
            assert(glyphs.push(glyph)[i] == glyphs[i]);
        }
    }
    assert(left =~= right);
}

/// Where a layout stands after some of its text: the pen, the character that
/// the next one kerns against, and the glyphs placed so far.
pub struct LayoutState {
    pub x: int,
    pub y: int,
    /// The last glyph placed on the current line, or `None` at the start of a
    /// line.
    pub previous: Option<char>,
    pub placed: Seq<PlacedGlyph>,
}

/// A layout before its first character: the pen on the baseline of the first
/// line, at the origin's `x`.
pub open spec fn layout_start(font: ScaledFont, origin_x: int, origin_y: int) -> LayoutState {
    LayoutState {
        x: origin_x,
        y: origin_y + font.ascent,
        previous: None,
        placed: Seq::empty(),
    }
}

/// Where the pen stands for the printable character `c`: the pen of `state`
/// moved by the kerning between the glyph before it on the line and `c`.
pub open spec fn kerned_x(font: ScaledFont, state: LayoutState, c: char) -> int {
    state.x + match state.previous {
        Some(p) => font.kern_of(p, c),
        None => 0,
    }
}

/// Whether the printable character `c` breaks the line: it is not white
/// space, and past it the pen would stand beyond `origin_x + max_width`.
pub open spec fn breaks_line(
    font: ScaledFont,
    origin_x: int,
    max_width: int,
    state: LayoutState,
    c: char,
) -> bool {
    !is_whitespace(c) && kerned_x(font, state, c) + font.advance_of(c) > origin_x + max_width
}

/// The glyph that the printable character `c` places after `state`.
pub open spec fn placed_glyph(
    font: ScaledFont,
    origin_x: int,
    max_width: int,
    state: LayoutState,
    c: char,
) -> PlacedGlyph {
    if breaks_line(font, origin_x, max_width, state, c) {
        PlacedGlyph {
            ch: c,
            advance: font.advance_of(c),
            x: origin_x,
            y: state.y + font.line_height(),
        }
    } else {
        PlacedGlyph {
            ch: c,
            advance: font.advance_of(c),
            x: kerned_x(font, state, c),
            y: state.y,
        }
    }
}

/// The layout `state` after the character `c`.
///
/// A newline starts the next line. Any other control code is passed over. A
/// printable character is kerned against the glyph before it on the line,
/// placed at the pen, and the pen advances past it. Where the pen then stands
/// beyond `origin_x + max_width` and the character is not white space, the
/// line is broken: the glyph goes to the start of the next line, and the pen is
/// left there.
pub open spec fn layout_step(
    font: ScaledFont,
    origin_x: int,
    max_width: int,
    state: LayoutState,
    c: char,
) -> LayoutState {
    if is_control(c) {
        if c == '\n' {
            LayoutState {
                x: origin_x,
                y: state.y + font.line_height(),
                previous: None,
                placed: state.placed,
            }
        } else {
            state
        }
    } else if breaks_line(font, origin_x, max_width, state, c) {
        LayoutState {
            x: origin_x,
            y: state.y + font.line_height(),
            previous: None,
            placed: state.placed.push(placed_glyph(font, origin_x, max_width, state, c)),
        }
    } else {
        LayoutState {
            x: kerned_x(font, state, c) + font.advance_of(c),
            y: state.y,
            previous: Some(c),
            placed: state.placed.push(placed_glyph(font, origin_x, max_width, state, c)),
        }
    }
}

/// The layout after the whole of `text`, from the origin `(origin_x, origin_y)`.
pub open spec fn layout_state(
    font: ScaledFont,
    origin_x: int,
    origin_y: int,
    max_width: int,
    text: Seq<char>,
) -> LayoutState
    decreases text.len(),
{
    if text.len() == 0 {
        layout_start(font, origin_x, origin_y)
    } else {
        layout_step(
            font,
            origin_x,
            max_width,
            layout_state(font, origin_x, origin_y, max_width, text.drop_last()),
            text.last(),
        )
    }
}

/// The glyphs that the layout of `text` places, in text order.
pub open spec fn laid_out(
    font: ScaledFont,
    origin_x: int,
    origin_y: int,
    max_width: int,
    text: Seq<char>,
) -> Seq<PlacedGlyph> {
    layout_state(font, origin_x, origin_y, max_width, text).placed
}

/// Whether a pen at `(x, y)` after `n` characters is as near to where the
/// layout began as `n` steps allow. Every step moves the pen by at most two
/// 32-bit metrics in each direction.
pub open spec fn pen_in_reach(origin_x: int, start_y: int, n: int, x: int, y: int) -> bool {
    &&& origin_x - n * 0x1_0000_0000 <= x <= origin_x + n * 0x1_0000_0000
    &&& start_y - n * 0x1_0000_0000 <= y <= start_y + n * 0x1_0000_0000
}

/// Lays out `text` in `font` from `position`, the top left of the first line,
/// and appends the placed glyphs to `target` in text order.
///
/// The text, the origin and the width must be small enough for every pen
/// position to fit in `i64`.
pub fn layout_paragraph(
    font: &ScaledFont,
    position: Point,
    max_width: i64,
    text: &str,
    target: &mut Vec<Glyph>,
)
    requires
        text@.len() <= MAX_TEXT_CHARS,
        -MAX_COORDINATE <= position.x <= MAX_COORDINATE,
        -MAX_COORDINATE <= position.y <= MAX_COORDINATE,
        -MAX_COORDINATE <= max_width <= MAX_COORDINATE,
    ensures
        glyph_models(final(target)@) == glyph_models(old(target)@) + laid_out(
            *font,
            position.x as int,
            position.y as int,
            max_width as int,
            text@,
        ),
{
    let line_height: i64 = font.height as i64 + font.line_gap as i64;
    let limit: i64 = position.x + max_width;
    let mut pen_x: i64 = position.x;
    let mut pen_y: i64 = position.y + font.ascent as i64;
    let mut previous: Option<char> = None;
    let ghost before = glyph_models(target@);
    let ghost start_y = position.y + font.ascent;
    assert(glyph_models(target@) =~= before + Seq::<PlacedGlyph>::empty());
    for c in iter: text.chars()
        invariant
            iter.seq() == text@,
            text@.len() <= MAX_TEXT_CHARS,
            -MAX_COORDINATE <= position.x <= MAX_COORDINATE,
            -MAX_COORDINATE <= position.y <= MAX_COORDINATE,
            line_height == font.line_height(),
            limit == position.x + max_width,
            start_y == position.y + font.ascent,
            pen_in_reach(
                position.x as int,
                start_y,
                iter.index() as int,
                pen_x as int,
                pen_y as int,
            ),
            ({
                let state = layout_state(
                    *font,
                    position.x as int,
                    position.y as int,
                    max_width as int,
                    text@.take(iter.index() as int),
                );
                &&& state.x == pen_x
                &&& state.y == pen_y
                &&& state.previous == previous
                &&& glyph_models(target@) == before + state.placed
            }),
    {
        let ghost n = iter.index() as int;
        let ghost state = layout_state(
            *font,
            position.x as int,
            position.y as int,
            max_width as int,
            text@.take(n),
        );
        let ghost prior = target@;
        proof {
            assert(text@.take(n + 1).drop_last() =~= text@.take(n));
            assert(text@.take(n + 1).last() == c);
        }
        if is_control_char(c) {
            if c == '\n' {
                pen_x = position.x;
                pen_y = pen_y + line_height;
                previous = None;
            }
        } else {
            let kern: i32 = match previous {
                Some(p) => font.kern(p, c),
                None => 0,
            };
            let advance: i32 = font.h_advance(c);
            let kerned: i64 = pen_x + kern as i64;
            let mut glyph = Glyph { ch: c, advance, position: Point { x: kerned, y: pen_y } };
            pen_x = kerned + advance as i64;
            previous = Some(c);
            if !is_whitespace_char(c) && pen_x > limit {
                pen_x = position.x;
                pen_y = pen_y + line_height;
                glyph.position = Point { x: pen_x, y: pen_y };
                previous = None;
            }
            target.push(glyph);
            proof {
                lemma_models_of_push(prior, glyph);
                assert(kerned == kerned_x(*font, state, c));
                assert(glyph@ == placed_glyph(
                    *font,
                    position.x as int,
                    max_width as int,
                    state,
                    c,
                ));
                assert(glyph_models(target@) =~= before + state.placed.push(glyph@));
            }
        }
    }
    assert(text@.take(text@.len() as int) =~= text@);
}

/// A placed glyph is determined by its model.
pub proof fn lemma_glyph_of_model(a: Glyph, b: Glyph)
    requires
        a@ == b@,
    ensures
        a == b,
{
}

/// Laying out the same text in the same font from the same origin in the same
/// width gives the same glyphs at the same positions: any two sequences of
/// glyphs that are the layout of one text are equal.
pub proof fn lemma_layout_deterministic(
    font: ScaledFont,
    position: Point,
    max_width: i64,
    text: Seq<char>,
    first: Seq<Glyph>,
    second: Seq<Glyph>,
)
    requires
        glyph_models(first) == laid_out(
            font,
            position.x as int,
            position.y as int,
            max_width as int,
            text,
        ),
        glyph_models(second) == laid_out(
            font,
            position.x as int,
            position.y as int,
            max_width as int,
            text,
        ),
    ensures
        first == second,
{
    assert(first.len() == glyph_models(first).len());
    assert(second.len() == glyph_models(second).len());
    assert forall|i: int| 0 <= i < first.len() implies first[i] == second[i] by {
        assert(glyph_models(first)[i] == first[i]@);
        assert(glyph_models(second)[i] == second[i]@);
        lemma_glyph_of_model(first[i], second[i]);
    }
    assert(first =~= second);
}

/// Laying out a text a second time onto the target of the first appends the
/// same glyphs again: where `first` is an empty target after one layout and
/// `second` the same target after another layout of the same text, `second`
/// is `first` twice.
pub proof fn lemma_layout_twice(
    font: ScaledFont,
    position: Point,
    max_width: i64,
    text: Seq<char>,
    first: Seq<Glyph>,
    second: Seq<Glyph>,
)
    requires
        glyph_models(first) == glyph_models(Seq::<Glyph>::empty()) + laid_out(
            font,
            position.x as int,
            position.y as int,
            max_width as int,
            text,
        ),
        glyph_models(second) == glyph_models(first) + laid_out(
            font,
            position.x as int,
            position.y as int,
            max_width as int,
            text,
        ),
    ensures
        second.len() == 2 * first.len(),
        forall|i: int| 0 <= i < first.len() ==> second[i] == first[i],
        forall|i: int| 0 <= i < first.len() ==> second[first.len() + i] == first[i],
{
    let n = first.len() as int;
    let placed = laid_out(font, position.x as int, position.y as int, max_width as int, text);
    assert(glyph_models(Seq::<Glyph>::empty()) =~= Seq::<PlacedGlyph>::empty());
    assert(glyph_models(first) =~= placed);
    assert(glyph_models(first).len() == n);
    assert(glyph_models(second).len() == second.len());
    assert forall|i: int| 0 <= i < n implies second[i] == first[i] && second[n + i] == first[i] by {
        assert(glyph_models(first)[i] == first[i]@);
        assert(glyph_models(second)[i] == second[i]@);
        assert(glyph_models(second)[n + i] == second[n + i]@);
        assert(glyph_models(second)[i] == glyph_models(first)[i]);
        assert(glyph_models(second)[n + i] == placed[i]);
        lemma_glyph_of_model(second[i], first[i]);
        lemma_glyph_of_model(second[n + i], first[i]);
    }
}

/// The layout of a text with one more character is the layout of the text,
/// stepped by that character.
pub proof fn lemma_layout_of_push(
    font: ScaledFont,
    origin_x: int,
    origin_y: int,
    max_width: int,
    text: Seq<char>,
    c: char,
)
    ensures
        layout_state(font, origin_x, origin_y, max_width, text.push(c)) == layout_step(
            font,
            origin_x,
            max_width,
            layout_state(font, origin_x, origin_y, max_width, text),
            c,
        ),
{
    assert(text.push(c).drop_last() =~= text);
}

/// The text of two words, four `a` and four `b`, with a space between.
pub open spec fn two_words() -> Seq<char> {
    seq!['a', 'a', 'a', 'a', ' ', 'b', 'b', 'b', 'b']
}

/// A width that holds the first of two words but not the start of the second
/// sends the second word to the next line, and never the space between them.
///
/// In a font without kerning between the characters of `two_words()`: where
/// every `a` ends within the width, the first `b` after the space would end
/// beyond it, and the other `b`s end within the width once they start a line,
/// the four `a` and the space stand on the first line, the space right after
/// the last `a` whether or not the pen passes the width behind it, and the
/// four `b` stand on the second line, the first of them at the origin's `x`.
/// The `b` that broke the line leaves the pen at the line's start, so the `b`
/// after it stands there too.
pub proof fn lemma_second_word_wraps(
    font: ScaledFont,
    origin_x: int,
    origin_y: int,
    max_width: int,
)
    requires
        font.kern_of('a', 'a') == 0,
        font.kern_of('a', ' ') == 0,
        font.kern_of(' ', 'b') == 0,
        font.kern_of('b', 'b') == 0,
        font.advance_of('a') <= max_width,
        4 * font.advance_of('a') <= max_width,
        4 * font.advance_of('a') + font.advance_of(' ') + font.advance_of('b') > max_width,
        font.advance_of('b') <= max_width,
        3 * font.advance_of('b') <= max_width,
    ensures
        ({
            let a = font.advance_of('a');
            let s = font.advance_of(' ');
            let b = font.advance_of('b');
            let first = origin_y + font.ascent;
            let second = first + font.line_height();
            laid_out(font, origin_x, origin_y, max_width, two_words()) == seq![
                PlacedGlyph { ch: 'a', advance: a, x: origin_x, y: first },
                PlacedGlyph { ch: 'a', advance: a, x: origin_x + a, y: first },
                PlacedGlyph { ch: 'a', advance: a, x: origin_x + 2 * a, y: first },
                PlacedGlyph { ch: 'a', advance: a, x: origin_x + 3 * a, y: first },
                PlacedGlyph { ch: ' ', advance: s, x: origin_x + 4 * a, y: first },
                PlacedGlyph { ch: 'b', advance: b, x: origin_x, y: second },
                PlacedGlyph { ch: 'b', advance: b, x: origin_x, y: second },
                PlacedGlyph { ch: 'b', advance: b, x: origin_x + b, y: second },
                PlacedGlyph { ch: 'b', advance: b, x: origin_x + 2 * b, y: second },
            ]
        }),
{
    let a = font.advance_of('a');
    let s = font.advance_of(' ');
    let b = font.advance_of('b');
    assert(!is_control('a') && !is_control('b') && !is_control(' '));
    assert(is_whitespace(' ') && !is_whitespace('a') && !is_whitespace('b'));
    let t0 = Seq::<char>::empty();
    let t1 = t0.push('a');
    let t2 = t1.push('a');
    let t3 = t2.push('a');
    let t4 = t3.push('a');
    let t5 = t4.push(' ');
    let t6 = t5.push('b');
    let t7 = t6.push('b');
    let t8 = t7.push('b');
    let t9 = t8.push('b');
    assert(t9 =~= two_words());
    let s0 = layout_state(font, origin_x, origin_y, max_width, t0);
    assert(s0 == layout_start(font, origin_x, origin_y));
    lemma_layout_of_push(font, origin_x, origin_y, max_width, t0, 'a');
    let s1 = layout_state(font, origin_x, origin_y, max_width, t1);
    assert(s1.x == origin_x + a && s1.previous == Some('a'));
    lemma_layout_of_push(font, origin_x, origin_y, max_width, t1, 'a');
    let s2 = layout_state(font, origin_x, origin_y, max_width, t2);
    assert(s2.x == origin_x + 2 * a && s2.previous == Some('a'));
    lemma_layout_of_push(font, origin_x, origin_y, max_width, t2, 'a');
    let s3 = layout_state(font, origin_x, origin_y, max_width, t3);
    assert(s3.x == origin_x + 3 * a && s3.previous == Some('a'));
    lemma_layout_of_push(font, origin_x, origin_y, max_width, t3, 'a');
    let s4 = layout_state(font, origin_x, origin_y, max_width, t4);
    assert(s4.x == origin_x + 4 * a && s4.previous == Some('a'));
    lemma_layout_of_push(font, origin_x, origin_y, max_width, t4, ' ');
    let s5 = layout_state(font, origin_x, origin_y, max_width, t5);
    assert(s5.x == origin_x + 4 * a + s && s5.previous == Some(' '));
    lemma_layout_of_push(font, origin_x, origin_y, max_width, t5, 'b');
    let s6 = layout_state(font, origin_x, origin_y, max_width, t6);
    assert(s6.x == origin_x && s6.previous.is_none());
    lemma_layout_of_push(font, origin_x, origin_y, max_width, t6, 'b');
    let s7 = layout_state(font, origin_x, origin_y, max_width, t7);
    assert(s7.x == origin_x + b && s7.previous == Some('b'));
    lemma_layout_of_push(font, origin_x, origin_y, max_width, t7, 'b');
    let s8 = layout_state(font, origin_x, origin_y, max_width, t8);
    assert(s8.x == origin_x + 2 * b && s8.previous == Some('b'));
    lemma_layout_of_push(font, origin_x, origin_y, max_width, t8, 'b');
    let s9 = layout_state(font, origin_x, origin_y, max_width, t9);
    assert(s9.placed.len() == 9);
    let first = origin_y + font.ascent;
    let second = first + font.line_height();
    assert(s9.placed =~= seq![
        PlacedGlyph { ch: 'a', advance: a, x: origin_x, y: first },
        PlacedGlyph { ch: 'a', advance: a, x: origin_x + a, y: first },
        PlacedGlyph { ch: 'a', advance: a, x: origin_x + 2 * a, y: first },
        PlacedGlyph { ch: 'a', advance: a, x: origin_x + 3 * a, y: first },
        PlacedGlyph { ch: ' ', advance: s, x: origin_x + 4 * a, y: first },
        PlacedGlyph { ch: 'b', advance: b, x: origin_x, y: second },
        PlacedGlyph { ch: 'b', advance: b, x: origin_x, y: second },
        PlacedGlyph { ch: 'b', advance: b, x: origin_x + b, y: second },
        PlacedGlyph { ch: 'b', advance: b, x: origin_x + 2 * b, y: second },
    ]);
}

} // verus!
