//! Where the console's text goes on screen: the glyphs of the output
//! history, and the glyph rows of text drawn from the character atlas.

use vstd::prelude::*;

use crate::text::chars_of;

verus! {

/// Width of a console glyph, in pixels.
pub const GLYPH_WIDTH: i64 = 8;

/// Height of a console glyph, in pixels.
pub const GLYPH_HEIGHT: i64 = 8;

/// Left padding of console text, in pixels.
pub const PAD_LEFT: i64 = 8;

/// Lines of output after which older chunks are no longer drawn.
pub const MAX_DRAWN_LINE: u64 = 100;

/// A glyph of the output history and its offset from the console's anchor.
#[derive(Clone, Copy, Debug, PartialEq, Eq, Structural)]
pub struct GlyphPlacement {
    pub glyph: u8,
    pub x_ofs: i64,
    pub y_ofs: i64,
}

/// Whether the console draws a character: ASCII that is printable or
/// whitespace.
pub open spec fn drawable(c: char) -> bool {
    (c as u32) < 0x80 && (c == ' ' || c == '\t' || c == '\n' || c == '\x0C' || c == '\r' || (
    0x20 <= (c as u32) && (c as u32) != 0x7F))
}

/// Glyphs placed so far, with the line and column reached.
pub type LayoutState = (Seq<GlyphPlacement>, nat, nat);

/// One character of output: a newline starts the next line, another drawn
/// character is placed at the current column, anything else is dropped.
pub open spec fn layout_char(st: LayoutState, c: char) -> LayoutState {
    if !drawable(c) {
        st
    } else if c == '\n' {
        (st.0, st.1 + 1, 0)
    } else {
        (
            st.0.push(
                GlyphPlacement {
                    glyph: c as u8,
                    x_ofs: (PAD_LEFT + 1 + st.2 * GLYPH_WIDTH) as i64,
                    y_ofs: ((st.1 + 1) * GLYPH_HEIGHT) as i64,
                },
            ),
            st.1,
            st.2 + 1,
        )
    }
}

/// The characters of a chunk laid out in order from `st`.
pub open spec fn layout_chars(st: LayoutState, chars: Seq<char>) -> LayoutState
    decreases chars.len(),
{
    if chars.len() == 0 {
        st
    } else {
        layout_char(layout_chars(st, chars.drop_last()), chars.last())
    }
}

/// The chunks of output laid out in order; a chunk that starts past line
/// 100 is not drawn.
pub open spec fn layout_chunks(chunks: Seq<Seq<char>>) -> LayoutState
    decreases chunks.len(),
{
    if chunks.len() == 0 {
        (Seq::empty(), 0, 0)
    } else {
        let st = layout_chunks(chunks.drop_last());
        if st.1 > MAX_DRAWN_LINE {
            st
        } else {
            layout_chars(st, chunks.last())
        }
    }
}

/// Whether the console keeps a character when it draws output: ASCII that
/// is whitespace (space, tab, newline, form feed, carriage return) or that
/// is not a control character.
pub open spec fn kept_by_console(c: char) -> bool {
    &&& (c as u32) < 0x80
    &&& ascii_whitespace(c) || !ascii_control(c)
}

/// ASCII control characters: those below the space, and delete.
pub open spec fn ascii_control(c: char) -> bool {
    (c as u32) < 0x20 || (c as u32) == 0x7F
}

/// Every character the console keeps, other than a newline, is placed as
/// its own glyph, on the current line at the current column, and moves the
/// column on by one; a newline starts the next line at column zero; any
/// other character is dropped.
pub proof fn kept_chars_take_a_column(st: LayoutState, c: char)
    ensures
        kept_by_console(c) && c != '\n' ==> layout_char(st, c) == (
            st.0.push(
                GlyphPlacement {
                    glyph: c as u8,
                    x_ofs: (PAD_LEFT + 1 + st.2 * GLYPH_WIDTH) as i64,
                    y_ofs: ((st.1 + 1) * GLYPH_HEIGHT) as i64,
                },
            ),
            st.1,
            st.2 + 1,
        ),
        c == '\n' ==> layout_char(st, c) == (st.0, st.1 + 1, 0nat),
        !kept_by_console(c) ==> layout_char(st, c) == st,
{
}

/// A line of kept characters without newlines is drawn glyph for
/// character: one glyph per character, in order, in consecutive columns of
/// the same line.
pub proof fn kept_line_is_drawn_in_full(st: LayoutState, chars: Seq<char>)
    requires
        forall|k: int| 0 <= k < chars.len() ==> kept_by_console(#[trigger] chars[k]) && chars[k] != '\n',
    ensures
        layout_chars(st, chars).0.len() == st.0.len() + chars.len(),
        layout_chars(st, chars).1 == st.1,
        layout_chars(st, chars).2 == st.2 + chars.len(),
        forall|k: int|
            0 <= k < chars.len() ==> #[trigger] layout_chars(st, chars).0[st.0.len() + k].glyph
                == chars[k] as u8,
        forall|k: int| 0 <= k < st.0.len() ==> #[trigger] layout_chars(st, chars).0[k] == st.0[k],
    decreases chars.len(),
{
    if chars.len() > 0 {
        let init = chars.drop_last();
        kept_line_is_drawn_in_full(st, init);
        let st1 = layout_chars(st, init);
        let c = chars.last();
        kept_chars_take_a_column(st1, c);
        assert forall|k: int| 0 <= k < chars.len() implies #[trigger] layout_chars(st, chars).0[st.0.len() + k].glyph
            == chars[k] as u8 by {
            if k < init.len() {
                assert(init[k] == chars[k]);
                assert(layout_chars(st, chars).0[st.0.len() + k] == st1.0[st.0.len() + k]);
            }
        }
        assert forall|k: int| 0 <= k < st.0.len() implies #[trigger] layout_chars(st, chars).0[k] == st.0[k] by {
            assert(layout_chars(st, chars).0[k] == st1.0[k]);
        }
    }
}

/// Total length of the chunks, in characters.
pub open spec fn total_chars(chunks: Seq<Seq<char>>) -> nat
    decreases chunks.len(),
{
    if chunks.len() == 0 {
        0
    } else {
        total_chars(chunks.drop_last()) + chunks.last().len()
    }
}

proof fn lemma_layout_chars_bound(st: LayoutState, chars: Seq<char>)
    ensures
        layout_chars(st, chars).1 <= st.1 + chars.len(),
        layout_chars(st, chars).2 <= st.2 + chars.len(),
        layout_chars(st, chars).1 >= st.1,
    decreases chars.len(),
{
    if chars.len() > 0 {
        lemma_layout_chars_bound(st, chars.drop_last());
    }
}

fn is_drawable(c: char) -> (r: bool)
    ensures
        r == drawable(c),
{
    let u = c as u32;
    u < 0x80 && (c == ' ' || c == '\t' || c == '\n' || c == '\x0C' || c == '\r' || (0x20 <= u && u
        != 0x7F))
}

/// Lays out the console's output history, chunk by chunk: the glyph of
/// each drawn character and its offset, line by line.
pub fn layout_output(chunks: &[String]) -> (r: Vec<GlyphPlacement>)
    requires
        total_chars(chunks@.map_values(|s: String| s@)) <= u32::MAX,
    ensures
        r@ == layout_chunks(chunks@.map_values(|s: String| s@)).0,
{
    let ghost all = chunks@.map_values(|s: String| s@);
    let mut out: Vec<GlyphPlacement> = Vec::new();
    let mut line: u64 = 0;
    let mut col: u64 = 0;
    let mut i: usize = 0;
    while i < chunks.len()
        invariant
            i <= chunks@.len(),
            all == chunks@.map_values(|s: String| s@),
            total_chars(all) <= u32::MAX,
            (out@, line as nat, col as nat) == layout_chunks(all.take(i as int)),
            line + col <= total_chars(all.take(i as int)),
        decreases chunks@.len() - i,
    {
        assert(all.take(i + 1).drop_last() =~= all.take(i as int));
        assert(all.take(i + 1).last() == chunks@[i as int]@);
        proof {
            lemma_total_prefix(all, i + 1);
        }
        if line <= MAX_DRAWN_LINE {
            let chars = chars_of(chunks[i].as_str());
            let ghost start: LayoutState = (out@, line as nat, col as nat);
            let ghost base = line + col;
            let mut k: usize = 0;
            while k < chars.len()
                invariant
                    k <= chars@.len(),
                    (out@, line as nat, col as nat) == layout_chars(start, chars@.take(k as int)),
                    line + col <= base + k,
                    base + chars@.len() <= u32::MAX,
                decreases chars@.len() - k,
            {
                let c = chars[k];
                assert(chars@.take(k + 1).drop_last() =~= chars@.take(k as int));
                if is_drawable(c) {
                    if c == '\n' {
                        line = line + 1;
                        col = 0;
                    } else {
                        let p = GlyphPlacement {
                            glyph: c as u8,
                            x_ofs: PAD_LEFT + 1 + (col as i64) * GLYPH_WIDTH,
                            y_ofs: ((line as i64) + 1) * GLYPH_HEIGHT,
                        };
                        out.push(p);
                        col = col + 1;
                    }
                }
                k = k + 1;
            }
            assert(chars@.take(k as int) =~= chars@);
        }
        i = i + 1;
    }
    assert(all.take(i as int) =~= all);
    out
}

proof fn lemma_total_prefix(all: Seq<Seq<char>>, n: int)
    requires
        0 <= n <= all.len(),
    ensures
        total_chars(all.take(n)) <= total_chars(all),
    decreases all.len() - n,
{
    if n < all.len() {
        lemma_total_prefix(all, n + 1);
        assert(all.take(n + 1).drop_last() =~= all.take(n));
    } else {
        assert(all.take(n) =~= all);
    }
}

/// A cell of a row of atlas text: a blank the size of a glyph, or the
/// atlas glyph of a character.
#[derive(Clone, Copy, Debug, PartialEq, Eq, Structural)]
pub enum AtlasCell {
    Blank,
    Glyph(u32),
}

/// Whether a character is ASCII whitespace.
pub open spec fn ascii_whitespace(c: char) -> bool {
    c == ' ' || c == '\t' || c == '\n' || c == '\x0C' || c == '\r'
}

/// The cell a character of atlas text becomes.
pub open spec fn atlas_cell(c: char) -> AtlasCell {
    if ascii_whitespace(c) {
        AtlasCell::Blank
    } else {
        AtlasCell::Glyph(c as u32)
    }
}

/// The lines of a text as `str::lines` gives them: split at each `\n`,
/// without a `\r` just before it, and without an empty last line.
pub open spec fn text_lines(s: Seq<char>) -> Seq<Seq<char>> {
    let raw = split_newlines(s);
    let trimmed = raw.map_values(
        |l: Seq<char>| if l.len() > 0 && l.last() == '\r' {
            l.drop_last()
        } else {
            l
        },
    );
    if s.len() > 0 && s.last() == '\n' {
        trimmed.drop_last()
    } else if s.len() == 0 {
        Seq::empty()
    } else {
        trimmed
    }
}

/// A text split at each `\n`.
pub open spec fn split_newlines(s: Seq<char>) -> Seq<Seq<char>>
    decreases s.len(),
{
    if s.len() == 0 {
        seq![Seq::<char>::empty()]
    } else {
        let init = split_newlines(s.drop_last());
        if s.last() == '\n' {
            init.push(Seq::<char>::empty())
        } else {
            init.update(init.len() - 1, init.last().push(s.last()))
        }
    }
}

proof fn lemma_split_newlines_len(s: Seq<char>)
    ensures
        split_newlines(s).len() >= 1,
    decreases s.len(),
{
    if s.len() > 0 {
        lemma_split_newlines_len(s.drop_last());
    }
}

/// The cells of a row of atlas text.
pub open spec fn atlas_row(line: Seq<char>) -> Seq<AtlasCell> {
    line.map_values(|c: char| atlas_cell(c))
}

fn row_of(line: &Vec<char>) -> (r: Vec<AtlasCell>)
    ensures
        r@ == atlas_row(line@),
{
    let mut out: Vec<AtlasCell> = Vec::new();
    let mut i: usize = 0;
    while i < line.len()
        invariant
            i <= line@.len(),
            out@ == atlas_row(line@.take(i as int)),
        decreases line@.len() - i,
    {
        let c = line[i];
        let cell = if c == ' ' || c == '\t' || c == '\n' || c == '\x0C' || c == '\r' {
            AtlasCell::Blank
        } else {
            AtlasCell::Glyph(c as u32)
        };
        out.push(cell);
        assert(out@ =~= atlas_row(line@.take(i + 1)));
        i = i + 1;
    }
    assert(line@.take(i as int) =~= line@);
    out
}

fn trim_cr(line: Vec<char>) -> (r: Vec<char>)
    ensures
        r@ == (if line@.len() > 0 && line@.last() == '\r' {
            line@.drop_last()
        } else {
            line@
        }),
{
    let mut line = line;
    if line.len() > 0 && line[line.len() - 1] == '\r' {
        line.pop();
    }
    line
}

/// Lays out text drawn from the character atlas: one row per line, with a
/// blank for each whitespace character and the atlas glyph of each other
/// character.
pub fn layout_atlas_text(text: &str) -> (r: Vec<Vec<AtlasCell>>)
    ensures
        r@.map_values(|row: Vec<AtlasCell>| row@) == text_lines(text@).map_values(
            |l: Seq<char>| atlas_row(l),
        ),
{
    let chars = chars_of(text);
    let ghost trim = |l: Seq<char>| if l.len() > 0 && l.last() == '\r' {
        l.drop_last()
    } else {
        l
    };
    let ghost rowf = |l: Seq<char>| atlas_row(l);
    let ghost viewf = |row: Vec<AtlasCell>| row@;
    let mut rows: Vec<Vec<AtlasCell>> = Vec::new();
    let mut current: Vec<char> = Vec::new();
    let mut i: usize = 0;
    while i < chars.len()
        invariant
            i <= chars@.len(),
            chars@ == text@,
            rows@.map_values(viewf) == split_newlines(chars@.take(i as int)).drop_last().map_values(
                trim,
            ).map_values(rowf),
            current@ == split_newlines(chars@.take(i as int)).last(),
            trim == (|l: Seq<char>| if l.len() > 0 && l.last() == '\r' {
                l.drop_last()
            } else {
                l
            }),
            rowf == (|l: Seq<char>| atlas_row(l)),
            viewf == (|row: Vec<AtlasCell>| row@),
        decreases chars@.len() - i,
    {
        let c = chars[i];
        let ghost prev = split_newlines(chars@.take(i as int));
        proof {
            lemma_split_newlines_len(chars@.take(i as int));
        }
        assert(chars@.take(i + 1).drop_last() =~= chars@.take(i as int));
        if c == '\n' {
            let ghost rows_before = rows@.map_values(viewf);
            let mut line: Vec<char> = Vec::new();
            std::mem::swap(&mut line, &mut current);
            let trimmed = trim_cr(line);
            let row = row_of(&trimmed);
            rows.push(row);
            assert(rows@.map_values(viewf) =~= rows_before.push(row@));
            assert(prev.push(Seq::<char>::empty()).drop_last() =~= prev);
            assert(prev.map_values(trim).map_values(rowf) =~= prev.drop_last().map_values(
                trim,
            ).map_values(rowf).push(rowf(trim(prev.last()))));
        } else {
            current.push(c);
            let ghost next = prev.update(prev.len() - 1, prev.last().push(c));
            assert(next.drop_last() =~= prev.drop_last());
        }
        i = i + 1;
    }
    assert(chars@.take(i as int) =~= chars@);
    proof {
        lemma_split_newlines_len(chars@);
    }
    let ghost all = split_newlines(chars@);
    if chars.len() > 0 && chars[chars.len() - 1] != '\n' {
        let ghost rows_before = rows@.map_values(viewf);
        let trimmed = trim_cr(current);
        let row = row_of(&trimmed);
        rows.push(row);
        assert(rows@.map_values(viewf) =~= rows_before.push(row@));
        assert(all.map_values(trim).map_values(rowf) =~= all.drop_last().map_values(trim).map_values(
            rowf,
        ).push(rowf(trim(all.last()))));
        assert(all.map_values(trim) =~= all.map_values(
            |l: Seq<char>| if l.len() > 0 && l.last() == '\r' {
                l.drop_last()
            } else {
                l
            },
        ));
    } else if chars.len() > 0 {
        assert(all.last() == Seq::<char>::empty());
        assert(all.drop_last().map_values(trim) =~= all.map_values(trim).drop_last());
        assert(all.map_values(trim) =~= all.map_values(
            |l: Seq<char>| if l.len() > 0 && l.last() == '\r' {
                l.drop_last()
            } else {
                l
            },
        ));
    } else {
        assert(rows@.map_values(viewf) =~= Seq::<Seq<AtlasCell>>::empty());
    }
    rows
}


/// What the console draws besides its output history.
#[derive(Clone, Debug, PartialEq, Eq)]
pub enum ConsoleDraw {
    /// The console background picture, filling the console's area.
    Background,
    /// A text at an offset from the console's bottom-left corner, or, when
    /// `right_aligned`, from its bottom-right corner.
    Text { text: String, x_ofs: i64, y_ofs: i64, right_aligned: bool },
    /// One glyph at an offset from the console's bottom-left corner.
    Glyph { glyph: u8, x_ofs: i64, y_ofs: i64 },
}

/// The console's frame, drawn before the output history: the background,
/// the program's name and version at the bottom right, and the input line
/// (the `]` prompt and the text being typed) at the bottom left.
pub fn console_frame(name: &str, version: &str, input: &str) -> (r: Vec<ConsoleDraw>)
    ensures
        r@.len() == 4,
        r@[0] == ConsoleDraw::Background,
        r@[1] matches ConsoleDraw::Text { text, x_ofs, y_ofs, right_aligned } && text@ == name@
            + " "@ + version@ && x_ofs == 0 && y_ofs == 0 && right_aligned,
        r@[2] == (ConsoleDraw::Glyph { glyph: 0x5Du8, x_ofs: PAD_LEFT, y_ofs: 0 }),
        r@[3] matches ConsoleDraw::Text { text, x_ofs, y_ofs, right_aligned } && text@ == input@
            && x_ofs == PAD_LEFT && y_ofs == 0 && !right_aligned,
{
    let mut version_line = String::from_str(name);
    version_line.append(" ");
    version_line.append(version);
    let mut r: Vec<ConsoleDraw> = Vec::new();
    r.push(ConsoleDraw::Background);
    r.push(ConsoleDraw::Text { text: version_line, x_ofs: 0, y_ofs: 0, right_aligned: true });
    r.push(ConsoleDraw::Glyph { glyph: 0x5D, x_ofs: PAD_LEFT, y_ofs: 0 });
    r.push(ConsoleDraw::Text { text: input.to_string(), x_ofs: PAD_LEFT, y_ofs: 0, right_aligned: false });
    r
}

} // verus!
