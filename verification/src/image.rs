//! The renderer: packs a two-dimensional binary matrix into terminal text,
//! in plain ASCII, half-block or braille form.

use vstd::prelude::*;
use vstd::string::StringExecFns;

use crate::color::TermColor;
use crate::color::bg_escape;
use crate::color::fg_escape;
use crate::color::reset_escape;

verus! {

/// A two-color terminal image: rows of cell values, zero for off and anything
/// above zero for on.
pub struct TermImage {
    data: Vec<Vec<u8>>,
}

/// The character a single cell renders to in ASCII form.
pub open spec fn ascii_cell(v: u8) -> char {
    if v > 0 {
        '#'
    } else {
        '.'
    }
}

/// One row in ASCII form: one character per cell, closed by a line break.
pub open spec fn ascii_line(row: Seq<u8>) -> Seq<char> {
    Seq::new(row.len(), |j: int| ascii_cell(row[j])) + seq!['\n']
}

/// The whole ASCII rendering: every row on its own line, no escapes.
pub open spec fn ascii_render(m: Seq<Seq<u8>>) -> Seq<char>
    decreases m.len(),
{
    if m.len() == 0 {
        Seq::empty()
    } else {
        ascii_line(m[0]) + ascii_render(m.skip(1))
    }
}

/// Appends one ASCII row and its line break.
fn push_ascii_line(res: &mut String, row: &Vec<u8>)
    ensures
        final (res)@ == old(res)@ + ascii_line(row@),
{
    for j in 0..row.len()
        invariant
            res@ == old(res)@ + Seq::new(j as nat, |k: int| ascii_cell(row@[k])),
    {
        if row[j] > 0 {
            res.append("#");
        } else {
            res.append(".");
        }
        proof {
            reveal_strlit("#");
            reveal_strlit(".");
            assert(res@ =~= old(res)@ + Seq::new((j + 1) as nat, |k: int| ascii_cell(row@[k])));
        }
    }
    res.append("\n");
    proof {
        reveal_strlit("\n");
        assert(res@ =~= old(res)@ + ascii_line(row@));
    }
}

/// One packed column pair in half-block form: the top cell picks the
/// background escape (of the foreground color when on, of the background
/// color when off), the bottom cell picks the foreground escape likewise,
/// then the lower-half-block glyph and a reset.
pub open spec fn half_block_pair(top: u8, bottom: u8, fg: TermColor, bg: TermColor) -> Seq<char> {
    (if top > 0 {
        bg_escape(fg)
    } else {
        bg_escape(bg)
    }) + (if bottom > 0 {
        fg_escape(fg)
    } else {
        fg_escape(bg)
    }) + seq!['\u{2584}'] + reset_escape()
}

/// One output line for a pair of rows: column pairs up to the shorter of the
/// two rows, closed by a line break.
pub open spec fn half_block_line(
    top: Seq<u8>,
    bottom: Seq<u8>,
    fg: TermColor,
    bg: TermColor,
) -> Seq<char>
    decreases top.len(),
{
    if top.len() == 0 || bottom.len() == 0 {
        seq!['\n']
    } else {
        half_block_pair(top[0], bottom[0], fg, bg) + half_block_line(
            top.skip(1),
            bottom.skip(1),
            fg,
            bg,
        )
    }
}

/// The whole half-block rendering: rows taken two at a time, top over bottom;
/// a final unpaired row is dropped, and fewer than two rows render to
/// nothing.
pub open spec fn half_block_render(m: Seq<Seq<u8>>, fg: TermColor, bg: TermColor) -> Seq<char>
    decreases m.len(),
{
    if m.len() < 2 {
        Seq::empty()
    } else {
        half_block_line(m[0], m[1], fg, bg) + half_block_render(m.skip(2), fg, bg)
    }
}

/// Appends one packed column pair.
fn push_half_block_pair(res: &mut String, top: u8, bottom: u8, fg: &TermColor, bg: &TermColor)
    ensures
        final (res)@ == old(res)@ + half_block_pair(top, bottom, *fg, *bg),
{
    let tc: String = if top > 0 {
        fg.to_bg()
    } else {
        bg.to_bg()
    };
    let bc: String = if bottom > 0 {
        fg.to_fg()
    } else {
        bg.to_fg()
    };
    res.append(tc.as_str());
    res.append(bc.as_str());
    res.append("\u{2584}");
    res.append("\u{1b}[0m");
    proof {
        reveal_strlit("\u{2584}");
        assert(res@ =~= old(res)@ + half_block_pair(top, bottom, *fg, *bg));
    }
}

/// Appends one half-block output line for a pair of rows.
fn push_half_block_line(
    res: &mut String,
    top: &Vec<u8>,
    bottom: &Vec<u8>,
    fg: &TermColor,
    bg: &TermColor,
)
    ensures
        final (res)@ == old(res)@ + half_block_line(top@, bottom@, *fg, *bg),
{
    let w: usize = if top.len() < bottom.len() {
        top.len()
    } else {
        bottom.len()
    };
    proof {
        assert(top@.skip(0) =~= top@);
        assert(bottom@.skip(0) =~= bottom@);
    }
    for j in 0..w
        invariant
            w <= top@.len(),
            w <= bottom@.len(),
            w == top@.len() || w == bottom@.len(),
            res@ + half_block_line(top@.skip(j as int), bottom@.skip(j as int), *fg, *bg) == old(
                res,
            )@ + half_block_line(top@, bottom@, *fg, *bg),
    {
        push_half_block_pair(res, top[j], bottom[j], fg, bg);
        proof {
            assert(top@.skip(j as int)[0] == top@[j as int]);
            assert(bottom@.skip(j as int)[0] == bottom@[j as int]);
            assert(top@.skip(j as int).skip(1) =~= top@.skip(j as int + 1));
            assert(bottom@.skip(j as int).skip(1) =~= bottom@.skip(j as int + 1));
            assert(res@ + half_block_line(top@.skip(j as int + 1), bottom@.skip(j as int + 1), *fg, *bg)
                =~= old(res)@ + half_block_line(top@, bottom@, *fg, *bg));
        }
    }
    res.append("\n");
    proof {
        reveal_strlit("\n");
        assert(top@.skip(w as int).len() == 0 || bottom@.skip(w as int).len() == 0);
        assert(res@ =~= old(res)@ + half_block_line(top@, bottom@, *fg, *bg));
    }
}

/// The dot value a cell contributes to a braille glyph: `bit` when the cell
/// is on, zero when it is off.
pub open spec fn dot(v: u8, bit: int) -> int {
    if v > 0 {
        bit
    } else {
        0
    }
}

/// The dot sum of the 4x2 block whose left column is column `j` of these four
/// rows. Dots are weighted as the braille block assigns them: 1, 2, 4 down
/// the left column then 8, 16, 32 down the right, and 64, 128 for the bottom
/// pair.
pub open spec fn braille_bits(r0: Seq<u8>, r1: Seq<u8>, r2: Seq<u8>, r3: Seq<u8>, j: int) -> int {
    dot(r0[j], 0x01) + dot(r0[j + 1], 0x08) + dot(r1[j], 0x02) + dot(r1[j + 1], 0x10) + dot(
        r2[j],
        0x04,
    ) + dot(r2[j + 1], 0x20) + dot(r3[j], 0x40) + dot(r3[j + 1], 0x80)
}

/// The braille glyph whose dot sum is `bits`: the character at `0x2800 +
/// bits`.
pub open spec fn braille_glyph(bits: int) -> char {
    (0x2800 + bits) as char
}

/// The width a band of four rows can render: the length of its narrowest
/// row.
pub open spec fn band_width(r0: Seq<u8>, r1: Seq<u8>, r2: Seq<u8>, r3: Seq<u8>) -> int {
    if r0.len() <= r1.len() && r0.len() <= r2.len() && r0.len() <= r3.len() {
        r0.len() as int
    } else if r1.len() <= r2.len() && r1.len() <= r3.len() {
        r1.len() as int
    } else if r2.len() <= r3.len() {
        r2.len() as int
    } else {
        r3.len() as int
    }
}

/// One output line for a band of four rows: one glyph per full column pair,
/// a final unpaired column dropped, closed by a line break.
pub open spec fn braille_line(r0: Seq<u8>, r1: Seq<u8>, r2: Seq<u8>, r3: Seq<u8>) -> Seq<char> {
    Seq::new(
        (band_width(r0, r1, r2, r3) / 2) as nat,
        |g: int| braille_glyph(braille_bits(r0, r1, r2, r3, 2 * g)),
    ) + seq!['\n']
}

/// The glyph lines of the braille rendering: rows taken four at a time, a
/// partial final band dropped.
pub open spec fn braille_body(m: Seq<Seq<u8>>) -> Seq<char>
    decreases m.len(),
{
    if m.len() < 4 {
        Seq::empty()
    } else {
        braille_line(m[0], m[1], m[2], m[3]) + braille_body(m.skip(4))
    }
}

/// The whole braille rendering: one foreground and one background escape at
/// the very start, the glyph lines, and a single reset at the very end.
pub open spec fn braille_render(m: Seq<Seq<u8>>, fg: TermColor, bg: TermColor) -> Seq<char> {
    fg_escape(fg) + bg_escape(bg) + braille_body(m) + reset_escape()
}

/// Relies on char::from_u32: every value below the surrogate range is a
/// valid scalar, and the call returns the character with that code point.
#[verifier::external_body]
fn char_from_u32(v: u32) -> (r: Option<char>)
    ensures
        v < 0xD800 ==> r == Some(v as char),
{
    char::from_u32(v)
}

/// Relies on char's ToString: the resulting string is that one character.
#[verifier::external_body]
fn char_to_string(c: char) -> (r: String)
    ensures
        r@ == seq![c],
{
    c.to_string()
}

/// Appends one braille output line for a band of four rows.
fn push_braille_line(res: &mut String, r0: &Vec<u8>, r1: &Vec<u8>, r2: &Vec<u8>, r3: &Vec<u8>)
    ensures
        final (res)@ == old(res)@ + braille_line(r0@, r1@, r2@, r3@),
{
    let mut w: usize = r0.len();
    if r1.len() < w {
        w = r1.len();
    }
    if r2.len() < w {
        w = r2.len();
    }
    if r3.len() < w {
        w = r3.len();
    }
    proof {
        assert(w as int == band_width(r0@, r1@, r2@, r3@));
    }
    let count: usize = w / 2;
    for g in 0..count
        invariant
            w as int == band_width(r0@, r1@, r2@, r3@),
            count == w / 2,
            res@ == old(res)@ + Seq::new(
                g as nat,
                |k: int| braille_glyph(braille_bits(r0@, r1@, r2@, r3@, 2 * k)),
            ),
    {
        let j: usize = 2 * g;
        let b: u32 = (if r0[j] > 0 {
            0x01u32
        } else {
            0u32
        }) + (if r0[j + 1] > 0 {
            0x08u32
        } else {
            0u32
        }) + (if r1[j] > 0 {
            0x02u32
        } else {
            0u32
        }) + (if r1[j + 1] > 0 {
            0x10u32
        } else {
            0u32
        }) + (if r2[j] > 0 {
            0x04u32
        } else {
            0u32
        }) + (if r2[j + 1] > 0 {
            0x20u32
        } else {
            0u32
        }) + (if r3[j] > 0 {
            0x40u32
        } else {
            0u32
        }) + (if r3[j + 1] > 0 {
            0x80u32
        } else {
            0u32
        });
        proof {
            assert(b as int == braille_bits(r0@, r1@, r2@, r3@, 2 * g as int));
        }
        let glyph: char = char_from_u32(0x2800u32 + b).unwrap();
        let gs: String = char_to_string(glyph);
        res.append(gs.as_str());
        proof {
            assert(res@ =~= old(res)@ + Seq::new(
                (g + 1) as nat,
                |k: int| braille_glyph(braille_bits(r0@, r1@, r2@, r3@, 2 * k)),
            ));
        }
    }
    res.append("\n");
    proof {
        reveal_strlit("\n");
        assert(res@ =~= old(res)@ + braille_line(r0@, r1@, r2@, r3@));
    }
}

impl TermImage {
    /// The image's rows as sequences of cell values.
    pub closed spec fn rows(self) -> Seq<Seq<u8>> {
        Seq::new(self.data@.len(), |i: int| self.data@[i]@)
    }

    /// Wraps a matrix of cell values; rows are kept exactly as given.
    pub fn new(data: Vec<Vec<u8>>) -> (r: TermImage)
        ensures
            r.rows().len() == data@.len(),
            forall|i: int| 0 <= i < data@.len() ==> r.rows()[i] == (#[trigger] data@[i])@,
    {
        TermImage { data }
    }

    /// Renders in ASCII: `#` for cells that are on, `.` for cells that are
    /// off, one input row per output line and no color escapes.
    pub fn draw_ascii(&self) -> (r: String)
        ensures
            r@ == ascii_render(self.rows()),
    {
        let mut res = String::new();
        proof {
            assert(self.rows().skip(0) =~= self.rows());
        }
        for i in 0..self.data.len()
            invariant
                res@ + ascii_render(self.rows().skip(i as int)) == ascii_render(self.rows()),
        {
            push_ascii_line(&mut res, &self.data[i]);
            proof {
                assert(self.rows().skip(i as int)[0] == self.rows()[i as int]);
                assert(self.rows().skip(i as int).skip(1) =~= self.rows().skip(i as int + 1));
                assert(res@ + ascii_render(self.rows().skip(i as int + 1)) =~= ascii_render(
                    self.rows(),
                ));
            }
        }
        proof {
            assert(res@ =~= ascii_render(self.rows()));
        }
        res
    }

    /// Renders with half-block glyphs: rows are packed two to a line, the top
    /// cell coloring the glyph's background channel and the bottom cell its
    /// foreground channel; a final unpaired row is dropped.
    pub fn draw_unicode(&self, fg: TermColor, bg: TermColor) -> (r: String)
        ensures
            r@ == half_block_render(self.rows(), fg, bg),
    {
        let n: usize = self.data.len();
        let mut res = String::new();
        let mut i: usize = 0;
        proof {
            assert(self.rows().skip(0) =~= self.rows());
        }
        while n >= 2 && i <= n - 2
            invariant
                n == self.rows().len(),
                i <= n,
                res@ + half_block_render(self.rows().skip(i as int), fg, bg)
                    == half_block_render(self.rows(), fg, bg),
            decreases n - i,
        {
            push_half_block_line(&mut res, &self.data[i], &self.data[i + 1], &fg, &bg);
            proof {
                assert(self.rows().skip(i as int)[0] == self.rows()[i as int]);
                assert(self.rows().skip(i as int)[1] == self.rows()[i as int + 1]);
                assert(self.rows().skip(i as int).skip(2) =~= self.rows().skip(i as int + 2));
                assert(res@ + half_block_render(self.rows().skip(i as int + 2), fg, bg)
                    =~= half_block_render(self.rows(), fg, bg));
            }
            i = i + 2;
        }
        proof {
            assert(self.rows().skip(i as int).len() < 2);
            assert(res@ =~= half_block_render(self.rows(), fg, bg));
        }
        res
    }

    /// Renders with braille glyphs: rows are taken four at a time and columns
    /// two at a time, one glyph per full 4x2 block; partial bands and partial
    /// column pairs are dropped. One foreground and one background escape
    /// open the output and a single reset closes it.
    pub fn draw_braille(&self, fg: TermColor, bg: TermColor) -> (r: String)
        ensures
            r@ == braille_render(self.rows(), fg, bg),
    {
        let n: usize = self.data.len();
        let mut res: String = fg.to_fg();
        let bgs: String = bg.to_bg();
        res.append(bgs.as_str());
        let mut i: usize = 0;
        proof {
            assert(self.rows().skip(0) =~= self.rows());
        }
        while n >= 4 && i <= n - 4
            invariant
                n == self.rows().len(),
                i <= n,
                res@ + braille_body(self.rows().skip(i as int)) == fg_escape(fg) + bg_escape(bg)
                    + braille_body(self.rows()),
            decreases n - i,
        {
            push_braille_line(
                &mut res,
                &self.data[i],
                &self.data[i + 1],
                &self.data[i + 2],
                &self.data[i + 3],
            );
            proof {
                assert(self.rows().skip(i as int)[0] == self.rows()[i as int]);
                assert(self.rows().skip(i as int)[1] == self.rows()[i as int + 1]);
                assert(self.rows().skip(i as int)[2] == self.rows()[i as int + 2]);
                assert(self.rows().skip(i as int)[3] == self.rows()[i as int + 3]);
                assert(self.rows().skip(i as int).skip(4) =~= self.rows().skip(i as int + 4));
                assert(res@ + braille_body(self.rows().skip(i as int + 4)) =~= fg_escape(fg)
                    + bg_escape(bg) + braille_body(self.rows()));
            }
            i = i + 4;
        }
        res.append("\u{1b}[0m");
        proof {
            assert(self.rows().skip(i as int).len() < 4);
            assert(res@ =~= braille_render(self.rows(), fg, bg));
        }
        res
    }
}

/// An odd row count in half-block form drops the last unpaired row:
/// appending one row to a matrix with an even row count leaves the rendering
/// unchanged.
pub proof fn lemma_half_block_drops_odd_row(
    m: Seq<Seq<u8>>,
    extra: Seq<u8>,
    fg: TermColor,
    bg: TermColor,
)
    requires
        m.len() % 2 == 0,
    ensures
        half_block_render(m.push(extra), fg, bg) == half_block_render(m, fg, bg),
    decreases m.len(),
{
    if m.len() == 0 {
        assert(m.push(extra).len() == 1);
    } else {
        assert(m.push(extra)[0] == m[0]);
        assert(m.push(extra)[1] == m[1]);
        assert(m.push(extra).skip(2) =~= m.skip(2).push(extra));
        lemma_half_block_drops_odd_row(m.skip(2), extra, fg, bg);
    }
}

/// A row count that is not a multiple of four in braille form drops the
/// incomplete final band entirely: appending fewer than four rows to a
/// matrix whose row count is a multiple of four leaves the glyph lines
/// unchanged.
pub proof fn lemma_braille_drops_partial_band(m: Seq<Seq<u8>>, extra: Seq<Seq<u8>>)
    requires
        m.len() % 4 == 0,
        extra.len() < 4,
    ensures
        braille_body(m + extra) == braille_body(m),
    decreases m.len(),
{
    if m.len() == 0 {
        assert(m + extra =~= extra);
    } else {
        assert((m + extra)[0] == m[0]);
        assert((m + extra)[1] == m[1]);
        assert((m + extra)[2] == m[2]);
        assert((m + extra)[3] == m[3]);
        assert((m + extra).skip(4) =~= m.skip(4) + extra);
        lemma_braille_drops_partial_band(m.skip(4), extra);
    }
}

/// A column count that is not a multiple of two in braille form drops the
/// unpaired final column: truncating every row of a band to the band's full
/// pair width leaves its output line unchanged.
pub proof fn lemma_braille_drops_partial_pair(r0: Seq<u8>, r1: Seq<u8>, r2: Seq<u8>, r3: Seq<u8>)
    ensures
        braille_line(
            r0.take(2 * (band_width(r0, r1, r2, r3) / 2)),
            r1.take(2 * (band_width(r0, r1, r2, r3) / 2)),
            r2.take(2 * (band_width(r0, r1, r2, r3) / 2)),
            r3.take(2 * (band_width(r0, r1, r2, r3) / 2)),
        ) == braille_line(r0, r1, r2, r3),
{
    let w = 2 * (band_width(r0, r1, r2, r3) / 2);
    assert(band_width(r0.take(w), r1.take(w), r2.take(w), r3.take(w)) == w);
    assert(braille_line(r0.take(w), r1.take(w), r2.take(w), r3.take(w)) =~= braille_line(
        r0,
        r1,
        r2,
        r3,
    ));
}

} // verus!
