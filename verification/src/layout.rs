use vstd::prelude::*;
use crate::types::{Glyph, Layout, rows_view, strictly_increasing};
use crate::text::to_chars;
use crate::wrap::{glyph_at, lemma_wrap_strictly_increasing, push_glyph, run_end, wrap, wrap_prefix};

verus! {

/// Word-wraps `text` into rows of at most `width` glyphs (at least one column),
/// keeping for each glyph its position in `text`.
pub fn layout_text(text: &str, width: u16) -> (lines: Layout)
    ensures
        rows_view(lines) == wrap(text@, width),
        lines.len() >= 1,
        strictly_increasing(rows_view(lines)),
{
    let ghost panel_width = width;
    let width: usize = if width < 1 { 1 } else { width as usize };
    let chars = to_chars(text);
    let n: usize = chars.len();
    let mut lines: Layout = Vec::new();
    let mut row: Vec<Glyph> = Vec::new();
    let mut i: usize = 0;

    while i < n
        invariant
            n == chars.len(),
            i <= n,
            width >= 1,
            row.len() <= i,
            i == 0 || i == n || chars[i - 1] == ' ' || chars[i as int] == ' ',
            rows_view(lines).push(row@) == wrap_prefix(chars@, width as int, i as nat),
        decreases n - i,
    {
        if chars[i] == ' ' {
            if row.len() == 0 {
            } else if row.len() + 1 > width {
                lines.push(row);
                row = Vec::new();
                assert(rows_view(lines).push(row@) == wrap_prefix(
                    chars@,
                    width as int,
                    i as nat,
                ).push(Seq::<Glyph>::empty()));
            } else {
                row.push(Glyph { ch: ' ', idx: i });
                assert(rows_view(lines).push(row@) == push_glyph(
                    wrap_prefix(chars@, width as int, i as nat),
                    glyph_at(chars@, i as int),
                ));
            }
            i += 1;
        } else {
            let start = i;
            while i < n && chars[i] != ' '
                invariant
                    n == chars.len(),
                    start <= i <= n,
                    forall|j: int| start <= j < i ==> chars[j] != ' ',
                    run_end(chars@, start as int) == run_end(chars@, i as int),
                decreases n - i,
            {
                i += 1;
            }
            let word_len = i - start;
            let ghost before = wrap_prefix(chars@, width as int, start as nat);
            if row.len() > 0 && row.len() + word_len > width {
                lines.push(row);
                row = Vec::new();
                assert(rows_view(lines).push(row@) == before.push(Seq::<Glyph>::empty()));
            }
            let ghost opened = rows_view(lines).push(row@);
            row.push(Glyph { ch: chars[start], idx: start });
            proof {
                let g = glyph_at(chars@, start as int);
                assert(rows_view(lines).push(row@) == push_glyph(opened, g));
                if opened != before {
                    assert(push_glyph(opened, g) == before.push(seq![g]));
                }
            }
            let mut j: usize = start + 1;
            while j < i
                invariant
                    n == chars.len(),
                    start < j <= i <= n,
                    forall|k: int| start <= k < i ==> chars[k] != ' ',
                    row.len() <= j,
                    rows_view(lines).push(row@) == wrap_prefix(chars@, width as int, j as nat),
                decreases i - j,
            {
                let ghost prev = rows_view(lines).push(row@);
                row.push(Glyph { ch: chars[j], idx: j });
                assert(rows_view(lines).push(row@) == push_glyph(prev, glyph_at(chars@, j as int)));
                j += 1;
            }
        }
    }
    lines.push(row);
    assert(rows_view(lines) == wrap_prefix(chars@, width as int, n as nat));
    proof {
        lemma_wrap_strictly_increasing(chars@, panel_width);
    }
    lines
}

} // verus!
