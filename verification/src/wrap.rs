use vstd::prelude::*;
use crate::types::{Glyph, strictly_increasing};

verus! {

/// The end of the run of non-space characters that contains position `i`:
/// the first position at or after `i` that holds a space, or the end of the text.
pub open spec fn run_end(text: Seq<char>, i: int) -> int
    decreases text.len() - i,
{
    if 0 <= i < text.len() && text[i] != ' ' {
        run_end(text, i + 1)
    } else {
        i
    }
}

/// A word starts at `i`: a non-space character with no non-space character before it.
pub open spec fn starts_word(text: Seq<char>, i: int) -> bool {
    &&& 0 <= i < text.len()
    &&& text[i] != ' '
    &&& (i == 0 || text[i - 1] == ' ')
}

/// The glyph that stands for position `i` of `text`.
pub open spec fn glyph_at(text: Seq<char>, i: int) -> Glyph {
    Glyph { ch: text[i], idx: i as usize }
}

/// `rows` with `g` appended to its last row.
pub open spec fn push_glyph(rows: Seq<Seq<Glyph>>, g: Glyph) -> Seq<Seq<Glyph>> {
    rows.drop_last().push(rows.last().push(g))
}

/// The width that is wrapped at: the panel width, but at least one column.
pub open spec fn wrap_width(width: u16) -> int {
    if width < 1 {
        1
    } else {
        width as int
    }
}

/// The rows after the first `n` characters of `text` have been placed.
///
/// Each character does one of three things. A space is dropped where the current
/// row is empty; where the row is full it ends the row and is dropped; otherwise
/// it joins the row. The first character of a word opens a new row where the
/// row is not empty and the whole word does not fit in what is left of it. Every
/// other character joins the current row.
pub open spec fn wrap_prefix(text: Seq<char>, width: int, n: nat) -> Seq<Seq<Glyph>>
    decreases n,
{
    if n == 0 {
        seq![Seq::<Glyph>::empty()]
    } else {
        let i = n - 1;
        let rows = wrap_prefix(text, width, i as nat);
        let col = rows.last().len();
        if text[i] == ' ' {
            if col == 0 {
                rows
            } else if col + 1 > width {
                rows.push(Seq::<Glyph>::empty())
            } else {
                push_glyph(rows, glyph_at(text, i))
            }
        } else if starts_word(text, i) && col > 0 && col + (run_end(text, i) - i) > width {
            rows.push(seq![glyph_at(text, i)])
        } else {
            push_glyph(rows, glyph_at(text, i))
        }
    }
}

/// The word-wrapped rows of `text` at `width` columns.
pub open spec fn wrap(text: Seq<char>, width: u16) -> Seq<Seq<Glyph>> {
    wrap_prefix(text, wrap_width(width), text.len())
}

/// There is always a row, the one being filled.
pub proof fn lemma_wrap_prefix_nonempty(text: Seq<char>, width: int, n: nat)
    ensures
        wrap_prefix(text, width, n).len() >= 1,
    decreases n,
{
    if n > 0 {
        lemma_wrap_prefix_nonempty(text, width, (n - 1) as nat);
    }
}

/// What `run_end` finds: the run from `i` to it holds no space, it stops at a
/// space or at the end of the text, and it is the same from every position of the run.
pub proof fn lemma_run_end(text: Seq<char>, i: int)
    requires
        0 <= i <= text.len(),
    ensures
        i <= run_end(text, i) <= text.len(),
        forall|k: int| i <= k < run_end(text, i) ==> text[k] != ' ',
        run_end(text, i) < text.len() ==> text[run_end(text, i)] == ' ',
        forall|k: int| i <= k <= run_end(text, i) ==> #[trigger] run_end(text, k) == run_end(text, i),
    decreases text.len() - i,
{
    if i < text.len() && text[i] != ' ' {
        lemma_run_end(text, i + 1);
    }
}

/// The space at position `i` is left out of the rows: when it is reached, the row
/// being filled is empty or has no column left, so the space would begin a row.
pub open spec fn dropped(text: Seq<char>, width: int, i: int) -> bool {
    let col = wrap_prefix(text, width, i as nat).last().len();
    text[i] == ' ' && (col == 0 || col + 1 > width)
}

/// Some glyph of `rows` stands for position `i`.
pub open spec fn shows(rows: Seq<Seq<Glyph>>, i: int) -> bool {
    exists|k: int| 0 <= k < rows.flatten().len() && (#[trigger] rows.flatten()[k]).idx == i
}

proof fn lemma_flatten_push_glyph(rows: Seq<Seq<Glyph>>, g: Glyph)
    requires
        rows.len() >= 1,
    ensures
        push_glyph(rows, g).flatten() == rows.flatten().push(g),
{
    let init = rows.drop_last();
    assert(rows == init.push(rows.last()));
    init.lemma_flatten_push(rows.last());
    init.lemma_flatten_push(rows.last().push(g));
    assert(init.flatten() + rows.last().push(g) == (init.flatten() + rows.last()).push(g));
}

proof fn lemma_flatten_push_row(rows: Seq<Seq<Glyph>>, g: Glyph)
    ensures
        rows.push(seq![g]).flatten() == rows.flatten().push(g),
        rows.push(Seq::<Glyph>::empty()).flatten() == rows.flatten(),
{
    rows.lemma_flatten_push(seq![g]);
    rows.lemma_flatten_push(Seq::<Glyph>::empty());
    assert(rows.flatten() + seq![g] == rows.flatten().push(g));
    assert(rows.flatten() + Seq::<Glyph>::empty() == rows.flatten());
}

/// Placing one more character leaves the concatenated rows as they are where the
/// character is dropped, and appends its glyph where it is not.
proof fn lemma_flat_step(text: Seq<char>, width: int, i: int)
    requires
        0 <= i < text.len(),
    ensures
        wrap_prefix(text, width, (i + 1) as nat).flatten() == if dropped(text, width, i) {
            wrap_prefix(text, width, i as nat).flatten()
        } else {
            wrap_prefix(text, width, i as nat).flatten().push(glyph_at(text, i))
        },
{
    let rows = wrap_prefix(text, width, i as nat);
    lemma_wrap_prefix_nonempty(text, width, i as nat);
    lemma_flatten_push_glyph(rows, glyph_at(text, i));
    lemma_flatten_push_row(rows, glyph_at(text, i));
}

proof fn lemma_prefix_trace(text: Seq<char>, width: int, n: nat)
    requires
        n <= text.len() <= usize::MAX,
    ensures
        ({
            let rows = wrap_prefix(text, width, n);
            let flat = rows.flatten();
            &&& forall|k: int| 0 <= k < flat.len() ==> (#[trigger] flat[k]).idx < n
            &&& forall|k: int| 0 <= k < flat.len() ==> #[trigger] flat[k] == glyph_at(text, flat[k].idx as int)
            &&& forall|k: int, l: int| 0 <= k < l < flat.len() ==> (#[trigger] flat[k]).idx < (#[trigger] flat[l]).idx
            &&& forall|i: int| 0 <= i < n ==> (#[trigger] shows(rows, i) <==> !dropped(text, width, i))
        }),
    decreases n,
{
    let rows = wrap_prefix(text, width, n);
    let flat = rows.flatten();
    if n == 0 {
        rows.lemma_flatten_one_element();
    } else {
        let i = n - 1;
        let before = wrap_prefix(text, width, i as nat);
        let old_flat = before.flatten();
        lemma_prefix_trace(text, width, i as nat);
        lemma_flat_step(text, width, i);
        let g = glyph_at(text, i);
        if dropped(text, width, i) {
            assert(flat == old_flat);
            assert forall|j: int| 0 <= j < n implies (#[trigger] shows(rows, j) <==> !dropped(text, width, j)) by {
                if j < i {
                    assert(shows(rows, j) == shows(before, j));
                } else {
                    assert(!shows(rows, j));
                }
            }
        } else {
            assert(flat == old_flat.push(g));
            assert(flat[old_flat.len() as int] == g);
            assert forall|j: int| 0 <= j < n implies (#[trigger] shows(rows, j) <==> !dropped(text, width, j)) by {
                if j < i {
                    if shows(before, j) {
                        let k = choose|k: int| 0 <= k < old_flat.len() && (#[trigger] old_flat[k]).idx == j;
                        assert(flat[k].idx == j);
                    }
                    if shows(rows, j) {
                        let k = choose|k: int| 0 <= k < flat.len() && (#[trigger] flat[k]).idx == j;
                        assert(k < old_flat.len());
                        assert(old_flat[k].idx == j);
                    }
                } else {
                    assert(flat[old_flat.len() as int].idx == j);
                }
            }
        }
    }
}

/// The rows, read in order, are a part of the text in its own order: every glyph
/// carries the character at its position, positions grow strictly from glyph to
/// glyph across the rows, and the positions left out are exactly those of the
/// spaces that would have begun a row.
pub proof fn lemma_wrap_keeps_order(text: Seq<char>, width: u16)
    requires
        text.len() <= usize::MAX,
    ensures
        ({
            let rows = wrap(text, width);
            let flat = rows.flatten();
            &&& forall|k: int| 0 <= k < flat.len() ==> (#[trigger] flat[k]).idx < text.len()
            &&& forall|k: int| 0 <= k < flat.len() ==> (#[trigger] flat[k]).ch == text[flat[k].idx as int]
            &&& forall|k: int, l: int| 0 <= k < l < flat.len() ==> (#[trigger] flat[k]).idx < (#[trigger] flat[l]).idx
            &&& forall|i: int| 0 <= i < text.len() ==> (#[trigger] shows(rows, i) <==> !dropped(text, wrap_width(width), i))
        }),
{
    lemma_prefix_trace(text, wrap_width(width), text.len());
}

/// `row` holds one whole word of `text` and nothing else, from the word's first
/// character in the first column on.
pub open spec fn is_word_row(text: Seq<char>, row: Seq<Glyph>) -> bool {
    &&& row.len() > 0
    &&& starts_word(text, row[0].idx as int)
    &&& row.len() == run_end(text, row[0].idx as int) - row[0].idx
    &&& forall|c: int| 0 <= c < row.len() ==> (#[trigger] row[c]).idx == row[0].idx + c
}

/// What is left of a word that the first `n` characters of `text` end in the middle of.
spec fn pending(text: Seq<char>, n: int) -> int {
    if 0 < n <= text.len() && text[n - 1] != ' ' {
        run_end(text, n) - n
    } else {
        0
    }
}

/// `row` holds the beginning of one word, up to position `n`, and nothing else.
spec fn is_word_start_row(text: Seq<char>, row: Seq<Glyph>, n: int) -> bool {
    &&& row.len() > 0
    &&& starts_word(text, row[0].idx as int)
    &&& row[0].idx + row.len() == n
    &&& n <= run_end(text, row[0].idx as int)
    &&& forall|c: int| 0 <= c < row.len() ==> (#[trigger] row[c]).idx == row[0].idx + c
}

proof fn lemma_prefix_rows_fit(text: Seq<char>, width: int, n: nat)
    requires
        n <= text.len() <= usize::MAX,
        width >= 1,
    ensures
        ({
            let rows = wrap_prefix(text, width, n);
            &&& rows.len() >= 1
            &&& forall|r: int| 0 <= r < rows.len() - 1 ==> (#[trigger] rows[r]).len() <= width
                || is_word_row(text, rows[r])
            &&& (rows.last().len() + pending(text, n as int) <= width
                || is_word_start_row(text, rows.last(), n as int))
        }),
    decreases n,
{
    if n > 0 {
        let i = n - 1;
        let before = wrap_prefix(text, width, i as nat);
        let rows = wrap_prefix(text, width, n);
        let last = before.last();
        let g = glyph_at(text, i);
        lemma_prefix_rows_fit(text, width, i as nat);
        lemma_run_end(text, i);
        lemma_run_end(text, n as int);
        let was_word = is_word_start_row(text, last, i);
        if was_word {
            lemma_run_end(text, last[0].idx as int);
        }
        if text[i] == ' ' {
            if last.len() == 0 {
            } else if last.len() + 1 > width {
                assert(was_word ==> is_word_row(text, last));
                assert(rows[rows.len() - 2] == last);
            } else {
            }
        } else if starts_word(text, i) && last.len() > 0 && last.len() + (run_end(text, i) - i)
            > width {
            assert(!was_word);
            assert(rows[rows.len() - 2] == last);
            assert(is_word_start_row(text, rows.last(), n as int));
        } else {
            assert(rows.last() == last.push(g));
            if starts_word(text, i) {
                assert(!was_word);
                if last.len() == 0 {
                    assert(is_word_start_row(text, rows.last(), n as int));
                }
            } else if was_word {
                assert(is_word_start_row(text, rows.last(), n as int));
            }
        }
    }
}

/// No row is wider than the width, but for a row that holds exactly one word
/// which is itself longer than the width, from the first column on.
pub proof fn lemma_wrap_rows_fit(text: Seq<char>, width: u16)
    requires
        text.len() <= usize::MAX,
    ensures
        wrap(text, width).len() >= 1,
        forall|r: int| 0 <= r < wrap(text, width).len() ==> (#[trigger] wrap(text, width)[r]).len()
            <= wrap_width(width) || is_word_row(text, wrap(text, width)[r]),
{
    lemma_prefix_rows_fit(text, wrap_width(width), text.len());
    lemma_run_end(text, text.len() as int);
    let rows = wrap(text, width);
    if is_word_start_row(text, rows.last(), text.len() as int) {
        lemma_run_end(text, rows.last()[0].idx as int);
    }
}

proof fn lemma_prefix_increasing(text: Seq<char>, width: int, n: nat)
    requires
        n <= text.len() <= usize::MAX,
    ensures
        ({
            let rows = wrap_prefix(text, width, n);
            &&& rows.len() >= 1
            &&& strictly_increasing(rows)
            &&& forall|r: int, c: int|
                0 <= r < rows.len() && 0 <= c < rows[r].len() ==> (#[trigger] rows[r][c]).idx < n
        }),
    decreases n,
{
    if n > 0 {
        lemma_prefix_increasing(text, width, (n - 1) as nat);
    }
}

/// Positions grow strictly in reading order across the wrapped rows, and all
/// of them are positions of the text.
pub proof fn lemma_wrap_strictly_increasing(text: Seq<char>, width: u16)
    requires
        text.len() <= usize::MAX,
    ensures
        wrap(text, width).len() >= 1,
        strictly_increasing(wrap(text, width)),
        forall|r: int, c: int|
            0 <= r < wrap(text, width).len() && 0 <= c < wrap(text, width)[r].len() ==> (
            #[trigger] wrap(text, width)[r][c]).idx < text.len(),
{
    lemma_prefix_increasing(text, wrap_width(width), text.len());
}

/// Row `r` of `rows` is where the word that starts at `s` stands when `n`
/// characters have been placed: alone on a finished row, or alone on the
/// row being filled as far as it has been placed.
spec fn word_stands_at(text: Seq<char>, rows: Seq<Seq<Glyph>>, s: int, n: int, r: int) -> bool {
    &&& 0 <= r < rows.len()
    &&& rows[r].len() > 0
    &&& rows[r][0].idx == s
    &&& if r < rows.len() - 1 {
        is_word_row(text, rows[r])
    } else {
        is_word_start_row(text, rows[r], n)
    }
}

proof fn lemma_prefix_long_word(text: Seq<char>, width: int, n: nat, s: int)
    requires
        n <= text.len() <= usize::MAX,
        width >= 1,
        starts_word(text, s),
        s < n,
        run_end(text, s) - s > width,
    ensures
        exists|r: int| word_stands_at(text, wrap_prefix(text, width, n), s, n as int, r),
    decreases n,
{
    let i = n - 1;
    let before = wrap_prefix(text, width, i as nat);
    let rows = wrap_prefix(text, width, n);
    let g = glyph_at(text, i);
    lemma_wrap_prefix_nonempty(text, width, i as nat);
    lemma_run_end(text, s);
    if i == s {
        let r = rows.len() - 1;
        assert(rows[r] == seq![g]);
        assert(word_stands_at(text, rows, s, n as int, r));
    } else {
        lemma_prefix_long_word(text, width, i as nat, s);
        let r = choose|r: int| word_stands_at(text, before, s, i, r);
        if r < before.len() - 1 {
            assert(rows[r] == before[r]);
            assert(word_stands_at(text, rows, s, n as int, r));
        } else if i < run_end(text, s) {
            assert(rows == push_glyph(before, g));
            assert(rows[r] == before[r].push(g));
            assert(word_stands_at(text, rows, s, n as int, r));
        } else {
            assert(rows == before.push(Seq::<Glyph>::empty()));
            assert(rows[r] == before[r]);
            assert(word_stands_at(text, rows, s, n as int, r));
        }
    }
}

/// A word that is longer than the width has a row to itself, from the first
/// column on.
pub proof fn lemma_long_word_has_own_row(text: Seq<char>, width: u16, s: int)
    requires
        text.len() <= usize::MAX,
        starts_word(text, s),
        run_end(text, s) - s > wrap_width(width),
    ensures
        exists|r: int|
            0 <= r < wrap(text, width).len() && is_word_row(text, #[trigger] wrap(text, width)[r])
                && wrap(text, width)[r][0].idx == s,
{
    let rows = wrap(text, width);
    lemma_prefix_long_word(text, wrap_width(width), text.len(), s);
    lemma_run_end(text, s);
    let r = choose|r: int| word_stands_at(text, rows, s, text.len() as int, r);
    assert(is_word_row(text, rows[r]));
}

} // verus!
