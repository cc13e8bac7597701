//! Where a search lands: the nearest occurrence in the search's direction,
//! in the order the search looks (the cursor's line, the lines beyond it,
//! then around the other end of the buffer).
use vstd::prelude::*;
use crate::editor::EditorView;
use crate::search::{
    first_line_match,
    last_line_match,
    lemma_first_line_match_first,
    lemma_first_line_match_none,
    lemma_first_line_match_some,
    lemma_last_line_match_last,
    lemma_last_line_match_none,
    lemma_last_line_match_some,
};
use crate::text::{first_match, last_match, lemma_first_match_bounds, lemma_last_match_bounds, occurs_at};

verus! {

/// With the text after the cursor on its line, a forward search moves to the
/// first occurrence after the cursor on that line; the status line stays.
pub proof fn law_find_next_same_line(s: EditorView, k0: int)
    requires
        s.wf(),
        s.fits_machine(),
        s.last_search.len() > 0,
        k0 > s.cursor.col,
        occurs_at(s.cur_line(), s.last_search, k0),
    ensures
        s.find_next().lines == s.lines,
        s.find_next().status == s.status,
        s.find_next().cursor.row == s.cursor.row,
        s.cursor.col < s.find_next().cursor.col <= k0,
        occurs_at(s.cur_line(), s.last_search, s.find_next().cursor.col as int),
        forall|j: int|
            s.cursor.col < j < s.find_next().cursor.col ==> !#[trigger] occurs_at(
                s.cur_line(),
                s.last_search,
                j,
            ),
{
    let q = s.last_search;
    let col = s.cursor.col as int;
    let line = s.cur_line();
    let from = if col + 1 <= line.len() { col + 1 } else { line.len() as int };
    assert(from == col + 1);
    lemma_first_match_bounds(line, q, from, line.len() as int);
    assert(first_match(line, q, from, line.len() as int) is Some);
    assert(line.len() < usize::MAX);
}

/// No occurrence on the cursor's line starts after the cursor.
proof fn lemma_none_after(s: EditorView)
    requires
        s.wf(),
        s.last_search.len() > 0,
        forall|k: int| k > s.cursor.col ==> !#[trigger] occurs_at(s.cur_line(), s.last_search, k),
    ensures
        ({
            let col = s.cursor.col as int;
            let line = s.cur_line();
            let from = if col + 1 <= line.len() { col + 1 } else { line.len() as int };
            first_match(line, s.last_search, from, line.len() as int) is None
        }),
{
    let q = s.last_search;
    let col = s.cursor.col as int;
    let line = s.cur_line();
    let from = if col + 1 <= line.len() { col + 1 } else { line.len() as int };
    lemma_first_match_bounds(line, q, from, line.len() as int);
    if first_match(line, q, from, line.len() as int) is Some {
        let k = first_match(line, q, from, line.len() as int)->0;
        assert(occurs_at(line, q, k));
    }
}

/// With no occurrence after the cursor on its line, a forward search moves
/// to the nearest line below that holds the text, on its first occurrence;
/// the status line stays.
pub proof fn law_find_next_nearest_below(s: EditorView, r0: int, k0: int)
    requires
        s.wf(),
        s.fits_machine(),
        s.last_search.len() > 0,
        forall|k: int| k > s.cursor.col ==> !#[trigger] occurs_at(s.cur_line(), s.last_search, k),
        s.cursor.row < r0 < s.lines.len(),
        occurs_at(s.lines[r0], s.last_search, k0),
    ensures
        s.find_next().lines == s.lines,
        s.find_next().status == s.status,
        s.cursor.row < s.find_next().cursor.row <= r0,
        occurs_at(s.lines[s.find_next().cursor.row as int], s.last_search, s.find_next().cursor.col as int),
        forall|r: int, k: int|
            s.cursor.row < r < s.find_next().cursor.row ==> !#[trigger] occurs_at(
                s.lines[r],
                s.last_search,
                k,
            ),
        forall|k: int|
            k < s.find_next().cursor.col ==> !#[trigger] occurs_at(
                s.lines[s.find_next().cursor.row as int],
                s.last_search,
                k,
            ),
{
    let q = s.last_search;
    let row = s.cursor.row as int;
    let n = s.lines.len() as int;
    lemma_none_after(s);
    if first_line_match(s.lines, q, row + 1, n) is None {
        lemma_first_line_match_none(s.lines, q, row + 1, n);
        assert(occurs_at(s.lines[r0], q, k0));
    }
    lemma_first_line_match_some(s.lines, q, row + 1, n);
    lemma_first_line_match_first(s.lines, q, row + 1, n);
    let (r, k) = first_line_match(s.lines, q, row + 1, n)->0;
    assert(s.lines[r].len() < usize::MAX);
    if r0 < r {
        assert(!occurs_at(s.lines[r0], q, k0));
    }
}

/// With no occurrence after the cursor on its line nor on any line below, a
/// forward search wraps to the first line from the top that holds the text,
/// on its first occurrence, and says so.
pub proof fn law_find_next_wraps_to_top(s: EditorView, r0: int, k0: int)
    requires
        s.wf(),
        s.fits_machine(),
        s.last_search.len() > 0,
        forall|k: int| k > s.cursor.col ==> !#[trigger] occurs_at(s.cur_line(), s.last_search, k),
        forall|r: int, k: int|
            s.cursor.row < r < s.lines.len() ==> !#[trigger] occurs_at(s.lines[r], s.last_search, k),
        0 <= r0 < s.cursor.row,
        occurs_at(s.lines[r0], s.last_search, k0),
    ensures
        s.find_next().lines == s.lines,
        s.find_next().status == "search wrapped"@,
        s.find_next().cursor.row <= r0,
        occurs_at(s.lines[s.find_next().cursor.row as int], s.last_search, s.find_next().cursor.col as int),
        forall|r: int, k: int|
            0 <= r < s.find_next().cursor.row ==> !#[trigger] occurs_at(s.lines[r], s.last_search, k),
        forall|k: int|
            k < s.find_next().cursor.col ==> !#[trigger] occurs_at(
                s.lines[s.find_next().cursor.row as int],
                s.last_search,
                k,
            ),
{
    let q = s.last_search;
    let row = s.cursor.row as int;
    let n = s.lines.len() as int;
    lemma_none_after(s);
    lemma_first_line_match_some(s.lines, q, row + 1, n);
    if first_line_match(s.lines, q, row + 1, n) is Some {
        let (r, k) = first_line_match(s.lines, q, row + 1, n)->0;
        assert(occurs_at(s.lines[r], q, k));
    }
    if first_line_match(s.lines, q, 0, row) is None {
        lemma_first_line_match_none(s.lines, q, 0, row);
        assert(occurs_at(s.lines[r0], q, k0));
    }
    lemma_first_line_match_some(s.lines, q, 0, row);
    lemma_first_line_match_first(s.lines, q, 0, row);
    let (r, k) = first_line_match(s.lines, q, 0, row)->0;
    assert(s.lines[r].len() < usize::MAX);
    if r0 < r {
        assert(!occurs_at(s.lines[r0], q, k0));
    }
}

/// With the text nowhere but before the cursor on its own line, a forward
/// search wraps to the first occurrence on that line that ends at or before
/// the cursor, and says so.
pub proof fn law_find_next_wraps_on_cursor_line(s: EditorView, k0: int)
    requires
        s.wf(),
        s.fits_machine(),
        s.last_search.len() > 0,
        forall|k: int| k > s.cursor.col ==> !#[trigger] occurs_at(s.cur_line(), s.last_search, k),
        forall|r: int, k: int|
            0 <= r < s.lines.len() && r != s.cursor.row ==> !#[trigger] occurs_at(
                s.lines[r],
                s.last_search,
                k,
            ),
        occurs_at(s.cur_line(), s.last_search, k0),
        k0 + s.last_search.len() <= s.cursor.col,
    ensures
        s.find_next().lines == s.lines,
        s.find_next().status == "search wrapped"@,
        s.find_next().cursor.row == s.cursor.row,
        s.find_next().cursor.col <= k0,
        occurs_at(s.cur_line(), s.last_search, s.find_next().cursor.col as int),
        forall|k: int| k < s.find_next().cursor.col ==> !#[trigger] occurs_at(s.cur_line(), s.last_search, k),
{
    let q = s.last_search;
    let row = s.cursor.row as int;
    let col = s.cursor.col as int;
    let n = s.lines.len() as int;
    let line = s.cur_line();
    lemma_none_after(s);
    lemma_first_line_match_some(s.lines, q, row + 1, n);
    if first_line_match(s.lines, q, row + 1, n) is Some {
        let (r, k) = first_line_match(s.lines, q, row + 1, n)->0;
        assert(occurs_at(s.lines[r], q, k));
    }
    lemma_first_line_match_some(s.lines, q, 0, row);
    if first_line_match(s.lines, q, 0, row) is Some {
        let (r, k) = first_line_match(s.lines, q, 0, row)->0;
        assert(occurs_at(s.lines[r], q, k));
    }
    lemma_first_match_bounds(line, q, 0, col);
    assert(first_match(line, q, 0, col) is Some);
    let k = first_match(line, q, 0, col)->0;
    assert(line.len() < usize::MAX);
    assert forall|j: int| j < k implies !#[trigger] occurs_at(line, q, j) by {
        if 0 <= j && occurs_at(line, q, j) {
            assert(j + q.len() <= col);
        }
    }
}

/// With the text ending at or before the cursor on its line, a backward
/// search moves to the last such occurrence on that line; the status line
/// stays.
pub proof fn law_find_prev_same_line(s: EditorView, k0: int)
    requires
        s.wf(),
        s.fits_machine(),
        s.last_search.len() > 0,
        occurs_at(s.cur_line(), s.last_search, k0),
        k0 + s.last_search.len() <= s.cursor.col,
    ensures
        s.find_prev().lines == s.lines,
        s.find_prev().status == s.status,
        s.find_prev().cursor.row == s.cursor.row,
        k0 <= s.find_prev().cursor.col,
        s.find_prev().cursor.col + s.last_search.len() <= s.cursor.col,
        occurs_at(s.cur_line(), s.last_search, s.find_prev().cursor.col as int),
        forall|j: int|
            s.find_prev().cursor.col < j && j + s.last_search.len() <= s.cursor.col
                ==> !#[trigger] occurs_at(s.cur_line(), s.last_search, j),
{
    let q = s.last_search;
    let col = s.cursor.col as int;
    let line = s.cur_line();
    lemma_last_match_bounds(line, q, 0, col);
    assert(last_match(line, q, 0, col) is Some);
    assert(line.len() < usize::MAX);
}

/// No occurrence on the cursor's line ends at or before the cursor.
proof fn lemma_none_before(s: EditorView)
    requires
        s.wf(),
        s.last_search.len() > 0,
        forall|k: int|
            k + s.last_search.len() <= s.cursor.col ==> !#[trigger] occurs_at(s.cur_line(), s.last_search, k),
    ensures
        last_match(s.cur_line(), s.last_search, 0, s.cursor.col as int) is None,
{
    let q = s.last_search;
    let col = s.cursor.col as int;
    let line = s.cur_line();
    lemma_last_match_bounds(line, q, 0, col);
    if last_match(line, q, 0, col) is Some {
        let k = last_match(line, q, 0, col)->0;
        assert(occurs_at(line, q, k));
    }
}

/// With no occurrence ending at or before the cursor on its line, a backward
/// search moves to the nearest line above that holds the text, on its last
/// occurrence; the status line stays.
pub proof fn law_find_prev_nearest_above(s: EditorView, r0: int, k0: int)
    requires
        s.wf(),
        s.fits_machine(),
        s.last_search.len() > 0,
        forall|k: int|
            k + s.last_search.len() <= s.cursor.col ==> !#[trigger] occurs_at(s.cur_line(), s.last_search, k),
        0 <= r0 < s.cursor.row,
        occurs_at(s.lines[r0], s.last_search, k0),
    ensures
        s.find_prev().lines == s.lines,
        s.find_prev().status == s.status,
        r0 <= s.find_prev().cursor.row < s.cursor.row,
        occurs_at(s.lines[s.find_prev().cursor.row as int], s.last_search, s.find_prev().cursor.col as int),
        forall|r: int, k: int|
            s.find_prev().cursor.row < r < s.cursor.row ==> !#[trigger] occurs_at(
                s.lines[r],
                s.last_search,
                k,
            ),
        forall|k: int|
            k > s.find_prev().cursor.col ==> !#[trigger] occurs_at(
                s.lines[s.find_prev().cursor.row as int],
                s.last_search,
                k,
            ),
{
    let q = s.last_search;
    let row = s.cursor.row as int;
    lemma_none_before(s);
    if last_line_match(s.lines, q, 0, row) is None {
        lemma_last_line_match_none(s.lines, q, 0, row);
        assert(occurs_at(s.lines[r0], q, k0));
    }
    lemma_last_line_match_some(s.lines, q, 0, row);
    lemma_last_line_match_last(s.lines, q, 0, row);
    let (r, k) = last_line_match(s.lines, q, 0, row)->0;
    assert(s.lines[r].len() < usize::MAX);
    if r < r0 {
        assert(!occurs_at(s.lines[r0], q, k0));
    }
}

/// With no occurrence ending at or before the cursor on its line nor on any
/// line above, a backward search wraps to the last line from the bottom that
/// holds the text, on its last occurrence, and says so.
pub proof fn law_find_prev_wraps_to_bottom(s: EditorView, r0: int, k0: int)
    requires
        s.wf(),
        s.fits_machine(),
        s.last_search.len() > 0,
        forall|k: int|
            k + s.last_search.len() <= s.cursor.col ==> !#[trigger] occurs_at(s.cur_line(), s.last_search, k),
        forall|r: int, k: int| 0 <= r < s.cursor.row ==> !#[trigger] occurs_at(s.lines[r], s.last_search, k),
        s.cursor.row < r0 < s.lines.len(),
        occurs_at(s.lines[r0], s.last_search, k0),
    ensures
        s.find_prev().lines == s.lines,
        s.find_prev().status == "search wrapped"@,
        r0 <= s.find_prev().cursor.row < s.lines.len(),
        occurs_at(s.lines[s.find_prev().cursor.row as int], s.last_search, s.find_prev().cursor.col as int),
        forall|r: int, k: int|
            s.find_prev().cursor.row < r < s.lines.len() ==> !#[trigger] occurs_at(
                s.lines[r],
                s.last_search,
                k,
            ),
        forall|k: int|
            k > s.find_prev().cursor.col ==> !#[trigger] occurs_at(
                s.lines[s.find_prev().cursor.row as int],
                s.last_search,
                k,
            ),
{
    let q = s.last_search;
    let row = s.cursor.row as int;
    let n = s.lines.len() as int;
    lemma_none_before(s);
    lemma_last_line_match_some(s.lines, q, 0, row);
    if last_line_match(s.lines, q, 0, row) is Some {
        let (r, k) = last_line_match(s.lines, q, 0, row)->0;
        assert(occurs_at(s.lines[r], q, k));
    }
    if last_line_match(s.lines, q, row + 1, n) is None {
        lemma_last_line_match_none(s.lines, q, row + 1, n);
        assert(occurs_at(s.lines[r0], q, k0));
    }
    lemma_last_line_match_some(s.lines, q, row + 1, n);
    lemma_last_line_match_last(s.lines, q, row + 1, n);
    let (r, k) = last_line_match(s.lines, q, row + 1, n)->0;
    assert(s.lines[r].len() < usize::MAX);
    if r < r0 {
        assert(!occurs_at(s.lines[r0], q, k0));
    }
}

/// With the text nowhere but after the cursor on its own line, a backward
/// search wraps to the last occurrence on that line, and says so.
pub proof fn law_find_prev_wraps_on_cursor_line(s: EditorView, k0: int)
    requires
        s.wf(),
        s.fits_machine(),
        s.last_search.len() > 0,
        forall|k: int|
            k + s.last_search.len() <= s.cursor.col ==> !#[trigger] occurs_at(s.cur_line(), s.last_search, k),
        forall|r: int, k: int|
            0 <= r < s.lines.len() && r != s.cursor.row ==> !#[trigger] occurs_at(
                s.lines[r],
                s.last_search,
                k,
            ),
        occurs_at(s.cur_line(), s.last_search, k0),
        k0 > s.cursor.col,
    ensures
        s.find_prev().lines == s.lines,
        s.find_prev().status == "search wrapped"@,
        s.find_prev().cursor.row == s.cursor.row,
        k0 <= s.find_prev().cursor.col,
        occurs_at(s.cur_line(), s.last_search, s.find_prev().cursor.col as int),
        forall|k: int| k > s.find_prev().cursor.col ==> !#[trigger] occurs_at(s.cur_line(), s.last_search, k),
{
    let q = s.last_search;
    let row = s.cursor.row as int;
    let col = s.cursor.col as int;
    let n = s.lines.len() as int;
    let line = s.cur_line();
    lemma_none_before(s);
    lemma_last_line_match_some(s.lines, q, 0, row);
    if last_line_match(s.lines, q, 0, row) is Some {
        let (r, k) = last_line_match(s.lines, q, 0, row)->0;
        assert(occurs_at(s.lines[r], q, k));
    }
    lemma_last_line_match_some(s.lines, q, row + 1, n);
    if last_line_match(s.lines, q, row + 1, n) is Some {
        let (r, k) = last_line_match(s.lines, q, row + 1, n)->0;
        assert(occurs_at(s.lines[r], q, k));
    }
    lemma_last_match_bounds(line, q, col + 1, line.len() as int);
    assert(last_match(line, q, col + 1, line.len() as int) is Some);
    assert(line.len() < usize::MAX);
}

} // verus!
