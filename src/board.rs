//! The 4x4 board: validity, the parity rule for solvability, shuffling,
//! and the moves of the blank.

use rand::seq::SliceRandom;
use vstd::prelude::*;

verus! {

/// Cells in one row of the board.
pub const WIDTH: usize = 4;

/// Number of cells at index `j` or later that hold a non-blank tile smaller than `v`.
pub open spec fn smaller_after(s: Seq<u16>, v: u16, j: int) -> nat
    decreases s.len() - j,
{
    if j >= s.len() {
        0
    } else {
        (if s[j] != 0 && s[j] < v { 1nat } else { 0nat }) + smaller_after(s, v, j + 1)
    }
}

/// Inversions among non-blank tiles whose first cell is at index `i` or later.
pub open spec fn inversions_from(s: Seq<u16>, i: int) -> nat
    decreases s.len() - i,
{
    if i >= s.len() {
        0
    } else {
        (if s[i] != 0 { smaller_after(s, s[i], i + 1) } else { 0 }) + inversions_from(s, i + 1)
    }
}

/// Inversions of the board: pairs of non-blank tiles out of order in reading order.
pub open spec fn inversions(s: Seq<u16>) -> nat {
    inversions_from(s, 0)
}

/// The 1-based row of the last blank in `s`, or 0 where `s` holds no blank.
pub open spec fn blank_row(s: Seq<u16>) -> int
    decreases s.len(),
{
    if s.len() == 0 {
        0
    } else if s.last() == 0 {
        (s.len() - 1) / 4 + 1
    } else {
        blank_row(s.drop_last())
    }
}

/// The parity rule of a board of even width: the inversion count and the
/// blank's row have the same parity.
pub open spec fn solvable(s: Seq<u16>) -> bool {
    inversions(s) % 2 == blank_row(s) % 2
}

/// Whether `puzzle` can reach the solved board, by the parity rule.
pub fn is_solvable(puzzle: &[u16]) -> (r: bool)
    ensures
        r == solvable(puzzle@),
{
    let ghost s = puzzle@;
    let n = puzzle.len();
    let mut odd = false;
    let mut row: usize = 0;
    let mut blank: usize = 0;
    let mut i: usize = 0;
    while i < n
        invariant
            n == s.len(),
            s == puzzle@,
            i <= n,
            row == (i + 3) / 4,
            blank == blank_row(s.take(i as int)),
            odd == ((inversions(s) - inversions_from(s, i as int)) % 2 == 1),
        decreases n - i,
    {
        if i % WIDTH == 0 {
            row = row + 1;
        }
        let value = puzzle[i];
        if value == 0 {
            blank = row;
        } else {
            let mut j: usize = i + 1;
            while j < n
                invariant
                    n == s.len(),
                    s == puzzle@,
                    i < j <= n,
                    value == s[i as int],
                    value != 0,
                    odd == ((inversions(s) - inversions_from(s, i as int) + smaller_after(
                        s,
                        value,
                        i + 1,
                    ) - smaller_after(s, value, j as int)) % 2 == 1),
                decreases n - j,
            {
                if value > puzzle[j] && puzzle[j] != 0 {
                    odd = !odd;
                }
                j = j + 1;
            }
        }
        assert(s.take(i + 1).drop_last() =~= s.take(i as int));
        i = i + 1;
    }
    assert(s.take(n as int) =~= s);
    odd == (blank % 2 == 1)
}


/// A board: sixteen cells holding 0 to 15, each value once (0 is the blank).
pub open spec fn is_board(s: Seq<u16>) -> bool {
    &&& s.len() == 16
    &&& forall|i: int| 0 <= i < 16 ==> #[trigger] s[i] < 16
    &&& forall|i: int, j: int| 0 <= i < j < 16 ==> s[i] != s[j]
    &&& forall|v: u16| v < 16 ==> #[trigger] s.contains(v)
}

/// The solved board: tiles 1 to 15 in reading order, then the blank.
pub open spec fn is_solved(s: Seq<u16>) -> bool {
    &&& s.len() == 16
    &&& forall|i: int| 0 <= i < 15 ==> #[trigger] s[i] == i + 1
    &&& s[15] == 0
}

/// `b[i] == a[p[i]]` for every cell, where `p` is a permutation of the indices.
pub open spec fn reorders_by(a: Seq<u16>, b: Seq<u16>, p: Seq<int>) -> bool {
    &&& a.len() == b.len()
    &&& p.len() == a.len()
    &&& forall|i: int| 0 <= i < p.len() ==> 0 <= #[trigger] p[i] < a.len()
    &&& forall|i: int, j: int| 0 <= i < j < p.len() ==> p[i] != p[j]
    &&& forall|k: int| 0 <= k < p.len() ==> #[trigger] p.contains(k)
    &&& forall|i: int| 0 <= i < b.len() ==> #[trigger] b[i] == a[p[i]]
}

/// `b` holds the values of `a`, moved to other cells.
pub open spec fn is_reordering(a: Seq<u16>, b: Seq<u16>) -> bool {
    exists|p: Seq<int>| reorders_by(a, b, p)
}

/// Relies on rand's `SliceRandom::shuffle`, driven by `thread_rng`: a
/// Fisher-Yates pass of swaps, so the cells keep their values in another order.
#[verifier::external_body]
fn shuffle_cells(arr: &mut [u16; 16])
    ensures
        is_reordering(old(arr)@, final(arr)@),
{
    arr.shuffle(&mut rand::thread_rng());
}

proof fn lemma_solved_no_smaller(s: Seq<u16>, i: int, j: int)
    requires
        is_solved(s),
        0 <= i < j,
    ensures
        smaller_after(s, s[i], j) == 0,
    decreases s.len() - j,
{
    if j < s.len() {
        lemma_solved_no_smaller(s, i, j + 1);
    }
}

proof fn lemma_solved_no_inversions(s: Seq<u16>, i: int)
    requires
        is_solved(s),
        0 <= i,
    ensures
        inversions_from(s, i) == 0,
    decreases s.len() - i,
{
    if i < s.len() {
        lemma_solved_no_inversions(s, i + 1);
        lemma_solved_no_smaller(s, i, i + 1);
    }
}

/// The solved board is a board and meets the parity rule.
pub proof fn lemma_solved_is_solvable(s: Seq<u16>)
    requires
        is_solved(s),
    ensures
        is_board(s),
        solvable(s),
{
    lemma_solved_no_inversions(s, 0);
    assert(blank_row(s) == 4);
    assert forall|i: int, j: int| 0 <= i < j < 16 implies s[i] != s[j] by {
        if j < 15 {
            assert(s[i] == i + 1 && s[j] == j + 1);
        } else {
            assert(s[i] == i + 1);
        }
    }
    assert forall|i: int| 0 <= i < 16 implies #[trigger] s[i] < 16 by {
        if i < 15 {
            assert(s[i] == i + 1);
        }
    }
    assert forall|v: u16| v < 16 implies #[trigger] s.contains(v) by {
        if v == 0 {
            assert(s[15] == v);
        } else {
            assert(s[v - 1] == v);
        }
    }
}

/// Most draws a shuffle makes before it settles for the solved board.
pub const MAX_DRAWS: u64 = 0xffff_ffff_ffff_ffff;

/// A random board that meets the parity rule: draws are rejected until one
/// passes. Half of all orderings pass, so the cap of draws is never reached
/// in practice; past it the solved board is returned.
pub fn shuffle() -> (r: [u16; 16])
    ensures
        is_board(r@),
        solvable(r@),
{
    let mut arr: [u16; 16] = [0, 1, 2, 3, 4, 5, 6, 7, 8, 9, 10, 11, 12, 13, 14, 15];
    assert(arr@.len() == 16);
    assert forall|i: int| 0 <= i < 16 implies #[trigger] arr@[i] == i by {}
    let mut draws: u64 = MAX_DRAWS;
    while draws > 0
        invariant
            arr@.len() == 16,
            forall|i: int| 0 <= i < 16 ==> #[trigger] arr@[i] == i,
        decreases draws,
    {
        let mut drawn = arr;
        shuffle_cells(&mut drawn);
        proof {
            let p = choose|p: Seq<int>| reorders_by(arr@, drawn@, p);
            assert forall|i: int| 0 <= i < 16 implies #[trigger] drawn@[i] < 16 by {
                assert(drawn@[i] == arr@[p[i]]);
            }
            assert forall|i: int, j: int| 0 <= i < j < 16 implies drawn@[i] != drawn@[j] by {
                assert(drawn@[i] == arr@[p[i]]);
                assert(drawn@[j] == arr@[p[j]]);
            }
            assert forall|v: u16| v < 16 implies #[trigger] drawn@.contains(v) by {
                assert(p.contains(v as int));
                let i = choose|i: int| 0 <= i < 16 && #[trigger] p[i] == v as int;
                assert(drawn@[i] == arr@[p[i]]);
            }
        }
        if is_solvable(&drawn) {
            return drawn;
        }
        draws = draws - 1;
    }
    let solved: [u16; 16] = [1, 2, 3, 4, 5, 6, 7, 8, 9, 10, 11, 12, 13, 14, 15, 0];
    proof {
        assert forall|i: int| 0 <= i < 15 implies #[trigger] solved@[i] == i + 1 by {}
        lemma_solved_is_solvable(solved@);
    }
    solved
}


/// Cell `i` holds the first blank of `s`.
pub open spec fn is_first_blank(s: Seq<u16>, i: int) -> bool {
    &&& 0 <= i < s.len()
    &&& s[i] == 0
    &&& forall|k: int| 0 <= k < i ==> s[k] != 0
}

/// The cell of the first blank of `s`, or 0 where `s` holds no blank.
pub open spec fn blank_index(s: Seq<u16>) -> int {
    if exists|i: int| is_first_blank(s, i) {
        choose|i: int| is_first_blank(s, i)
    } else {
        0
    }
}

/// One of the four keys that move the blank: `w` up, `a` left, `s` down, `d` right.
pub open spec fn is_move_key(ch: char) -> bool {
    ch == 'w' || ch == 'a' || ch == 's' || ch == 'd'
}

/// The key that moves the blank back where `ch` moved it from.
pub open spec fn opposite(ch: char) -> char {
    if ch == 'w' {
        's'
    } else if ch == 's' {
        'w'
    } else if ch == 'a' {
        'd'
    } else if ch == 'd' {
        'a'
    } else {
        ch
    }
}

/// The cell whose tile the blank at cell `e` trades places with on key `ch`,
/// or `None` where that would leave the grid or `ch` moves nothing.
pub open spec fn target_cell(e: int, ch: char) -> Option<int> {
    let row = e / 4;
    let col = e % 4;
    if ch == 'w' && row > 0 {
        Some(e - 4)
    } else if ch == 'a' && col > 0 {
        Some(e - 1)
    } else if ch == 's' && row < 3 {
        Some(e + 4)
    } else if ch == 'd' && col < 3 {
        Some(e + 1)
    } else {
        None
    }
}

/// `s` with cells `a` and `b` exchanged.
pub open spec fn swap_cells(s: Seq<u16>, a: int, b: int) -> Seq<u16> {
    s.update(a, s[b]).update(b, s[a])
}

/// Key `ch` moves the blank of `s`.
pub open spec fn is_legal_move(s: Seq<u16>, ch: char) -> bool {
    target_cell(blank_index(s), ch) is Some
}

/// The board after key `ch`: the blank traded with its neighbour, or `s` itself
/// where the move is not legal.
pub open spec fn after_move(s: Seq<u16>, ch: char) -> Seq<u16> {
    match target_cell(blank_index(s), ch) {
        Some(t) => swap_cells(s, blank_index(s), t),
        None => s,
    }
}

/// On a board the first blank is its only blank.
pub proof fn lemma_board_blank(s: Seq<u16>, e: int)
    requires
        is_board(s),
        0 <= e < 16,
        s[e] == 0,
    ensures
        blank_index(s) == e,
{
    assert(is_first_blank(s, e));
    let i = choose|i: int| is_first_blank(s, i);
    if i < e {
        assert(s[i] != 0);
    } else if e < i {
        assert(s[e] != 0);
    }
}

/// A board holds one blank.
pub proof fn lemma_board_has_blank(s: Seq<u16>) -> (e: int)
    requires
        is_board(s),
    ensures
        0 <= e < 16,
        s[e] == 0,
        blank_index(s) == e,
{
    let v: u16 = 0;
    assert(s.contains(v));
    let e = choose|i: int| 0 <= i < 16 && #[trigger] s[i] == v;
    lemma_board_blank(s, e);
    e
}

/// Exchanging two cells of a board gives a board.
pub proof fn lemma_swap_keeps_board(s: Seq<u16>, a: int, b: int)
    requires
        is_board(s),
        0 <= a < 16,
        0 <= b < 16,
    ensures
        is_board(swap_cells(s, a, b)),
{
    let r = swap_cells(s, a, b);
    assert forall|i: int| 0 <= i < 16 implies #[trigger] r[i] < 16 by {}
    assert forall|i: int, j: int| 0 <= i < j < 16 implies r[i] != r[j] by {}
    assert forall|v: u16| v < 16 implies #[trigger] r.contains(v) by {
        assert(s.contains(v));
        let k = choose|i: int| 0 <= i < 16 && #[trigger] s[i] == v;
        if k == a {
            assert(r[b] == v);
        } else if k == b {
            assert(r[a] == v);
        } else {
            assert(r[k] == v);
        }
    }
}

/// A legal move keeps a board a board, and the opposite key then moves the
/// blank back, restoring the board it started from.
pub proof fn lemma_opposite_move_restores(s: Seq<u16>, ch: char)
    requires
        is_board(s),
        is_legal_move(s, ch),
    ensures
        is_board(after_move(s, ch)),
        is_legal_move(after_move(s, ch), opposite(ch)),
        after_move(after_move(s, ch), opposite(ch)) == s,
{
    let e = lemma_board_has_blank(s);
    let t = target_cell(e, ch)->0;
    let m = after_move(s, ch);
    assert(m == swap_cells(s, e, t));
    lemma_swap_keeps_board(s, e, t);
    lemma_board_blank(m, t);
    assert(target_cell(t, opposite(ch)) == Some(e));
    assert(after_move(m, opposite(ch)) =~= s);
}

/// With the blank in the top-left corner, up and left are refused and down
/// and right are legal.
pub proof fn lemma_corner_blank_moves(s: Seq<u16>)
    requires
        is_board(s),
        s[0] == 0,
    ensures
        !is_legal_move(s, 'w'),
        !is_legal_move(s, 'a'),
        is_legal_move(s, 's'),
        is_legal_move(s, 'd'),
{
    lemma_board_blank(s, 0);
}

} // verus!
