//! The puzzle engine: the grid type and the operations that create, shuffle,
//! mutate and test it. Every operation is specified against the flat-sequence
//! model in `model`.

use vstd::prelude::*;

use crate::model::{
    apply_seq, blank_of, legal, lemma_apply_seq_push, lemma_blank_of, lemma_solved_wf,
    lemma_spec_move_wf, solved_seq, spec_is_solved, spec_move, step_move, wf, MoveDirection,
};
use crate::rng::random_direction_index;
use vstd::pervasive::unreached;

verus! {

/// A 4x4 sliding-tile grid, stored in row-major order: 16 cells holding each
/// value 0..=15 exactly once, with 0 standing for the blank.
pub struct Puzzle {
    cells: Vec<u8>,
}

impl View for Puzzle {
    type V = Seq<u8>;

    closed spec fn view(&self) -> Seq<u8> {
        self.cells@
    }
}

impl Puzzle {
    /// Builds a grid from 16 row-major cell values, rejecting any vector
    /// that is not a permutation of 0..=15.
    pub fn try_from_cells(cells: Vec<u8>) -> (r: Option<Puzzle>)
        ensures
            match r {
                Some(p) => p@ == cells@ && wf(cells@),
                None => !wf(cells@),
            },
    {
        if cells.len() != 16 {
            return None;
        }
        let mut seen: Vec<bool> = Vec::new();
        let mut i: usize = 0;
        while i < 16
            invariant
                i <= 16,
                seen.len() == i,
                forall|j: int| 0 <= j < i ==> !seen[j],
            decreases 16 - i,
        {
            seen.push(false);
            i = i + 1;
        }
        let mut k: usize = 0;
        while k < 16
            invariant
                k <= 16,
                cells.len() == 16,
                seen.len() == 16,
                forall|j: int| 0 <= j < k ==> cells[j] < 16,
                forall|j1: int, j2: int|
                    0 <= j1 < k && 0 <= j2 < k && j1 != j2 ==> cells[j1] != cells[j2],
                forall|j: int| 0 <= j < k ==> #[trigger] seen[cells[j] as int],
                forall|v: int|
                    0 <= v < 16 && #[trigger] seen[v] ==> exists|j: int|
                        0 <= j < k && cells[j] == v,
            decreases 16 - k,
        {
            let v = cells[k];
            if v >= 16 {
                assert(!wf(cells@));
                return None;
            }
            if seen[v as usize] {
                proof {
                    assert(seen[v as int]);
                    let j = choose|j: int| 0 <= j < k && cells[j] == v as int;
                    assert(cells@[j] == cells@[k as int]);
                }
                return None;
            }
            seen.set(v as usize, true);
            k = k + 1;
        }
        let mut w: usize = 0;
        while w < 16
            invariant
                w <= 16,
                cells.len() == 16,
                seen.len() == 16,
                forall|x: int| 0 <= x < w ==> #[trigger] seen[x],
                forall|j: int| 0 <= j < 16 ==> cells[j] < 16,
                forall|j1: int, j2: int|
                    0 <= j1 < 16 && 0 <= j2 < 16 && j1 != j2 ==> cells[j1] != cells[j2],
                forall|j: int| 0 <= j < 16 ==> #[trigger] seen[cells[j] as int],
                forall|v: int|
                    0 <= v < 16 && #[trigger] seen[v] ==> exists|j: int|
                        0 <= j < 16 && cells[j] == v,
            decreases 16 - w,
        {
            if !seen[w] {
                proof {
                    if wf(cells@) {
                        assert(cells@.contains(w as u8));
                        let j = choose|j: int| 0 <= j < cells@.len() && cells@[j] == w as u8;
                        assert(seen[cells@[j] as int]);
                    }
                }
                return None;
            }
            w = w + 1;
        }
        proof {
            assert forall|v: u8| v < 16 implies #[trigger] cells@.contains(v) by {
                assert(seen[v as int]);
                let j = choose|j: int| 0 <= j < 16 && cells[j] == v as int;
                assert(cells@[j] == v);
            }
        }
        Some(Puzzle { cells })
    }

    /// The value in the cell at `row`, `col`.
    pub fn get(&self, row: usize, col: usize) -> (v: u8)
        requires
            wf(self@),
            row < 4,
            col < 4,
        ensures
            v == self@[row as int * 4 + col as int],
    {
        self.cells[row * 4 + col]
    }
}

/// Finds the blank: the unique cell holding 0. Returns its (row, column).
pub fn find_empty_square(p: &Puzzle) -> (r: (usize, usize))
    requires
        wf(p@),
    ensures
        r.0 < 4,
        r.1 < 4,
        p@[r.0 as int * 4 + r.1 as int] == 0,
        blank_of(p@) == r.0 as int * 4 + r.1 as int,
{
    let mut idx: usize = 0;
    while idx < 16
        invariant
            wf(p@),
            idx <= 16,
            forall|j: int| 0 <= j < idx ==> p@[j] != 0,
        decreases 16 - idx,
    {
        if p.cells[idx] == 0 {
            proof {
                lemma_blank_of(p@, idx as int);
            }
            return (idx / 4, idx % 4);
        }
        idx = idx + 1;
    }
    proof {
        assert(p@.contains(0u8));
        let w = choose|i: int| 0 <= i < p@.len() && p@[i] == 0;
        assert(p@[w] != 0);
    }
    unreached()
}

/// Attempts to slide the blank one step in `direction`. A move whose target
/// cell would leave the grid returns false and changes nothing; a legal move
/// swaps the blank with the target cell and returns true.
pub fn make_move(p: &mut Puzzle, direction: MoveDirection) -> (r: bool)
    requires
        wf(old(p)@),
    ensures
        r == legal(old(p)@, direction),
        final(p)@ == step_move(old(p)@, direction),
        wf(final(p)@),
{
    let (empty_row, empty_col) = find_empty_square(p);
    let b = empty_row * 4 + empty_col;
    let t: usize = match direction {
        MoveDirection::Up => {
            if empty_row == 0 {
                return false;
            }
            b - 4
        },
        MoveDirection::Down => {
            if empty_row == 3 {
                return false;
            }
            b + 4
        },
        MoveDirection::Left => {
            if empty_col == 0 {
                return false;
            }
            b - 1
        },
        MoveDirection::Right => {
            if empty_col == 3 {
                return false;
            }
            b + 1
        },
    };
    proof {
        lemma_spec_move_wf(p@, direction);
    }
    let tile = p.cells[t];
    p.cells.set(b, tile);
    p.cells.set(t, 0);
    proof {
        assert(p@ =~= spec_move(old(p)@, direction));
    }
    true
}

/// Whether the grid is solved: the first 15 cells read 1..=15 in row-major
/// order. On a well-formed grid the last cell can then only be the blank.
pub fn is_solved(p: &Puzzle) -> (r: bool)
    requires
        wf(p@),
    ensures
        r == spec_is_solved(p@),
{
    let mut num: usize = 0;
    while num < 15
        invariant
            wf(p@),
            num <= 15,
            forall|j: int| 0 <= j < num ==> p@[j] as int == j + 1,
        decreases 15 - num,
    {
        if p.cells[num] as usize != num + 1 {
            return false;
        }
        num = num + 1;
    }
    true
}

/// Scrambles the grid with 1000 attempted moves in uniformly random
/// directions, skipping those that are illegal where the blank stands. Only
/// legal slides are ever applied, so the grid stays solvable.
pub fn shuffle_puzzle(p: &mut Puzzle)
    requires
        wf(old(p)@),
    ensures
        wf(final(p)@),
        exists|ms: Seq<MoveDirection>| final(p)@ == apply_seq(old(p)@, ms),
{
    let ghost mut ms: Seq<MoveDirection> = Seq::empty();
    let mut i: usize = 0;
    while i < 1000
        invariant
            wf(p@),
            i <= 1000,
            p@ == apply_seq(old(p)@, ms),
        decreases 1000 - i,
    {
        let r = random_direction_index();
        let d = if r == 0 {
            MoveDirection::Up
        } else if r == 1 {
            MoveDirection::Down
        } else if r == 2 {
            MoveDirection::Left
        } else {
            MoveDirection::Right
        };
        proof {
            lemma_apply_seq_push(old(p)@, ms, d);
        }
        make_move(p, d);
        proof {
            ms = ms.push(d);
        }
        i = i + 1;
    }
}

/// Creates a fresh puzzle: the solved grid, then a random scramble. The
/// result is always well formed and reachable from the solved grid, hence
/// solvable.
pub fn create_puzzle() -> (p: Puzzle)
    ensures
        wf(p@),
        crate::model::reachable(p@),
{
    let mut cells: Vec<u8> = Vec::new();
    let mut num: u8 = 1;
    while num <= 15
        invariant
            1 <= num <= 16,
            cells.len() == num - 1,
            forall|j: int| 0 <= j < num - 1 ==> cells[j] as int == j + 1,
        decreases 16 - num,
    {
        cells.push(num);
        num = num + 1;
    }
    cells.push(0);
    proof {
        assert(cells@ =~= solved_seq());
        lemma_solved_wf();
    }
    let mut p = Puzzle { cells };
    shuffle_puzzle(&mut p);
    proof {
        let ms = choose|ms: Seq<MoveDirection>| p@ == apply_seq(solved_seq(), ms);
        assert(apply_seq(solved_seq(), ms) == p@);
    }
    p
}

} // verus!
