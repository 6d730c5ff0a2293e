//! The mathematical model of the puzzle: a grid is a flat sequence of 16
//! cells in row-major order, holding each value 0..=15 exactly once, with 0
//! standing for the blank. Moves are described by where the blank travels.

use vstd::prelude::*;

verus! {

/// A direction in which the blank slides (equivalently, the tile adjacent to
/// the blank in that direction slides into the blank's cell).
#[derive(Clone, Copy, Debug, PartialEq, Eq, Structural)]
pub enum MoveDirection {
    Up,
    Down,
    Left,
    Right,
}

/// The solved grid: 1..=15 in row-major order, blank in the last cell.
pub open spec fn solved_seq() -> Seq<u8> {
    Seq::new(16, |i: int| if i == 15 { 0u8 } else { (i + 1) as u8 })
}

/// The grid invariant: 16 cells, each value below 16, all values distinct,
/// and every value 0..=15 present. In particular there is exactly one blank.
pub open spec fn wf(s: Seq<u8>) -> bool {
    &&& s.len() == 16
    &&& forall|i: int| 0 <= i < 16 ==> s[i] < 16
    &&& forall|i: int, j: int| 0 <= i < 16 && 0 <= j < 16 && i != j ==> s[i] != s[j]
    &&& forall|v: u8| v < 16 ==> #[trigger] s.contains(v)
}

/// The index of the blank cell (the unique cell holding 0).
pub open spec fn blank_of(s: Seq<u8>) -> int {
    choose|i: int| 0 <= i < s.len() && s[i] == 0
}

/// The direction that undoes a move.
pub open spec fn inverse_dir(d: MoveDirection) -> MoveDirection {
    match d {
        MoveDirection::Up => MoveDirection::Down,
        MoveDirection::Down => MoveDirection::Up,
        MoveDirection::Left => MoveDirection::Right,
        MoveDirection::Right => MoveDirection::Left,
    }
}

/// Where the blank at flat index `b` lands when it slides in direction `d`.
pub open spec fn target_of(b: int, d: MoveDirection) -> int {
    match d {
        MoveDirection::Up => b - 4,
        MoveDirection::Down => b + 4,
        MoveDirection::Left => b - 1,
        MoveDirection::Right => b + 1,
    }
}

/// Whether a blank at flat index `b` may slide in direction `d`: its target
/// cell must stay inside the 4x4 grid.
pub open spec fn legal_at(b: int, d: MoveDirection) -> bool {
    match d {
        MoveDirection::Up => b >= 4,
        MoveDirection::Down => b < 12,
        MoveDirection::Left => b % 4 != 0,
        MoveDirection::Right => b % 4 != 3,
    }
}

/// Whether direction `d` is a legal move on grid `s`.
pub open spec fn legal(s: Seq<u8>, d: MoveDirection) -> bool {
    legal_at(blank_of(s), d)
}

/// The grid after a legal move `d`: the blank and its target cell swap.
pub open spec fn spec_move(s: Seq<u8>, d: MoveDirection) -> Seq<u8> {
    let b = blank_of(s);
    let t = target_of(b, d);
    s.update(b, s[t]).update(t, 0u8)
}

/// The grid after attempting move `d`: a legal move is applied, an illegal
/// one leaves the grid unchanged.
pub open spec fn step_move(s: Seq<u8>, d: MoveDirection) -> Seq<u8> {
    if legal(s, d) {
        spec_move(s, d)
    } else {
        s
    }
}

/// The grid after attempting each move of `ms` in order.
pub open spec fn apply_seq(s: Seq<u8>, ms: Seq<MoveDirection>) -> Seq<u8>
    decreases ms.len(),
{
    if ms.len() == 0 {
        s
    } else {
        apply_seq(step_move(s, ms[0]), ms.drop_first())
    }
}

/// A grid is reachable when some sequence of attempted moves takes the
/// solved grid to it. Reachable grids are exactly the solvable ones.
pub open spec fn reachable(s: Seq<u8>) -> bool {
    exists|ms: Seq<MoveDirection>| apply_seq(solved_seq(), ms) == s
}

/// The solved test: the first 15 cells read 1..=15 in row-major order. The
/// last cell is not compared; on a well-formed grid it can then only be 0.
pub open spec fn spec_is_solved(s: Seq<u8>) -> bool {
    &&& s.len() == 16
    &&& forall|i: int| 0 <= i < 15 ==> s[i] as int == i + 1
}

/// The solved grid is well formed.
pub proof fn lemma_solved_wf()
    ensures
        wf(solved_seq()),
        spec_is_solved(solved_seq()),
{
    assert forall|v: u8| v < 16 implies #[trigger] solved_seq().contains(v) by {
        let i: int = if v == 0 { 15 } else { v as int - 1 };
        assert(solved_seq()[i] == v);
    }
}

/// On a well-formed grid the blank index is the unique index holding 0.
pub proof fn lemma_blank_of(s: Seq<u8>, i: int)
    requires
        wf(s),
        0 <= i < 16,
        s[i] == 0,
    ensures
        blank_of(s) == i,
{
    let b = blank_of(s);
    assert(s.contains(0u8));
    assert(0 <= b < s.len() && s[b] == 0);
}

/// A well-formed grid has a blank, at an index inside the grid.
pub proof fn lemma_blank_exists(s: Seq<u8>)
    requires
        wf(s),
    ensures
        0 <= blank_of(s) < 16,
        s[blank_of(s)] == 0,
{
    assert(s.contains(0u8));
}

/// A legal move keeps the grid well formed and parks the blank on the
/// target cell.
pub proof fn lemma_spec_move_wf(s: Seq<u8>, d: MoveDirection)
    requires
        wf(s),
        legal(s, d),
    ensures
        wf(spec_move(s, d)),
        blank_of(spec_move(s, d)) == target_of(blank_of(s), d),
        spec_move(s, d)[blank_of(s)] == s[target_of(blank_of(s), d)],
{
    lemma_blank_exists(s);
    let b = blank_of(s);
    let t = target_of(b, d);
    let s2 = spec_move(s, d);
    assert(0 <= t < 16 && t != b);
    assert forall|v: u8| v < 16 implies #[trigger] s2.contains(v) by {
        assert(s.contains(v));
        let i = choose|i: int| 0 <= i < s.len() && s[i] == v;
        if i == b {
            assert(s2[t] == v);
        } else if i == t {
            assert(s2[b] == v);
        } else {
            assert(s2[i] == v);
        }
    }
    assert(wf(s2));
    lemma_blank_of(s2, t);
}

/// An attempted move keeps the grid well formed.
pub proof fn lemma_step_move_wf(s: Seq<u8>, d: MoveDirection)
    requires
        wf(s),
    ensures
        wf(step_move(s, d)),
{
    if legal(s, d) {
        lemma_spec_move_wf(s, d);
    }
}

/// Appending one attempted move to a sequence of attempted moves.
pub proof fn lemma_apply_seq_push(s: Seq<u8>, ms: Seq<MoveDirection>, d: MoveDirection)
    ensures
        apply_seq(s, ms.push(d)) == step_move(apply_seq(s, ms), d),
    decreases ms.len(),
{
    reveal_with_fuel(apply_seq, 2);
    if ms.len() == 0 {
        assert(ms.push(d)[0] == d);
        assert(ms.push(d).drop_first() =~= Seq::<MoveDirection>::empty());
    } else {
        assert(ms.push(d)[0] == ms[0]);
        assert(ms.push(d).drop_first() =~= ms.drop_first().push(d));
        lemma_apply_seq_push(step_move(s, ms[0]), ms.drop_first(), d);
    }
}

/// A well-formed grid stays well formed under any sequence of attempted
/// moves.
pub proof fn lemma_apply_seq_wf(s: Seq<u8>, ms: Seq<MoveDirection>)
    requires
        wf(s),
    ensures
        wf(apply_seq(s, ms)),
    decreases ms.len(),
{
    if ms.len() != 0 {
        lemma_step_move_wf(s, ms[0]);
        lemma_apply_seq_wf(step_move(s, ms[0]), ms.drop_first());
    }
}

} // verus!
