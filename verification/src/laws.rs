//! The general laws of the puzzle, proved once and for all over the model:
//! every move is undone by its inverse, and every grid produced by attempted
//! moves from the solved grid can be brought back to it.

use vstd::prelude::*;

use crate::model::{
    apply_seq, blank_of, inverse_dir, legal, lemma_apply_seq_push, lemma_blank_exists,
    lemma_solved_wf, lemma_spec_move_wf, lemma_step_move_wf, reachable,
    solved_seq, spec_is_solved, spec_move, step_move, target_of, wf, MoveDirection,
};

verus! {

/// A legal move followed by its inverse restores the grid exactly: Up/Down
/// and Left/Right are mutual inverses, and the inverse is always legal from
/// the blank position the first move produces.
pub proof fn lemma_move_inverse(s: Seq<u8>, d: MoveDirection)
    requires
        wf(s),
        legal(s, d),
    ensures
        legal(spec_move(s, d), inverse_dir(d)),
        spec_move(spec_move(s, d), inverse_dir(d)) == s,
{
    lemma_blank_exists(s);
    lemma_spec_move_wf(s, d);
    let b = blank_of(s);
    let t = target_of(b, d);
    let s2 = spec_move(s, d);
    assert(blank_of(s2) == t);
    assert(target_of(t, inverse_dir(d)) == b);
    assert(legal(s2, inverse_dir(d)));
    assert(spec_move(s2, inverse_dir(d)) =~= s);
}

/// Any sequence of attempted moves can be undone: from the grid it leaves
/// behind, some sequence of attempted moves leads back to the starting grid.
pub proof fn lemma_undo_exists(s: Seq<u8>, ms: Seq<MoveDirection>)
    requires
        wf(s),
    ensures
        exists|rs: Seq<MoveDirection>| apply_seq(apply_seq(s, ms), rs) == s,
    decreases ms.len(),
{
    if ms.len() == 0 {
        assert(apply_seq(apply_seq(s, ms), Seq::<MoveDirection>::empty()) == s);
    } else {
        let d = ms[0];
        let s1 = step_move(s, d);
        lemma_step_move_wf(s, d);
        lemma_undo_exists(s1, ms.drop_first());
        let rs1 = choose|rs: Seq<MoveDirection>|
            apply_seq(apply_seq(s1, ms.drop_first()), rs) == s1;
        assert(apply_seq(s, ms) == apply_seq(s1, ms.drop_first()));
        if legal(s, d) {
            lemma_move_inverse(s, d);
            let rs = rs1.push(inverse_dir(d));
            lemma_apply_seq_push(apply_seq(s, ms), rs1, inverse_dir(d));
            assert(step_move(s1, inverse_dir(d)) == s);
            assert(apply_seq(apply_seq(s, ms), rs) == s);
        } else {
            assert(s1 == s);
            assert(apply_seq(apply_seq(s, ms), rs1) == s);
        }
    }
}

/// Every sequence of attempted moves from the solved grid leaves a
/// well-formed, reachable grid, and some further sequence of attempted moves
/// brings it back to a grid on which the solved test holds.
pub proof fn lemma_moves_from_solved(ms: Seq<MoveDirection>)
    ensures
        wf(apply_seq(solved_seq(), ms)),
        reachable(apply_seq(solved_seq(), ms)),
        exists|rs: Seq<MoveDirection>|
            spec_is_solved(apply_seq(apply_seq(solved_seq(), ms), rs)),
{
    lemma_solved_wf();
    crate::model::lemma_apply_seq_wf(solved_seq(), ms);
    let s = apply_seq(solved_seq(), ms);
    assert(apply_seq(solved_seq(), ms) == s);
    lemma_undo_exists(solved_seq(), ms);
    let rs = choose|rs: Seq<MoveDirection>| apply_seq(apply_seq(solved_seq(), ms), rs)
        == solved_seq();
    assert(spec_is_solved(apply_seq(s, rs)));
}

/// Every reachable grid is solvable: some finite sequence of attempted moves
/// takes it to a grid on which the solved test holds. The shuffle only ever
/// applies legal slides, so the grids it produces are all reachable and this
/// law applies to them.
pub proof fn lemma_reachable_solvable(s: Seq<u8>)
    requires
        reachable(s),
    ensures
        wf(s),
        exists|rs: Seq<MoveDirection>| spec_is_solved(apply_seq(s, rs)),
{
    let ms = choose|ms: Seq<MoveDirection>| apply_seq(solved_seq(), ms) == s;
    lemma_moves_from_solved(ms);
}

/// On a well-formed grid the solved test pins the whole grid down: when the
/// first 15 cells read 1..=15, the last cell can only hold the blank, so the
/// grid is exactly the solved one.
pub proof fn lemma_solved_unique(s: Seq<u8>)
    requires
        wf(s),
        spec_is_solved(s),
    ensures
        s == solved_seq(),
{
    assert(s.contains(0u8));
    let z = choose|i: int| 0 <= i < s.len() && s[i] == 0;
    assert(s[15] == 0) by {
        if z != 15 {
            assert(s[z] as int == z + 1);
        }
    }
    assert(s =~= solved_seq());
}

} // verus!
