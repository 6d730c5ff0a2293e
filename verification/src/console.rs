//! The decisions of the console loop: turning a one-letter command into a
//! move or a quit, and carrying out one turn on the grid and the move
//! counter. Reading the line and printing the grid stay outside the library.

use vstd::prelude::*;

use crate::engine::{make_move, Puzzle};
use crate::model::{legal, spec_move, step_move, wf, MoveDirection};

verus! {

/// A recognised command: a move direction or a request to quit.
#[derive(Clone, Copy, Debug, PartialEq, Eq, Structural)]
pub enum Command {
    Move(MoveDirection),
    Quit,
}

/// What one turn did: a tile slid, the move was illegal from the current
/// blank position, the command was not recognised, or the player quit.
#[derive(Clone, Copy, Debug, PartialEq, Eq, Structural)]
pub enum TurnOutcome {
    Moved,
    IllegalMove,
    InvalidInput,
    Quit,
}

/// The command a single letter stands for: W/A/S/D move the blank up, left,
/// down, right; Q quits; case does not matter; anything else is rejected.
pub open spec fn spec_parse(c: char) -> Option<Command> {
    if c == 'W' || c == 'w' {
        Some(Command::Move(MoveDirection::Up))
    } else if c == 'A' || c == 'a' {
        Some(Command::Move(MoveDirection::Left))
    } else if c == 'S' || c == 's' {
        Some(Command::Move(MoveDirection::Down))
    } else if c == 'D' || c == 'd' {
        Some(Command::Move(MoveDirection::Right))
    } else if c == 'Q' || c == 'q' {
        Some(Command::Quit)
    } else {
        None
    }
}

/// Parses a single-letter command, upper or lower case.
pub fn parse_command(c: char) -> (r: Option<Command>)
    ensures
        r == spec_parse(c),
{
    if c == 'W' || c == 'w' {
        Some(Command::Move(MoveDirection::Up))
    } else if c == 'A' || c == 'a' {
        Some(Command::Move(MoveDirection::Left))
    } else if c == 'S' || c == 's' {
        Some(Command::Move(MoveDirection::Down))
    } else if c == 'D' || c == 'd' {
        Some(Command::Move(MoveDirection::Right))
    } else if c == 'Q' || c == 'q' {
        Some(Command::Quit)
    } else {
        None
    }
}

/// Plays one turn from a single-letter command: an unrecognised letter or a
/// quit changes nothing; a recognised direction is attempted, and only an
/// accepted slide advances the move counter.
pub fn take_turn(p: &mut Puzzle, moves: &mut u64, c: char) -> (r: TurnOutcome)
    requires
        wf(old(p)@),
        *old(moves) < u64::MAX,
    ensures
        wf(final(p)@),
        spec_parse(c) is None ==> final(p)@ == old(p)@ && *final(moves) == *old(moves) && r
            == TurnOutcome::InvalidInput,
        spec_parse(c) == Some(Command::Quit) ==> final(p)@ == old(p)@ && *final(moves) == *old(
            moves,
        ) && r == TurnOutcome::Quit,
        forall|d: MoveDirection|
            spec_parse(c) == Some(Command::Move(d)) ==> final(p)@ == step_move(old(p)@, d) && (
            if legal(old(p)@, d) {
                *final(moves) == *old(moves) + 1 && r == TurnOutcome::Moved && final(p)@
                    == spec_move(old(p)@, d)
            } else {
                *final(moves) == *old(moves) && r == TurnOutcome::IllegalMove && final(p)@ == old(
                    p,
                )@
            }),
{
    match parse_command(c) {
        None => TurnOutcome::InvalidInput,
        Some(Command::Quit) => TurnOutcome::Quit,
        Some(Command::Move(d)) => {
            if make_move(p, d) {
                *moves = *moves + 1;
                TurnOutcome::Moved
            } else {
                TurnOutcome::IllegalMove
            }
        },
    }
}

} // verus!
