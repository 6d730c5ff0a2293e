use fifteen_puzzle::console::{parse_command, take_turn, Command, TurnOutcome};
use fifteen_puzzle::engine::{create_puzzle, find_empty_square, is_solved, make_move, shuffle_puzzle, Puzzle};
use fifteen_puzzle::model::MoveDirection;

fn grid(cells: [u8; 16]) -> Puzzle {
    Puzzle::try_from_cells(cells.to_vec()).expect("cells form a valid grid")
}

fn cells_of(p: &Puzzle) -> Vec<u8> {
    let mut out: Vec<u8> = Vec::new();
    let mut row: usize = 0;
    while row < 4 {
        let mut col: usize = 0;
        while col < 4 {
            out.push(p.get(row, col));
            col += 1;
        }
        row += 1;
    }
    out
}

const SOLVED: [u8; 16] = [1, 2, 3, 4, 5, 6, 7, 8, 9, 10, 11, 12, 13, 14, 15, 0];

#[test]
fn solved_grid_is_solved() {
    let p = grid(SOLVED);
    assert!(is_solved(&p));
}

#[test]
fn one_swap_is_not_solved() {
    let p = grid([2, 1, 3, 4, 5, 6, 7, 8, 9, 10, 11, 12, 13, 14, 15, 0]);
    assert!(!is_solved(&p));
}

#[test]
fn find_blank_returns_zero_cell() {
    let p = grid([1, 2, 3, 4, 5, 0, 6, 8, 9, 10, 7, 12, 13, 14, 11, 15]);
    let (row, col) = find_empty_square(&p);
    assert_eq!((row, col), (1, 1));
    assert_eq!(p.get(row, col), 0);
}

#[test]
fn find_blank_on_solved_grid() {
    let p = grid(SOLVED);
    assert_eq!(find_empty_square(&p), (3, 3));
}

#[test]
fn move_then_inverse_restores_grid() {
    let mut p = grid([1, 2, 3, 4, 5, 0, 6, 8, 9, 10, 7, 12, 13, 14, 11, 15]);
    let before = cells_of(&p);
    assert!(make_move(&mut p, MoveDirection::Up));
    assert!(make_move(&mut p, MoveDirection::Down));
    assert_eq!(cells_of(&p), before);
    assert!(make_move(&mut p, MoveDirection::Left));
    assert!(make_move(&mut p, MoveDirection::Right));
    assert_eq!(cells_of(&p), before);
}

#[test]
fn boundary_blank_top_left() {
    let mut p = grid([0, 1, 2, 3, 4, 5, 6, 7, 8, 9, 10, 11, 12, 13, 14, 15]);
    let before = cells_of(&p);
    assert!(!make_move(&mut p, MoveDirection::Up));
    assert_eq!(cells_of(&p), before);
    assert!(!make_move(&mut p, MoveDirection::Left));
    assert_eq!(cells_of(&p), before);
    assert!(make_move(&mut p, MoveDirection::Down));
    let mut p2 = grid([0, 1, 2, 3, 4, 5, 6, 7, 8, 9, 10, 11, 12, 13, 14, 15]);
    assert!(make_move(&mut p2, MoveDirection::Right));
}

#[test]
fn boundary_blank_bottom_right() {
    let mut p = grid(SOLVED);
    let before = cells_of(&p);
    assert!(!make_move(&mut p, MoveDirection::Down));
    assert_eq!(cells_of(&p), before);
    assert!(!make_move(&mut p, MoveDirection::Right));
    assert_eq!(cells_of(&p), before);
}

#[test]
fn last_slide_solves_the_grid() {
    let mut p = grid([1, 2, 3, 4, 5, 6, 7, 8, 9, 10, 11, 12, 13, 14, 0, 15]);
    assert_eq!(find_empty_square(&p), (3, 2));
    assert!(!is_solved(&p));
    assert!(make_move(&mut p, MoveDirection::Right));
    assert_eq!(cells_of(&p), SOLVED.to_vec());
    assert!(is_solved(&p));
}

#[test]
fn parse_recognised_commands() {
    assert_eq!(parse_command('W'), Some(Command::Move(MoveDirection::Up)));
    assert_eq!(parse_command('w'), Some(Command::Move(MoveDirection::Up)));
    assert_eq!(parse_command('A'), Some(Command::Move(MoveDirection::Left)));
    assert_eq!(parse_command('a'), Some(Command::Move(MoveDirection::Left)));
    assert_eq!(parse_command('S'), Some(Command::Move(MoveDirection::Down)));
    assert_eq!(parse_command('s'), Some(Command::Move(MoveDirection::Down)));
    assert_eq!(parse_command('D'), Some(Command::Move(MoveDirection::Right)));
    assert_eq!(parse_command('d'), Some(Command::Move(MoveDirection::Right)));
    assert_eq!(parse_command('Q'), Some(Command::Quit));
    assert_eq!(parse_command('q'), Some(Command::Quit));
}

#[test]
fn parse_rejects_other_letters() {
    assert_eq!(parse_command('Z'), None);
    assert_eq!(parse_command('x'), None);
    assert_eq!(parse_command('1'), None);
    assert_eq!(parse_command(' '), None);
}

#[test]
fn invalid_command_changes_nothing() {
    let mut p = grid(SOLVED);
    let mut moves: u64 = 7;
    let before = cells_of(&p);
    let outcome = take_turn(&mut p, &mut moves, 'Z');
    assert_eq!(outcome, TurnOutcome::InvalidInput);
    assert_eq!(cells_of(&p), before);
    assert_eq!(moves, 7);
}

#[test]
fn quit_command_changes_nothing() {
    let mut p = grid(SOLVED);
    let mut moves: u64 = 3;
    let before = cells_of(&p);
    let outcome = take_turn(&mut p, &mut moves, 'q');
    assert_eq!(outcome, TurnOutcome::Quit);
    assert_eq!(cells_of(&p), before);
    assert_eq!(moves, 3);
}

#[test]
fn legal_turn_counts_illegal_does_not() {
    let mut p = grid(SOLVED);
    let mut moves: u64 = 0;
    let outcome = take_turn(&mut p, &mut moves, 'd');
    assert_eq!(outcome, TurnOutcome::IllegalMove);
    assert_eq!(moves, 0);
    let outcome = take_turn(&mut p, &mut moves, 'w');
    assert_eq!(outcome, TurnOutcome::Moved);
    assert_eq!(moves, 1);
    assert_eq!(p.get(3, 3), 12);
    assert_eq!(p.get(2, 3), 0);
}

#[test]
fn try_from_cells_rejects_wrong_length() {
    assert!(Puzzle::try_from_cells(vec![1, 2, 3]).is_none());
    assert!(Puzzle::try_from_cells(Vec::new()).is_none());
}

#[test]
fn try_from_cells_rejects_out_of_range_value() {
    let mut cells = SOLVED.to_vec();
    cells[15] = 16;
    assert!(Puzzle::try_from_cells(cells).is_none());
}

#[test]
fn try_from_cells_rejects_duplicate() {
    let cells = vec![1, 1, 3, 4, 5, 6, 7, 8, 9, 10, 11, 12, 13, 14, 15, 0];
    assert!(Puzzle::try_from_cells(cells).is_none());
}

#[test]
fn try_from_cells_accepts_permutation() {
    let p = Puzzle::try_from_cells(SOLVED.to_vec());
    assert!(p.is_some());
}

fn assert_permutation(p: &Puzzle) {
    let mut present = [false; 16];
    for v in cells_of(p) {
        assert!(v < 16, "cell value out of range");
        assert!(!present[v as usize], "duplicate cell value");
        present[v as usize] = true;
    }
    assert!(present.iter().all(|&b| b), "missing cell value");
}

#[test]
fn shuffle_keeps_permutation() {
    let mut p = grid(SOLVED);
    shuffle_puzzle(&mut p);
    assert_permutation(&p);
}

#[test]
fn created_puzzle_is_permutation() {
    let p = create_puzzle();
    assert_permutation(&p);
}
