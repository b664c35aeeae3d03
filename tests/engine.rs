use sokoban::auxiliary::{Direction, Point, Size};
use sokoban::board::{Board, BoardError};

fn cells(board: &Board) -> Vec<u8> {
    let mut out = Vec::new();
    for y in 0..board.size.height {
        for x in 0..board.size.width {
            out.push(board.get_state_at_cell(Point { x, y }).unwrap());
        }
    }
    out
}

fn board_of(width: usize, height: usize, states: &[u8]) -> Board {
    let mut board = Board::new(Size { width, height });
    for (i, s) in states.iter().enumerate() {
        board.set_state_at_cell(Point { x: i % width, y: i / width }, *s).unwrap();
    }
    board.validate_board()
}

fn count(states: &[u8], wanted: &[u8]) -> usize {
    states.iter().filter(|s| wanted.contains(s)).count()
}

#[test]
fn from_then_get_reads_back_every_nibble() {
    let bytes = vec![0x12u8, 0xAB, 0xF0, 0x7C, 0x90];
    let board = Board::from(bytes.clone(), Size { width: 3, height: 3 }).unwrap();
    let expected = vec![0x1u8, 0x2, 0xA, 0xB, 0xF, 0x0, 0x7, 0xC, 0x9];
    assert_eq!(cells(&board), expected);
    assert_eq!(board.field, bytes);
    assert_eq!(board.field_len, 5);
}

#[test]
fn from_keeps_bytes_of_a_full_grid() {
    let mut field = vec![0u8; 32];
    field[0] = 50;
    let board = Board::from(field.clone(), Size { width: 8, height: 8 }).unwrap();
    assert_eq!(board.field, field);
    assert_eq!(board.get_state_at_cell(Point { x: 0, y: 0 }), Some(3));
    assert_eq!(board.get_state_at_cell(Point { x: 1, y: 0 }), Some(2));
    assert!(!board.is_valid);
}

#[test]
fn from_rejects_wrong_length() {
    let r = Board::from(vec![0u8; 4], Size { width: 3, height: 3 });
    assert_eq!(r.err(), Some(BoardError::LengthMismatch));
    let r = Board::from(vec![0u8; 6], Size { width: 3, height: 3 });
    assert_eq!(r.err(), Some(BoardError::LengthMismatch));
}

#[test]
fn from_rejects_size_that_overflows() {
    let r = Board::from(vec![0u8; 2], Size { width: usize::MAX, height: 2 });
    assert_eq!(r.err(), Some(BoardError::LengthMismatch));
}

#[test]
fn from_validates_the_grid() {
    // agent, crate, destination, floor
    let board = Board::from(vec![0x42, 0x61], Size { width: 4, height: 1 }).unwrap();
    assert!(board.is_valid);
    assert_eq!(board.sokoban_position, Some(Point { x: 0, y: 0 }));
}

#[test]
fn set_writes_one_nibble_only() {
    let mut board = Board::from(vec![0x11, 0x11], Size { width: 2, height: 2 }).unwrap();
    board.set_state_at_cell(Point { x: 1, y: 0 }, 6).unwrap();
    assert_eq!(board.field, vec![0x16, 0x11]);
    board.set_state_at_cell(Point { x: 0, y: 1 }, 4).unwrap();
    assert_eq!(board.field, vec![0x16, 0x41]);
}

#[test]
fn set_rejects_state_above_six() {
    let mut board = Board::new(Size { width: 1, height: 1 });
    assert_eq!(board.set_state_at_cell(Point { x: 0, y: 0 }, 7), Err(BoardError::InvalidState));
    assert_eq!(board.field, vec![0u8]);
}

#[test]
fn set_rejects_point_outside() {
    let mut board = Board::new(Size { width: 2, height: 2 });
    assert_eq!(board.set_state_at_cell(Point { x: 2, y: 0 }, 1), Err(BoardError::OutOfBounds));
    assert_eq!(board.set_state_at_cell(Point { x: 0, y: 2 }, 1), Err(BoardError::OutOfBounds));
    assert_eq!(board.field, vec![0u8, 0u8]);
}

#[test]
fn new_board_is_all_walls() {
    let board = Board::new(Size { width: 3, height: 1 });
    assert_eq!(board.field, vec![0u8, 0u8]);
    assert_eq!(board.field_len, 2);
    assert!(!board.is_valid);
    assert_eq!(board.sokoban_position, None);
}

#[test]
fn validator_rejects_no_agent() {
    let board = board_of(3, 1, &[1, 2, 6]);
    assert!(!board.is_valid);
    assert_eq!(board.sokoban_position, None);
}

#[test]
fn validator_rejects_two_agents() {
    let board = board_of(3, 1, &[4, 1, 4]);
    assert!(!board.is_valid);
    assert_eq!(board.sokoban_position, None);
}

#[test]
fn validator_rejects_unequal_crates_and_destinations() {
    let board = board_of(4, 1, &[4, 6, 6, 2]);
    assert!(!board.is_valid);
    assert_eq!(board.sokoban_position, None);
}

#[test]
fn validator_finds_the_agent() {
    let board = board_of(3, 2, &[1, 3, 1, 2, 5, 6]);
    assert!(board.is_valid);
    assert_eq!(board.sokoban_position, Some(Point { x: 1, y: 1 }));
}

#[test]
fn push_into_wall_changes_nothing() {
    let board = board_of(3, 1, &[1, 4, 0]);
    let before = cells(&board);
    let after = board.make_step(Direction::Forward).unwrap();
    assert_eq!(cells(&after), before);
    assert_eq!(after.sokoban_position, Some(Point { x: 1, y: 0 }));
}

#[test]
fn push_against_left_and_top_edge_changes_nothing() {
    let board = board_of(2, 2, &[4, 1, 1, 1]);
    let before = cells(&board);
    let left = board.make_step(Direction::Backward).unwrap();
    assert_eq!(cells(&left), before);
    let up = board.make_step(Direction::Up).unwrap();
    assert_eq!(cells(&up), before);
    assert_eq!(up.sokoban_position, Some(Point { x: 0, y: 0 }));
}

#[test]
fn push_against_bottom_edge_changes_nothing() {
    let board = board_of(1, 2, &[1, 4]);
    let after = board.make_step(Direction::Down).unwrap();
    assert_eq!(cells(&after), vec![1, 4]);
}

#[test]
fn blocked_crate_does_not_move() {
    let board = board_of(5, 1, &[4, 2, 2, 6, 6]);
    let after = board.make_step(Direction::Forward).unwrap();
    assert_eq!(cells(&after), vec![4, 2, 2, 6, 6]);
    let board = board_of(2, 1, &[4, 3]);
    let after = board.make_step(Direction::Forward).unwrap();
    assert_eq!(cells(&after), vec![4, 3]);
}

#[test]
fn crate_pushed_up_from_destination_onto_destination() {
    let board = board_of(2, 3, &[6, 2, 3, 0, 4, 0]);
    let after = board.make_step(Direction::Up).unwrap();
    assert_eq!(cells(&after), vec![3, 2, 5, 0, 1, 0]);
    assert_eq!(after.sokoban_position, Some(Point { x: 0, y: 1 }));
}

#[test]
fn step_keeps_one_agent_and_every_crate() {
    let board = board_of(5, 4, &[
        4, 1, 2, 6, 0, 1, 2, 1, 1, 0, 1, 6, 1, 3, 0, 0, 0, 0, 0, 0,
    ]);
    let mut board = board;
    let moves = [
        Direction::Forward,
        Direction::Forward,
        Direction::Forward,
        Direction::Backward,
        Direction::Down,
        Direction::Up,
        Direction::Backward,
        Direction::Down,
        Direction::Down,
        Direction::Forward,
    ];
    let crates = count(&cells(&board), &[2, 3]);
    for d in moves.iter() {
        board = board.make_step(*d).unwrap();
        let now = cells(&board);
        assert_eq!(count(&now, &[4, 5]), 1);
        assert_eq!(count(&now, &[2, 3]), crates);
    }
}

#[test]
fn agent_walks_onto_floor() {
    let board = board_of(1, 2, &[4, 1]);
    let after = board.make_step(Direction::Down).unwrap();
    assert_eq!(cells(&after), vec![1, 4]);
    let board = board_of(2, 1, &[4, 1]);
    let after = board.make_step(Direction::Forward).unwrap();
    assert_eq!(cells(&after), vec![1, 4]);
    assert_eq!(after.sokoban_position, Some(Point { x: 1, y: 0 }));
    assert!(after.is_valid);
}

#[test]
fn agent_pushes_crate_onto_destination() {
    let board = board_of(4, 2, &[1, 4, 2, 6, 0, 1, 0, 0]);
    let after = board.make_step(Direction::Forward).unwrap();
    assert_eq!(cells(&after), vec![1, 1, 4, 3, 0, 1, 0, 0]);
    assert!(after.check_if_finished());
    assert!(!board.check_if_finished());
}

#[test]
fn step_on_unvalidated_board_is_refused() {
    let mut board = Board::new(Size { width: 2, height: 1 });
    board.set_state_at_cell(Point { x: 0, y: 0 }, 4).unwrap();
    assert_eq!(board.make_step(Direction::Forward).err(), Some(BoardError::InvalidBoard));
}

#[test]
fn finished_needs_a_valid_board() {
    let board = Board::new(Size { width: 2, height: 1 });
    assert!(!board.check_if_finished());
    let board = board_of(2, 1, &[4, 3]);
    assert!(board.check_if_finished());
}

#[test]
fn point_in_direction() {
    let p = Point { x: 0, y: 0 };
    assert_eq!(p.get_point_in_direction(Direction::Backward), None);
    assert_eq!(p.get_point_in_direction(Direction::Up), None);
    assert_eq!(p.get_point_in_direction(Direction::Forward), Some(Point { x: 1, y: 0 }));
    assert_eq!(p.get_point_in_direction(Direction::Down), Some(Point { x: 0, y: 1 }));
    let q = Point { x: 1, y: 3 };
    assert_eq!(q.get_point_in_direction(Direction::Up), Some(Point { x: 1, y: 2 }));
    assert_eq!(q.get_point_in_direction(Direction::Backward), Some(Point { x: 0, y: 3 }));
    let r = Point { x: usize::MAX, y: usize::MAX };
    assert_eq!(r.get_point_in_direction(Direction::Forward), None);
    assert_eq!(r.get_point_in_direction(Direction::Down), None);
}

#[test]
fn step_keeps_spare_nibble_of_odd_grid() {
    // three cells: agent, floor, floor; the low nibble of the last byte is spare
    let board = Board::from(vec![0x41, 0x1F], Size { width: 3, height: 1 }).unwrap();
    assert!(board.is_valid);
    let after = board.make_step(Direction::Forward).unwrap();
    assert_eq!(after.field, vec![0x14, 0x1F]);
    let after = after.make_step(Direction::Forward).unwrap();
    assert_eq!(after.field, vec![0x11, 0x4F]);
}
