use minesweeper::{Board, BoardCell, BoardError, GameObject};

#[test]
fn new_board_is_square_and_empty() {
    let board = Board::new(5).unwrap();
    assert_eq!(board.size(), 5);
    for row in 0..5 {
        for col in 0..5 {
            assert_eq!(board.cell(row, col), GameObject::EMPTY);
        }
    }
}

#[test]
fn board_without_cells_is_refused() {
    assert_eq!(Board::new(0).err(), Some(BoardError::InvalidConfiguration));
}

#[test]
fn smallest_board_has_one_cell() {
    let board = Board::new(1).unwrap();
    assert_eq!(board.size(), 1);
    assert_eq!(board.cell(0, 0), GameObject::EMPTY);
}

#[test]
fn set_cell_changes_one_cell_only() {
    let mut board = Board::new(3).unwrap();
    board.set_cell(1, 2, GameObject::NEIGHBOUR(4));
    for row in 0..3 {
        for col in 0..3 {
            let want = if (row, col) == (1, 2) {
                GameObject::NEIGHBOUR(4)
            } else {
                GameObject::EMPTY
            };
            assert_eq!(board.cell(row, col), want);
        }
    }
    board.set_cell(1, 2, GameObject::MINE);
    assert_eq!(board.cell(1, 2), GameObject::MINE);
    assert_eq!(board.cell(2, 1), GameObject::EMPTY);
}

#[test]
fn reading_a_cell_twice_gives_the_same() {
    let board = Board::generate(6, 7).unwrap();
    for row in 0..6 {
        for col in 0..6 {
            let first = board.cell(row, col);
            let second = board.cell(row, col);
            assert_eq!(first, second);
        }
    }
    assert_eq!(board.size(), board.size());
}

#[test]
fn boards_with_the_same_cells_are_equal() {
    let mut one = Board::new(3).unwrap();
    let mut other = Board::new(3).unwrap();
    assert!(one == other);
    one.set_cell(0, 2, GameObject::MINE);
    assert!(one != other);
    other.set_cell(0, 2, GameObject::MINE);
    assert!(one == other);
    other.set_cell(2, 0, GameObject::NEIGHBOUR(1));
    assert!(one != other);
    one.set_cell(2, 0, GameObject::NEIGHBOUR(2));
    assert!(one != other);
    one.set_cell(2, 0, GameObject::NEIGHBOUR(1));
    assert!(one == other);
}

#[test]
fn boards_of_different_size_differ() {
    let small = Board::new(2).unwrap();
    let large = Board::new(3).unwrap();
    assert!(small != large);
    assert!(large != small);
}

#[test]
fn a_fresh_cell_is_empty() {
    let cell = BoardCell::new();
    assert_eq!(cell.cell_type, GameObject::EMPTY);
    assert!(!cell.cell_type.is_mine());
}

#[test]
fn only_a_mine_is_a_mine() {
    assert!(GameObject::MINE.is_mine());
    assert!(!GameObject::EMPTY.is_mine());
    assert!(!GameObject::NEIGHBOUR(1).is_mine());
    assert!(!GameObject::NEIGHBOUR(8).is_mine());
}

#[test]
fn rows_walk_the_board_in_order() {
    let mut board = Board::new(3).unwrap();
    board.set_cell(0, 1, GameObject::MINE);
    board.set_cell(2, 0, GameObject::NEIGHBOUR(3));
    let rows = board.rows();
    assert_eq!(
        rows,
        vec![
            vec![GameObject::EMPTY, GameObject::MINE, GameObject::EMPTY],
            vec![GameObject::EMPTY, GameObject::EMPTY, GameObject::EMPTY],
            vec![GameObject::NEIGHBOUR(3), GameObject::EMPTY, GameObject::EMPTY],
        ]
    );
    for row in 0..3 {
        for col in 0..3 {
            assert_eq!(rows[row][col], board.cell(row, col));
        }
    }
}
