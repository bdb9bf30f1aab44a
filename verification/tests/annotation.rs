use minesweeper::{Board, BoardBuilder, GameObject};

fn board_with(size: usize, script: &[(usize, usize)]) -> Board {
    BoardBuilder::new(size, script.len())
        .unwrap()
        .place_mines_from(script)
        .unwrap()
        .compute_neighbours()
        .unwrap()
        .build()
        .unwrap()
}

fn mines_around(board: &Board, row: usize, col: usize) -> u32 {
    let size = board.size() as i64;
    let mut found = 0;
    for dr in -1i64..=1 {
        for dc in -1i64..=1 {
            if dr == 0 && dc == 0 {
                continue;
            }
            let r = row as i64 + dr;
            let c = col as i64 + dc;
            if r < 0 || c < 0 || r >= size || c >= size {
                continue;
            }
            if board.cell(r as usize, c as usize).is_mine() {
                found += 1;
            }
        }
    }
    found
}

fn assert_annotated(board: &Board) {
    for row in 0..board.size() {
        for col in 0..board.size() {
            let around = mines_around(board, row, col);
            match board.cell(row, col) {
                GameObject::MINE => {}
                GameObject::EMPTY => assert_eq!(around, 0),
                GameObject::NEIGHBOUR(count) => {
                    assert!(count >= 1);
                    assert_eq!(count, around);
                }
            }
        }
    }
}

#[test]
fn every_count_is_the_number_of_mines_around() {
    for size in 1..9usize {
        for mines in [0, 1, size, size * size / 2, size * size] {
            let board = Board::generate(size, mines).unwrap();
            assert_annotated(&board);
        }
    }
    assert_annotated(&board_with(4, &[(0, 0), (0, 1), (1, 0), (3, 3)]));
}

#[test]
fn a_cell_between_two_mines_counts_two() {
    let board = board_with(3, &[(0, 0), (0, 2)]);
    assert_eq!(board.cell(0, 1), GameObject::NEIGHBOUR(2));
    assert_eq!(board.cell(1, 1), GameObject::NEIGHBOUR(2));
    assert_eq!(board.cell(1, 0), GameObject::NEIGHBOUR(1));
    assert_eq!(board.cell(1, 2), GameObject::NEIGHBOUR(1));
    assert_eq!(board.cell(2, 0), GameObject::EMPTY);
    assert_eq!(board.cell(2, 1), GameObject::EMPTY);
    assert_eq!(board.cell(2, 2), GameObject::EMPTY);
}

#[test]
fn a_cell_ringed_by_mines_counts_eight() {
    let ring = [
        (0, 0),
        (0, 1),
        (0, 2),
        (1, 0),
        (1, 2),
        (2, 0),
        (2, 1),
        (2, 2),
    ];
    let board = board_with(3, &ring);
    assert_eq!(board.cell(1, 1), GameObject::NEIGHBOUR(8));
    for &(row, col) in &ring {
        assert_eq!(board.cell(row, col), GameObject::MINE);
    }
}

#[test]
fn counting_never_overwrites_a_mine() {
    let board = board_with(3, &[(1, 1), (1, 2), (0, 1)]);
    assert_eq!(board.cell(1, 1), GameObject::MINE);
    assert_eq!(board.cell(1, 2), GameObject::MINE);
    assert_eq!(board.cell(0, 1), GameObject::MINE);
    assert_eq!(board.cell(0, 0), GameObject::NEIGHBOUR(2));
    assert_eq!(board.cell(0, 2), GameObject::NEIGHBOUR(3));
    assert_eq!(board.cell(1, 0), GameObject::NEIGHBOUR(2));
    assert_eq!(board.cell(2, 0), GameObject::NEIGHBOUR(1));
    assert_eq!(board.cell(2, 1), GameObject::NEIGHBOUR(2));
    assert_eq!(board.cell(2, 2), GameObject::NEIGHBOUR(2));
}

#[test]
fn no_cell_is_mine_and_neighbour() {
    let script = [(0usize, 0usize), (1, 1), (2, 3), (3, 0)];
    let board = board_with(4, &script);
    for row in 0..4 {
        for col in 0..4 {
            let mined = script.contains(&(row, col));
            let kind = board.cell(row, col);
            assert_eq!(kind.is_mine(), mined);
            if mined {
                assert!(!matches!(kind, GameObject::NEIGHBOUR(_)));
                assert!(!matches!(kind, GameObject::EMPTY));
            }
        }
    }
}

#[test]
fn the_order_of_the_mines_does_not_matter() {
    let one = board_with(5, &[(0, 0), (1, 1), (4, 2), (2, 4), (1, 2)]);
    let other = board_with(5, &[(1, 2), (2, 4), (0, 0), (4, 2), (1, 1)]);
    let third = board_with(5, &[(4, 2), (1, 2), (1, 1), (0, 0), (2, 4)]);
    assert_eq!(one, other);
    assert_eq!(one, third);
}

#[test]
fn the_same_script_gives_the_same_board() {
    let script = [(0usize, 3usize), (2, 2), (3, 1)];
    assert_eq!(board_with(4, &script), board_with(4, &script));
}

#[test]
fn a_single_cell_board_with_its_mine() {
    let board = board_with(1, &[(0, 0)]);
    assert_eq!(board.size(), 1);
    assert_eq!(board.cell(0, 0), GameObject::MINE);
}

#[test]
fn a_mine_on_an_edge_marks_five_cells() {
    let board = board_with(4, &[(0, 1)]);
    let mut want = Board::new(4).unwrap();
    want.set_cell(0, 1, GameObject::MINE);
    want.set_cell(0, 0, GameObject::NEIGHBOUR(1));
    want.set_cell(0, 2, GameObject::NEIGHBOUR(1));
    want.set_cell(1, 0, GameObject::NEIGHBOUR(1));
    want.set_cell(1, 1, GameObject::NEIGHBOUR(1));
    want.set_cell(1, 2, GameObject::NEIGHBOUR(1));
    assert_eq!(want, board);
}
