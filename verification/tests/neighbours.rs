use minesweeper::{Board, BoardBuilder, GameObject};

#[test]
fn top_left_mine_neighbours() {
    let test_board_builder = BoardBuilder::new(4, 1).unwrap();
    let input_mines_set: Vec<(usize, usize)> = vec![(0, 0)];

    let test_board_builder = test_board_builder
        .place_mines_from(&input_mines_set)
        .unwrap();

    let mut want = Board::new(4).unwrap();
    want.set_cell(0, 0, GameObject::MINE);
    want.set_cell(0, 1, GameObject::NEIGHBOUR(1));
    want.set_cell(1, 0, GameObject::NEIGHBOUR(1));
    want.set_cell(1, 1, GameObject::NEIGHBOUR(1));

    let got = test_board_builder
        .compute_neighbours()
        .unwrap()
        .build()
        .unwrap();
    assert_eq!(
        want, got,
        "\n\nNeighbours are incorrect:\nWant:\n{:?}\n\nGot:\n{:?}",
        want, got
    );
}

#[test]
fn top_right_mine_neighbours() {
    let test_board_builder = BoardBuilder::new(4, 1).unwrap();
    let input_mines_set: Vec<(usize, usize)> = vec![(0, 3)];

    let test_board_builder = test_board_builder
        .place_mines_from(&input_mines_set)
        .unwrap();

    let mut want = Board::new(4).unwrap();
    want.set_cell(0, 3, GameObject::MINE);
    want.set_cell(0, 2, GameObject::NEIGHBOUR(1));
    want.set_cell(1, 2, GameObject::NEIGHBOUR(1));
    want.set_cell(1, 3, GameObject::NEIGHBOUR(1));

    let got = test_board_builder
        .compute_neighbours()
        .unwrap()
        .build()
        .unwrap();
    assert_eq!(
        want, got,
        "\n\nNeighbours are incorrect:\nWant:\n{:?}\n\nGot:\n{:?}",
        want, got
    );
}

#[test]
fn bottom_right_mine_neighbours() {
    let test_board_builder = BoardBuilder::new(4, 1).unwrap();
    let input_mines_set: Vec<(usize, usize)> = vec![(3, 3)];

    let test_board_builder = test_board_builder
        .place_mines_from(&input_mines_set)
        .unwrap();

    let mut want = Board::new(4).unwrap();
    want.set_cell(3, 3, GameObject::MINE);
    want.set_cell(3, 2, GameObject::NEIGHBOUR(1));
    want.set_cell(2, 2, GameObject::NEIGHBOUR(1));
    want.set_cell(2, 3, GameObject::NEIGHBOUR(1));

    let got = test_board_builder
        .compute_neighbours()
        .unwrap()
        .build()
        .unwrap();
    assert_eq!(
        want, got,
        "\n\nNeighbours are incorrect:\nWant:\n{:?}\n\nGot:\n{:?}",
        want, got
    );
}

#[test]
fn bottom_left_mine_neighbours() {
    let test_board_builder = BoardBuilder::new(4, 1).unwrap();
    let input_mines_set: Vec<(usize, usize)> = vec![(3, 0)];

    let test_board_builder = test_board_builder
        .place_mines_from(&input_mines_set)
        .unwrap();

    let mut want = Board::new(4).unwrap();
    want.set_cell(3, 0, GameObject::MINE);
    want.set_cell(2, 0, GameObject::NEIGHBOUR(1));
    want.set_cell(2, 1, GameObject::NEIGHBOUR(1));
    want.set_cell(3, 1, GameObject::NEIGHBOUR(1));

    let got = test_board_builder
        .compute_neighbours()
        .unwrap()
        .build()
        .unwrap();
    assert_eq!(
        want, got,
        "\n\nNeighbours are incorrect:\nWant:\n{:?}\n\nGot:\n{:?}",
        want, got
    );
}

#[test]
fn center_mine_neighbours() {
    let test_board_builder = BoardBuilder::new(4, 1).unwrap();
    let input_mines_set: Vec<(usize, usize)> = vec![(2, 1)];

    let test_board_builder = test_board_builder
        .place_mines_from(&input_mines_set)
        .unwrap();

    let mut want = Board::new(4).unwrap();
    want.set_cell(2, 1, GameObject::MINE);
    want.set_cell(1, 0, GameObject::NEIGHBOUR(1));
    want.set_cell(1, 1, GameObject::NEIGHBOUR(1));
    want.set_cell(1, 2, GameObject::NEIGHBOUR(1));
    want.set_cell(2, 2, GameObject::NEIGHBOUR(1));
    want.set_cell(3, 2, GameObject::NEIGHBOUR(1));
    want.set_cell(3, 1, GameObject::NEIGHBOUR(1));
    want.set_cell(3, 0, GameObject::NEIGHBOUR(1));
    want.set_cell(2, 0, GameObject::NEIGHBOUR(1));

    let got = test_board_builder
        .compute_neighbours()
        .unwrap()
        .build()
        .unwrap();
    assert_eq!(
        want, got,
        "\n\nNeighbours are incorrect:\nWant:\n{:?}\n\nGot:\n{:?}",
        want, got
    );
}
