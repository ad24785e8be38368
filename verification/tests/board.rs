use game_of_life::board::{Board, BOARD_SIZE};

#[test]
fn test_get() {
    let mut b = Board::new();

    b.set(1, 1, true);
    assert_eq!(b.get(1, 1), true);

    assert_eq!(b.get(0, 1), false);
    assert_eq!(b.get(1, 0), false);
    assert_eq!(b.get(1, BOARD_SIZE), false);
    assert_eq!(b.get(BOARD_SIZE, 1), false);
}

#[test]
fn new_board_all_dead() {
    let b = Board::new();
    for x in 1..=BOARD_SIZE {
        for y in 1..=BOARD_SIZE {
            assert_eq!(b.get(x, y), false, "cell ({x}, {y}) after new");
        }
    }
}

#[test]
fn get_out_of_range_is_dead() {
    let mut b = Board::new();
    b.set(1, 1, true);
    b.set(BOARD_SIZE, BOARD_SIZE, true);
    b.set(16, 16, true);

    assert_eq!(b.get(0, 0), false);
    assert_eq!(b.get(0, 1), false);
    assert_eq!(b.get(1, 0), false);
    assert_eq!(b.get(0, 16), false);
    assert_eq!(b.get(16, 0), false);
    assert_eq!(b.get(BOARD_SIZE + 1, 1), false);
    assert_eq!(b.get(1, BOARD_SIZE + 1), false);
    assert_eq!(b.get(BOARD_SIZE + 1, BOARD_SIZE + 1), false);
    assert_eq!(b.get(100, 16), false);
    assert_eq!(b.get(16, 100), false);
}

#[test]
fn set_overwrites() {
    let mut b = Board::new();
    b.set(7, 9, true);
    assert_eq!(b.get(7, 9), true);
    b.set(7, 9, false);
    assert_eq!(b.get(7, 9), false);
}

#[test]
fn lone_cell_dies() {
    let mut b = Board::new();
    b.set(10, 10, true);
    b.next_generattion();
    for x in 1..=BOARD_SIZE {
        for y in 1..=BOARD_SIZE {
            assert_eq!(b.get(x, y), false, "cell ({x}, {y}) after one step");
        }
    }
}

#[test]
fn block_is_still_life() {
    let mut b = Board::new();
    b.set(5, 5, true);
    b.set(5, 6, true);
    b.set(6, 5, true);
    b.set(6, 6, true);
    b.next_generattion();
    for x in 1..=BOARD_SIZE {
        for y in 1..=BOARD_SIZE {
            let in_block = (x == 5 || x == 6) && (y == 5 || y == 6);
            assert_eq!(b.get(x, y), in_block, "cell ({x}, {y}) after one step");
        }
    }
}

#[test]
fn blinker_becomes_vertical() {
    let mut b = Board::new();
    b.set(2, 2, true);
    b.set(2, 3, true);
    b.set(2, 4, true);
    b.next_generattion();
    for x in 1..=BOARD_SIZE {
        for y in 1..=BOARD_SIZE {
            let live = y == 3 && (x == 1 || x == 2 || x == 3);
            assert_eq!(b.get(x, y), live, "cell ({x}, {y}) after one step");
        }
    }
}

#[test]
fn blinker_period_two() {
    let mut b = Board::new();
    b.set(12, 12, true);
    b.set(12, 13, true);
    b.set(12, 14, true);
    b.next_generattion();
    b.next_generattion();
    for x in 1..=BOARD_SIZE {
        for y in 1..=BOARD_SIZE {
            let live = x == 12 && (y == 12 || y == 13 || y == 14);
            assert_eq!(b.get(x, y), live, "cell ({x}, {y}) after two steps");
        }
    }
}
