use game_of_life::rule::next_state;

#[test]
fn test_next_state() {
    assert_eq!(
        next_state(true, [true, true, true, true, true, true, true, true]),
        false
    );
    assert_eq!(
        next_state(
            true,
            [true, false, false, false, false, false, false, false]
        ),
        false
    );
    assert_eq!(
        next_state(true, [false, false, false, true, true, false, false, false]),
        true
    );
    assert_eq!(
        next_state(true, [false, false, false, true, true, false, true, false]),
        true
    );
    assert_eq!(
        next_state(false, [true, true, true, true, true, true, true, true]),
        false
    );
    assert_eq!(
        next_state(
            false,
            [false, false, false, true, true, false, false, false]
        ),
        false
    );
    assert_eq!(
        next_state(false, [false, false, false, true, true, false, true, false]),
        true
    );
}

/// Eight neighbor flags of which the first `count` are live.
fn neighbors_with(count: usize) -> [bool; 8] {
    let mut n = [false; 8];
    let mut i: usize = 0;
    while i < count {
        n[i] = true;
        i += 1;
    }
    n
}

#[test]
fn transition_rule_all_cases() {
    for count in 0..=8usize {
        let dead_next = next_state(false, neighbors_with(count));
        assert_eq!(dead_next, count == 3, "dead cell with {count} neighbors");

        let live_next = next_state(true, neighbors_with(count));
        assert_eq!(
            live_next,
            count == 2 || count == 3,
            "live cell with {count} neighbors"
        );
    }
}
