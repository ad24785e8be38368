//! The per-cell transition rule of the automaton, as a pure function of the
//! current state and the number of live neighbors.

use vstd::prelude::*;

verus! {

/// How much a single cell contributes to a live count: 1 if live, 0 if dead.
pub open spec fn live(b: bool) -> int {
    if b {
        1
    } else {
        0
    }
}

/// Number of live cells among a block of eight neighbor flags.
pub open spec fn live_count8(n: Seq<bool>) -> int {
    live(n[0]) + live(n[1]) + live(n[2]) + live(n[3]) + live(n[4]) + live(n[5]) + live(n[6])
        + live(n[7])
}

/// The transition rule: a live cell survives with two or three live
/// neighbors and otherwise dies (underpopulation below two, overpopulation
/// above three); a dead cell becomes live with exactly three live neighbors
/// (reproduction) and otherwise stays dead.
pub open spec fn step(alive: bool, count: int) -> bool {
    if alive {
        2 <= count && count <= 3
    } else {
        count == 3
    }
}

/// The transition rule case by case, over its whole input domain:
/// reproduction at exactly three neighbors, survival at two or three,
/// death by underpopulation below two and by overpopulation above three.
pub proof fn lemma_transition_rule(alive: bool, count: int)
    requires
        0 <= count <= 8,
    ensures
        !alive && count == 3 ==> step(alive, count),
        !alive && count != 3 ==> !step(alive, count),
        alive && count < 2 ==> !step(alive, count),
        alive && (count == 2 || count == 3) ==> step(alive, count),
        alive && count > 3 ==> !step(alive, count),
{
}

/// Computes the next state of a cell from its current state and the eight
/// neighbor states.
pub fn next_state(state: bool, neighbors: [bool; 8]) -> (r: bool)
    ensures
        r == step(state, live_count8(neighbors@)),
{
    let mut count: u8 = 0;
    let mut i: usize = 0;
    while i < 8
        invariant
            i <= 8,
            count <= i,
            count == live_count8_prefix(neighbors@, i as int),
        decreases 8 - i,
    {
        if neighbors[i] {
            count = count + 1;
        }
        i = i + 1;
    }
    proof {
        lemma_live_count8_prefix_full(neighbors@);
    }
    if state {
        2 <= count && count <= 3
    } else {
        count == 3
    }
}

/// Number of live cells among the first `k` of eight neighbor flags.
spec fn live_count8_prefix(n: Seq<bool>, k: int) -> int
    decreases k,
{
    if k <= 0 {
        0
    } else {
        live_count8_prefix(n, k - 1) + live(n[k - 1])
    }
}

/// Counting all eight prefix entries counts the whole block.
proof fn lemma_live_count8_prefix_full(n: Seq<bool>)
    ensures
        live_count8_prefix(n, 8) == live_count8(n),
{
    reveal_with_fuel(live_count8_prefix, 9);
}

} // verus!
