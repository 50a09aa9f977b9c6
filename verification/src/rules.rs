//! The rule of the game, as mathematics over sets of cells.
//!
//! Nothing here is executable. The grid and the simulation state their
//! contracts with these functions, and the lemmas below are what makes the
//! sparse evaluation of a generation correct.

use crate::cell::Cell;
use vstd::prelude::*;
use vstd::set_lib::{lemma_len_subset, lemma_set_subset_finite};

verus! {

/// Two distinct cells that differ by at most one in each coordinate.
pub open spec fn adjacent(a: Cell, b: Cell) -> bool {
    a != b && -1 <= a.0 - b.0 <= 1 && -1 <= a.1 - b.1 <= 1
}

/// The larger of the two coordinate distances between `a` and `b`.
pub open spec fn chebyshev_distance(a: Cell, b: Cell) -> int {
    let dx = if a.0 >= b.0 { a.0 - b.0 } else { b.0 - a.0 };
    let dy = if a.1 >= b.1 { a.1 - b.1 } else { b.1 - a.1 };
    if dx >= dy { dx } else { dy }
}

/// The Moore neighbourhood of `c`: every cell of the lattice adjacent to it.
pub open spec fn neighbors(c: Cell) -> Set<Cell> {
    Set::new(|n: Cell| adjacent(c, n))
}

/// How many neighbours of `c` are alive.
pub open spec fn live_neighbor_count(live: Set<Cell>, c: Cell) -> nat {
    neighbors(c).intersect(live).len()
}

/// The cell that lies `dx` columns and `dy` rows from `c`, if the lattice has it.
pub open spec fn toward(c: Cell, dx: int, dy: int) -> Option<Cell> {
    if Cell::representable((c.0 + dx, c.1 + dy)) {
        Some(Cell((c.0 + dx) as i64, (c.1 + dy) as i64))
    } else {
        None
    }
}

/// One if the cell that lies `dx` columns and `dy` rows from `c` is alive, else zero.
pub open spec fn alive_toward(live: Set<Cell>, c: Cell, dx: int, dy: int) -> nat {
    match toward(c, dx, dy) {
        Some(n) => if live.contains(n) {
            1
        } else {
            0
        },
        None => 0,
    }
}

/// The live neighbours of `c`, counted direction by direction.
pub open spec fn count_by_direction(live: Set<Cell>, c: Cell) -> nat {
    alive_toward(live, c, -1, -1) + alive_toward(live, c, -1, 0) + alive_toward(live, c, -1, 1)
        + alive_toward(live, c, 0, -1) + alive_toward(live, c, 0, 1) + alive_toward(
        live,
        c,
        1,
        -1,
    ) + alive_toward(live, c, 1, 0) + alive_toward(live, c, 1, 1)
}

/// The rule of the game: a live cell stays alive with two or three live
/// neighbours, a dead cell comes alive with exactly three.
pub open spec fn rule(alive: bool, live_neighbors: nat) -> bool {
    if alive {
        live_neighbors == 2 || live_neighbors == 3
    } else {
        live_neighbors == 3
    }
}

/// Whether `c` is alive in the generation that follows `live`.
pub open spec fn alive_next(live: Set<Cell>, c: Cell) -> bool {
    rule(live.contains(c), live_neighbor_count(live, c))
}

/// The generation that follows `live`, decided cell by cell over the whole lattice.
pub open spec fn next_generation(live: Set<Cell>) -> Set<Cell> {
    Set::new(|c: Cell| alive_next(live, c))
}

/// The live cells together with all their neighbours.
pub open spec fn active(live: Set<Cell>) -> Set<Cell> {
    Set::new(|c: Cell| live.contains(c) || exists|n: Cell| live.contains(n) && adjacent(n, c))
}

/// The coordinate before `v`, or `v` itself at the low end of the range.
pub open spec fn step_down(v: i64) -> i64 {
    if v > i64::MIN { (v - 1) as i64 } else { v }
}

/// The coordinate after `v`, or `v` itself at the high end of the range.
pub open spec fn step_up(v: i64) -> i64 {
    if v < i64::MAX { (v + 1) as i64 } else { v }
}

/// The cells one step away from `c` in each of the eight directions, a step
/// that would leave the lattice not being taken.
pub open spec fn ring(c: Cell) -> Set<Cell> {
    set![
        Cell(step_down(c.0), step_down(c.1)),
        Cell(step_down(c.0), c.1),
        Cell(step_down(c.0), step_up(c.1)),
        Cell(c.0, step_down(c.1)),
        Cell(c.0, step_up(c.1)),
        Cell(step_up(c.0), step_down(c.1)),
        Cell(step_up(c.0), c.1),
        Cell(step_up(c.0), step_up(c.1))
    ]
}

/// The neighbourhood is the ring without the cell itself.
pub proof fn lemma_neighbors_ring(c: Cell)
    ensures
        neighbors(c) == ring(c).remove(c),
        ring(c).finite(),
        ring(c).len() <= 8,
        c.is_interior() ==> ring(c).len() == 8 && !ring(c).contains(c),
{
    assert(neighbors(c) =~= ring(c).remove(c));
}

/// A cell has at most eight neighbours.
pub proof fn lemma_neighbors_finite(c: Cell)
    ensures
        neighbors(c).finite(),
        neighbors(c).len() <= 8,
{
    lemma_neighbors_ring(c);
    lemma_set_subset_finite(ring(c), neighbors(c));
    lemma_len_subset(neighbors(c), ring(c));
}

/// Every cell inside the rim of the lattice has exactly eight neighbours; the
/// neighbours of any cell differ from it and lie at Chebyshev distance one.
pub proof fn lemma_moore_neighborhood(c: Cell)
    ensures
        neighbors(c).finite(),
        c.is_interior() ==> neighbors(c).len() == 8,
        !neighbors(c).contains(c),
        forall|n: Cell| neighbors(c).contains(n) ==> chebyshev_distance(c, n) == 1,
        forall|n: Cell| chebyshev_distance(c, n) == 1 ==> neighbors(c).contains(n),
{
    lemma_neighbors_ring(c);
    lemma_neighbors_finite(c);
    if c.is_interior() {
        assert(neighbors(c) =~= ring(c));
    }
}

/// A cell outside the active set is dead and has no live neighbour, so it is
/// dead in the next generation too.
pub proof fn lemma_inactive_stays_dead(live: Set<Cell>, c: Cell)
    requires
        !active(live).contains(c),
    ensures
        !live.contains(c),
        live_neighbor_count(live, c) == 0,
        !alive_next(live, c),
{
    assert forall|n: Cell| !neighbors(c).intersect(live).contains(n) by {
        if live.contains(n) && adjacent(c, n) {
            assert(adjacent(n, c));
        }
    }
    assert(neighbors(c).intersect(live) =~= Set::<Cell>::empty());
}

/// Applying the rule to the active cells alone gives the same generation as
/// applying it to every cell of the lattice.
pub proof fn lemma_active_suffices(live: Set<Cell>)
    ensures
        next_generation(live) == active(live).filter(|c: Cell| alive_next(live, c)),
        next_generation(live).subset_of(active(live)),
{
    assert forall|c: Cell| next_generation(live).contains(c) implies active(live).contains(c) by {
        if !active(live).contains(c) {
            lemma_inactive_stays_dead(live, c);
        }
    }
    assert(next_generation(live) =~= active(live).filter(|c: Cell| alive_next(live, c)));
}

/// The active set is exactly the union of every live cell with its neighbours.
pub proof fn lemma_active_is_union(live: Set<Cell>, c: Cell)
    ensures
        active(live).contains(c) <==> exists|l: Cell|
            live.contains(l) && (c == l || neighbors(l).contains(c)),
{
    if active(live).contains(c) {
        if live.contains(c) {
            assert(live.contains(c) && (c == c || neighbors(c).contains(c)));
        } else {
            let n = choose|n: Cell| live.contains(n) && adjacent(n, c);
            assert(live.contains(n) && (c == n || neighbors(n).contains(c)));
        }
    }
    if exists|l: Cell| live.contains(l) && (c == l || neighbors(l).contains(c)) {
        let l = choose|l: Cell| live.contains(l) && (c == l || neighbors(l).contains(c));
        if c != l {
            assert(live.contains(l) && adjacent(l, c));
        }
    }
}

/// Counting the live cells among `seen` and one further cell `c`.
pub proof fn lemma_count_one_more(seen: Set<Cell>, c: Cell, live: Set<Cell>)
    requires
        seen.finite(),
        !seen.contains(c),
    ensures
        seen.intersect(live).finite(),
        seen.insert(c).intersect(live).len() == seen.intersect(live).len() + if live.contains(c) {
            1nat
        } else {
            0nat
        },
{
    lemma_set_subset_finite(seen, seen.intersect(live));
    if live.contains(c) {
        assert(seen.insert(c).intersect(live) =~= seen.intersect(live).insert(c));
    } else {
        assert(seen.insert(c).intersect(live) =~= seen.intersect(live));
    }
}

/// Adds the neighbour in one direction, if there is one, to the neighbours
/// seen so far, and counts it if it is alive.
proof fn lemma_one_direction(seen: Set<Cell>, live: Set<Cell>, c: Cell, dx: int, dy: int) -> (next:
    Set<Cell>)
    requires
        seen.finite(),
        forall|n: Cell| #[trigger] seen.contains(n) ==> !(n.0 - c.0 == dx && n.1 - c.1 == dy),
    ensures
        next.finite(),
        forall|n: Cell| #[trigger] next.contains(n) <==> seen.contains(n) || toward(c, dx, dy) == Some(n),
        next.intersect(live).len() == seen.intersect(live).len() + alive_toward(live, c, dx, dy),
{
    match toward(c, dx, dy) {
        Some(n) => {
            lemma_count_one_more(seen, n, live);
            seen.insert(n)
        },
        None => seen,
    }
}

/// Counting the live neighbours direction by direction gives their number.
pub proof fn lemma_count_by_direction(live: Set<Cell>, c: Cell)
    ensures
        live_neighbor_count(live, c) == count_by_direction(live, c),
{
    let s0 = Set::<Cell>::empty();
    assert(s0.intersect(live) =~= s0);
    let s1 = lemma_one_direction(s0, live, c, -1, -1);
    let s2 = lemma_one_direction(s1, live, c, -1, 0);
    let s3 = lemma_one_direction(s2, live, c, -1, 1);
    let s4 = lemma_one_direction(s3, live, c, 0, -1);
    let s5 = lemma_one_direction(s4, live, c, 0, 1);
    let s6 = lemma_one_direction(s5, live, c, 1, -1);
    let s7 = lemma_one_direction(s6, live, c, 1, 0);
    let s8 = lemma_one_direction(s7, live, c, 1, 1);
    assert(s8 =~= neighbors(c));
}

/// One more live cell adds itself and its neighbours to the active set.
pub proof fn lemma_active_one_more(live: Set<Cell>, c: Cell)
    ensures
        active(live.insert(c)) == active(live).union(neighbors(c)).insert(c),
{
    let lhs = active(live.insert(c));
    let rhs = active(live).union(neighbors(c)).insert(c);
    assert forall|a: Cell| lhs.contains(a) implies rhs.contains(a) by {
        if !live.insert(c).contains(a) {
            let n = choose|n: Cell| live.insert(c).contains(n) && adjacent(n, a);
            if n != c {
                assert(live.contains(n) && adjacent(n, a));
            }
        }
    }
    assert forall|a: Cell| rhs.contains(a) implies lhs.contains(a) by {
        if a == c {
            assert(live.insert(c).contains(a));
        } else if neighbors(c).contains(a) {
            assert(live.insert(c).contains(c) && adjacent(c, a));
        } else if !live.contains(a) {
            let n = choose|n: Cell| live.contains(n) && adjacent(n, a);
            assert(live.insert(c).contains(n) && adjacent(n, a));
        }
    }
    assert(lhs =~= rhs);
}

/// A cell that is brought to life and then killed is dead, and a cell that
/// was dead before leaves the population as it was.
pub proof fn lemma_alive_then_dead(live: Set<Cell>, c: Cell)
    ensures
        !live.insert(c).remove(c).contains(c),
        !live.contains(c) ==> live.insert(c).remove(c) == live,
{
    if !live.contains(c) {
        assert(live.insert(c).remove(c) =~= live);
    }
}

/// With no live cell nothing is active.
pub proof fn lemma_active_of_empty()
    ensures
        active(Set::<Cell>::empty()) == Set::<Cell>::empty(),
{
    assert(active(Set::<Cell>::empty()) =~= Set::<Cell>::empty());
}

/// With no live cell there is no next generation either.
pub proof fn lemma_empty_stays_empty()
    ensures
        next_generation(Set::<Cell>::empty()) == Set::<Cell>::empty(),
{
    assert forall|c: Cell| !next_generation(Set::<Cell>::empty()).contains(c) by {
        assert(neighbors(c).intersect(Set::<Cell>::empty()) =~= Set::<Cell>::empty());
    }
    assert(next_generation(Set::<Cell>::empty()) =~= Set::<Cell>::empty());
}

} // verus!
