//! What a stream of coordinate samples places on a board.
//!
//! Mines are placed by offering coordinates one after another. A coordinate
//! is taken when it lies on the board and no mine is there yet; any other is
//! passed over. Once as many mines are placed as were asked for, nothing more
//! is taken.

use vstd::prelude::*;
use crate::grid::{in_grid, within};

verus! {

/// The position that a pair of indices names.
pub open spec fn position(p: (usize, usize)) -> (int, int) {
    (p.0 as int, p.1 as int)
}

/// The set of positions that occur in `coords`.
pub open spec fn positions(coords: Seq<(usize, usize)>) -> Set<(int, int)> {
    Set::new(
        |q: (int, int)| exists|i: int| 0 <= i < coords.len() && position(#[trigger] coords[i]) == q,
    )
}

/// No coordinate occurs twice in `coords`.
pub open spec fn distinct(coords: Seq<(usize, usize)>) -> bool {
    forall|i: int, j: int|
        0 <= i < j < coords.len() ==> #[trigger] coords[i] != #[trigger] coords[j]
}

/// Every coordinate of `coords` lies on a grid of side `size`.
pub open spec fn all_in_grid(coords: Seq<(usize, usize)>, size: nat) -> bool {
    forall|i: int|
        0 <= i < coords.len() ==> in_grid(
            size,
            (#[trigger] coords[i]).0 as int,
            coords[i].1 as int,
        )
}

/// Whether `p` is taken after the coordinates `taken` have been: there is
/// room for another mine, `p` lies on the grid, and no mine is there yet.
pub open spec fn takes(
    taken: Seq<(usize, usize)>,
    size: nat,
    wanted: nat,
    p: (usize, usize),
) -> bool {
    &&& taken.len() < wanted
    &&& in_grid(size, p.0 as int, p.1 as int)
    &&& !taken.contains(p)
}

/// The coordinates taken from `samples`, in the order in which they were
/// offered, on a grid of side `size` that is to hold `wanted` mines.
pub open spec fn drawn(samples: Seq<(usize, usize)>, size: nat, wanted: nat) -> Seq<(usize, usize)>
    decreases samples.len(),
{
    if samples.len() == 0 {
        Seq::empty()
    } else {
        let before = drawn(samples.drop_last(), size, wanted);
        if takes(before, size, wanted, samples.last()) {
            before.push(samples.last())
        } else {
            before
        }
    }
}

/// Adding a coordinate to a sequence adds its position to the set.
pub proof fn lemma_positions_push(coords: Seq<(usize, usize)>, p: (usize, usize))
    ensures
        positions(coords.push(p)) == positions(coords).insert(position(p)),
{
    let grown = coords.push(p);
    let added = positions(coords).insert(position(p));
    assert forall|q: (int, int)| positions(grown).contains(q) implies added.contains(q) by {
        let i = choose|i: int| 0 <= i < grown.len() && position(#[trigger] grown[i]) == q;
        if i < coords.len() {
            assert(coords[i] == grown[i]);
        }
    }
    assert forall|q: (int, int)| added.contains(q) implies positions(grown).contains(q) by {
        if q == position(p) {
            assert(grown[coords.len() as int] == p);
        } else {
            let i = choose|i: int| 0 <= i < coords.len() && position(#[trigger] coords[i]) == q;
            assert(grown[i] == coords[i]);
        }
    }
    assert(positions(grown) =~= added);
}

/// A position is in the set exactly when its coordinate is in the sequence.
pub proof fn lemma_positions_contains(coords: Seq<(usize, usize)>, p: (usize, usize))
    ensures
        positions(coords).contains(position(p)) == coords.contains(p),
{
    if coords.contains(p) {
        let i = choose|i: int| 0 <= i < coords.len() && coords[i] == p;
        assert(position(coords[i]) == position(p));
    }
    if positions(coords).contains(position(p)) {
        let q = position(p);
        let i = choose|i: int| 0 <= i < coords.len() && position(#[trigger] coords[i]) == q;
        assert(coords[i] == p);
    }
}

/// Coordinates that lie on the grid name positions that lie on the grid.
pub proof fn lemma_positions_within(coords: Seq<(usize, usize)>, size: nat)
    requires
        all_in_grid(coords, size),
    ensures
        within(positions(coords), size),
{
    assert forall|p: (int, int)| #[trigger] positions(coords).contains(p) implies in_grid(
        size,
        p.0,
        p.1,
    ) by {
        let i = choose|i: int| 0 <= i < coords.len() && position(#[trigger] coords[i]) == p;
        assert(in_grid(size, coords[i].0 as int, coords[i].1 as int));
    }
}

/// A sequence without repetitions names as many positions as it is long.
pub proof fn lemma_positions_len(coords: Seq<(usize, usize)>)
    requires
        distinct(coords),
    ensures
        positions(coords).finite(),
        positions(coords).len() == coords.len(),
    decreases coords.len(),
{
    if coords.len() == 0 {
        assert(positions(coords) =~= Set::empty());
    } else {
        let front = coords.drop_last();
        let p = coords.last();
        lemma_positions_len(front);
        assert(coords =~= front.push(p));
        lemma_positions_push(front, p);
        lemma_positions_contains(front, p);
        if front.contains(p) {
            let i = choose|i: int| 0 <= i < front.len() && front[i] == p;
            assert(coords[i] == coords[coords.len() - 1]);
        }
    }
}

/// What is taken from a stream has no repetitions, lies on the grid, is no
/// more than was asked for, and occurred in the stream.
pub proof fn lemma_drawn_sound(samples: Seq<(usize, usize)>, size: nat, wanted: nat)
    ensures
        distinct(drawn(samples, size, wanted)),
        all_in_grid(drawn(samples, size, wanted), size),
        drawn(samples, size, wanted).len() <= wanted,
        drawn(samples, size, wanted).len() <= samples.len(),
        forall|p: (usize, usize)| #[trigger]
            drawn(samples, size, wanted).contains(p) ==> samples.contains(p),
    decreases samples.len(),
{
    if samples.len() > 0 {
        let front = samples.drop_last();
        let before = drawn(front, size, wanted);
        lemma_drawn_sound(front, size, wanted);
        let taken = drawn(samples, size, wanted);
        assert forall|p: (usize, usize)| #[trigger] taken.contains(p) implies samples.contains(
            p,
        ) by {
            let i = choose|i: int| 0 <= i < taken.len() && taken[i] == p;
            if i < before.len() {
                assert(before[i] == p);
                assert(before.contains(p));
                let j = choose|j: int| 0 <= j < front.len() && front[j] == p;
                assert(samples[j] == p);
            } else {
                assert(samples[samples.len() - 1] == p);
            }
        }
    }
}

/// As long as fewer coordinates are taken than were asked for, none that lies
/// on the grid was passed over: every such coordinate of the stream is among
/// those taken.
pub proof fn lemma_drawn_complete(samples: Seq<(usize, usize)>, size: nat, wanted: nat)
    requires
        drawn(samples, size, wanted).len() < wanted,
    ensures
        forall|i: int|
            0 <= i < samples.len() && in_grid(size, samples[i].0 as int, samples[i].1 as int)
                ==> drawn(samples, size, wanted).contains(#[trigger] samples[i]),
    decreases samples.len(),
{
    if samples.len() > 0 {
        let front = samples.drop_last();
        let before = drawn(front, size, wanted);
        let taken = drawn(samples, size, wanted);
        lemma_drawn_complete(front, size, wanted);
        assert forall|i: int|
            0 <= i < samples.len() && in_grid(
                size,
                samples[i].0 as int,
                samples[i].1 as int,
            ) implies taken.contains(#[trigger] samples[i]) by {
            if i < front.len() {
                assert(front[i] == samples[i]);
                let j = choose|j: int| 0 <= j < before.len() && before[j] == front[i];
                assert(taken[j] == samples[i]);
            } else if takes(before, size, wanted, samples.last()) {
                assert(taken[before.len() as int] == samples[i]);
            } else {
                let j = choose|j: int| 0 <= j < before.len() && before[j] == samples.last();
                assert(taken[j] == samples[i]);
            }
        }
    }
}

/// Once as many coordinates are taken as were asked for, the rest of the
/// stream changes nothing.
pub proof fn lemma_drawn_full(samples: Seq<(usize, usize)>, size: nat, wanted: nat, upto: int)
    requires
        0 <= upto <= samples.len(),
        drawn(samples.take(upto), size, wanted).len() >= wanted,
    ensures
        drawn(samples, size, wanted) == drawn(samples.take(upto), size, wanted),
    decreases samples.len(),
{
    if upto == samples.len() {
        assert(samples.take(upto) =~= samples);
    } else {
        let front = samples.drop_last();
        assert(front.take(upto) =~= samples.take(upto));
        lemma_drawn_full(front, size, wanted, upto);
    }
}

/// A stream without repetitions that lies on the grid and is no longer than
/// the number of mines asked for is taken whole, in its own order.
pub proof fn lemma_drawn_script(samples: Seq<(usize, usize)>, size: nat, wanted: nat)
    requires
        distinct(samples),
        all_in_grid(samples, size),
        samples.len() <= wanted,
    ensures
        drawn(samples, size, wanted) == samples,
    decreases samples.len(),
{
    if samples.len() == 0 {
        assert(samples =~= Seq::empty());
    } else {
        let front = samples.drop_last();
        lemma_drawn_script(front, size, wanted);
        if front.contains(samples.last()) {
            let i = choose|i: int| 0 <= i < front.len() && front[i] == samples.last();
            assert(samples[i] == samples[samples.len() - 1]);
        }
        assert(samples =~= front.push(samples.last()));
    }
}

} // verus!
