//! The cells around a cell, ring by ring.

use vstd::prelude::*;
use crate::mines::position::Position;

verus! {

/// The step to the `index`-th neighbour of a ring, as `(dx, dy)`: row by
/// row from the upper left, leaving out the centre.
pub open spec fn neighbour_offset(index: int) -> (int, int) {
    if index == 0 {
        (-1, -1)
    } else if index == 1 {
        (0, -1)
    } else if index == 2 {
        (1, -1)
    } else if index == 3 {
        (-1, 0)
    } else if index == 4 {
        (1, 0)
    } else if index == 5 {
        (-1, 1)
    } else if index == 6 {
        (0, 1)
    } else {
        (1, 1)
    }
}

/// The ring in which the `n`-th item lies: the first eight items lie at
/// distance one, the next eight at distance two, and so on.
pub open spec fn ring_of(n: nat) -> int {
    n as int / 8 + 1
}

/// The coordinates of the `n`-th item around `origin`, counted from zero.
pub open spec fn neighbour_at(origin: Position, n: nat) -> (int, int) {
    let offset = neighbour_offset(n as int % 8);
    (origin.x + offset.0 * ring_of(n), origin.y + offset.1 * ring_of(n))
}

/// Whether the ring of the `n`-th item around `origin` lies within the range
/// of the coordinates.
pub open spec fn in_reach(origin: Position, n: nat) -> bool {
    let ring = ring_of(n);
    &&& i32::MIN <= origin.x - ring
    &&& origin.x + ring <= i32::MAX
    &&& i32::MIN <= origin.y - ring
    &&& origin.y + ring <= i32::MAX
}

/// A step scaled to a ring moves by the ring's distance, or not at all, in
/// each direction.
proof fn lemma_scaled_step(unit: int, ring: int)
    requires
        -1 <= unit <= 1,
    ensures
        unit == -1 ==> unit * ring == -ring,
        unit == 0 ==> unit * ring == 0,
        unit == 1 ==> unit * ring == ring,
{
    assert(unit == -1 ==> unit * ring == -ring) by (nonlinear_arith);
    assert(unit == 0 ==> unit * ring == 0) by (nonlinear_arith);
    assert(unit == 1 ==> unit * ring == ring) by (nonlinear_arith);
}

/// No two items around one origin are the same position.
pub proof fn lemma_neighbours_distinct(origin: Position, j: nat, k: nat)
    requires
        j != k,
    ensures
        neighbour_at(origin, j) != neighbour_at(origin, k),
{
    let a = neighbour_offset(j as int % 8);
    let b = neighbour_offset(k as int % 8);
    let rj = ring_of(j);
    let rk = ring_of(k);
    lemma_scaled_step(a.0, rj);
    lemma_scaled_step(a.1, rj);
    lemma_scaled_step(b.0, rk);
    lemma_scaled_step(b.1, rk);
    if rj == rk {
        assert(j as int % 8 != k as int % 8);
    }
}

/// The state of an iteration: where it is centred and how many items it has
/// given so far.
pub struct NeighbourIterView {
    pub origin: Position,
    pub produced: nat,
}

/// Walks the cells around an origin: the eight at distance one, then the
/// eight at distance two in the same directions, and so on without end.
pub struct NeighbourIter {
    origin: Position,
    i: usize,
    distance: i64,
}

impl View for NeighbourIter {
    type V = NeighbourIterView;

    closed spec fn view(&self) -> NeighbourIterView {
        NeighbourIterView {
            origin: self.origin,
            produced: ((self.distance - 1) * 8 + self.i) as nat,
        }
    }
}

/// The step to the `index`-th neighbour of a ring.
fn offset(index: usize) -> (step: (i32, i32))
    requires
        index < 8,
    ensures
        (step.0 as int, step.1 as int) == neighbour_offset(index as int),
{
    if index == 0 {
        (-1, -1)
    } else if index == 1 {
        (0, -1)
    } else if index == 2 {
        (1, -1)
    } else if index == 3 {
        (-1, 0)
    } else if index == 4 {
        (1, 0)
    } else if index == 5 {
        (-1, 1)
    } else if index == 6 {
        (0, 1)
    } else {
        (1, 1)
    }
}

impl NeighbourIter {
    #[verifier::type_invariant]
    spec fn in_ring(self) -> bool {
        self.i < 8 && 1 <= self.distance <= 0x8000_0000
    }

    /// An iteration around `origin` that has given nothing yet.
    pub fn new(origin: Position) -> (iter: NeighbourIter)
        ensures
            iter@ == (NeighbourIterView { origin, produced: 0 }),
    {
        NeighbourIter { origin, i: 0, distance: 1 }
    }

    /// The next position around the origin. There always is one.
    pub fn next(&mut self) -> (item: Option<Position>)
        requires
            in_reach(old(self)@.origin, old(self)@.produced),
        ensures
            item matches Some(pos) && (pos.x as int, pos.y as int) == neighbour_at(
                old(self)@.origin,
                old(self)@.produced,
            ),
            final(self)@ == (NeighbourIterView {
                origin: old(self)@.origin,
                produced: old(self)@.produced + 1,
            }),
    {
        proof {
            use_type_invariant(&*self);
        }
        let step = offset(self.i);
        let distance: i32 = self.distance as i32;
        proof {
            lemma_scaled_step(step.0 as int, distance as int);
            lemma_scaled_step(step.1 as int, distance as int);
        }
        let pos = Position::from(
            self.origin.x + step.0 * distance,
            self.origin.y + step.1 * distance,
        );
        if self.i + 1 >= 8 {
            self.i = 0;
            self.distance = self.distance + 1;
        } else {
            self.i = self.i + 1;
        }
        Some(pos)
    }

    /// The next `n` positions around the origin, in order.
    pub fn take(self, n: usize) -> (items: Vec<Position>)
        requires
            n > 0 ==> in_reach(self@.origin, (self@.produced + n - 1) as nat),
        ensures
            items@.len() == n,
            forall|j: int|
                0 <= j < n ==> (#[trigger] items@[j].x as int, items@[j].y as int) == neighbour_at(
                    self@.origin,
                    (self@.produced + j) as nat,
                ),
    {
        let ghost start = self@;
        let mut iter = self;
        let mut items: Vec<Position> = Vec::new();
        let mut taken: usize = 0;
        while taken < n
            invariant
                0 <= taken <= n,
                n > 0 ==> in_reach(start.origin, (start.produced + n - 1) as nat),
                iter@.origin == start.origin,
                iter@.produced == start.produced + taken,
                items@.len() == taken,
                forall|j: int|
                    0 <= j < taken ==> (#[trigger] items@[j].x as int, items@[j].y as int)
                        == neighbour_at(start.origin, (start.produced + j) as nat),
            decreases n - taken,
        {
            if let Some(pos) = iter.next() {
                items.push(pos);
            }
            taken += 1;
        }
        items
    }
}

} // verus!
