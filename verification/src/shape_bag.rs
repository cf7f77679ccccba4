use vstd::prelude::*;

use rand::Rng;

use crate::shapes::Shape;

verus! {

/// Calls `rand::thread_rng().gen_range(0..n)`: an index below `n` chosen at random. `gen_range`
/// panics on an empty range, hence `n > 0`. Which index comes out depends on chance, so nothing
/// more is stated; the thread-local generator may also panic if the operating system cannot
/// seed it.
#[verifier::external_body]
fn random_index(n: usize) -> (res: usize)
    requires
        n > 0,
    ensures
        res < n,
{
    rand::thread_rng().gen_range(0..n)
}

/// All shapes, once each.
pub open spec fn all_shapes() -> Seq<Shape> {
    seq![Shape::I, Shape::J, Shape::L, Shape::O, Shape::S, Shape::T, Shape::Z]
}

/// The bag to draw from: the remaining shapes, or every shape when none remain.
pub open spec fn refilled(remaining: Seq<Shape>) -> Seq<Shape> {
    if remaining.len() == 0 {
        all_shapes()
    } else {
        remaining
    }
}

/// `s` was taken out of the refilled bag, leaving `after`.
pub open spec fn drawn_from(before: Seq<Shape>, s: Shape, after: Seq<Shape>) -> bool {
    exists|i: int|
        0 <= i < refilled(before).len() && #[trigger] refilled(before)[i] == s && after == refilled(
            before,
        ).remove(i)
}

/// A bag of shapes: every shape is drawn once, in random order, before the bag refills.
#[derive(Debug)]
pub struct ShapeBag {
    remaining: Vec<Shape>,
}

impl View for ShapeBag {
    type V = Seq<Shape>;

    closed spec fn view(&self) -> Seq<Shape> {
        self.remaining@
    }
}

impl Default for ShapeBag {
    fn default() -> (res: Self)
        ensures
            res@ == Seq::<Shape>::empty(),
    {
        ShapeBag { remaining: Vec::new() }
    }
}

impl ShapeBag {
    /// The bag holds each shape at most once.
    pub open spec fn wf(&self) -> bool {
        self@.no_duplicates()
    }

    /// Draws a random shape from the bag, refilling it with every shape first when it is empty.
    fn take(&mut self) -> (res: Shape)
        requires
            old(self).wf(),
        ensures
            final(self).wf(),
            drawn_from(old(self)@, res, final(self)@),
            !final(self)@.contains(res),
    {
        if self.remaining.len() == 0 {
            self.remaining = vec![Shape::I, Shape::J, Shape::L, Shape::O, Shape::S, Shape::T, Shape::Z];
            assert(self@ =~= all_shapes());
        }
        let ghost bag = self@;
        let idx = random_index(self.remaining.len());
        let res = self.remaining.remove(idx);
        proof {
            assert(bag[idx as int] == res);
            assert(self@ == bag.remove(idx as int));
            assert(self@.no_duplicates()) by {
                assert forall|a: int, b: int| 0 <= a < b < self@.len() implies self@[a] != self@[b] by {
                    let a2 = if a < idx { a } else { a + 1 };
                    let b2 = if b < idx { b } else { b + 1 };
                    assert(bag[a2] != bag[b2]);
                }
            }
            if self@.contains(res) {
                let k = choose|k: int| 0 <= k < self@.len() && self@[k] == res;
                let k2 = if k < idx { k } else { k + 1 };
                assert(bag[k2] == bag[idx as int]);
            }
            assert(refilled(old(self)@) == bag);
        }
        res
    }

    /// The next shape; a bag never runs out.
    pub fn next(&mut self) -> (res: Option<Shape>)
        requires
            old(self).wf(),
        ensures
            final(self).wf(),
            res matches Some(s) && !final(self)@.contains(s) && drawn_from(old(self)@, s, final(self)@),
    {
        let s = self.take();
        Some(s)
    }
}

} // verus!
