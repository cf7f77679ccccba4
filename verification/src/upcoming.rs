use vstd::prelude::*;

use std::collections::VecDeque;

use crate::consts::NUM_PREVIEWS;
use crate::shapes::Shape;

verus! {

/// The queue of shapes that will become the active tetromino, front first.
#[derive(Debug)]
pub struct UpcomingTetrominios {
    upcoming: VecDeque<Shape>,
}

impl View for UpcomingTetrominios {
    type V = Seq<Shape>;

    closed spec fn view(&self) -> Seq<Shape> {
        self.upcoming@
    }
}

impl Clone for UpcomingTetrominios {
    fn clone(&self) -> (res: Self)
        ensures
            res@ == self@,
    {
        let mut upcoming: VecDeque<Shape> = VecDeque::new();
        let mut i: usize = 0;
        while i < self.upcoming.len()
            invariant
                i <= self@.len(),
                upcoming@ == self@.take(i as int),
            decreases self@.len() - i,
        {
            upcoming.push_back(self.upcoming[i]);
            assert(self@.take(i + 1) =~= self@.take(i as int).push(self@[i as int]));
            i = i + 1;
        }
        assert(self@.take(self@.len() as int) =~= self@);
        UpcomingTetrominios { upcoming }
    }
}

impl UpcomingTetrominios {
    /// A queue holding `initial_shapes` in order.
    pub fn new(initial_shapes: Vec<Shape>) -> (res: Self)
        ensures
            res@ == initial_shapes@,
    {
        let mut upcoming: VecDeque<Shape> = VecDeque::new();
        let mut i: usize = 0;
        while i < initial_shapes.len()
            invariant
                i <= initial_shapes@.len(),
                upcoming@ == initial_shapes@.take(i as int),
            decreases initial_shapes@.len() - i,
        {
            upcoming.push_back(initial_shapes[i]);
            assert(initial_shapes@.take(i + 1) =~= initial_shapes@.take(i as int).push(
                initial_shapes@[i as int],
            ));
            i = i + 1;
        }
        assert(initial_shapes@.take(initial_shapes@.len() as int) =~= initial_shapes@);
        UpcomingTetrominios { upcoming }
    }

    /// Number of queued shapes.
    pub fn len(&self) -> (res: usize)
        ensures
            res == self@.len(),
    {
        self.upcoming.len()
    }

    /// Removes and returns the front shape.
    pub fn take(&mut self) -> (res: Shape)
        requires
            old(self)@.len() > 0,
        ensures
            res == old(self)@[0],
            final(self)@ == old(self)@.drop_first(),
    {
        match self.upcoming.pop_front() {
            Some(s) => {
                assert(self@ =~= old(self)@.drop_first());
                s
            },
            None => {
                assert(false);
                Shape::I
            },
        }
    }

    /// Adds a shape at the back.
    pub fn enqueue(&mut self, shape: Shape)
        ensures
            final(self)@ == old(self)@.push(shape),
    {
        self.upcoming.push_back(shape);
    }

    /// The next `NUM_PREVIEWS` shapes, front first.
    pub fn preview(&self) -> (res: [Shape; NUM_PREVIEWS])
        requires
            self@.len() >= NUM_PREVIEWS,
        ensures
            res@ == self@.take(NUM_PREVIEWS as int),
    {
        let res = [
            self.upcoming[0],
            self.upcoming[1],
            self.upcoming[2],
            self.upcoming[3],
            self.upcoming[4],
            self.upcoming[5],
        ];
        assert(res@ =~= self@.take(NUM_PREVIEWS as int));
        res
    }
}

} // verus!
