use vstd::prelude::*;

verus! {

/// A finite sequence of parameters consumed strictly in order: the flat
/// genome form of a network, read front to back during construction.
pub struct WeightCursor {
    values: Vec<u32>,
    pos: usize,
}

impl WeightCursor {
    /// The values not yet consumed, in the order they will be handed out.
    pub closed spec fn remaining(self) -> Seq<u32> {
        if self.pos <= self.values@.len() {
            self.values@.subrange(self.pos as int, self.values@.len() as int)
        } else {
            Seq::empty()
        }
    }

    /// Start a cursor over a whole sequence of values.
    pub fn new(values: Vec<u32>) -> (r: WeightCursor)
        ensures
            r.remaining() == values@,
    {
        let r = WeightCursor { values, pos: 0 };
        proof {
            assert(r.remaining() =~= r.values@);
        }
        r
    }

    /// How many values are still unconsumed.
    pub fn len_remaining(&self) -> (n: usize)
        ensures
            n == self.remaining().len(),
    {
        if self.pos <= self.values.len() {
            self.values.len() - self.pos
        } else {
            0
        }
    }

    /// Consume and return the next value.
    pub fn next_value(&mut self) -> (r: u32)
        requires
            old(self).remaining().len() > 0,
        ensures
            r == old(self).remaining()[0],
            final(self).remaining() == old(self).remaining().skip(1),
    {
        let n = self.values.len();
        proof {
            assert(self.pos < n);
        }
        let r = self.values[self.pos];
        self.pos = self.pos + 1;
        proof {
            assert(self.remaining() =~= old(self).remaining().skip(1));
        }
        r
    }
}

} // verus!
