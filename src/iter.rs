use vstd::prelude::*;

verus! {

/// A forward-only traversal of a list of handles (the functions or globals of a
/// module, the arguments of a function). It is not restartable: a second
/// traversal needs a fresh adapter.
pub struct ValueIter<T> {
    items: Vec<T>,
    pos: usize,
}

impl<T: Copy> ValueIter<T> {
    /// The handles not yet produced, in order.
    pub closed spec fn remaining(&self) -> Seq<T> {
        self.items@.skip(self.pos as int)
    }

    pub closed spec fn wf(&self) -> bool {
        self.pos <= self.items@.len()
    }

    /// An adapter that produces the handles given, in order.
    pub fn new(items: Vec<T>) -> (r: ValueIter<T>)
        ensures
            r.wf(),
            r.remaining() == items@,
    {
        let r = ValueIter { items, pos: 0 };
        proof {
            assert(r.items@.skip(0) =~= r.items@);
        }
        r
    }

    /// Produces the next handle, or `None` once every handle has been produced.
    pub fn next(&mut self) -> (r: Option<T>)
        requires
            old(self).wf(),
        ensures
            final(self).wf(),
            old(self).remaining().len() == 0 ==> r is None && final(self).remaining()
                == old(self).remaining(),
            old(self).remaining().len() > 0 ==> r == Some(old(self).remaining()[0])
                && final(self).remaining() == old(self).remaining().skip(1),
    {
        if self.pos < self.items.len() {
            let item = self.items[self.pos];
            self.pos = self.pos + 1;
            proof {
                assert(self.items@.skip(self.pos as int) =~= old(self).items@.skip(
                    old(self).pos as int,
                ).skip(1));
            }
            Some(item)
        } else {
            None
        }
    }
}

} // verus!
