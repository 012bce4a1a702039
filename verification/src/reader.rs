use vstd::math::min;
use vstd::prelude::*;
use vstd::slice::slice_subrange;

verus! {

/// A read-only cursor over a borrowed byte slice: a position that only moves
/// forward, with all operations saturating at the end of the slice.
pub struct Reader<'a> {
    buf: &'a [u8],
    idx: usize,
}

impl<'a> Reader<'a> {
    /// The bytes not yet consumed, in order.
    pub closed spec fn unread(self) -> Seq<u8> {
        self.buf@.skip(self.idx as int)
    }

    /// The position never runs past the end of the slice.
    pub closed spec fn wf(self) -> bool {
        self.idx <= self.buf@.len()
    }

    pub fn new(buf: &'a [u8]) -> (r: Self)
        ensures
            r.wf(),
            r.unread() == buf@,
    {
        proof {
            assert(buf@.skip(0) =~= buf@);
        }
        Self { buf, idx: 0 }
    }

    /// A view of all unread bytes, without advancing.
    pub fn remaining(&self) -> (out: &'a [u8])
        requires
            self.wf(),
        ensures
            out@ == self.unread(),
    {
        slice_subrange(self.buf, self.idx, self.buf.len())
    }

    pub fn is_empty(&self) -> (r: bool)
        requires
            self.wf(),
        ensures
            r <==> self.unread().len() == 0,
    {
        self.idx >= self.buf.len()
    }

    /// The next unread byte, advancing past it; `None` once exhausted.
    pub fn next(&mut self) -> (r: Option<u8>)
        requires
            old(self).wf(),
        ensures
            final(self).wf(),
            old(self).unread().len() > 0 ==> {
                &&& r == Some(old(self).unread()[0])
                &&& final(self).unread() == old(self).unread().drop_first()
            },
            old(self).unread().len() == 0 ==> {
                &&& r is None
                &&& final(self).unread() == old(self).unread()
            },
    {
        if self.idx < self.buf.len() {
            let val = self.buf[self.idx];
            self.idx += 1;
            proof {
                assert(self.buf@.skip(self.idx as int) =~= self.buf@.skip(
                    self.idx - 1,
                ).drop_first());
            }
            Some(val)
        } else {
            None
        }
    }

    /// The next `n` unread bytes (fewer if the slice runs out), advancing
    /// past them.
    pub fn next_n(&mut self, n: usize) -> (out: &'a [u8])
        requires
            old(self).wf(),
        ensures
            final(self).wf(),
            out@ == old(self).unread().take(min(n as int, old(self).unread().len() as int)),
            final(self).unread() == old(self).unread().skip(
                min(n as int, old(self).unread().len() as int),
            ),
    {
        let len = self.buf.len();
        let end_idx = if n <= len - self.idx {
            self.idx + n
        } else {
            len
        };
        let data = slice_subrange(self.buf, self.idx, end_idx);
        proof {
            let k = min(n as int, self.unread().len() as int);
            assert(self.buf@.subrange(self.idx as int, end_idx as int) =~= self.unread().take(k));
            assert(self.buf@.skip(end_idx as int) =~= self.unread().skip(k));
        }
        self.idx = end_idx;
        data
    }
}

} // verus!
