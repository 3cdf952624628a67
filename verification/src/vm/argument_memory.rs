use vstd::prelude::*;

verus! {

/// A reusable buffer that holds the argument bytes of the instruction being
/// executed. It only grows; the latest argument is its first `len` bytes.
pub struct ArgumentMemory {
    buffer: Vec<u8>,
    lastest_len: usize,
}

impl View for ArgumentMemory {
    /// The whole buffer and the length of the latest argument.
    type V = (Seq<u8>, nat);

    closed spec fn view(&self) -> (Seq<u8>, nat) {
        (self.buffer@, self.lastest_len as nat)
    }
}

impl ArgumentMemory {
    /// The latest argument lies inside the buffer.
    pub closed spec fn wf(&self) -> bool {
        self.lastest_len <= self.buffer.len()
    }

    /// The latest argument as a sequence of bytes.
    pub closed spec fn argument(&self) -> Seq<u8> {
        self.buffer@.take(self.lastest_len as int)
    }

    pub fn new() -> (r: ArgumentMemory)
        ensures
            r@ == (Seq::<u8>::empty(), 0nat),
            r.argument() == Seq::<u8>::empty(),
            r.wf(),
    {
        Self { buffer: Vec::new(), lastest_len: 0 }
    }

    /// Appends `amount` zero bytes to the buffer.
    pub fn expand_buffer(&mut self, amount: usize)
        requires
            old(self).wf(),
        ensures
            final(self).wf(),
            final(self)@.0 == old(self)@.0 + Seq::new(amount as nat, |i: int| 0u8),
            final(self)@.1 == old(self)@.1,
            final(self).argument() == old(self).argument(),
    {
        let ghost start = self.buffer@;
        let ghost len0 = self.lastest_len;
        let mut i: usize = 0;
        while i < amount
            invariant
                i <= amount,
                self.lastest_len == len0,
                len0 <= start.len(),
                self.buffer@ == start + Seq::new(i as nat, |k: int| 0u8),
            decreases amount - i,
        {
            self.buffer.push(0);
            i = i + 1;
            assert(self.buffer@ =~= start + Seq::new(i as nat, |k: int| 0u8));
        }
        assert(self.buffer@.take(self.lastest_len as int) =~= start.take(self.lastest_len as int));
    }

    /// Stores `buffer` as the latest argument: it is copied to the front of
    /// the memory, which grows first if it is too short.
    pub fn set_arguement(&mut self, buffer: &[u8])
        requires
            old(self).wf(),
        ensures
            final(self).wf(),
            final(self).argument() == buffer@,
            final(self)@.1 == buffer@.len(),
            final(self)@.0 == if old(self)@.0.len() < buffer@.len() {
                buffer@
            } else {
                buffer@ + old(self)@.0.skip(buffer@.len() as int)
            },
    {
        if self.buffer.len() < buffer.len() {
            self.expand_buffer(buffer.len() - self.buffer.len());
        }
        let ghost grown = self.buffer@;
        let mut i: usize = 0;
        while i < buffer.len()
            invariant
                i <= buffer@.len(),
                grown.len() >= buffer@.len(),
                self.buffer@.len() == grown.len(),
                forall|k: int| 0 <= k < i ==> self.buffer@[k] == buffer@[k],
                forall|k: int| i <= k < grown.len() ==> self.buffer@[k] == grown[k],
            decreases buffer@.len() - i,
        {
            self.buffer.set(i, buffer[i]);
            i = i + 1;
        }
        self.lastest_len = buffer.len();
        assert(self.buffer@.take(buffer@.len() as int) =~= buffer@);
        proof {
            if old(self)@.0.len() < buffer@.len() {
                assert(self.buffer@ =~= buffer@);
            } else {
                assert(self.buffer@ =~= buffer@ + old(self)@.0.skip(buffer@.len() as int));
            }
        }
    }

    /// The latest argument.
    pub fn get_argument(&self) -> (r: &[u8])
        requires
            self.wf(),
        ensures
            r@ == self.argument(),
    {
        vstd::slice::slice_subrange(self.buffer.as_slice(), 0, self.lastest_len)
    }
}

} // verus!
