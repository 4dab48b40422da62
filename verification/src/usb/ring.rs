use vstd::prelude::*;

verus! {

/// Bytes a ring can hold.
pub const RING_CAPACITY: usize = 512;

/// A byte queue of fixed capacity.
pub struct Ring {
    pub bytes: [u8; 512],
    pub start: usize,
    pub len: usize,
}

impl View for Ring {
    type V = Seq<u8>;

    /// The queued bytes, oldest first.
    open spec fn view(&self) -> Seq<u8> {
        Seq::new(self.len as nat, |i: int| self.bytes@[(self.start + i) % 512])
    }
}

impl Ring {
    /// The read position lies in the buffer and no more is queued than fits.
    pub open spec fn wf(&self) -> bool {
        &&& self.start < 512
        &&& self.len <= 512
    }

    /// An empty ring.
    pub fn new() -> (r: Self)
        ensures
            r.wf(),
            r@ == Seq::<u8>::empty(),
    {
        Ring { bytes: [0; 512], start: 0, len: 0 }
    }

    /// Queues as much of `data` as fits and says how much that was.
    pub fn push(&mut self, data: &[u8]) -> (count: usize)
        requires
            old(self).wf(),
        ensures
            final(self).wf(),
            count == (if data@.len() <= 512 - old(self)@.len() {
                data@.len() as int
            } else {
                512 - old(self)@.len()
            }),
            final(self)@ == old(self)@ + data@.take(count as int),
    {
        let room: usize = 512 - self.len;
        let count: usize = if data.len() < room { data.len() } else { room };
        let start: usize = self.start;
        let len: usize = self.len;
        let ghost before = self@;
        for i in 0..count
            invariant
                self.start == start < 512,
                self.len == len,
                len + count <= 512,
                count <= data@.len(),
                before.len() == len,
                forall|k: int| 0 <= k < len ==> self.bytes@[(start + k) % 512] == before[k],
                forall|k: int|
                    0 <= k < i ==> #[trigger] self.bytes@[(start + len + k) % 512] == data@[k],
        {
            self.bytes[(start + len + i) % 512] = data[i];
        }
        self.len = len + count;
        assert forall|k: int| 0 <= k < len + count implies self@[k] == (before + data@.take(
            count as int,
        ))[k] by {
            if k >= len {
                assert(self.bytes@[(start + len + (k - len)) % 512] == data@[k - len]);
            }
        }
        assert(self@ =~= before + data@.take(count as int));
        count
    }

    /// Copies the oldest bytes into `out`, as many as both sides have, and
    /// leaves them queued.
    pub fn peek(&self, out: &mut [u8]) -> (count: usize)
        requires
            self.wf(),
        ensures
            count == (if old(out)@.len() <= self@.len() { old(out)@.len() } else { self@.len() }),
            final(out)@ == self@.take(count as int) + old(out)@.skip(count as int),
    {
        let count: usize = if out.len() < self.len { out.len() } else { self.len };
        let ghost before = out@;
        for i in 0..count
            invariant
                self.wf(),
                count <= self.len,
                count <= before.len(),
                out@ == self@.take(i as int) + before.skip(i as int),
        {
            out[i] = self.bytes[(self.start + i) % 512];
            assert(out@ =~= self@.take(i + 1) + before.skip(i + 1));
        }
        count
    }

    /// Drops the `count` oldest bytes.
    pub fn discard(&mut self, count: usize)
        requires
            old(self).wf(),
            count <= old(self)@.len(),
        ensures
            final(self).wf(),
            final(self)@ == old(self)@.skip(count as int),
    {
        let ghost before = self@;
        let start: usize = self.start;
        self.start = (start + count) % 512;
        self.len = self.len - count;
        assert(self@ =~= before.skip(count as int));
    }

    /// Moves the oldest bytes into `out`, as many as both sides have.
    pub fn pop(&mut self, out: &mut [u8]) -> (count: usize)
        requires
            old(self).wf(),
        ensures
            final(self).wf(),
            count == (if old(out)@.len() <= old(self)@.len() {
                old(out)@.len()
            } else {
                old(self)@.len()
            }),
            final(out)@ == old(self)@.take(count as int) + old(out)@.skip(count as int),
            final(self)@ == old(self)@.skip(count as int),
    {
        let count: usize = self.peek(out);
        self.discard(count);
        count
    }

    /// Forgets everything queued.
    pub fn clear(&mut self)
        ensures
            final(self).wf(),
            final(self)@ == Seq::<u8>::empty(),
    {
        self.start = 0;
        self.len = 0;
        assert(self@ =~= Seq::<u8>::empty());
    }
}

} // verus!
