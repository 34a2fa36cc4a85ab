//! The keystream consumption buffer: an ordered queue of not-yet-consumed
//! key bytes plus a cumulative consumption offset. Bytes enter at the tail
//! by `push_key_bytes` and leave at the head by `get_key_chunk`, each byte
//! exactly once and in order; the offset counts every byte ever consumed.

use vstd::prelude::*;

verus! {

/// A buffer of key stream bytes received from the remote generator.
///
/// The ghost `consumed` sequence records every byte the buffer has ever
/// handed out, in order; the `offset` counter always equals its length, so
/// the bytes of one `get_key_chunk` call occupy the consumption positions
/// `[old_offset, new_offset)` and can never be issued a second time.
pub struct KeyStreamBuffer {
    keys: Vec<u8>,
    offset: u64,
    consumed: Ghost<Seq<u8>>,
}

impl KeyStreamBuffer {
    /// The queue of not-yet-consumed key bytes, head first.
    pub closed spec fn pending(&self) -> Seq<u8> {
        self.keys@
    }

    /// The cumulative count of bytes consumed since creation (or last clear).
    pub closed spec fn offset_spec(&self) -> int {
        self.offset as int
    }

    /// Every byte ever consumed, in consumption order.
    pub closed spec fn consumed_spec(&self) -> Seq<u8> {
        self.consumed@
    }

    /// The offset is exactly the number of bytes ever consumed.
    pub open spec fn wf(&self) -> bool {
        self.offset_spec() == self.consumed_spec().len()
    }

    /// How many bytes a `get_key_chunk(size)` call will consume: the request,
    /// capped at what is pending.
    pub open spec fn chunk_len(&self, size: int) -> int {
        if size <= self.pending().len() {
            size
        } else {
            self.pending().len() as int
        }
    }

    /// Create a new, empty buffer with a zero offset.
    pub fn new() -> (buffer: KeyStreamBuffer)
        ensures
            buffer.wf(),
            buffer.pending() == Seq::<u8>::empty(),
            buffer.offset_spec() == 0,
            buffer.consumed_spec() == Seq::<u8>::empty(),
    {
        let buffer = KeyStreamBuffer { keys: Vec::new(), offset: 0, consumed: Ghost(Seq::empty()) };
        proof {
            assert(buffer.pending() =~= Seq::<u8>::empty());
        }
        buffer
    }

    /// Append new key bytes from the server at the tail of the queue.
    /// Never fails and touches neither the offset nor the consumption record.
    pub fn push_key_bytes(&mut self, bytes: &[u8])
        ensures
            final(self).pending() == old(self).pending() + bytes@,
            final(self).offset_spec() == old(self).offset_spec(),
            final(self).consumed_spec() == old(self).consumed_spec(),
            old(self).wf() ==> final(self).wf(),
    {
        let mut i: usize = 0;
        while i < bytes.len()
            invariant
                i <= bytes@.len(),
                self.keys@ == old(self).keys@ + bytes@.take(i as int),
                self.offset == old(self).offset,
                self.consumed == old(self).consumed,
            decreases bytes@.len() - i,
        {
            self.keys.push(bytes[i]);
            proof {
                assert(self.keys@ =~= old(self).keys@ + bytes@.take(i + 1));
            }
            i = i + 1;
        }
        proof {
            assert(self.keys@ =~= old(self).keys@ + bytes@);
        }
    }

    /// The count of currently unconsumed key bytes.
    pub fn available(&self) -> (count: usize)
        ensures
            count == self.pending().len(),
    {
        self.keys.len()
    }

    /// Whether at least `needed` unconsumed bytes are buffered.
    pub fn has_capacity(&self, needed: usize) -> (enough: bool)
        ensures
            enough == (self.pending().len() >= needed),
    {
        self.keys.len() >= needed
    }

    /// The cumulative number of bytes consumed to date, for correlating local
    /// consumption with the remote generator's production position.
    pub fn current_offset(&self) -> (offset: u64)
        ensures
            offset == self.offset_spec(),
    {
        self.offset
    }

    /// Remove up to `size` bytes from the head of the queue, in FIFO order,
    /// advance the offset by the number actually removed, and return them.
    ///
    /// When fewer than `size` bytes are available the result is short — the
    /// whole remaining queue — rather than an error; callers must check the
    /// returned length before treating it as a full-length key.
    pub fn get_key_chunk(&mut self, size: usize) -> (chunk: Vec<u8>)
        requires
            old(self).wf(),
            old(self).offset_spec() + old(self).chunk_len(size as int) <= u64::MAX,
        ensures
            final(self).wf(),
            chunk@.len() == old(self).chunk_len(size as int),
            chunk@ == old(self).pending().take(old(self).chunk_len(size as int)),
            final(self).pending() == old(self).pending().skip(old(self).chunk_len(size as int)),
            final(self).offset_spec() == old(self).offset_spec() + chunk@.len(),
            final(self).consumed_spec() == old(self).consumed_spec() + chunk@,
            chunk@ == final(self).consumed_spec().subrange(
                old(self).offset_spec(),
                final(self).offset_spec(),
            ),
    {
        let take: usize = if size <= self.keys.len() {
            size
        } else {
            self.keys.len()
        };
        let mut chunk: Vec<u8> = Vec::new();
        let mut i: usize = 0;
        while i < take
            invariant
                take <= self.keys@.len(),
                i <= take,
                chunk@ == self.keys@.take(i as int),
                self == old(self),
            decreases take - i,
        {
            chunk.push(self.keys[i]);
            proof {
                assert(chunk@ =~= self.keys@.take(i + 1));
            }
            i = i + 1;
        }
        let mut rest: Vec<u8> = Vec::new();
        let mut j: usize = take;
        while j < self.keys.len()
            invariant
                take <= j <= self.keys@.len(),
                rest@ == self.keys@.subrange(take as int, j as int),
                self == old(self),
            decreases self.keys@.len() - j,
        {
            rest.push(self.keys[j]);
            proof {
                assert(rest@ =~= self.keys@.subrange(take as int, j + 1));
            }
            j = j + 1;
        }
        proof {
            assert(rest@ =~= self.keys@.skip(take as int));
        }
        self.keys = rest;
        self.offset = self.offset + take as u64;
        proof {
            self.consumed@ = self.consumed@ + chunk@;
            assert(chunk@ =~= final(self).consumed_spec().subrange(
                old(self).offset_spec(),
                final(self).offset_spec(),
            ));
        }
        chunk
    }

    /// Reset the queue to empty and the offset to zero, for session teardown
    /// or resynchronization. The consumption record starts over with it.
    pub fn clear(&mut self)
        ensures
            final(self).wf(),
            final(self).pending() == Seq::<u8>::empty(),
            final(self).offset_spec() == 0,
            final(self).consumed_spec() == Seq::<u8>::empty(),
    {
        self.keys.clear();
        self.offset = 0;
        proof {
            self.consumed@ = Seq::empty();
            assert(self.pending() =~= Seq::<u8>::empty());
        }
    }
}

/// FIFO law: what one consume call returns from a queue built by two pushes.
/// With `b1` pushed and then `b2`, a consume of `n` bytes returns the first
/// `n` bytes of `b1` when `b1` covers the request, and otherwise all of `b1`
/// followed by the head of `b2` as far as it reaches.
pub proof fn lemma_fifo_order(b1: Seq<u8>, b2: Seq<u8>, n: int)
    requires
        0 <= n,
    ensures
        n <= b1.len() ==> (b1 + b2).take(n) == b1.take(n),
        n > b1.len() && n <= b1.len() + b2.len() ==> (b1 + b2).take(n) == b1 + b2.take(n - b1.len()),
{
    if n <= b1.len() {
        assert((b1 + b2).take(n) =~= b1.take(n));
    } else if n <= b1.len() + b2.len() {
        assert((b1 + b2).take(n) =~= b1 + b2.take(n - b1.len()));
    }
}

/// The set of consumption positions a consume call covers: `len` positions
/// starting at `start`.
pub open spec fn position_range(start: int, len: int) -> Set<int> {
    Set::new(|i: int| start <= i < start + len)
}

/// No-byte-reuse law: one consume call returns the bytes at consumption
/// positions `[offset, offset + n1)` and leaves the offset at `offset + n1`;
/// since the offset never decreases, a later consume returns positions at or
/// past `offset + n1`, and the two position ranges share no index.
pub proof fn lemma_no_byte_reuse(offset: int, n1: int, later_offset: int, n2: int)
    requires
        0 <= n1,
        0 <= n2,
        offset + n1 <= later_offset,
    ensures
        position_range(offset, n1).disjoint(position_range(later_offset, n2)),
{
    let first = position_range(offset, n1);
    let second = position_range(later_offset, n2);
    assert forall|i: int| first.contains(i) implies !second.contains(i) by {}
}

} // verus!
