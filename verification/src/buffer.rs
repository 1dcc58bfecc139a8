//! Growable message buffer with read-once consumption.
//!
//! A buffer carries one message between the plugin and its UI.  An inbound
//! mailbox is filled wholesale by `replace` and drained by `consume_once`,
//! which hands the bytes out at most once per fill.  An outbound staging
//! buffer grows by `append` (optionally 8-byte aligned) and is read and
//! cleared by the write-back scan.

use vstd::prelude::*;

verus! {

/// Mathematical model of a buffer: its byte contents and whether the
/// current contents were already handed out by `consume_once`.
pub struct BufferModel {
    pub bytes: Seq<u8>,
    pub consumed: bool,
}

/// The model of a freshly created (or cleared) buffer: empty, unconsumed.
pub open spec fn buf_empty() -> BufferModel {
    BufferModel { bytes: Seq::empty(), consumed: false }
}

/// The model after `replace`: the new contents, not yet consumed.
pub open spec fn buf_replace(src: Seq<u8>) -> BufferModel {
    BufferModel { bytes: src, consumed: false }
}

/// Zero padding inserted before an aligned append: the distance from a
/// buffer of length `k` to the next 8-byte boundary.
pub open spec fn pad_len(k: nat, align_to_8: bool) -> nat {
    if align_to_8 {
        (((8 - k % 8) % 8) as nat)
    } else {
        0
    }
}

/// A sequence of `n` zero bytes.
pub open spec fn zero_bytes(n: nat) -> Seq<u8> {
    Seq::new(n, |i: int| 0u8)
}

/// The model after `append(n, align_to_8)`: padding then `n` zero bytes
/// are added; the consumption flag is untouched.
pub open spec fn buf_append(b: BufferModel, n: nat, align_to_8: bool) -> BufferModel {
    BufferModel {
        bytes: b.bytes + zero_bytes(pad_len(b.bytes.len(), align_to_8) + n),
        consumed: b.consumed,
    }
}

/// What `consume_once` hands out: the full contents, unless the buffer is
/// empty or was already consumed.  A zero-length message reads as absent.
pub open spec fn buf_consume_result(b: BufferModel) -> Option<Seq<u8>> {
    if b.bytes.len() == 0 || b.consumed {
        None
    } else {
        Some(b.bytes)
    }
}

/// The model after `consume_once`: marked consumed exactly when something
/// was handed out; the bytes themselves stay.
pub open spec fn buf_after_consume(b: BufferModel) -> BufferModel {
    if b.bytes.len() == 0 || b.consumed {
        b
    } else {
        BufferModel { bytes: b.bytes, consumed: true }
    }
}

/// The model after `write_at(offset, src)`: `src` overwrites the bytes at
/// `offset..offset + src.len()`; everything else is untouched.
pub open spec fn buf_write_at(b: BufferModel, offset: nat, src: Seq<u8>) -> BufferModel {
    BufferModel {
        bytes: b.bytes.take(offset as int) + src + b.bytes.skip((offset + src.len()) as int),
        consumed: b.consumed,
    }
}

/// An append-only byte buffer with a one-shot consume view.
pub struct GrowableMessageBuffer {
    data: Vec<u8>,
    consumed: bool,
}

impl View for GrowableMessageBuffer {
    type V = BufferModel;

    closed spec fn view(&self) -> BufferModel {
        BufferModel { bytes: self.data@, consumed: self.consumed }
    }
}

impl GrowableMessageBuffer {
    /// Creates an empty, unconsumed buffer.
    pub fn new() -> (r: Self)
        ensures
            r@ == buf_empty(),
    {
        let r = GrowableMessageBuffer { data: Vec::new(), consumed: false };
        proof {
            assert(r@.bytes =~= buf_empty().bytes);
        }
        r
    }

    /// Number of bytes currently held.
    pub fn len(&self) -> (n: usize)
        ensures
            n == self@.bytes.len(),
    {
        self.data.len()
    }

    /// Read-only access to the full contents, without consuming.
    pub fn bytes(&self) -> (r: &Vec<u8>)
        ensures
            r@ == self@.bytes,
    {
        &self.data
    }

    /// Discards the previous contents and copies `src` in, resetting the
    /// consumption flag: a fresh message is pending again.
    pub fn replace(&mut self, src: &[u8])
        ensures
            final(self)@ == buf_replace(src@),
    {
        self.data.clear();
        self.data.extend_from_slice(src);
        self.consumed = false;
        proof {
            assert(final(self)@.bytes =~= src@);
        }
    }

    /// Resets the buffer to empty and unconsumed, for staging a brand-new
    /// message.
    pub fn clear(&mut self)
        ensures
            final(self)@ == buf_empty(),
    {
        self.data.clear();
        self.consumed = false;
        proof {
            assert(final(self)@.bytes =~= buf_empty().bytes);
        }
    }

    /// Grows the buffer by `n` zero bytes, preceded by `(8 - len % 8) % 8`
    /// zero padding bytes when `align_to_8` is requested, and returns the
    /// offset where the fresh `n`-byte region begins.  The caller fills the
    /// region afterwards, e.g. with `write_at`.
    pub fn append(&mut self, n: usize, align_to_8: bool) -> (start: usize)
        requires
            old(self)@.bytes.len() + 7 + n <= usize::MAX,
        ensures
            final(self)@ == buf_append(old(self)@, n as nat, align_to_8),
            start == old(self)@.bytes.len() + pad_len(old(self)@.bytes.len(), align_to_8),
            final(self)@.bytes.len() == start + n,
    {
        let k = self.data.len();
        let padding: usize = if align_to_8 {
            (8 - k % 8) % 8
        } else {
            0
        };
        let start = k + padding;
        self.data.resize(start + n, 0u8);
        proof {
            assert(final(self)@.bytes =~= buf_append(old(self)@, n as nat, align_to_8).bytes);
        }
        start
    }

    /// Overwrites the bytes at `offset..offset + src.len()` with `src`,
    /// filling a region previously opened by `append`.
    pub fn write_at(&mut self, offset: usize, src: &[u8])
        requires
            offset + src@.len() <= old(self)@.bytes.len(),
        ensures
            final(self)@ == buf_write_at(old(self)@, offset as nat, src@),
    {
        let total = self.data.len();
        let mut i: usize = 0;
        while i < src.len()
            invariant
                offset + src@.len() <= total,
                offset + src@.len() <= old(self)@.bytes.len(),
                i <= src@.len(),
                self@.bytes.len() == old(self)@.bytes.len(),
                self@.consumed == old(self)@.consumed,
                forall|j: int| 0 <= j < i ==> self@.bytes[offset + j] == src@[j],
                forall|j: int|
                    0 <= j < self@.bytes.len() && !(offset <= j < offset + i) ==> self@.bytes[j]
                        == old(self)@.bytes[j],
            decreases src@.len() - i,
        {
            let b = src[i];
            self.data[offset + i] = b;
            i += 1;
        }
        proof {
            assert(final(self)@.bytes =~= buf_write_at(old(self)@, offset as nat, src@).bytes);
        }
    }

    /// Hands out the full contents and resets the buffer to empty and
    /// unconsumed, without copying.  This is the drain half of the
    /// write-back path: emit the staged bytes, clear the staging buffer.
    pub fn take_bytes(&mut self) -> (r: Vec<u8>)
        ensures
            r@ == old(self)@.bytes,
            final(self)@ == buf_empty(),
    {
        let mut r: Vec<u8> = Vec::new();
        core::mem::swap(&mut self.data, &mut r);
        self.consumed = false;
        proof {
            assert(final(self)@.bytes =~= buf_empty().bytes);
        }
        r
    }

    /// Hands out the full contents exactly once per fill: returns `None` if
    /// the buffer is empty or its contents were already consumed, otherwise
    /// a snapshot of the bytes, marking them consumed.  An empty buffer
    /// reads as "no message", so a zero-length fill is never handed out.
    pub fn consume_once(&mut self) -> (r: Option<Vec<u8>>)
        ensures
            final(self)@ == buf_after_consume(old(self)@),
            r is Some <==> buf_consume_result(old(self)@) is Some,
            r matches Some(v) ==> buf_consume_result(old(self)@) == Some(v@),
    {
        if self.data.len() == 0 || self.consumed {
            return None;
        }
        self.consumed = true;
        let mut snapshot: Vec<u8> = Vec::new();
        snapshot.extend_from_slice(self.data.as_slice());
        proof {
            assert(snapshot@ =~= old(self)@.bytes);
        }
        Some(snapshot)
    }
}

/// Law: a non-empty fill is read back exactly once.  `replace` with a
/// non-empty `src` followed by `consume_once` yields exactly `src`; a second
/// `consume_once` without an intervening `replace` yields nothing.
pub proof fn lemma_replace_then_consume_once(src: Seq<u8>)
    requires
        src.len() > 0,
    ensures
        buf_consume_result(buf_replace(src)) == Some(src),
        buf_consume_result(buf_after_consume(buf_replace(src))) is None,
{
}

/// Law: a zero-length fill reads as absent.  After `replace` with empty
/// contents, `consume_once` yields nothing.
pub proof fn lemma_replace_empty_consumes_nothing(src: Seq<u8>)
    requires
        src.len() == 0,
    ensures
        buf_consume_result(buf_replace(src)) is None,
{
}

} // verus!
