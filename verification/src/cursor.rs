//! The mathematical state of a reader, and what each read makes of it.
//!
//! A reader is a byte sequence and an offset into it. Every read is described
//! here twice over: by its outcome (the bytes or text read, or the error) and
//! by the cursor that it leaves behind.

use crate::reader_error::ByteReaderError;
use vstd::prelude::*;
use vstd::utf8::{decode_utf8, valid_utf8};

verus! {

/// A byte sequence with a read offset.
pub struct Cursor {
    /// The whole buffer, read or not.
    pub bytes: Seq<u8>,
    /// How many bytes have been read.
    pub offset: nat,
}

/// An end offset as an error reports it. The sum of an offset and a width
/// fits in a `usize` for every buffer that a machine can hold; beyond that
/// the report stops at `usize::MAX`.
pub open spec fn reported_end(end: nat) -> usize {
    if end <= usize::MAX {
        end as usize
    } else {
        usize::MAX
    }
}

impl Cursor {
    /// A cursor at the start of `bytes`.
    pub open spec fn start(bytes: Seq<u8>) -> Cursor {
        Cursor { bytes, offset: 0 }
    }

    /// The offset lies within the buffer, or at its end, and the buffer's
    /// length is one that a slice can have.
    pub open spec fn wf(self) -> bool {
        self.offset <= self.bytes.len() <= usize::MAX
    }

    /// The number of bytes not yet read.
    pub open spec fn remaining(self) -> nat {
        (self.bytes.len() - self.offset) as nat
    }

    /// Nothing is left to read.
    pub open spec fn is_empty(self) -> bool {
        self.offset >= self.bytes.len()
    }

    /// At least `k` bytes are left.
    pub open spec fn has(self, k: nat) -> bool {
        self.offset + k <= self.bytes.len()
    }

    /// The next `k` bytes.
    pub open spec fn span(self, k: nat) -> Seq<u8>
        recommends
            self.has(k),
    {
        self.bytes.subrange(self.offset as int, (self.offset + k) as int)
    }

    /// All the bytes not yet read.
    pub open spec fn rest(self) -> Seq<u8>
        recommends
            self.wf(),
    {
        self.bytes.subrange(self.offset as int, self.bytes.len() as int)
    }

    /// The same buffer with the offset moved on by `k`.
    pub open spec fn skip(self, k: nat) -> Cursor {
        Cursor { bytes: self.bytes, offset: self.offset + k }
    }

    /// The same buffer with the offset at its end.
    pub open spec fn exhausted(self) -> Cursor {
        Cursor { bytes: self.bytes, offset: self.bytes.len() }
    }

    /// The error of a read of `k` bytes that the buffer cannot serve: it
    /// carries the offset at which the read would have ended and the
    /// buffer's length.
    pub open spec fn shortfall(self, k: nat) -> ByteReaderError {
        ByteReaderError::NotEnoughBytes {
            index_offset: reported_end(self.offset + k),
            buffer_length: self.bytes.len() as usize,
        }
    }

    /// The outcome of reading exactly `k` bytes: the bytes, or the shortfall.
    pub open spec fn read_fixed(self, k: nat) -> Result<Seq<u8>, ByteReaderError> {
        if self.has(k) {
            Ok(self.span(k))
        } else {
            Err(self.shortfall(k))
        }
    }

    /// The cursor after reading exactly `k` bytes: moved on by `k` if the
    /// read succeeds, unmoved if it fails.
    pub open spec fn after_fixed(self, k: nat) -> Cursor {
        if self.has(k) {
            self.skip(k)
        } else {
            self
        }
    }

    /// The outcome of reading a string: a length byte, then that many bytes
    /// of UTF-8. The length byte is read as any single byte is; the body is
    /// read from the cursor behind it.
    pub open spec fn read_string(self) -> Result<Seq<char>, ByteReaderError> {
        match self.read_fixed(1) {
            Err(e) => Err(e),
            Ok(prefix) => match self.skip(1).read_fixed(prefix[0] as nat) {
                Err(e) => Err(e),
                Ok(body) => if valid_utf8(body) {
                    Ok(decode_utf8(body))
                } else {
                    Err(ByteReaderError::InvalidUtf8)
                },
            },
        }
    }

    /// The cursor after reading a string: behind the body if the read
    /// succeeds; behind the length byte if the body is too short or is not
    /// UTF-8; unmoved if there is no length byte.
    pub open spec fn after_string(self) -> Cursor {
        match self.read_fixed(1) {
            Err(_) => self,
            Ok(prefix) => if self.read_string() is Ok {
                self.skip(1 + prefix[0] as nat)
            } else {
                self.skip(1)
            },
        }
    }
}

/// A read of `k` bytes from a cursor with fewer than `k` bytes left fails
/// with the shortfall, and as many bytes are left afterwards as before.
pub proof fn lemma_short_read_fails(c: Cursor, k: nat)
    requires
        c.wf(),
        c.remaining() < k,
    ensures
        c.read_fixed(k) == Err::<Seq<u8>, ByteReaderError>(c.shortfall(k)),
        c.after_fixed(k).remaining() == c.remaining(),
{
}

/// A read of `k` bytes from a cursor with at least `k` bytes left succeeds
/// with `k` bytes: those that stand at the offset, in the buffer's order.
/// Afterwards exactly `k` bytes fewer are left.
pub proof fn lemma_served_read_advances(c: Cursor, k: nat)
    requires
        c.wf(),
        c.remaining() >= k,
    ensures
        c.read_fixed(k) == Ok::<Seq<u8>, ByteReaderError>(c.span(k)),
        c.span(k).len() == k,
        forall|i: int| 0 <= i < k ==> c.span(k)[i] == c.bytes[c.offset + i],
        c.after_fixed(k).remaining() == c.remaining() - k,
{
}

/// A failed read of `k` bytes leaves the cursor as it was, so that the same
/// read fails again with the same error, however often it is repeated.
pub proof fn lemma_failed_read_repeats(c: Cursor, k: nat)
    requires
        c.read_fixed(k) is Err,
    ensures
        c.after_fixed(k) == c,
        c.after_fixed(k).read_fixed(k) == c.read_fixed(k),
{
}

/// A string read from a cursor with no byte left fails as a read of one
/// byte does and leaves the cursor as it was, so that it fails again with
/// the same error.
pub proof fn lemma_failed_length_read_repeats(c: Cursor)
    requires
        c.read_fixed(1) is Err,
    ensures
        c.read_string() == Err::<Seq<char>, ByteReaderError>(c.shortfall(1)),
        c.after_string() == c,
        c.after_string().read_string() == c.read_string(),
{
}

/// A string read that finds its length byte and then fails has consumed
/// that byte and nothing else; one that succeeds has consumed the length
/// byte and the bytes of the text.
pub proof fn lemma_string_read_consumes(c: Cursor)
    requires
        c.wf(),
        c.read_fixed(1) is Ok,
    ensures
        c.read_string() is Err ==> c.after_string() == c.skip(1),
        c.read_string() is Ok ==> c.after_string() == c.skip(1 + c.bytes[c.offset as int] as nat),
        c.read_string() is Ok ==> valid_utf8(c.skip(1).span(c.bytes[c.offset as int] as nat)),
{
}

/// No read moves the offset back or past the end of the buffer, and none
/// changes the buffer.
pub proof fn lemma_reads_keep_cursor_valid(c: Cursor, k: nat)
    requires
        c.wf(),
    ensures
        c.after_fixed(k).wf(),
        c.after_fixed(k).bytes == c.bytes,
        c.after_fixed(k).offset >= c.offset,
        c.after_string().wf(),
        c.after_string().bytes == c.bytes,
        c.after_string().offset >= c.offset,
        c.exhausted().wf(),
        c.exhausted().bytes == c.bytes,
        c.exhausted().offset >= c.offset,
{
}

/// Reading the rest yields as many bytes as are left, which may be none,
/// and leaves nothing to read.
pub proof fn lemma_rest_exhausts(c: Cursor)
    requires
        c.wf(),
    ensures
        c.rest().len() == c.remaining(),
        c.rest() == c.span(c.remaining()),
        c.is_empty() ==> c.rest() == Seq::<u8>::empty(),
        c.exhausted().is_empty(),
        c.exhausted().remaining() == 0,
{
}

} // verus!
