//! The reader: a borrowed buffer and a cursor that only moves forward.

use crate::cursor::Cursor;
use crate::le::{decode_le, le_value, lemma_le_value_below_limit, lemma_span_limits};
use crate::reader_error::{ByteReaderError, ByteReaderResult};
use crate::trusted::uuid_bytes;
use uuid::Uuid;
use vstd::prelude::*;
use vstd::slice::{slice_subrange, slice_to_vec};

verus! {

/// Reads values one after another from a byte buffer that it borrows.
///
/// A read either succeeds and moves the cursor behind what it read, or fails
/// and leaves the cursor where it was.
pub struct ByteReader<'a> {
    data: &'a [u8],
    index: usize,
}

impl<'a> View for ByteReader<'a> {
    type V = Cursor;

    closed spec fn view(&self) -> Cursor {
        Cursor { bytes: self.data@, offset: self.index as nat }
    }
}

impl<'a> ByteReader<'a> {
    #[verifier::type_invariant]
    spec fn within_buffer(self) -> bool {
        self.index <= self.data@.len()
    }

    /// A reader at the start of `data`.
    #[must_use]
    pub fn new(data: &'a [u8]) -> (reader: Self)
        ensures
            reader@ == Cursor::start(data@),
            reader@.wf(),
    {
        proof {
            vstd::slice::axiom_spec_len(data);
        }
        ByteReader { data, index: 0 }
    }

    /// The next `k` bytes, or the shortfall. The cursor stays where it is.
    fn peek(&self, k: usize) -> (res: Result<&'a [u8], ByteReaderError>)
        ensures
            self@.wf(),
            match self@.read_fixed(k as nat) {
                Ok(bytes) => res matches Ok(span) && span@ == bytes,
                Err(e) => res == Err::<&[u8], ByteReaderError>(e),
            },
    {
        proof {
            use_type_invariant(self);
        }
        let buffer_length: usize = self.data.len();
        if buffer_length - self.index < k {
            return Err(
                ByteReaderError::NotEnoughBytes {
                    index_offset: self.index.saturating_add(k),
                    buffer_length,
                },
            );
        }
        Ok(slice_subrange(self.data, self.index, self.index + k))
    }

    /// Reads the next `k` bytes, or fails with the shortfall.
    fn take(&mut self, k: usize) -> (res: Result<&'a [u8], ByteReaderError>)
        ensures
            final(self)@ == old(self)@.after_fixed(k as nat),
            final(self)@.wf(),
            match old(self)@.read_fixed(k as nat) {
                Ok(bytes) => res matches Ok(span) && span@ == bytes,
                Err(e) => res == Err::<&[u8], ByteReaderError>(e),
            },
    {
        match self.peek(k) {
            Ok(span) => {
                self.index = self.index + k;
                Ok(span)
            },
            Err(e) => Err(e),
        }
    }

    /// Reads one byte.
    ///
    /// Fails, without moving, if no byte is left.
    pub fn read_u8(&mut self) -> (res: ByteReaderResult<u8>)
        ensures
            final(self)@ == old(self)@.after_fixed(1),
            final(self)@.wf(),
            match old(self)@.read_fixed(1) {
                Ok(bytes) => res == Ok::<u8, ByteReaderError>(bytes[0]),
                Err(e) => res == Err::<u8, ByteReaderError>(e),
            },
    {
        match self.take(1) {
            Ok(span) => Ok(span[0]),
            Err(e) => Err(e),
        }
    }

    /// Reads two bytes as a little-endian number.
    ///
    /// Fails, without moving, if fewer than two bytes are left.
    pub fn read_u16(&mut self) -> (res: ByteReaderResult<u16>)
        ensures
            final(self)@ == old(self)@.after_fixed(2),
            final(self)@.wf(),
            match old(self)@.read_fixed(2) {
                Ok(bytes) => res matches Ok(value) && value == le_value(bytes),
                Err(e) => res == Err::<u16, ByteReaderError>(e),
            },
    {
        match self.take(2) {
            Ok(span) => {
                proof {
                    lemma_le_value_below_limit(span@);
                    lemma_span_limits();
                }
                Ok(decode_le(span) as u16)
            },
            Err(e) => Err(e),
        }
    }

    /// Reads four bytes as a little-endian number.
    ///
    /// Fails, without moving, if fewer than four bytes are left.
    pub fn read_u32(&mut self) -> (res: ByteReaderResult<u32>)
        ensures
            final(self)@ == old(self)@.after_fixed(4),
            final(self)@.wf(),
            match old(self)@.read_fixed(4) {
                Ok(bytes) => res matches Ok(value) && value == le_value(bytes),
                Err(e) => res == Err::<u32, ByteReaderError>(e),
            },
    {
        match self.take(4) {
            Ok(span) => {
                proof {
                    lemma_le_value_below_limit(span@);
                    lemma_span_limits();
                }
                Ok(decode_le(span) as u32)
            },
            Err(e) => Err(e),
        }
    }

    /// Reads eight bytes as a little-endian number.
    ///
    /// Fails, without moving, if fewer than eight bytes are left.
    pub fn read_u64(&mut self) -> (res: ByteReaderResult<u64>)
        ensures
            final(self)@ == old(self)@.after_fixed(8),
            final(self)@.wf(),
            match old(self)@.read_fixed(8) {
                Ok(bytes) => res matches Ok(value) && value == le_value(bytes),
                Err(e) => res == Err::<u64, ByteReaderError>(e),
            },
    {
        match self.take(8) {
            Ok(span) => Ok(decode_le(span)),
            Err(e) => Err(e),
        }
    }

    /// Reads a string: one byte that gives its length, then that many bytes
    /// of UTF-8.
    ///
    /// Fails, without moving, if no length byte is left. Fails behind the
    /// length byte if fewer bytes are left than it announces, or if the
    /// bytes that it announces are not UTF-8.
    pub fn read_string(&mut self) -> (res: ByteReaderResult<String>)
        ensures
            final(self)@ == old(self)@.after_string(),
            final(self)@.wf(),
            match old(self)@.read_string() {
                Ok(text) => res matches Ok(string) && string@ == text,
                Err(e) => res == Err::<String, ByteReaderError>(e),
            },
    {
        let length: usize = match self.read_u8() {
            Ok(byte) => byte as usize,
            Err(e) => {
                return Err(e);
            },
        };
        let body: &[u8] = match self.peek(length) {
            Ok(span) => span,
            Err(e) => {
                return Err(e);
            },
        };
        match String::from_utf8(slice_to_vec(body)) {
            Ok(string) => {
                self.index = self.index + length;
                Ok(string)
            },
            Err(_) => Err(ByteReaderError::InvalidUtf8),
        }
    }

    /// Reads sixteen bytes as an identifier, which holds them unchanged and
    /// in the order in which they stand in the buffer.
    ///
    /// Fails, without moving, if fewer than sixteen bytes are left.
    pub fn read_uuid(&mut self) -> (res: ByteReaderResult<Uuid>)
        ensures
            final(self)@ == old(self)@.after_fixed(16),
            final(self)@.wf(),
            match old(self)@.read_fixed(16) {
                Ok(bytes) => res matches Ok(id) && uuid_bytes(id) == bytes,
                Err(e) => res == Err::<Uuid, ByteReaderError>(e),
            },
    {
        match self.take(16) {
            Ok(span) => {
                let mut bytes: [u8; 16] = [0u8; 16];
                let mut i: usize = 0;
                while i < 16
                    invariant
                        span@.len() == 16,
                        i <= 16,
                        forall|j: int| 0 <= j < i ==> bytes@[j] == span@[j],
                    decreases 16 - i,
                {
                    bytes[i] = span[i];
                    i = i + 1;
                }
                assert(bytes@ == span@);
                Ok(Uuid::from_bytes(bytes))
            },
            Err(e) => Err(e),
        }
    }

    /// Reads all the bytes that are left, which may be none, and leaves the
    /// reader exhausted.
    #[must_use]
    pub fn read_remaining_bytes(&mut self) -> (bytes: Vec<u8>)
        ensures
            bytes@ == old(self)@.rest(),
            final(self)@ == old(self)@.exhausted(),
            final(self)@.wf(),
    {
        proof {
            use_type_invariant(&*self);
        }
        let end: usize = self.data.len();
        let rest: Vec<u8> = slice_to_vec(slice_subrange(self.data, self.index, end));
        self.index = end;
        rest
    }

    /// Whether every byte has been read.
    #[must_use]
    pub fn is_empty(&self) -> (empty: bool)
        ensures
            empty == self@.is_empty(),
            self@.wf(),
    {
        proof {
            use_type_invariant(self);
        }
        self.index >= self.data.len()
    }

    /// The number of bytes not yet read.
    #[must_use]
    pub fn remaining(&self) -> (count: usize)
        ensures
            count == self@.remaining(),
            self@.wf(),
    {
        proof {
            use_type_invariant(self);
        }
        self.data.len() - self.index
    }
}

} // verus!
