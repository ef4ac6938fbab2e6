//! The ways in which a read can fail.

use crate::decimal::{decimal, push_decimal};
use vstd::prelude::*;
use vstd::string::StringExecFns;

verus! {

/// The result of a read: the decoded value, or the reason why nothing was decoded.
pub type ByteReaderResult<T> = Result<T, ByteReaderError>;

/// Why a read failed.
#[derive(Debug, Clone, PartialEq, Eq)]
pub enum ByteReaderError {
    /// The bytes asked for reach past the end of the buffer.
    NotEnoughBytes {
        /// The offset at which the read would have ended.
        index_offset: usize,
        /// The length of the whole buffer.
        buffer_length: usize,
    },
    /// A span of the right length could not be taken as a fixed-width value.
    SliceConversionFailure,
    /// The bytes of a string are all there, but are not UTF-8.
    InvalidUtf8,
}

impl ByteReaderError {
    /// The text of [`message`](Self::message): one sentence for each kind of
    /// error, with the two numbers of a shortfall in decimal.
    pub open spec fn message_text(self) -> Seq<char> {
        match self {
            ByteReaderError::NotEnoughBytes { index_offset, buffer_length } => {
                "Attempted to read past the end of the buffer. Index Offset: '"@ + decimal(
                    index_offset as nat,
                ) + "', Buffer Length: '"@ + decimal(buffer_length as nat) + "'."@
            },
            ByteReaderError::SliceConversionFailure => {
                "Failed to convert slice to a fixed-size array."@
            },
            ByteReaderError::InvalidUtf8 => "Attempted to read invalid UTF-8 bytes."@,
        }
    }

    /// Describes the error in words, for people to read.
    pub fn message(&self) -> (text: String)
        ensures
            text@ == self.message_text(),
    {
        match self {
            ByteReaderError::NotEnoughBytes { index_offset, buffer_length } => {
                let mut text: String = String::new();
                text.append("Attempted to read past the end of the buffer. Index Offset: '");
                push_decimal(&mut text, *index_offset);
                text.append("', Buffer Length: '");
                push_decimal(&mut text, *buffer_length);
                text.append("'.");
                text
            },
            ByteReaderError::SliceConversionFailure => {
                "Failed to convert slice to a fixed-size array.".to_owned()
            },
            ByteReaderError::InvalidUtf8 => "Attempted to read invalid UTF-8 bytes.".to_owned(),
        }
    }
}

} // verus!
