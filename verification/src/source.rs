//! The byte source that the decoders read from: the bytes of an object
//! file held in memory, with a read position that can be moved.

use crate::error::{ElfError, ElfErrorKind, ElfErrorView};
use crate::utils::{bytes_to_u16, bytes_to_u32, bytes_to_u64, le_value};
use vstd::prelude::*;
use vstd::slice::{slice_subrange, slice_to_vec};

verus! {

/// How many bytes a read of `count` bytes at position `pos` of `bytes`
/// delivers: all of them where that many are left, else what is left, and
/// none where `pos` is no offset into `bytes`.
pub open spec fn read_count(bytes: Seq<u8>, pos: int, count: int) -> int {
    if pos < 0 || pos >= bytes.len() {
        0
    } else if count <= bytes.len() - pos {
        count
    } else {
        bytes.len() - pos
    }
}

/// The bytes that a read of `count` bytes at position `pos` delivers.
pub open spec fn read_bytes(bytes: Seq<u8>, pos: int, count: int) -> Seq<u8> {
    if pos < 0 || pos >= bytes.len() {
        Seq::empty()
    } else {
        bytes.subrange(pos, pos + read_count(bytes, pos, count))
    }
}

/// The little-endian integer of `width` bytes at offset `at` of `bytes`.
pub open spec fn field(bytes: Seq<u8>, at: int, width: int) -> nat {
    le_value(bytes.subrange(at, at + width))
}

/// A seekable, readable sequence of bytes.
pub struct ByteSource {
    data: Vec<u8>,
    pos: u64,
}

impl ByteSource {
    /// All the bytes of the source, from its first.
    pub closed spec fn bytes(&self) -> Seq<u8> {
        self.data@
    }

    /// The offset at which the next read starts. It may lie past the end.
    pub closed spec fn position(&self) -> int {
        self.pos as int
    }

    /// A source holds no more bytes than memory can address.
    pub proof fn lemma_len_bound(&self)
        ensures
            self.bytes().len() <= usize::MAX,
            self.position() >= 0,
    {
        assert(self.data.len() == self.data@.len());
    }

    /// A source over `data`, positioned at its start.
    pub fn new(data: Vec<u8>) -> (source: Self)
        ensures
            source.bytes() == data@,
            source.position() == 0,
    {
        ByteSource { data, pos: 0 }
    }

    /// The number of bytes in the source.
    pub fn len(&self) -> (n: usize)
        ensures
            n == self.bytes().len(),
    {
        self.data.len()
    }

    /// The current read position.
    pub fn stream_position(&self) -> (pos: u64)
        ensures
            pos == self.position(),
    {
        self.pos
    }

    /// Moves the read position to `pos`, counted from the start. Any
    /// position is accepted; reads past the end deliver nothing.
    pub fn seek(&mut self, pos: u64)
        ensures
            final(self).bytes() == old(self).bytes(),
            final(self).position() == pos,
    {
        self.pos = pos;
    }

    /// Reads up to `count` bytes at the current position and advances the
    /// position by the number of bytes delivered. Fewer than `count` bytes
    /// come back only where the source ends first.
    pub fn read(&mut self, count: u64) -> (out: Vec<u8>)
        ensures
            final(self).bytes() == old(self).bytes(),
            out@ == read_bytes(old(self).bytes(), old(self).position(), count as int),
            out.len() == read_count(old(self).bytes(), old(self).position(), count as int),
            final(self).position() == old(self).position() + out.len(),
    {
        let len: usize = self.data.len();
        if self.pos >= len as u64 {
            return Vec::new();
        }
        let start: usize = self.pos as usize;
        let left: usize = len - start;
        let n: usize = if count < left as u64 {
            count as usize
        } else {
            left
        };
        let out = slice_to_vec(slice_subrange(self.data.as_slice(), start, start + n));
        self.pos = self.pos + n as u64;
        out
    }

    /// Reads a two-byte little-endian integer. A source that ends inside
    /// it is an `Io` failure; the bytes that were left are consumed.
    pub fn read_u16(&mut self) -> (r: Result<u16, ElfError>)
        ensures
            final(self).bytes() == old(self).bytes(),
            final(self).position() == old(self).position() + read_count(
                old(self).bytes(),
                old(self).position(),
                2,
            ),
            match r {
                Ok(value) => read_count(old(self).bytes(), old(self).position(), 2) == 2
                    && value as nat == le_value(
                    read_bytes(old(self).bytes(), old(self).position(), 2),
                ),
                Err(error) => read_count(old(self).bytes(), old(self).position(), 2) < 2
                    && error@ == ElfErrorView::Io,
            },
    {
        let buffer = self.read(2);
        if buffer.len() != 2 {
            return Err(ElfError::new(ElfErrorKind::Io));
        }
        let field: [u8; 2] = [buffer[0], buffer[1]];
        assert(field@ =~= buffer@);
        Ok(bytes_to_u16(field))
    }

    /// Reads a four-byte little-endian integer. A source that ends inside
    /// it is an `Io` failure; the bytes that were left are consumed.
    pub fn read_u32(&mut self) -> (r: Result<u32, ElfError>)
        ensures
            final(self).bytes() == old(self).bytes(),
            final(self).position() == old(self).position() + read_count(
                old(self).bytes(),
                old(self).position(),
                4,
            ),
            match r {
                Ok(value) => read_count(old(self).bytes(), old(self).position(), 4) == 4
                    && value as nat == le_value(
                    read_bytes(old(self).bytes(), old(self).position(), 4),
                ),
                Err(error) => read_count(old(self).bytes(), old(self).position(), 4) < 4
                    && error@ == ElfErrorView::Io,
            },
    {
        let buffer = self.read(4);
        if buffer.len() != 4 {
            return Err(ElfError::new(ElfErrorKind::Io));
        }
        let field: [u8; 4] = [buffer[0], buffer[1], buffer[2], buffer[3]];
        assert(field@ =~= buffer@);
        Ok(bytes_to_u32(field))
    }

    /// Reads an eight-byte little-endian integer. A source that ends
    /// inside it is an `Io` failure; the bytes that were left are consumed.
    pub fn read_u64(&mut self) -> (r: Result<u64, ElfError>)
        ensures
            final(self).bytes() == old(self).bytes(),
            final(self).position() == old(self).position() + read_count(
                old(self).bytes(),
                old(self).position(),
                8,
            ),
            match r {
                Ok(value) => read_count(old(self).bytes(), old(self).position(), 8) == 8
                    && value as nat == le_value(
                    read_bytes(old(self).bytes(), old(self).position(), 8),
                ),
                Err(error) => read_count(old(self).bytes(), old(self).position(), 8) < 8
                    && error@ == ElfErrorView::Io,
            },
    {
        let buffer = self.read(8);
        if buffer.len() != 8 {
            return Err(ElfError::new(ElfErrorKind::Io));
        }
        let field: [u8; 8] = [
            buffer[0],
            buffer[1],
            buffer[2],
            buffer[3],
            buffer[4],
            buffer[5],
            buffer[6],
            buffer[7],
        ];
        assert(field@ =~= buffer@);
        Ok(bytes_to_u64(field))
    }
}

} // verus!
