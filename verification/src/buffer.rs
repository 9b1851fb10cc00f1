//! The line buffer: a growable byte sequence with a cursor that never leaves
//! it.

use vstd::prelude::*;
use vstd::utf8::{encode_utf8, valid_utf8};
use vstd::string::StrSliceExecFns;
use vstd::std_specs::iter::IteratorSpec;
use crate::text::utf8_text;

verus! {

pub type Byte = u8;

pub type ByteArray = [u8];

/// Where a seek is measured from, and by how much.
#[derive(Clone, Copy, Debug, PartialEq, Eq)]
pub enum SeekFrom {
    Start(u64),
    End(i64),
    Current(i64),
}

/// Why a strict seek was refused.
#[derive(Clone, Copy, Debug, PartialEq, Eq)]
pub enum SeekError {
    /// The target lies before the first byte.
    BeforeStart,
}

/// The buffer's content was not UTF-8.
#[derive(Clone, Copy, Debug, PartialEq, Eq)]
pub struct Utf8Error;

/// What a buffer holds: its bytes, and a cursor in `0..=bytes.len()`.
pub struct BufferView {
    pub bytes: Seq<u8>,
    pub cursor: nat,
}

#[derive(Debug)]
pub struct Buffer {
    data: Vec<Byte>,
    pos: usize,
}

/// `value` brought into `low..=high`.
pub open spec fn clamp(value: int, low: int, high: int) -> int {
    if value < low {
        low
    } else if value > high {
        high
    } else {
        value
    }
}

/// The position that `pos` names in a buffer of `len` bytes with its cursor
/// at `cursor`, before any bound is applied.
pub open spec fn seek_target(len: nat, cursor: nat, pos: SeekFrom) -> int {
    match pos {
        SeekFrom::Start(offset) => offset as int,
        SeekFrom::End(offset) => len + offset,
        SeekFrom::Current(offset) => cursor + offset,
    }
}

/// `bytes` after `buf` was written over it from `cursor` on: the bytes before
/// the cursor stay, `buf` follows, and what `buf` did not reach stays after it.
pub open spec fn overwritten(bytes: Seq<u8>, cursor: nat, buf: Seq<u8>) -> Seq<u8> {
    let end = cursor + buf.len();
    bytes.take(cursor as int) + buf + if end < bytes.len() {
        bytes.skip(end as int)
    } else {
        Seq::empty()
    }
}

/// `bytes` with `data` put in at `cursor`; what stood from there on moves
/// right.
pub open spec fn inserted(bytes: Seq<u8>, cursor: nat, data: Seq<u8>) -> Seq<u8> {
    bytes.take(cursor as int) + data + bytes.skip(cursor as int)
}

impl View for Buffer {
    type V = BufferView;

    closed spec fn view(&self) -> BufferView {
        BufferView {
            bytes: self.data@,
            cursor: if self.pos <= self.data.len() {
                self.pos as nat
            } else {
                self.data.len() as nat
            },
        }
    }
}

impl Buffer {
    /// The cursor of every buffer lies within its bytes.
    pub proof fn lemma_cursor_in_bounds(&self)
        ensures
            self@.cursor <= self@.bytes.len(),
    {
    }

    /// An empty buffer.
    pub fn new() -> (buffer: Self)
        ensures
            buffer@.bytes == Seq::<u8>::empty(),
            buffer@.cursor == 0,
    {
        Buffer { data: Vec::new(), pos: 0 }
    }

    /// A buffer over `data`, with the cursor at its start.
    pub fn from(data: Vec<u8>) -> (buffer: Self)
        ensures
            buffer@.bytes == data@,
            buffer@.cursor == 0,
    {
        Buffer { data, pos: 0 }
    }

    /// A buffer over the UTF-8 bytes of `text`, with the cursor at its start.
    pub fn from_utf8(text: &str) -> (buffer: Self)
        ensures
            buffer@.bytes == encode_utf8(text@),
            buffer@.cursor == 0,
    {
        Buffer { data: text.as_bytes_vec(), pos: 0 }
    }

    fn cursor(&self) -> (at: usize)
        ensures
            at == self@.cursor,
            at <= self.data.len(),
    {
        if self.pos <= self.data.len() {
            self.pos
        } else {
            self.data.len()
        }
    }

    /// The number of bytes stored in the buffer.
    pub fn len(&self) -> (len: usize)
        ensures
            len == self@.bytes.len(),
    {
        self.data.len()
    }

    /// The byte under the cursor, if the cursor is not at the end.
    pub fn byte(&self) -> (byte: Option<Byte>)
        ensures
            byte == if self@.cursor < self@.bytes.len() {
                Some(self@.bytes[self@.cursor as int])
            } else {
                None
            },
    {
        let pos = self.cursor();
        if pos < self.data.len() {
            Some(self.data[pos])
        } else {
            None
        }
    }

    /// Whether the bytes are UTF-8.
    pub fn is_valid_utf8(&self) -> (valid: bool)
        ensures
            valid == valid_utf8(self@.bytes),
    {
        utf8_text(self.data.as_slice()).is_some()
    }

    /// The cursor.
    pub fn position(&self) -> (pos: u64)
        ensures
            pos == self@.cursor,
    {
        self.cursor() as u64
    }

    /// Moves the cursor to `pos`, or to the end where `pos` lies beyond it.
    pub fn set_position(&mut self, pos: u64)
        ensures
            final(self)@.bytes == old(self)@.bytes,
            final(self)@.cursor == clamp(pos as int, 0, old(self)@.bytes.len() as int),
    {
        let len = self.data.len();
        if pos <= len as u64 {
            self.pos = pos as usize;
        } else {
            self.pos = len;
        }
    }

    /// Moves the cursor to the position that `pos` names. A position before
    /// the first byte is refused and leaves the cursor where it was; one
    /// beyond the last byte stops at the end. Returns the new cursor.
    pub fn seek(&mut self, pos: SeekFrom) -> (moved: Result<u64, SeekError>)
        ensures
            final(self)@.bytes == old(self)@.bytes,
            ({
                let target = seek_target(old(self)@.bytes.len(), old(self)@.cursor, pos);
                if target < 0 {
                    &&& moved == Err::<u64, SeekError>(SeekError::BeforeStart)
                    &&& final(self)@.cursor == old(self)@.cursor
                } else {
                    &&& moved == Ok::<u64, SeekError>(final(self)@.cursor as u64)
                    &&& final(self)@.cursor == clamp(target, 0, old(self)@.bytes.len() as int)
                }
            }),
    {
        let len = self.data.len();
        let target: i128 = match pos {
            SeekFrom::Start(offset) => offset as i128,
            SeekFrom::End(offset) => len as i128 + offset as i128,
            SeekFrom::Current(offset) => self.cursor() as i128 + offset as i128,
        };
        if target < 0 {
            Err(SeekError::BeforeStart)
        } else {
            if target <= len as i128 {
                self.pos = target as usize;
            } else {
                self.pos = len;
            }
            Ok(self.pos as u64)
        }
    }

    /// Writes `buf` over the bytes from the cursor on, growing the buffer
    /// where `buf` reaches past its end, and leaves the cursor behind what
    /// was written. Returns the number of bytes written, which is all of them.
    pub fn write(&mut self, buf: &ByteArray) -> (written: usize)
        ensures
            final(self)@.bytes == overwritten(old(self)@.bytes, old(self)@.cursor, buf@),
            final(self)@.cursor == old(self)@.cursor + buf@.len(),
            written == buf@.len(),
    {
        let pos = self.cursor();
        let len = self.data.len();
        let mut tail: Vec<u8> = if buf.len() < len - pos {
            self.data.split_off(pos + buf.len())
        } else {
            Vec::new()
        };
        let kept = tail.len();
        self.data.truncate(pos);
        self.data.extend_from_slice(buf);
        self.data.append(&mut tail);
        self.pos = self.data.len() - kept;
        buf.len()
    }

    /// Copies bytes from the cursor on into `buf`, as many as both hold, and
    /// moves the cursor past them. Returns their number.
    pub fn read(&mut self, buf: &mut ByteArray) -> (count: usize)
        ensures
            final(self)@.bytes == old(self)@.bytes,
            count == if old(buf)@.len() <= old(self)@.bytes.len() - old(self)@.cursor {
                old(buf)@.len() as int
            } else {
                old(self)@.bytes.len() - old(self)@.cursor
            },
            final(self)@.cursor == old(self)@.cursor + count,
            final(buf)@ == old(self)@.bytes.subrange(
                old(self)@.cursor as int,
                old(self)@.cursor + count,
            ) + old(buf)@.skip(count as int),
    {
        let pos = self.cursor();
        let available = self.data.len() - pos;
        let count = if buf.len() <= available {
            buf.len()
        } else {
            available
        };
        let mut i: usize = 0;
        while i < count
            invariant
                i <= count,
                pos + count <= self.data.len(),
                count <= buf@.len(),
                buf@.len() == old(buf)@.len(),
                self.data@ == old(self).data@,
                buf@ == self.data@.subrange(pos as int, pos + i) + old(buf)@.skip(i as int),
            decreases count - i,
        {
            buf[i] = self.data[pos + i];
            i += 1;
        }
        self.pos = pos + count;
        count
    }

    /// Puts `data` in at the cursor and moves the cursor past it.
    pub fn insert(&mut self, data: &ByteArray)
        ensures
            final(self)@.bytes == inserted(old(self)@.bytes, old(self)@.cursor, data@),
            final(self)@.cursor == old(self)@.cursor + data@.len(),
    {
        let pos = self.cursor();
        let mut tail = self.data.split_off(pos);
        let kept = tail.len();
        self.data.extend_from_slice(data);
        self.data.append(&mut tail);
        self.pos = self.data.len() - kept;
    }

    /// Moves the cursor to the position that `pos` names, brought into the
    /// buffer: not before the first byte, not beyond the last. Returns the new
    /// cursor.
    pub fn safe_seek(&mut self, pos: SeekFrom) -> (moved: u64)
        ensures
            final(self)@.bytes == old(self)@.bytes,
            final(self)@.cursor == clamp(
                seek_target(old(self)@.bytes.len(), old(self)@.cursor, pos),
                0,
                old(self)@.bytes.len() as int,
            ),
            moved == final(self)@.cursor,
    {
        let len = self.data.len();
        let target: i128 = match pos {
            SeekFrom::Start(offset) => offset as i128,
            SeekFrom::End(offset) => len as i128 + offset as i128,
            SeekFrom::Current(offset) => self.cursor() as i128 + offset as i128,
        };
        if target < 0 {
            self.pos = 0;
        } else if target <= len as i128 {
            self.pos = target as usize;
        } else {
            self.pos = len;
        }
        self.pos as u64
    }

    /// Empties the buffer.
    pub fn clear(&mut self)
        ensures
            final(self)@.bytes == Seq::<u8>::empty(),
            final(self)@.cursor == 0,
    {
        self.data.clear();
        self.pos = 0;
    }

    /// The bytes.
    pub fn get_ref(&self) -> (bytes: &Vec<Byte>)
        ensures
            bytes@ == self@.bytes,
    {
        &self.data
    }

    /// The bytes, to change. The buffer then holds what the borrower left; the
    /// cursor stays, or stops at the new end where the bytes were cut short
    /// of it.
    pub fn get_mut(&mut self) -> (bytes: &mut Vec<Byte>)
        ensures
            bytes@ == old(self)@.bytes,
            final(self)@.bytes == final(bytes)@,
            final(self)@.cursor == clamp(
                old(self)@.cursor as int,
                0,
                final(bytes)@.len() as int,
            ),
    {
        self.pos = self.cursor();
        &mut self.data
    }

    /// The content as an owned string, where it is UTF-8.
    pub fn as_string(&self) -> (text: Result<String, Utf8Error>)
        ensures
            text is Ok <==> valid_utf8(self@.bytes),
            text matches Ok(t) ==> encode_utf8(t@) == self@.bytes,
    {
        match utf8_text(self.data.as_slice()) {
            Some(text) => Ok(text.to_owned()),
            None => Err(Utf8Error),
        }
    }

    /// The content as a string slice, where it is UTF-8.
    pub fn as_str(&self) -> (text: Result<&str, Utf8Error>)
        ensures
            text is Ok <==> valid_utf8(self@.bytes),
            text matches Ok(t) ==> encode_utf8(t@) == self@.bytes,
    {
        match utf8_text(self.data.as_slice()) {
            Some(text) => Ok(text),
            None => Err(Utf8Error),
        }
    }

    /// An iterator over the bytes, first to last.
    pub fn iter(&self) -> (bytes: std::slice::Iter<'_, Byte>)
        ensures
            IteratorSpec::remaining(&bytes) == self@.bytes.as_ref(),
    {
        self.data.iter()
    }

    /// The bytes, leaving the buffer behind.
    pub fn into_inner(self) -> (bytes: Vec<Byte>)
        ensures
            bytes@ == self@.bytes,
    {
        self.data
    }
}

} // verus!
