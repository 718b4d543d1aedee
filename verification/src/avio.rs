//! A seekable reader over bytes held in memory, for feeding a container
//! demuxer.
//!
//! Reading advances a cursor and hands out the bytes under it; reading at or
//! past the end hands out nothing and is no error. Seeking moves the cursor
//! relative to the start, the cursor or the end, and may put it past the end;
//! it refuses a position before the start.

use vstd::prelude::*;
use vstd::slice::slice_subrange;

verus! {

/// Why the reader, or the demuxer on top of it, failed.
#[derive(Debug, Clone, PartialEq, Eq)]
pub enum AvioError {
    /// The demuxer could not allocate its input context.
    AllocationFailed,
    /// The demuxer could not open the bytes as a container; holds its message.
    OpenFailed(String),
    /// A seek would put the cursor before the start or beyond what a signed
    /// 64-bit offset can express.
    InvalidSeek,
}

/// The mathematical value of an [`AvioError`].
pub enum AvioErrorView {
    AllocationFailed,
    OpenFailed(Seq<char>),
    InvalidSeek,
}

impl View for AvioError {
    type V = AvioErrorView;

    open spec fn view(&self) -> AvioErrorView {
        match self {
            AvioError::AllocationFailed => AvioErrorView::AllocationFailed,
            AvioError::OpenFailed(text) => AvioErrorView::OpenFailed(text@),
            AvioError::InvalidSeek => AvioErrorView::InvalidSeek,
        }
    }
}

impl AvioErrorView {
    /// The error in words.
    pub open spec fn text(self) -> Seq<char> {
        match self {
            AvioErrorView::AllocationFailed => "failed to allocate input context"@,
            AvioErrorView::OpenFailed(text) => "failed to open input: "@ + text,
            AvioErrorView::InvalidSeek => "invalid seek"@,
        }
    }
}

impl AvioError {
    /// The error in words.
    pub fn message(&self) -> (text: String)
        ensures
            text@ == self@.text(),
    {
        match self {
            AvioError::AllocationFailed => "failed to allocate input context".to_string(),
            AvioError::OpenFailed(text) => {
                let mut out = "failed to open input: ".to_string();
                out.append(text.as_str());
                out
            },
            AvioError::InvalidSeek => "invalid seek".to_string(),
        }
    }
}

/// What a seek is relative to.
#[derive(Debug, Clone, Copy, PartialEq, Eq, Structural)]
pub enum Whence {
    /// The offset counts from the first byte.
    Start,
    /// The offset counts from the cursor.
    Current,
    /// The offset counts from the end.
    End,
    /// No seek: the caller asks for the total size.
    Size,
}

/// The position a seek aims at, before it is checked.
pub open spec fn seek_target(len: int, position: int, offset: int, whence: Whence) -> int {
    match whence {
        Whence::Start => offset,
        Whence::Current => position + offset,
        Whence::End => len + offset,
        Whence::Size => position,
    }
}

/// The number of bytes a read of at most `max` bytes hands out.
pub open spec fn read_len(len: int, position: int, max: int) -> int {
    if position >= len {
        0
    } else if max <= len - position {
        max
    } else {
        len - position
    }
}

/// A cursor over bytes in memory.
pub struct MemoryReader<'a> {
    data: &'a [u8],
    position: u64,
}

impl<'a> MemoryReader<'a> {
    /// The bytes read from.
    pub closed spec fn bytes(&self) -> Seq<u8> {
        self.data@
    }

    /// The cursor: the offset of the next byte a read hands out.
    pub closed spec fn cursor(&self) -> int {
        self.position as int
    }

    /// A reader over `data` with the cursor at the first byte.
    pub fn new(data: &'a [u8]) -> (reader: Self)
        ensures
            reader.bytes() == data@,
            reader.cursor() == 0,
    {
        MemoryReader { data, position: 0 }
    }

    /// The offset of the next byte a read hands out.
    pub fn position(&self) -> (position: u64)
        ensures
            position == self.cursor(),
    {
        self.position
    }

    /// The total number of bytes.
    pub fn size(&self) -> (size: usize)
        ensures
            size == self.bytes().len(),
    {
        self.data.len()
    }

    /// Hands out the next bytes, at most `max` of them, and moves the cursor
    /// past them. At or past the end it hands out nothing.
    pub fn read(&mut self, max: usize) -> (chunk: &'a [u8])
        ensures
            final(self).bytes() == old(self).bytes(),
            chunk@.len() == read_len(old(self).bytes().len() as int, old(self).cursor(), max as int),
            final(self).cursor() == old(self).cursor() + chunk@.len(),
            chunk@.len() > 0 ==> chunk@ == old(self).bytes().subrange(
                old(self).cursor(),
                old(self).cursor() + chunk@.len(),
            ),
    {
        let len: usize = self.data.len();
        if self.position >= len as u64 {
            return slice_subrange(self.data, 0, 0);
        }
        let start: usize = self.position as usize;
        let available: usize = len - start;
        let count: usize = if max <= available {
            max
        } else {
            available
        };
        let chunk = slice_subrange(self.data, start, start + count);
        self.position = self.position + count as u64;
        chunk
    }

    /// Moves the cursor, or reports the size.
    ///
    /// `Size` returns the total size and leaves the cursor alone. The others
    /// move the cursor to the offset counted from the start, the cursor or
    /// the end, and return the new position. A position before the start, or
    /// above the largest signed 64-bit integer, is refused and the cursor
    /// stays.
    pub fn seek(&mut self, offset: i64, whence: Whence) -> (moved: Result<u64, AvioError>)
        ensures
            final(self).bytes() == old(self).bytes(),
            whence == Whence::Size ==> moved == Ok::<u64, AvioError>(
                old(self).bytes().len() as u64,
            ) && final(self).cursor() == old(self).cursor(),
            whence != Whence::Size ==> {
                let target = seek_target(
                    old(self).bytes().len() as int,
                    old(self).cursor(),
                    offset as int,
                    whence,
                );
                if 0 <= target <= i64::MAX {
                    moved == Ok::<u64, AvioError>(target as u64) && final(self).cursor() == target
                } else {
                    moved == Err::<u64, AvioError>(AvioError::InvalidSeek) && final(self).cursor()
                        == old(self).cursor()
                }
            },
    {
        let len: usize = self.data.len();
        let base: i128 = match whence {
            Whence::Size => {
                return Ok(len as u64);
            },
            Whence::Start => 0,
            Whence::Current => self.position as i128,
            Whence::End => len as i128,
        };
        let target: i128 = base + offset as i128;
        if target < 0 || target > 0x7fff_ffff_ffff_ffff {
            return Err(AvioError::InvalidSeek);
        }
        self.position = target as u64;
        Ok(target as u64)
    }
}

/// Reading twice in a row hands out consecutive bytes: the second read starts
/// where the first one ended.
pub proof fn lemma_reads_are_consecutive(len: int, position: int, first: int, second: int)
    requires
        0 <= len,
        0 <= position,
        0 <= first,
        0 <= second,
    ensures
        read_len(len, position, first) + read_len(
            len,
            position + read_len(len, position, first),
            second,
        ) == read_len(len, position, first + second),
{
}

} // verus!
