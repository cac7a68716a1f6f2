use vstd::prelude::*;

verus! {

/// Fixed capacity, in bytes, of every packet buffer: the legacy ceiling for a
/// DNS message carried in a single UDP datagram.
pub const BUF_SIZE: usize = 512;

/// The errors of the bounded buffer and of the codecs built on top of it.
///
/// Failures of an external byte source (a file, a socket) stay with the caller
/// that does the reading; the codec itself only ever reports these.
#[derive(Debug, Clone, Copy, PartialEq, Eq, Structural)]
pub enum BufferError {
    /// A read or peek would touch a position at or past the buffer capacity.
    ReadOverrun,
    /// A write would touch a position at or past the buffer capacity.
    WriteOverrun,
    /// A domain-name pointer chain exceeded the jump ceiling.
    TooManyJumps,
    /// A label is longer than 63 bytes, or a whole encoded name is longer
    /// than 255 bytes.
    EncodeTooLong,
}

/// Structures that can be written into a buffer.
pub trait Serialize {
    type Buffer;

    type Structure;

    fn serialize(struc: Self::Structure, buf: &mut Self::Buffer) -> Result<(), BufferError>;
}

/// Structures that can be parsed out of a buffer.
pub trait Deserialize {
    type Buffer;

    type Structure;

    fn deserialize(buf: &mut Self::Buffer) -> Result<Self::Structure, BufferError>;
}

/// Fixed-capacity byte storage plus a cursor.
///
/// The cursor itself may be moved anywhere by `seek` and `step`; it is the
/// next access that enforces the bound, failing with a typed, recoverable
/// error instead of panicking.
pub struct BytePacketBuffer {
    pub buf: [u8; BUF_SIZE],
    pos: usize,
}

/// The contents a buffer holds after being filled from `src`: the prefix of
/// `src` that fits, with every position past it zero.
pub open spec fn filled(src: Seq<u8>) -> Seq<u8> {
    Seq::new(BUF_SIZE as nat, |i: int| if i < src.len() { src[i] } else { 0u8 })
}

/// The value of two bytes read in network byte order (big endian).
pub open spec fn be16(b0: u8, b1: u8) -> u16 {
    (b0 * 256 + b1) as u16
}

/// The value of four bytes read in network byte order (big endian).
pub open spec fn be32(b0: u8, b1: u8, b2: u8, b3: u8) -> u32 {
    (b0 * 0x1000000 + b1 * 0x10000 + b2 * 256 + b3) as u32
}

impl BytePacketBuffer {
    /// The bytes the buffer holds, as a sequence of length `BUF_SIZE`.
    pub closed spec fn contents(&self) -> Seq<u8> {
        self.buf@
    }

    /// The cursor, as a mathematical integer.
    pub closed spec fn cursor(&self) -> int {
        self.pos as int
    }

    /// Create a buffer of `BUF_SIZE` zero bytes with the cursor at the start.
    pub fn new() -> (r: BytePacketBuffer)
        ensures
            r.cursor() == 0,
            forall|i: int| 0 <= i < BUF_SIZE ==> r.contents()[i] == 0u8,
    {
        BytePacketBuffer { buf: [0; BUF_SIZE], pos: 0 }
    }

    /// Fill the buffer from the start with as much of `in_buf` as fits,
    /// leaving any remaining buffer positions zero. The cursor does not move.
    pub fn fill_from_slice(&mut self, in_buf: &[u8])
        ensures
            final(self).cursor() == old(self).cursor(),
            final(self).contents() == filled(in_buf@),
    {
        let n: usize = if in_buf.len() < BUF_SIZE {
            in_buf.len()
        } else {
            BUF_SIZE
        };
        let mut i: usize = 0;
        while i < n
            invariant
                i <= n,
                n <= BUF_SIZE,
                n <= in_buf@.len(),
                in_buf@.len() < BUF_SIZE ==> n == in_buf@.len(),
                in_buf@.len() >= BUF_SIZE ==> n == BUF_SIZE,
                self.cursor() == old(self).cursor(),
                forall|k: int| 0 <= k < i ==> self.contents()[k] == in_buf@[k],
            decreases n - i,
        {
            self.buf[i] = in_buf[i];
            i += 1;
        }
        let mut j: usize = n;
        while j < BUF_SIZE
            invariant
                n <= j <= BUF_SIZE,
                n <= in_buf@.len(),
                in_buf@.len() < BUF_SIZE ==> n == in_buf@.len(),
                in_buf@.len() >= BUF_SIZE ==> n == BUF_SIZE,
                self.cursor() == old(self).cursor(),
                forall|k: int| 0 <= k < n ==> self.contents()[k] == in_buf@[k],
                forall|k: int| n <= k < j ==> self.contents()[k] == 0u8,
            decreases BUF_SIZE - j,
        {
            let ghost prev = self.contents();
            self.buf[j] = 0;
            proof {
                assert(self.contents() == prev.update(j as int, 0u8));
                assert(self.contents()[j as int] == 0u8);
                assert(forall|k: int| n <= k < j + 1 ==> self.contents()[k] == 0u8);
            }
            j += 1;
        }
        proof {
            assert(self.contents() =~= filled(in_buf@));
        }
    }

    /// Retrieve the current position of the cursor into the buffer.
    pub fn pos(&self) -> (r: usize)
        ensures
            r as int == self.cursor(),
    {
        self.pos
    }

    /// Increment the cursor `num_steps` bytes, without a bound check: a later
    /// access is what enforces the bound.
    pub fn step(&mut self, num_steps: usize)
        requires
            old(self).cursor() + num_steps <= usize::MAX,
        ensures
            final(self).contents() == old(self).contents(),
            final(self).cursor() == old(self).cursor() + num_steps,
    {
        self.pos += num_steps;
    }

    /// Set the cursor to `new_pos`, without a bound check: a later access is
    /// what enforces the bound.
    pub fn seek(&mut self, new_pos: usize)
        ensures
            final(self).contents() == old(self).contents(),
            final(self).cursor() == new_pos,
    {
        self.pos = new_pos
    }

    /// Return the byte at the cursor, without consuming it, if the read does
    /// not overrun.
    pub fn peek(&self) -> (r: Result<u8, BufferError>)
        ensures
            self.cursor() < BUF_SIZE ==> r == Ok::<u8, BufferError>(
                self.contents()[self.cursor()],
            ),
            self.cursor() >= BUF_SIZE ==> r == Err::<u8, BufferError>(BufferError::ReadOverrun),
    {
        if self.pos >= BUF_SIZE {
            return Err(BufferError::ReadOverrun);
        }
        Ok(self.buf[self.pos])
    }

    /// Return a view of `len` bytes starting at byte `start` if the read does
    /// not overrun. The bound `start + len < BUF_SIZE` is deliberately one
    /// byte stricter than reaching the end exactly.
    pub fn peek_slice(&self, start: usize, len: usize) -> (r: Result<&[u8], BufferError>)
        ensures
            start + len < BUF_SIZE ==> (r matches Ok(s) && s@ == self.contents().subrange(
                start as int,
                start + len,
            )),
            start + len >= BUF_SIZE ==> r == Err::<&[u8], BufferError>(BufferError::ReadOverrun),
    {
        if start >= BUF_SIZE || BUF_SIZE - start <= len {
            return Err(BufferError::ReadOverrun);
        }
        Ok(vstd::slice::slice_subrange(self.buf.as_slice(), start, start + len))
    }

    /// Return the byte at the cursor and advance the cursor by one, if the
    /// read does not overrun.
    pub fn pop(&mut self) -> (r: Result<u8, BufferError>)
        ensures
            final(self).contents() == old(self).contents(),
            old(self).cursor() < BUF_SIZE ==> r == Ok::<u8, BufferError>(
                old(self).contents()[old(self).cursor()],
            ) && final(self).cursor() == old(self).cursor() + 1,
            old(self).cursor() >= BUF_SIZE ==> r == Err::<u8, BufferError>(
                BufferError::ReadOverrun,
            ) && final(self).cursor() == old(self).cursor(),
    {
        if self.pos >= BUF_SIZE {
            return Err(BufferError::ReadOverrun);
        }
        let res = self.buf[self.pos];
        self.pos += 1;
        Ok(res)
    }

    /// Return the u16 at the cursor, parsed in network byte order, and
    /// advance the cursor by two. Composed of two `pop` calls; the first
    /// failure is propagated.
    pub fn pop_u16(&mut self) -> (r: Result<u16, BufferError>)
        ensures
            final(self).contents() == old(self).contents(),
            old(self).cursor() + 2 <= BUF_SIZE ==> r == Ok::<u16, BufferError>(
                be16(
                    old(self).contents()[old(self).cursor()],
                    old(self).contents()[old(self).cursor() + 1],
                ),
            ) && final(self).cursor() == old(self).cursor() + 2,
            old(self).cursor() + 2 > BUF_SIZE ==> r == Err::<u16, BufferError>(
                BufferError::ReadOverrun,
            ) && final(self).cursor() == (if old(self).cursor() >= BUF_SIZE {
                old(self).cursor()
            } else {
                BUF_SIZE as int
            }),
    {
        let b0 = match self.pop() {
            Ok(b) => b,
            Err(e) => {
                return Err(e);
            },
        };
        let b1 = match self.pop() {
            Ok(b) => b,
            Err(e) => {
                return Err(e);
            },
        };
        Ok((b0 as u16) * 256 + (b1 as u16))
    }

    /// Return the u32 at the cursor, parsed in network byte order, and
    /// advance the cursor by four. Composed of four `pop` calls; the first
    /// failure is propagated.
    pub fn pop_u32(&mut self) -> (r: Result<u32, BufferError>)
        ensures
            final(self).contents() == old(self).contents(),
            old(self).cursor() + 4 <= BUF_SIZE ==> r == Ok::<u32, BufferError>(
                be32(
                    old(self).contents()[old(self).cursor()],
                    old(self).contents()[old(self).cursor() + 1],
                    old(self).contents()[old(self).cursor() + 2],
                    old(self).contents()[old(self).cursor() + 3],
                ),
            ) && final(self).cursor() == old(self).cursor() + 4,
            old(self).cursor() + 4 > BUF_SIZE ==> r == Err::<u32, BufferError>(
                BufferError::ReadOverrun,
            ) && final(self).cursor() == (if old(self).cursor() >= BUF_SIZE {
                old(self).cursor()
            } else {
                BUF_SIZE as int
            }),
    {
        let b0 = match self.pop() {
            Ok(b) => b,
            Err(e) => {
                return Err(e);
            },
        };
        let b1 = match self.pop() {
            Ok(b) => b,
            Err(e) => {
                return Err(e);
            },
        };
        let b2 = match self.pop() {
            Ok(b) => b,
            Err(e) => {
                return Err(e);
            },
        };
        let b3 = match self.pop() {
            Ok(b) => b,
            Err(e) => {
                return Err(e);
            },
        };
        Ok((b0 as u32) * 0x1000000 + (b1 as u32) * 0x10000 + (b2 as u32) * 256 + (b3 as u32))
    }

    /// Write one byte at the cursor and advance the cursor, if the write does
    /// not overrun.
    pub fn push(&mut self, data: u8) -> (r: Result<(), BufferError>)
        ensures
            old(self).cursor() < BUF_SIZE ==> r == Ok::<(), BufferError>(())
                && final(self).contents() == old(self).contents().update(old(self).cursor(), data)
                && final(self).cursor() == old(self).cursor() + 1,
            old(self).cursor() >= BUF_SIZE ==> r == Err::<(), BufferError>(
                BufferError::WriteOverrun,
            ) && *final(self) == *old(self),
    {
        if self.pos >= BUF_SIZE {
            return Err(BufferError::WriteOverrun);
        }
        self.buf[self.pos] = data;
        self.pos += 1;
        Ok(())
    }

    /// Write a run of bytes at the cursor. Checked up front: on failure the
    /// buffer is unchanged. The bound `cursor + len < BUF_SIZE` is
    /// deliberately one byte stricter than filling to the end exactly,
    /// mirroring `peek_slice`.
    pub fn push_slice(&mut self, data: &[u8]) -> (r: Result<(), BufferError>)
        ensures
            old(self).cursor() + data@.len() < BUF_SIZE ==> r == Ok::<(), BufferError>(())
                && final(self).contents() == old(self).contents().subrange(0, old(self).cursor())
                    + data@
                    + old(self).contents().subrange(
                        old(self).cursor() + data@.len(), BUF_SIZE as int)
                && final(self).cursor() == old(self).cursor() + data@.len(),
            old(self).cursor() + data@.len() >= BUF_SIZE ==> r == Err::<(), BufferError>(
                BufferError::WriteOverrun,
            ) && *final(self) == *old(self),
    {
        if self.pos >= BUF_SIZE || BUF_SIZE - self.pos <= data.len() {
            return Err(BufferError::WriteOverrun);
        }
        let ghost start = self.cursor();
        let mut i: usize = 0;
        while i < data.len()
            invariant
                0 <= i <= data@.len(),
                start + data@.len() < BUF_SIZE,
                self.cursor() == start + i,
                self.contents() =~= old(self).contents().subrange(0, start) + data@.subrange(
                    0,
                    i as int,
                ) + old(self).contents().subrange(start + i, BUF_SIZE as int),
            decreases data@.len() - i,
        {
            let r = self.push(data[i]);
            proof {
                assert(self.contents() =~= old(self).contents().subrange(0, start)
                    + data@.subrange(0, i + 1) + old(self).contents().subrange(
                    start + i + 1,
                    BUF_SIZE as int,
                ));
            }
            i += 1;
        }
        proof {
            assert(data@.subrange(0, data@.len() as int) == data@);
        }
        Ok(())
    }

    /// Write a u16 at the cursor in network byte order. Checked up front: on
    /// failure the buffer is unchanged.
    pub fn push_u16(&mut self, data: u16) -> (r: Result<(), BufferError>)
        ensures
            old(self).cursor() + 2 <= BUF_SIZE ==> r == Ok::<(), BufferError>(())
                && final(self).contents() == old(self).contents().update(
                    old(self).cursor(), (data / 256) as u8).update(
                    old(self).cursor() + 1, (data % 256) as u8)
                && final(self).cursor() == old(self).cursor() + 2,
            old(self).cursor() + 2 > BUF_SIZE ==> r == Err::<(), BufferError>(
                BufferError::WriteOverrun,
            ) && *final(self) == *old(self),
    {
        if self.pos > BUF_SIZE - 2 {
            return Err(BufferError::WriteOverrun);
        }
        let hi = self.push((data / 256) as u8);
        if hi.is_err() {
            return hi;
        }
        self.push((data % 256) as u8)
    }

    /// Write a u32 at the cursor in network byte order. Checked up front: on
    /// failure the buffer is unchanged.
    pub fn push_u32(&mut self, data: u32) -> (r: Result<(), BufferError>)
        ensures
            old(self).cursor() + 4 <= BUF_SIZE ==> r == Ok::<(), BufferError>(())
                && final(self).contents() == old(self).contents().update(
                    old(self).cursor(), (data / 0x1000000) as u8).update(
                    old(self).cursor() + 1, ((data / 0x10000) % 256) as u8).update(
                    old(self).cursor() + 2, ((data / 256) % 256) as u8).update(
                    old(self).cursor() + 3, (data % 256) as u8)
                && final(self).cursor() == old(self).cursor() + 4,
            old(self).cursor() + 4 > BUF_SIZE ==> r == Err::<(), BufferError>(
                BufferError::WriteOverrun,
            ) && *final(self) == *old(self),
    {
        if self.pos > BUF_SIZE - 4 {
            return Err(BufferError::WriteOverrun);
        }
        let b0 = self.push((data / 0x1000000) as u8);
        if b0.is_err() {
            return b0;
        }
        let b1 = self.push(((data / 0x10000) % 256) as u8);
        if b1.is_err() {
            return b1;
        }
        let b2 = self.push(((data / 256) % 256) as u8);
        if b2.is_err() {
            return b2;
        }
        self.push((data % 256) as u8)
    }
}

impl Default for BytePacketBuffer {
    /// A fresh buffer, as `new` makes it.
    fn default() -> (r: Self)
        ensures
            r.cursor() == 0,
            forall|i: int| 0 <= i < BUF_SIZE ==> r.contents()[i] == 0u8,
    {
        BytePacketBuffer::new()
    }
}

/// A buffer always holds exactly `BUF_SIZE` bytes.
pub broadcast proof fn lemma_contents_len(b: &BytePacketBuffer)
    ensures
        (#[trigger] b.contents()).len() == BUF_SIZE,
{
}

/// The cursor never goes below zero: it is a machine word.
pub broadcast proof fn lemma_cursor_nonneg(b: &BytePacketBuffer)
    ensures
        0 <= #[trigger] b.cursor(),
{
}

/// Filling a buffer and reading the filled contents back reproduces the
/// source exactly, up to the capacity: a source shorter than the capacity is
/// the prefix of the contents, and of a longer source only the first
/// `BUF_SIZE` bytes are retained.
pub proof fn lemma_fill_round_trip(src: Seq<u8>)
    ensures
        src.len() <= BUF_SIZE ==> filled(src).subrange(0, src.len() as int) == src,
        src.len() >= BUF_SIZE ==> filled(src) == src.subrange(0, BUF_SIZE as int),
{
    if src.len() <= BUF_SIZE {
        assert(filled(src).subrange(0, src.len() as int) =~= src);
    }
    if src.len() >= BUF_SIZE {
        assert(filled(src) =~= src.subrange(0, BUF_SIZE as int));
    }
}

} // verus!
