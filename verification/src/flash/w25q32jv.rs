//! An emulated W25Q32JV NOR flash: a linear array of bytes in memory that is
//! read freely, written by clearing bits and erased sector by sector.

use vstd::prelude::*;

verus! {

/// The number of bytes of one page.
pub const PAGE_SIZE: u32 = 256;

/// The number of bytes of one sector, the unit of erasure.
pub const SECTOR_SIZE: u32 = PAGE_SIZE * 16;

/// Why an access to the memory was refused.
#[derive(Clone, Copy, Debug, PartialEq, Eq, Structural)]
pub enum Error {
    NotAligned,
    OutOfBounds,
    WriteEnableFail,
    ReadbackFail,
}

/// The classes into which users of a NOR flash sort its errors.
#[derive(Clone, Copy, Debug, PartialEq, Eq, Structural)]
pub enum ErrorKind {
    NotAligned,
    OutOfBounds,
    Other,
}

impl Error {
    /// The class of this error: the two failures of validation keep their
    /// names, every other failure is `Other`.
    pub fn kind(&self) -> (kind: ErrorKind)
        ensures
            kind == match *self {
                Error::NotAligned => ErrorKind::NotAligned,
                Error::OutOfBounds => ErrorKind::OutOfBounds,
                Error::WriteEnableFail => ErrorKind::Other,
                Error::ReadbackFail => ErrorKind::Other,
            },
    {
        match self {
            Error::NotAligned => ErrorKind::NotAligned,
            Error::OutOfBounds => ErrorKind::OutOfBounds,
            _ => ErrorKind::Other,
        }
    }
}

/// What a memory holds after `written` was written at `offset` over `prior`:
/// every addressed byte is the bitwise AND of what it held and what was
/// written, so that a write clears bits and never sets one. Bytes of
/// `written` that would lie behind the end of the memory are not stored.
pub open spec fn and_merged(prior: Seq<u8>, offset: int, written: Seq<u8>) -> Seq<u8> {
    Seq::new(
        prior.len(),
        |i: int|
            if offset <= i < offset + written.len() {
                prior[i] & written[i - offset]
            } else {
                prior[i]
            },
    )
}

/// What a memory holds after the bytes in `[from, to)` were erased: each of
/// them is `0xFF`, every other byte is what it was.
pub open spec fn erased(prior: Seq<u8>, from: int, to: int) -> Seq<u8> {
    Seq::new(
        prior.len(),
        |i: int|
            if from <= i < to {
                0xFFu8
            } else {
                prior[i]
            },
    )
}

/// Whether `address` lies on the boundary of a sector.
pub open spec fn sector_aligned(address: int) -> bool {
    address % (SECTOR_SIZE as int) == 0
}

/// The emulated memory. Its view is its content, byte by byte.
pub struct W25q32jv {
    data: Vec<u8>,
}

impl View for W25q32jv {
    type V = Seq<u8>;

    closed spec fn view(&self) -> Seq<u8> {
        self.data@
    }
}

impl W25q32jv {
    /// Whether a memory of `capacity` bytes erases the bytes in
    /// `[from, to)`, or why it does not. Alignment is looked at first.
    pub open spec fn erase_outcome(capacity: nat, from: int, to: int) -> Result<(), Error> {
        if !sector_aligned(from) || !sector_aligned(to) {
            Err(Error::NotAligned)
        } else if from > to || to > capacity {
            Err(Error::OutOfBounds)
        } else {
            Ok(())
        }
    }

    /// A memory that holds `data`.
    pub fn new(data: Vec<u8>) -> (flash: Self)
        ensures
            flash@ == data@,
    {
        Self { data }
    }

    /// The number of bytes of the memory.
    pub fn capacity(&self) -> (capacity: usize)
        ensures
            capacity == self@.len(),
    {
        self.data.len()
    }

    /// Copies the bytes from `offset` on into `bytes`, as many as `bytes`
    /// holds. A range that leaves the memory is refused, and `bytes` is
    /// then left as it was.
    pub fn read(&self, offset: u32, bytes: &mut [u8]) -> (res: Result<(), Error>)
        ensures
            final(bytes)@.len() == old(bytes)@.len(),
            offset + old(bytes)@.len() <= self@.len() ==> {
                &&& res == Ok::<(), Error>(())
                &&& final(bytes)@ == self@.subrange(offset as int, offset + old(bytes)@.len())
            },
            offset + old(bytes)@.len() > self@.len() ==> {
                &&& res == Err::<(), Error>(Error::OutOfBounds)
                &&& final(bytes)@ == old(bytes)@
            },
    {
        let count = bytes.len();
        let capacity = self.data.len();
        let start = offset as usize;
        if start > capacity || count > capacity - start {
            return Err(Error::OutOfBounds);
        }
        let mut i: usize = 0;
        while i < count
            invariant
                i <= count,
                count == bytes@.len(),
                start + count <= capacity,
                capacity == self.data@.len(),
                start == offset,
                forall|j: int| 0 <= j < i ==> bytes@[j] == self.data@[start + j],
            decreases count - i,
        {
            bytes[i] = self.data[start + i];
            i += 1;
        }
        assert(bytes@ =~= self@.subrange(offset as int, offset + old(bytes)@.len()));
        Ok(())
    }

    /// Writes `bytes` at `offset`: each addressed byte becomes the bitwise
    /// AND of what it held and the byte written. Bytes that would lie behind
    /// the end of the memory are dropped; an `offset` behind the end is
    /// refused, and the memory is then left as it was.
    pub fn write(&mut self, offset: u32, bytes: &[u8]) -> (res: Result<(), Error>)
        ensures
            offset <= old(self)@.len() ==> {
                &&& res == Ok::<(), Error>(())
                &&& final(self)@ == and_merged(old(self)@, offset as int, bytes@)
            },
            offset > old(self)@.len() ==> {
                &&& res == Err::<(), Error>(Error::OutOfBounds)
                &&& final(self)@ == old(self)@
            },
    {
        let capacity = self.data.len();
        let start = offset as usize;
        if start > capacity {
            return Err(Error::OutOfBounds);
        }
        let room = capacity - start;
        let count = if bytes.len() < room {
            bytes.len()
        } else {
            room
        };
        let mut i: usize = 0;
        while i < count
            invariant
                i <= count,
                count <= bytes@.len(),
                start + count <= capacity,
                start == offset,
                count == bytes@.len() || start + count == capacity,
                capacity == self.data@.len(),
                capacity == old(self)@.len(),
                forall|j: int|
                    0 <= j < self.data@.len() ==> self.data@[j] == if start <= j < start + i {
                        old(self)@[j] & bytes@[j - start]
                    } else {
                        old(self)@[j]
                    },
            decreases count - i,
        {
            let merged = self.data[start + i] & bytes[i];
            self.data[start + i] = merged;
            i += 1;
        }
        assert(self.data@ =~= and_merged(old(self)@, offset as int, bytes@));
        Ok(())
    }

    /// Erases the bytes in `[from, to)`: each becomes `0xFF`. Both ends must
    /// lie on sector boundaries, else the call is refused as not aligned; a
    /// range that ends before it starts or behind the end of the memory is
    /// refused as out of bounds. A refused call leaves the memory as it was.
    pub fn erase(&mut self, from: u32, to: u32) -> (res: Result<(), Error>)
        ensures
            res == Self::erase_outcome(old(self)@.len(), from as int, to as int),
            res is Ok ==> final(self)@ == erased(old(self)@, from as int, to as int),
            res is Err ==> final(self)@ == old(self)@,
    {
        if from % SECTOR_SIZE != 0 {
            return Err(Error::NotAligned);
        }
        if to % SECTOR_SIZE != 0 {
            return Err(Error::NotAligned);
        }
        if from > to {
            return Err(Error::OutOfBounds);
        }
        let end = to as usize;
        if end > self.data.len() {
            return Err(Error::OutOfBounds);
        }
        let mut i: usize = from as usize;
        while i < end
            invariant
                from <= i <= end,
                end == to,
                end <= self.data@.len(),
                self.data@.len() == old(self)@.len(),
                forall|j: int|
                    0 <= j < self.data@.len() ==> self.data@[j] == if from <= j < i {
                        0xFFu8
                    } else {
                        old(self)@[j]
                    },
            decreases end - i,
        {
            self.data[i] = 0xFF;
            i += 1;
        }
        assert(self.data@ =~= erased(old(self)@, from as int, to as int));
        Ok(())
    }
}

/// An erase whose ends do not both lie on sector boundaries is refused as
/// not aligned, wherever the ends lie otherwise. One whose ends do, and
/// that ends before it starts, is refused as out of bounds.
pub proof fn lemma_erase_refusals(capacity: nat, from: u32, to: u32)
    ensures
        from % 4096 != 0 || to % 4096 != 0 ==> W25q32jv::erase_outcome(
            capacity,
            from as int,
            to as int,
        ) == Err::<(), Error>(Error::NotAligned),
        from % 4096 == 0 && to % 4096 == 0 && from > to ==> W25q32jv::erase_outcome(
            capacity,
            from as int,
            to as int,
        ) == Err::<(), Error>(Error::OutOfBounds),
{
}

/// A write clears bits and sets none: every bit that is set after a write
/// was set before it, so that no byte grows by being written.
pub proof fn lemma_write_sets_no_bit(prior: Seq<u8>, offset: int, written: Seq<u8>)
    ensures
        and_merged(prior, offset, written).len() == prior.len(),
        forall|i: int|
            0 <= i < prior.len() ==> #[trigger] and_merged(prior, offset, written)[i] & !prior[i]
                == 0,
{
    assert forall|i: int| 0 <= i < prior.len() implies #[trigger] and_merged(
        prior,
        offset,
        written,
    )[i] & !prior[i] == 0 by {
        let p = prior[i];
        if offset <= i < offset + written.len() {
            let w = written[i - offset];
            assert((p & w) & !p == 0) by (bit_vector);
        } else {
            assert(p & !p == 0) by (bit_vector);
        }
    }
}

/// Writing `0xFF` changes nothing, whatever the memory holds.
pub proof fn lemma_write_of_ones_changes_nothing(prior: Seq<u8>, offset: int, written: Seq<u8>)
    requires
        forall|k: int| 0 <= k < written.len() ==> written[k] == 0xFFu8,
    ensures
        and_merged(prior, offset, written) == prior,
{
    assert forall|i: int| 0 <= i < prior.len() implies and_merged(prior, offset, written)[i]
        == prior[i] by {
        let p = prior[i];
        assert(p & 0xFFu8 == p) by (bit_vector);
    }
    assert(and_merged(prior, offset, written) =~= prior);
}

/// Writing `0x00` clears every addressed byte, whatever the memory holds.
pub proof fn lemma_write_of_zeros_clears(prior: Seq<u8>, offset: int, written: Seq<u8>)
    requires
        forall|k: int| 0 <= k < written.len() ==> written[k] == 0x00u8,
    ensures
        forall|i: int|
            0 <= i < prior.len() && offset <= i < offset + written.len() ==> and_merged(
                prior,
                offset,
                written,
            )[i] == 0x00u8,
{
    assert forall|i: int|
        0 <= i < prior.len() && offset <= i < offset + written.len() implies and_merged(
        prior,
        offset,
        written,
    )[i] == 0x00u8 by {
        let p = prior[i];
        assert(p & 0x00u8 == 0x00u8) by (bit_vector);
    }
}

/// What was written over erased bytes is what is read back: after the
/// bytes in `[from, to)` were erased and `written` was written at `offset`
/// inside that range, the bytes from `offset` on are those of `written`.
pub proof fn lemma_erase_write_read(
    prior: Seq<u8>,
    from: int,
    to: int,
    offset: int,
    written: Seq<u8>,
)
    requires
        0 <= from <= offset,
        offset + written.len() <= to <= prior.len(),
    ensures
        and_merged(erased(prior, from, to), offset, written).subrange(
            offset,
            offset + written.len(),
        ) == written,
{
    let after = and_merged(erased(prior, from, to), offset, written);
    assert forall|k: int| 0 <= k < written.len() implies after[offset + k] == written[k] by {
        let w = written[k];
        assert(0xFFu8 & w == w) by (bit_vector);
    }
    assert(after.subrange(offset, offset + written.len()) =~= written);
}

} // verus!
