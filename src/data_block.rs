use vstd::prelude::*;

use crate::error::ErrorKind;

verus! {

/// The largest byte length that the platform can hold in one block.
pub open spec fn max_byte_length() -> int {
    isize::MAX as int
}

/// A distinct, fixed-size sequence of bytes, all zero when created.
#[derive(Debug, Clone)]
pub struct DataBlock {
    inner: Vec<u8>,
}

impl View for DataBlock {
    type V = Seq<u8>;

    closed spec fn view(&self) -> Seq<u8> {
        self.inner@
    }
}

/// `size` zero bytes.
pub open spec fn zeros(size: nat) -> Seq<u8> {
    Seq::new(size, |i: int| 0u8)
}

impl DataBlock {
    /// A block of no bytes, for a view that has no storage yet.
    pub fn empty() -> (r: DataBlock)
        ensures
            r@ == Seq::<u8>::empty(),
    {
        DataBlock { inner: Vec::new() }
    }

    /// `CreateByteDataBlock(size)`: a block of exactly `size` zero bytes, or a range
    /// error where `size` exceeds the platform's byte-length limit.
    pub fn create_byte_data_block(size: usize) -> (r: Result<DataBlock, ErrorKind>)
        ensures
            r is Ok <==> size <= max_byte_length(),
            r is Err ==> r == Err::<DataBlock, ErrorKind>(ErrorKind::RangeError),
            r matches Ok(b) ==> b@ == zeros(size as nat),
    {
        if size > isize::MAX as usize {
            return Err(ErrorKind::RangeError);
        }
        let mut inner: Vec<u8> = Vec::new();
        let mut i: usize = 0;
        while i < size
            invariant
                i <= size,
                inner@ == zeros(i as nat),
            decreases size - i,
        {
            inner.push(0u8);
            i = i + 1;
            assert(inner@ =~= zeros(i as nat));
        }
        Ok(DataBlock { inner })
    }

    /// A block holding exactly the given bytes.
    pub fn from_bytes(bytes: Vec<u8>) -> (r: DataBlock)
        ensures
            r@ == bytes@,
    {
        DataBlock { inner: bytes }
    }

    /// A copy of this block's bytes.
    pub fn duplicate(&self) -> (r: DataBlock)
        ensures
            r@ == self@,
    {
        let mut inner: Vec<u8> = Vec::new();
        let mut i: usize = 0;
        while i < self.inner.len()
            invariant
                i <= self.inner@.len(),
                inner@ == self.inner@.subrange(0, i as int),
            decreases self.inner@.len() - i,
        {
            inner.push(self.inner[i]);
            i = i + 1;
            assert(inner@ =~= self.inner@.subrange(0, i as int));
        }
        assert(inner@ =~= self.inner@);
        DataBlock { inner }
    }

    /// Number of bytes in the block.
    pub fn len(&self) -> (r: usize)
        ensures
            r == self@.len(),
    {
        self.inner.len()
    }

    /// The byte at `index`.
    pub fn get(&self, index: usize) -> (r: u8)
        requires
            index < self@.len(),
        ensures
            r == self@[index as int],
    {
        self.inner[index]
    }

    /// Overwrites the bytes from `offset` on with `bytes`.
    pub fn write(&mut self, offset: usize, bytes: &[u8])
        requires
            offset + bytes@.len() <= old(self)@.len(),
        ensures
            final(self)@.len() == old(self)@.len(),
            final(self)@ == old(self)@.subrange(0, offset as int) + bytes@ + old(self)@.subrange(
                offset + bytes@.len(),
                old(self)@.len() as int,
            ),
    {
        let n = self.inner.len();
        let mut i: usize = 0;
        while i < bytes.len()
            invariant
                i <= bytes@.len(),
                n == self.inner@.len(),
                offset + bytes@.len() <= old(self)@.len(),
                self.inner@.len() == old(self)@.len(),
                forall|j: int|
                    0 <= j < self.inner@.len() ==> #[trigger] self.inner@[j] == if offset <= j
                        < offset + i {
                        bytes@[j - offset]
                    } else {
                        old(self)@[j]
                    },
            decreases bytes@.len() - i,
        {
            self.inner.set(offset + i, bytes[i]);
            i = i + 1;
        }
        assert(self.inner@ =~= old(self)@.subrange(0, offset as int) + bytes@ + old(self)@.subrange(
            offset + bytes@.len(),
            old(self)@.len() as int,
        ));
    }
}

} // verus!
