//! Bit-level allocation bitmap over a byte array.

use vstd::prelude::*;

use crate::{Ext4Error, Ext4Result};

verus! {

/// Bit `i` of the byte array `data`, in the ext4 layout: bit `i % 8`
/// (from the least significant end) of byte `i / 8`.
pub open spec fn spec_bit_of(data: Seq<u8>, i: int) -> bool {
    0 <= i < data.len() * 8 && ((data[i / 8] >> ((i % 8) as u8)) & 1) == 1
}

/// `bit` is the lowest clear bit of the byte array `bytes`.
pub open spec fn spec_first_free(bytes: Seq<u8>, bit: int) -> bool {
    &&& 0 <= bit < bytes.len() * 8
    &&& !spec_bit_of(bytes, bit)
    &&& forall|j: int| 0 <= j < bit ==> spec_bit_of(bytes, j)
}

/// Bitmap for tracking allocated blocks/inodes
#[derive(Debug, Clone)]
pub struct Bitmap {
    data: Vec<u8>,
    size: usize,
}

impl Bitmap {
    /// The backing bytes.
    pub closed spec fn spec_data(&self) -> Seq<u8> {
        self.data@
    }

    /// The number of bits.
    pub closed spec fn spec_size(&self) -> int {
        self.size as int
    }

    /// Bit `i` is within range and set.
    pub closed spec fn spec_bit(&self, i: int) -> bool {
        0 <= i < self.size && ((self.data@[i / 8] >> ((i % 8) as u8)) & 1) == 1
    }

    /// Every bit of the declared size lies inside the backing bytes.
    pub closed spec fn wf(&self) -> bool {
        self.size <= self.data@.len() * 8
    }

    /// A bitmap built by [`Bitmap::from_bytes`] has exactly the bits of its bytes.
    pub proof fn lemma_bits_from_bytes(&self, data: Seq<u8>)
        requires
            self.spec_data() == data,
            self.spec_size() == data.len() * 8,
        ensures
            forall|i: int| self.spec_bit(i) == spec_bit_of(data, i),
    {
    }

    /// Create a bitmap from bytes
    pub fn from_bytes(data: &[u8]) -> (r: Self)
        requires
            data@.len() * 8 <= usize::MAX,
        ensures
            r.wf(),
            r.spec_data() == data@,
            r.spec_size() == data@.len() * 8,
    {
        Self { data: vstd::slice::slice_to_vec(data), size: data.len() * 8 }
    }

    /// Create a new empty bitmap
    pub fn new(size: usize) -> (r: Self)
        requires
            size + 7 <= usize::MAX,
        ensures
            r.wf(),
            r.spec_size() == size,
            r.spec_data().len() == (size + 7) / 8,
            forall|i: int| !r.spec_bit(i),
    {
        let byte_count = (size + 7) / 8;
        assert(size <= byte_count * 8) by (nonlinear_arith)
            requires
                byte_count == (size + 7) / 8,
        ;
        let data = crate::le::zero_vec(byte_count);
        let r = Self { data, size };
        assert forall|i: int| !r.spec_bit(i) by {
            if 0 <= i < r.size {
                let d = r.data@[i / 8];
                let k = (i % 8) as u8;
                assert(d == 0u8);
                assert(((0u8 >> k) & 1) != 1) by (bit_vector);
            }
        }
        r
    }

    /// Check if a bit is set
    pub fn is_set(&self, bit: usize) -> (r: bool)
        requires
            self.wf(),
        ensures
            r == self.spec_bit(bit as int),
    {
        if bit >= self.size {
            return false;
        }
        let byte_index = bit / 8;
        let bit_index = (bit % 8) as u8;
        (self.data[byte_index] >> bit_index) & 1 == 1
    }

    /// Set a bit
    pub fn set(&mut self, bit: usize) -> (r: Ext4Result<()>)
        requires
            old(self).wf(),
        ensures
            final(self).wf(),
            final(self).spec_size() == old(self).spec_size(),
            bit < old(self).spec_size() ==> r is Ok,
            bit >= old(self).spec_size() ==> r == Ext4Result::<()>::Err(Ext4Error::InvalidInput)
                && *final(self) == *old(self),
            r is Ok ==> forall|j: int|
                final(self).spec_bit(j) == (j == bit || old(self).spec_bit(j)),
    {
        if bit >= self.size {
            return Err(Ext4Error::InvalidInput);
        }
        let byte_index = bit / 8;
        let bit_index = (bit % 8) as u8;
        let d = self.data[byte_index];
        let nd = d | (1u8 << bit_index);
        self.data[byte_index] = nd;
        proof {
            let k = bit_index;
            assert forall|j: int| self.spec_bit(j) == (j == bit || old(self).spec_bit(j)) by {
                if 0 <= j < self.size {
                    if j / 8 == byte_index {
                        let jb = (j % 8) as u8;
                        assert((((d | (1u8 << k)) >> jb) & 1 == 1) <==> (jb == k || ((d >> jb) & 1
                            == 1))) by (bit_vector)
                            requires
                                k < 8,
                                jb < 8,
                        ;
                        if j != bit && jb == k {
                            vstd::arithmetic::div_mod::lemma_fundamental_div_mod(j, 8);
                            vstd::arithmetic::div_mod::lemma_fundamental_div_mod(bit as int, 8);
                        }
                    }
                }
            }
        }
        Ok(())
    }

    /// Clear a bit
    pub fn clear(&mut self, bit: usize) -> (r: Ext4Result<()>)
        requires
            old(self).wf(),
        ensures
            final(self).wf(),
            final(self).spec_size() == old(self).spec_size(),
            bit < old(self).spec_size() ==> r is Ok,
            bit >= old(self).spec_size() ==> r == Ext4Result::<()>::Err(Ext4Error::InvalidInput)
                && *final(self) == *old(self),
            r is Ok ==> forall|j: int|
                final(self).spec_bit(j) == (j != bit && old(self).spec_bit(j)),
    {
        if bit >= self.size {
            return Err(Ext4Error::InvalidInput);
        }
        let byte_index = bit / 8;
        let bit_index = (bit % 8) as u8;
        let d = self.data[byte_index];
        let nd = d & !(1u8 << bit_index);
        self.data[byte_index] = nd;
        proof {
            let k = bit_index;
            assert forall|j: int| self.spec_bit(j) == (j != bit && old(self).spec_bit(j)) by {
                if 0 <= j < self.size {
                    if j / 8 == byte_index {
                        let jb = (j % 8) as u8;
                        assert((((d & !(1u8 << k)) >> jb) & 1 == 1) <==> (jb != k && ((d >> jb) & 1
                            == 1))) by (bit_vector)
                            requires
                                k < 8,
                                jb < 8,
                        ;
                        if j != bit && jb == k {
                            vstd::arithmetic::div_mod::lemma_fundamental_div_mod(j, 8);
                            vstd::arithmetic::div_mod::lemma_fundamental_div_mod(bit as int, 8);
                        }
                    }
                }
            }
        }
        Ok(())
    }

    /// Find the first free bit
    pub fn find_first_free(&self) -> (r: Option<usize>)
        requires
            self.wf(),
        ensures
            match r {
                Some(i) => i < self.spec_size() && !self.spec_bit(i as int) && forall|j: int|
                    0 <= j < i ==> self.spec_bit(j),
                None => forall|j: int| 0 <= j < self.spec_size() ==> self.spec_bit(j),
            },
    {
        let mut i: usize = 0;
        while i < self.size
            invariant
                self.wf(),
                0 <= i <= self.size,
                forall|j: int| 0 <= j < i ==> self.spec_bit(j),
            decreases self.size - i,
        {
            if !self.is_set(i) {
                return Some(i);
            }
            i += 1;
        }
        None
    }

    /// Find the first set bit
    pub fn find_first_set(&self) -> (r: Option<usize>)
        requires
            self.wf(),
        ensures
            match r {
                Some(i) => self.spec_bit(i as int) && forall|j: int|
                    0 <= j < i ==> !self.spec_bit(j),
                None => forall|j: int| !self.spec_bit(j),
            },
    {
        let mut i: usize = 0;
        while i < self.size
            invariant
                self.wf(),
                0 <= i <= self.size,
                forall|j: int| 0 <= j < i ==> !self.spec_bit(j),
            decreases self.size - i,
        {
            if self.is_set(i) {
                return Some(i);
            }
            i += 1;
        }
        None
    }

    /// The number of free bits among the first `n`.
    pub open spec fn spec_count_free(&self, n: int) -> int
        decreases n,
    {
        if n <= 0 {
            0
        } else {
            self.spec_count_free(n - 1) + if self.spec_bit(n - 1) {
                0int
            } else {
                1int
            }
        }
    }

    /// Count the number of free bits
    pub fn count_free(&self) -> (r: usize)
        requires
            self.wf(),
        ensures
            r == self.spec_count_free(self.spec_size()),
    {
        let mut count: usize = 0;
        let mut i: usize = 0;
        proof {
            self.lemma_count_free_bound(self.spec_size());
        }
        while i < self.size
            invariant
                self.wf(),
                0 <= i <= self.size,
                count == self.spec_count_free(i as int),
                count <= i,
            decreases self.size - i,
        {
            if !self.is_set(i) {
                count += 1;
            }
            i += 1;
        }
        count
    }

    proof fn lemma_count_free_bound(&self, n: int)
        ensures
            self.spec_count_free(n) <= if n <= 0 {
                0int
            } else {
                n
            },
        decreases n,
    {
        if n > 0 {
            self.lemma_count_free_bound(n - 1);
        }
    }

    /// Count the number of set bits
    pub fn count_set(&self) -> (r: usize)
        requires
            self.wf(),
        ensures
            r == self.spec_size() - self.spec_count_free(self.spec_size()),
    {
        proof {
            self.lemma_count_free_bound(self.spec_size());
            self.lemma_count_free_nonneg(self.spec_size());
        }
        self.size - self.count_free()
    }

    proof fn lemma_count_free_nonneg(&self, n: int)
        ensures
            self.spec_count_free(n) >= 0,
        decreases n,
    {
        if n > 0 {
            self.lemma_count_free_nonneg(n - 1);
        }
    }

    /// Get the bitmap data as bytes
    pub fn as_bytes(&self) -> (r: &[u8])
        ensures
            r@ == self.spec_data(),
    {
        self.data.as_slice()
    }

    /// Get the bitmap size in bits
    pub fn size(&self) -> (r: usize)
        ensures
            r == self.spec_size(),
    {
        self.size
    }
}

} // verus!
