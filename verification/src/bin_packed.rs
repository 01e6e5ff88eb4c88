//! A bit-packed array and by-value indexing.
//!
//! Font plates and the display framebuffer store one bit per cell; this
//! container packs them eight to a byte and exposes them through by-value
//! indexing traits.
use vstd::arithmetic::div_mod::{lemma_fundamental_div_mod, lemma_mod_bound,
    lemma_multiply_divide_lt};
use vstd::prelude::*;

verus! {

/// Read access by value at an index.
pub trait IndexByValue<Idx> {
    type Data;

    /// Whether the index addresses a cell.
    spec fn spec_valid_index(&self, index: Idx) -> bool;

    /// The value the cell holds.
    spec fn spec_at(&self, index: Idx) -> Self::Data;

    /// Reads the cell at `index`.
    fn at(&self, index: Idx) -> (r: Self::Data)
        requires
            self.spec_valid_index(index),
        ensures
            r == self.spec_at(index),
    ;
}

/// Write access by value at an index.
pub trait IndexByValueMut<Idx>: IndexByValue<Idx> {
    /// Writes the cell at `index`, leaving every other cell alone.
    fn set(&mut self, index: Idx, value: Self::Data)
        requires
            old(self).spec_valid_index(index),
        ensures
            forall|j: Idx| #[trigger]
                final(self).spec_valid_index(j) == old(self).spec_valid_index(j),
            final(self).spec_at(index) == value,
            forall|j: Idx|
                old(self).spec_valid_index(j) && j != index ==> #[trigger] final(self).spec_at(j)
                    == old(self).spec_at(j),
    ;
}

/// An array of bits packed eight to a byte, addressed by bit index.
#[derive(Clone, Debug)]
pub struct BinPackedArray {
    pub data: Vec<u8>,
}

impl BinPackedArray {
    /// A cleared array of `n` bytes (eight times as many bits).
    pub fn new(n: usize) -> (r: BinPackedArray)
        ensures
            r.data@.len() == n,
            forall|i: u16| r.spec_valid_index(i) ==> !(#[trigger] r.spec_at(i)),
    {
        let mut data: Vec<u8> = Vec::new();
        let mut i: usize = 0;
        while i < n
            invariant
                i <= n,
                data@.len() == i,
                forall|j: int| 0 <= j < i ==> data@[j] == 0u8,
            decreases n - i,
        {
            data.push(0);
            i = i + 1;
        }
        let r = BinPackedArray { data };
        proof {
            assert forall|i: u16| r.spec_valid_index(i) implies !r.spec_at(i) by {
                lemma_mod_bound(i as int, 8);
                lemma_multiply_divide_lt(i as int, 8, r.data@.len() as int);
                let b = r.data@[i as int / 8];
                let k = (i % 8) as u8;
                assert(b == 0 ==> (b & (1u8 << k)) == 0) by (bit_vector);
            }
        }
        r
    }
}

impl IndexByValue<u16> for BinPackedArray {
    type Data = bool;

    open spec fn spec_valid_index(&self, index: u16) -> bool {
        (index as int) < 8 * self.data@.len()
    }

    open spec fn spec_at(&self, index: u16) -> bool {
        (self.data@[index as int / 8] & (1u8 << ((index % 8) as u8))) != 0
    }

    fn at(&self, index: u16) -> (r: bool) {
        let data_idx = index / 8;
        let char_idx = index % 8;
        proof {
            lemma_mod_bound(index as int, 8);
            lemma_multiply_divide_lt(index as int, 8, self.data@.len() as int);
            assert(8 * self.data@.len() == self.data@.len() * 8) by (nonlinear_arith);
        }
        let byte = self.data[data_idx as usize];
        (byte & (1u8 << (char_idx as u8))) != 0
    }
}

/// Setting one bit touches no other bit of the byte.
proof fn lemma_bit_write(x: u8, k: u8, value: bool)
    by (bit_vector)
    requires
        k < 8,
    ensures
        value ==> ((x | (1u8 << k)) & (1u8 << k)) != 0,
        !value ==> (((x ^ (x & (1u8 << k))) & (1u8 << k))) == 0,
        forall|j: u8|
            j < 8 && j != k ==> ((x | (1u8 << k)) & (1u8 << j)) == (x & #[trigger] (1u8 << j)),
        forall|j: u8|
            j < 8 && j != k ==> ((x ^ (x & (1u8 << k))) & (1u8 << j)) == (x & #[trigger] (1u8
                << j)),
{
}

impl IndexByValueMut<u16> for BinPackedArray {
    fn set(&mut self, index: u16, value: bool) {
        let data_idx = index / 8;
        let char_idx = index % 8;
        proof {
            lemma_mod_bound(index as int, 8);
            lemma_multiply_divide_lt(index as int, 8, self.data@.len() as int);
            assert(8 * self.data@.len() == self.data@.len() * 8) by (nonlinear_arith);
        }
        let mut byte = self.data[data_idx as usize];
        let mask: u8 = 1u8 << (char_idx as u8);

        if value {
            byte = byte | mask;
        } else {
            byte = byte ^ (byte & mask);
        }

        self.data.set(data_idx as usize, byte);
        proof {
            let old_byte = old(self).data@[data_idx as int];
            lemma_bit_write(old_byte, char_idx as u8, value);
            lemma_fundamental_div_mod(index as int, 8);
            assert forall|j: u16|
                old(self).spec_valid_index(j) && j != index implies #[trigger] self.spec_at(j)
                == old(self).spec_at(j) by {
                lemma_mod_bound(j as int, 8);
                lemma_fundamental_div_mod(j as int, 8);
                if j as int / 8 == index as int / 8 {
                    assert(j % 8 != index % 8);
                    lemma_bit_write(old_byte, char_idx as u8, value);
                    let jk = (j % 8) as u8;
                    assert(jk < 8 && jk != char_idx as u8);
                }
            }
        }
    }
}

} // verus!
