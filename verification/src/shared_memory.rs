//! Shared memory exchanged between the two halves.
//!
//! Two fixed-layout structs carry each half's raw matrix rows; they are the
//! only data ever transmitted over the wire. In the firmware they are
//! shared with the serial interrupt handler and therefore only touched
//! inside atomic sections; here they are plain owned state.
use vstd::prelude::*;

verus! {

/// The master's outgoing view: its half of the matrix, one byte per row.
#[derive(Clone, Debug)]
pub struct MasterSharedMemory {
    pub master_matrix: Vec<u8>,
}

impl MasterSharedMemory {
    /// The payload always holds one row value per row of a half.
    pub open spec fn wf(&self, rows_per_hand: u8) -> bool {
        self.master_matrix@.len() == rows_per_hand
    }

    /// A zeroed payload for a half with `rows_per_hand` rows.
    pub fn new(rows_per_hand: u8) -> (r: MasterSharedMemory)
        ensures
            r.wf(rows_per_hand),
            forall|i: int| 0 <= i < rows_per_hand ==> r.master_matrix@[i] == 0u8,
    {
        MasterSharedMemory { master_matrix: zero_rows(rows_per_hand) }
    }
}

/// The slave's outgoing view: its half of the matrix, one byte per row.
#[derive(Clone, Debug)]
pub struct SlaveSharedMemory {
    pub slave_matrix: Vec<u8>,
}

impl SlaveSharedMemory {
    /// The payload always holds one row value per row of a half.
    pub open spec fn wf(&self, rows_per_hand: u8) -> bool {
        self.slave_matrix@.len() == rows_per_hand
    }

    /// A zeroed payload for a half with `rows_per_hand` rows.
    pub fn new(rows_per_hand: u8) -> (r: SlaveSharedMemory)
        ensures
            r.wf(rows_per_hand),
            forall|i: int| 0 <= i < rows_per_hand ==> r.slave_matrix@[i] == 0u8,
    {
        SlaveSharedMemory { slave_matrix: zero_rows(rows_per_hand) }
    }
}

/// Copies `count` rows out of `src` starting at `offset`.
pub fn copy_rows(src: &Vec<u8>, offset: u8, count: u8) -> (r: Vec<u8>)
    requires
        offset + count <= src@.len(),
    ensures
        r@ == src@.subrange(offset as int, offset + count),
{
    let mut out: Vec<u8> = Vec::new();
    let mut i: u8 = 0;
    while i < count
        invariant
            i <= count,
            offset + count <= src@.len(),
            out@ == src@.subrange(offset as int, offset + i),
        decreases count - i,
    {
        out.push(src[offset as usize + i as usize]);
        proof {
            assert(out@ =~= src@.subrange(offset as int, offset + i + 1));
        }
        i = i + 1;
    }
    out
}

/// Writes the rows of `src` into `dst` starting at `offset`; the rest of
/// `dst` stays as it was.
pub fn write_rows(dst: &mut Vec<u8>, offset: u8, src: &Vec<u8>)
    requires
        offset + src@.len() <= old(dst)@.len(),
        src@.len() <= 255,
    ensures
        final(dst)@.len() == old(dst)@.len(),
        forall|j: int|
            offset <= j < offset + src@.len() ==> final(dst)@[j] == src@[j - offset],
        forall|j: int|
            0 <= j < old(dst)@.len() && !(offset <= j < offset + src@.len()) ==> final(dst)@[j]
                == old(dst)@[j],
{
    let count: u8 = src.len() as u8;
    let mut i: u8 = 0;
    while i < count
        invariant
            i <= count,
            count == src@.len(),
            offset + count <= dst@.len(),
            dst@.len() == old(dst)@.len(),
            forall|j: int| offset <= j < offset + i ==> dst@[j] == src@[j - offset],
            forall|j: int|
                0 <= j < old(dst)@.len() && !(offset <= j < offset + i) ==> dst@[j] == old(
                    dst,
                )@[j],
        decreases count - i,
    {
        dst.set(offset as usize + i as usize, src[i as usize]);
        i = i + 1;
    }
}

/// A vector of `n` zeroed matrix rows.
pub fn zero_rows(n: u8) -> (r: Vec<u8>)
    ensures
        r@.len() == n,
        forall|i: int| 0 <= i < n ==> r@[i] == 0u8,
{
    let mut rows: Vec<u8> = Vec::new();
    let mut i: u8 = 0;
    while i < n
        invariant
            i <= n,
            rows@.len() == i,
            forall|j: int| 0 <= j < i ==> rows@[j] == 0u8,
        decreases n - i,
    {
        rows.push(0);
        i = i + 1;
    }
    rows
}

} // verus!
