//! Button-matrix scanner.
//!
//! Eleven open-drain column lines are asserted (driven low) one at a time;
//! while exactly one column is asserted, the eight shared row lines are
//! sampled and packed into one byte per column. Because the row lines are
//! wired-OR across all columns, a sample is only meaningful while exactly
//! one column line is asserted: that discipline is what the contracts of
//! `assert_column`, `sample_rows` and `release_column` enforce.
//!
//! The scanner owns a model of the column-line levels; the surrounding
//! firmware mirrors each level change onto the real pins, busy-waits for
//! the settle delay, and hands the sampled row-line levels back in.

use vstd::prelude::*;

verus! {

broadcast use vstd::array::group_array_axioms;

/// Model of the column drivers of the matrix: entry `c` is `true` while
/// column line `c` is asserted (driven low). The row lines are inputs and
/// enter the scanner through `sample_rows`.
pub struct ButtonMatrixPins {
    pub cols: [bool; 11],
}

/// One complete snapshot of the key matrix: one byte per column, bit `i`
/// holding the sampled level of row line `i`.
pub struct ButtonMatrix {
    pins: ButtonMatrixPins,
    rows: [u8; 11],
}

/// The byte that packs eight sampled row-line levels, bit `i` = row `i`.
pub open spec fn pack_rows(levels: [bool; 8]) -> u8 {
    (if levels[0] { 0x01u8 } else { 0u8 })
        | (if levels[1] { 0x02u8 } else { 0u8 })
        | (if levels[2] { 0x04u8 } else { 0u8 })
        | (if levels[3] { 0x08u8 } else { 0u8 })
        | (if levels[4] { 0x10u8 } else { 0u8 })
        | (if levels[5] { 0x20u8 } else { 0u8 })
        | (if levels[6] { 0x40u8 } else { 0u8 })
        | (if levels[7] { 0x80u8 } else { 0u8 })
}

/// Bit `i` of the packed byte reproduces exactly the sampled level of row `i`.
pub proof fn lemma_pack_rows_bit(levels: [bool; 8], i: u8)
    requires
        i < 8,
    ensures
        ((pack_rows(levels) >> i) & 1 == 1) <==> levels[i as int],
{
    let b0 = levels[0];
    let b1 = levels[1];
    let b2 = levels[2];
    let b3 = levels[3];
    let b4 = levels[4];
    let b5 = levels[5];
    let b6 = levels[6];
    let b7 = levels[7];
    let packed = pack_rows(levels);
    assert(packed == (if b0 { 0x01u8 } else { 0u8 }) | (if b1 { 0x02u8 } else { 0u8 })
        | (if b2 { 0x04u8 } else { 0u8 }) | (if b3 { 0x08u8 } else { 0u8 })
        | (if b4 { 0x10u8 } else { 0u8 }) | (if b5 { 0x20u8 } else { 0u8 })
        | (if b6 { 0x40u8 } else { 0u8 }) | (if b7 { 0x80u8 } else { 0u8 }));
    assert((((if b0 { 0x01u8 } else { 0u8 }) | (if b1 { 0x02u8 } else { 0u8 })
        | (if b2 { 0x04u8 } else { 0u8 }) | (if b3 { 0x08u8 } else { 0u8 })
        | (if b4 { 0x10u8 } else { 0u8 }) | (if b5 { 0x20u8 } else { 0u8 })
        | (if b6 { 0x40u8 } else { 0u8 }) | (if b7 { 0x80u8 } else { 0u8 })) >> i) & 1 == 1
        <==> (if i == 0 {
        b0
    } else if i == 1 {
        b1
    } else if i == 2 {
        b2
    } else if i == 3 {
        b3
    } else if i == 4 {
        b4
    } else if i == 5 {
        b5
    } else if i == 6 {
        b6
    } else {
        b7
    })) by (bit_vector)
        requires
            i < 8,
    ;
}

impl ButtonMatrix {
    /// Levels of the eleven column lines (`true` = asserted low).
    pub closed spec fn cols(&self) -> Seq<bool> {
        self.pins.cols@
    }

    /// The stored snapshot, one packed byte per column.
    pub closed spec fn rows(&self) -> Seq<u8> {
        self.rows@
    }

    /// No column line is asserted: the idle state between samples.
    pub open spec fn all_released(&self) -> bool {
        forall|j: int| 0 <= j < 11 ==> !self.cols()[j]
    }

    /// Column `c` is asserted and every other column is released. Sampling
    /// the shared row lines is meaningful only in this state.
    pub open spec fn asserted_exactly(&self, c: int) -> bool {
        &&& self.cols()[c]
        &&& forall|j: int| 0 <= j < 11 && j != c ==> !self.cols()[j]
    }

    /// A fresh scanner with an all-zero snapshot. The column drivers are
    /// handed over in their idle (released) state.
    pub fn new(pins: ButtonMatrixPins) -> (m: Self)
        requires
            forall|j: int| 0 <= j < 11 ==> !pins.cols@[j],
        ensures
            m.all_released(),
            m.rows() =~= Seq::new(11, |i: int| 0u8),
    {
        ButtonMatrix { pins, rows: [0u8; 11] }
    }

    /// Yields the snapshot by value, consuming the scanner.
    pub fn get_rows(self) -> (r: [u8; 11])
        ensures
            r@ == self.rows(),
    {
        self.rows
    }

    /// Drives column line `c` low. Asking for this while another column is
    /// still asserted would corrupt the shared row lines, so all columns
    /// must be released beforehand.
    pub fn assert_column(&mut self, c: usize)
        requires
            c < 11,
            old(self).all_released(),
        ensures
            final(self).asserted_exactly(c as int),
            final(self).rows() == old(self).rows(),
    {
        self.pins.cols[c] = true;
        proof {
            assert(self.cols()[c as int]);
            assert forall|j: int| 0 <= j < 11 && j != c implies !self.cols()[j] by {
                assert(!old(self).cols()[j]);
            }
        }
    }

    /// Stores the row-line levels sampled for column `c`, packed into one
    /// byte. At the sampling instant exactly column `c` must be asserted.
    pub fn sample_rows(&mut self, c: usize, levels: [bool; 8])
        requires
            c < 11,
            old(self).asserted_exactly(c as int),
        ensures
            final(self).asserted_exactly(c as int),
            final(self).rows() == old(self).rows().update(c as int, pack_rows(levels)),
    {
        let row: u8 = (if levels[0] { 0x01u8 } else { 0u8 }) | (if levels[1] {
            0x02u8
        } else {
            0u8
        }) | (if levels[2] { 0x04u8 } else { 0u8 }) | (if levels[3] { 0x08u8 } else { 0u8 }) | (
        if levels[4] {
            0x10u8
        } else {
            0u8
        }) | (if levels[5] { 0x20u8 } else { 0u8 }) | (if levels[6] { 0x40u8 } else { 0u8 }) | (
        if levels[7] {
            0x80u8
        } else {
            0u8
        });
        self.rows[c] = row;
    }

    /// Releases column line `c` (back to the open-drain idle level),
    /// restoring the all-released state before the next column is asserted.
    pub fn release_column(&mut self, c: usize)
        requires
            c < 11,
            old(self).asserted_exactly(c as int),
        ensures
            final(self).all_released(),
            final(self).rows() == old(self).rows(),
    {
        self.pins.cols[c] = false;
    }
}

} // verus!
