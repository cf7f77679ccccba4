use vstd::prelude::*;

use crate::consts::{FIELD_BYTES, NUM_POSITIONS, W};
use crate::field::Pos;

verus! {

/// A packed occupancy map of the stored field: one bit per cell, row after row.
#[derive(Clone, Copy, Debug)]
pub struct BitmapField {
    bytes: [u8; FIELD_BYTES],
}

/// The bit index of a cell in the packed map.
pub open spec fn bit_index(pos: Pos) -> int {
    pos.y * W + pos.x
}

/// The cells whose bit index lies inside the packed map.
pub open spec fn in_bitmap(pos: Pos) -> bool {
    0 <= bit_index(pos) < NUM_POSITIONS && i32::MIN <= pos.y * W <= i32::MAX
}

pub open spec fn byte_bit(b: u8, s: int) -> bool {
    (b >> (s as u8)) & 1u8 == 1u8
}

proof fn lemma_or_bit(b: u8, s: u8, t: u8)
    requires
        s < 8,
        t < 8,
    ensures
        ((b | (1u8 << s)) >> t) & 1u8 == (if s == t { 1u8 } else { (b >> t) & 1u8 }),
{
    assert(((b | (1u8 << s)) >> t) & 1u8 == (if s == t { 1u8 } else { (b >> t) & 1u8 }))
        by (bit_vector)
        requires
            s < 8,
            t < 8,
    ;
}

proof fn lemma_and_mask(b: u8, s: u8)
    requires
        s < 8,
    ensures
        ((b & (1u8 << s)) != 0u8) == ((b >> s) & 1u8 == 1u8),
{
    assert(((b & (1u8 << s)) != 0u8) == ((b >> s) & 1u8 == 1u8)) by (bit_vector)
        requires
            s < 8,
    ;
}

proof fn lemma_zero_bit(s: u8)
    requires
        s < 8,
    ensures
        (0u8 >> s) & 1u8 == 0u8,
{
    assert((0u8 >> s) & 1u8 == 0u8) by (bit_vector);
}

proof fn lemma_bytes_differ(a: u8, b: u8)
    requires
        a != b,
    ensures
        exists|k: int| 0 <= k < 8 && byte_bit(a, k) != byte_bit(b, k),
{
    assert((((a >> 0u8) & 1u8 == 1u8) != ((b >> 0u8) & 1u8 == 1u8)) || (((a >> 1u8) & 1u8 == 1u8) != ((b >> 1u8) & 1u8 == 1u8)) || (((a >> 2u8) & 1u8 == 1u8) != ((b >> 2u8) & 1u8 == 1u8)) || (((a >> 3u8) & 1u8 == 1u8) != ((b >> 3u8) & 1u8 == 1u8)) || (((a >> 4u8) & 1u8 == 1u8) != ((b >> 4u8) & 1u8 == 1u8)) || (((a >> 5u8) & 1u8 == 1u8) != ((b >> 5u8) & 1u8 == 1u8)) || (((a >> 6u8) & 1u8 == 1u8) != ((b >> 6u8) & 1u8 == 1u8)) || (((a >> 7u8) & 1u8 == 1u8) != ((b >> 7u8) & 1u8 == 1u8))) by (bit_vector)
        requires
            a != b,
    ;
    if ((a >> 0u8) & 1u8 == 1u8) != ((b >> 0u8) & 1u8 == 1u8) {
        assert(byte_bit(a, 0) != byte_bit(b, 0));
    } else if ((a >> 1u8) & 1u8 == 1u8) != ((b >> 1u8) & 1u8 == 1u8) {
        assert(byte_bit(a, 1) != byte_bit(b, 1));
    } else if ((a >> 2u8) & 1u8 == 1u8) != ((b >> 2u8) & 1u8 == 1u8) {
        assert(byte_bit(a, 2) != byte_bit(b, 2));
    } else if ((a >> 3u8) & 1u8 == 1u8) != ((b >> 3u8) & 1u8 == 1u8) {
        assert(byte_bit(a, 3) != byte_bit(b, 3));
    } else if ((a >> 4u8) & 1u8 == 1u8) != ((b >> 4u8) & 1u8 == 1u8) {
        assert(byte_bit(a, 4) != byte_bit(b, 4));
    } else if ((a >> 5u8) & 1u8 == 1u8) != ((b >> 5u8) & 1u8 == 1u8) {
        assert(byte_bit(a, 5) != byte_bit(b, 5));
    } else if ((a >> 6u8) & 1u8 == 1u8) != ((b >> 6u8) & 1u8 == 1u8) {
        assert(byte_bit(a, 6) != byte_bit(b, 6));
    } else {
        assert(byte_bit(a, 7) != byte_bit(b, 7));
    }
}

impl PartialEq for BitmapField {
    fn eq(&self, other: &Self) -> (res: bool) {
        let mut i: usize = 0;
        while i < FIELD_BYTES
            invariant
                i <= FIELD_BYTES,
                forall|j: int| 0 <= j < i ==> self.bytes[j] == other.bytes[j],
            decreases FIELD_BYTES - i,
        {
            if self.bytes[i] != other.bytes[i] {
                proof {
                    lemma_bytes_differ(self.bytes[i as int], other.bytes[i as int]);
                    let k: int = choose|k: int| 0 <= k < 8 && byte_bit(self.bytes[i as int], k) != byte_bit(other.bytes[i as int], k);
                    let idx = i * 8 + k;
                    assert(idx / 8 == i as int && idx % 8 == k);
                    assert(self.bits()[idx] != other.bits()[idx]);
                }
                return false;
            }
            i = i + 1;
        }
        assert(self.bits() =~= other.bits());
        true
    }
}

impl Default for BitmapField {
    fn default() -> (res: Self)
        ensures
            forall|i: int| 0 <= i < NUM_POSITIONS ==> !#[trigger] res.bits()[i],
    {
        Self::new()
    }
}

impl Eq for BitmapField {
}

impl vstd::std_specs::cmp::PartialEqSpecImpl for BitmapField {
    open spec fn obeys_eq_spec() -> bool {
        true
    }

    open spec fn eq_spec(&self, other: &Self) -> bool {
        self.bits() == other.bits()
    }
}

impl BitmapField {
    /// Whether the cell with the given bit index is marked.
    pub closed spec fn bit(self, i: int) -> bool {
        byte_bit(self.bytes[i / 8], i % 8)
    }

    /// The map as a sequence of bits, indexed by `bit_index`.
    pub open spec fn bits(self) -> Seq<bool> {
        Seq::new(NUM_POSITIONS as nat, |i: int| self.bit(i))
    }

    /// An empty map.
    pub fn new() -> (res: Self)
        ensures
            forall|i: int| 0 <= i < NUM_POSITIONS ==> !#[trigger] res.bit(i),
    {
        let res = BitmapField { bytes: [0u8; FIELD_BYTES] };
        assert forall|i: int| 0 <= i < NUM_POSITIONS implies !#[trigger] res.bit(i) by {
            assert(res.bytes[i / 8] == 0u8);
            lemma_zero_bit((i % 8) as u8);
        }
        res
    }

    /// Marks the cell `pos`.
    pub fn set(&mut self, pos: &Pos)
        requires
            in_bitmap(*pos),
        ensures
            forall|i: int|
                0 <= i < NUM_POSITIONS ==> #[trigger] final(self).bit(i) == (old(self).bit(i) || i
                    == bit_index(*pos)),
    {
        let (byte, mask) = Self::byte_and_mask(pos);
        let ghost s = bit_index(*pos) % 8;
        self.bytes[byte] = self.bytes[byte] | mask;
        proof {
            assert forall|i: int| 0 <= i < NUM_POSITIONS implies #[trigger] self.bit(i) == (
            old(self).bit(i) || i == bit_index(*pos)) by {
                if i / 8 == byte as int {
                    lemma_or_bit(old(self).bytes[byte as int], s as u8, (i % 8) as u8);
                } else {
                    assert(self.bytes[i / 8] == old(self).bytes[i / 8]);
                }
            }
        }
    }

    /// Whether the cell `pos` is marked.
    pub fn occupied(&self, pos: &Pos) -> (res: bool)
        requires
            in_bitmap(*pos),
        ensures
            res == self.bit(bit_index(*pos)),
    {
        let (byte, mask) = Self::byte_and_mask(pos);
        proof {
            lemma_and_mask(self.bytes[byte as int], (bit_index(*pos) % 8) as u8);
        }
        (self.bytes[byte] & mask) != 0
    }

    fn byte_and_mask(pos: &Pos) -> (res: (usize, u8))
        requires
            in_bitmap(*pos),
        ensures
            res.0 == bit_index(*pos) / 8,
            res.0 < FIELD_BYTES,
            res.1 == 1u8 << ((bit_index(*pos) % 8) as u8),
    {
        let bit_index = (pos.y * W + pos.x) as usize;
        let byte = bit_index / 8;
        let mask_shift = bit_index - (byte * 8);
        (byte, 1u8 << (mask_shift as u8))
    }
}

} // verus!
