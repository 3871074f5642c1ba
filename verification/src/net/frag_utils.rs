//! A bitmap of the 8-byte blocks of a datagram received so far, used when
//! reassembling fragments.

use vstd::prelude::*;

verus! {

/// The number of bytes in a bitmap: 160 blocks of 8 bytes.
pub const BITMAP_SIZE: usize = 20;

/// A bitmap over 160 blocks; block `i` is bit `i % 8` of byte `i / 8`.
pub struct Bitmap {
    map: [u8; 20],
}

/// Whether bit `j` (0 to 7) of `x` is set.
pub open spec fn bit_of(x: u8, j: int) -> bool {
    (x >> (j as u8)) & 1u8 == 1u8
}

/// The bits of byte `k` that cover blocks `start..end`.
pub open spec fn range_mask(start: int, end: int, k: int) -> u8 {
    let s = start / 8;
    let e = end / 8;
    let first = (0xffu8 << ((start % 8) as u8)) as u8;
    let second = (0xffu8 >> ((8 - end % 8) as u8)) as u8;
    if k < s || k > e {
        0u8
    } else if s == e {
        (first & second) as u8
    } else if k == s {
        first
    } else if k == e {
        second
    } else {
        0xffu8
    }
}

/// The bits of the last byte that a datagram of `total` blocks covers.
pub open spec fn tail_mask(total: int) -> u8 {
    (0xffu8 >> ((8 - total % 8) as u8)) as u8
}

/// Bit facts about the masks that cover a range of bits.
proof fn lemma_mask_bits(s: u8, e: u8, j: u8)
    by (bit_vector)
    requires
        s < 8u8,
        1u8 <= e < 8u8,
        j < 8u8,
    ensures
        (((0xffu8 << s) >> j) & 1u8 == 1u8) == (j >= s),
        (((0xffu8 >> ((8u8 - e) as u8)) >> j) & 1u8 == 1u8) == (j < e),
        ((((0xffu8 << s) & (0xffu8 >> ((8u8 - e) as u8))) >> j) & 1u8 == 1u8) == (j >= s && j < e),
        (0xffu8 >> j) & 1u8 == 1u8,
        (0u8 >> j) & 1u8 == 0u8,
{
}

/// A mask shifted out of its byte is empty.
proof fn lemma_empty_mask(s: u8, j: u8)
    by (bit_vector)
    requires
        s < 8u8,
        j < 8u8,
    ensures
        0xffu8 >> 8u8 == 0u8,
        (((0xffu8 << s) & 0u8) >> j) & 1u8 == 0u8,
        (0u8 >> j) & 1u8 == 0u8,
{
}

/// The bits of an `|`, of a single-bit mask, and of a byte with one bit
/// cleared.
proof fn lemma_byte_bits(x: u8, m: u8, j: u8, k: u8)
    by (bit_vector)
    requires
        j < 8u8,
        k < 8u8,
    ensures
        (((x | m) >> j) & 1u8 == 1u8) == (((x >> j) & 1u8 == 1u8) || ((m >> j) & 1u8 == 1u8)),
        ((((x | (1u8 << k)) as u8) >> j) & 1u8 == 1u8) == (((x >> j) & 1u8 == 1u8) || j == k),
        ((((x & !(1u8 << k)) as u8) >> j) & 1u8 == 1u8) == (((x >> j) & 1u8 == 1u8) && j != k),
{
}

/// Two bytes share no set bit exactly when no bit position is set in both.
proof fn lemma_and_zero(x: u8, m: u8)
    by (bit_vector)
    ensures
        ((x & m) == 0u8) == (!(((x >> 0u8) & 1u8 == 1u8) && ((m >> 0u8) & 1u8 == 1u8))
            && !(((x >> 1u8) & 1u8 == 1u8) && ((m >> 1u8) & 1u8 == 1u8))
            && !(((x >> 2u8) & 1u8 == 1u8) && ((m >> 2u8) & 1u8 == 1u8))
            && !(((x >> 3u8) & 1u8 == 1u8) && ((m >> 3u8) & 1u8 == 1u8))
            && !(((x >> 4u8) & 1u8 == 1u8) && ((m >> 4u8) & 1u8 == 1u8))
            && !(((x >> 5u8) & 1u8 == 1u8) && ((m >> 5u8) & 1u8 == 1u8))
            && !(((x >> 6u8) & 1u8 == 1u8) && ((m >> 6u8) & 1u8 == 1u8))
            && !(((x >> 7u8) & 1u8 == 1u8) && ((m >> 7u8) & 1u8 == 1u8))),
{
}

/// Two bytes share no set bit exactly when no bit position `0..8` is set in
/// both.
proof fn lemma_disjoint_bytes(x: u8, m: u8)
    ensures
        ((x & m) == 0u8) == (forall|j: int| 0 <= j < 8 ==> !(#[trigger] bit_of(x, j) && bit_of(m, j))),
{
    lemma_and_zero(x, m);
    assert(bit_of(x, 0) == ((x >> 0u8) & 1u8 == 1u8) && bit_of(m, 0) == ((m >> 0u8) & 1u8 == 1u8));
    assert(bit_of(x, 1) == ((x >> 1u8) & 1u8 == 1u8) && bit_of(m, 1) == ((m >> 1u8) & 1u8 == 1u8));
    assert(bit_of(x, 2) == ((x >> 2u8) & 1u8 == 1u8) && bit_of(m, 2) == ((m >> 2u8) & 1u8 == 1u8));
    assert(bit_of(x, 3) == ((x >> 3u8) & 1u8 == 1u8) && bit_of(m, 3) == ((m >> 3u8) & 1u8 == 1u8));
    assert(bit_of(x, 4) == ((x >> 4u8) & 1u8 == 1u8) && bit_of(m, 4) == ((m >> 4u8) & 1u8 == 1u8));
    assert(bit_of(x, 5) == ((x >> 5u8) & 1u8 == 1u8) && bit_of(m, 5) == ((m >> 5u8) & 1u8 == 1u8));
    assert(bit_of(x, 6) == ((x >> 6u8) & 1u8 == 1u8) && bit_of(m, 6) == ((m >> 6u8) & 1u8 == 1u8));
    assert(bit_of(x, 7) == ((x >> 7u8) & 1u8 == 1u8) && bit_of(m, 7) == ((m >> 7u8) & 1u8 == 1u8));
}

/// The blocks set by or-ing the range masks of `start..end` into `old` are
/// those set in `old` and those in the range; the range was free in `old`
/// exactly when no byte of `old` meets its range mask.
proof fn lemma_set_bits_blocks(old: Seq<u8>, new: Seq<u8>, start: int, end: int)
    requires
        old.len() == BITMAP_SIZE,
        0 <= start <= end < 160,
        new == Seq::new(20, |k: int| (old[k] | range_mask(start, end, k)) as u8),
    ensures
        forall|i: int|
            0 <= i < 160 ==> #[trigger] bit_of(new[i / 8], i % 8) == (bit_of(old[i / 8], i % 8) || start <= i
                < end),
        (forall|k: int| 0 <= k < 20 ==> #[trigger] (old[k] & range_mask(start, end, k)) == 0u8) == (forall|
            i: int,
        | start <= i < end ==> !#[trigger] bit_of(old[i / 8], i % 8)),
{
    assert forall|i: int| 0 <= i < 160 implies #[trigger] bit_of(new[i / 8], i % 8) == (bit_of(old[i / 8], i % 8)
        || start <= i < end) by {
        lemma_range_mask_bit(start, end, i / 8, i % 8);
        lemma_byte_bits(old[i / 8], range_mask(start, end, i / 8), (i % 8) as u8, 0u8);
    }
    if forall|k: int| 0 <= k < 20 ==> #[trigger] (old[k] & range_mask(start, end, k)) == 0u8 {
        assert forall|i: int| start <= i < end implies !#[trigger] bit_of(old[i / 8], i % 8) by {
            lemma_range_mask_bit(start, end, i / 8, i % 8);
            lemma_disjoint_bytes(old[i / 8], range_mask(start, end, i / 8));
            assert((old[i / 8] & range_mask(start, end, i / 8)) == 0u8);
        }
    } else {
        let k = choose|k: int| 0 <= k < 20 && #[trigger] (old[k] & range_mask(start, end, k)) != 0u8;
        lemma_disjoint_bytes(old[k], range_mask(start, end, k));
        let j = choose|j: int| 0 <= j < 8 && #[trigger] bit_of(old[k], j) && bit_of(range_mask(start, end, k), j);
        lemma_range_mask_bit(start, end, k, j);
        let i = 8 * k + j;
        assert(i / 8 == k && i % 8 == j);
        assert(bit_of(old[i / 8], i % 8));
    }
}

/// Bit `j` of byte `k` of the range mask is set exactly for the blocks in
/// `start..end`.
pub proof fn lemma_range_mask_bit(start: int, end: int, k: int, j: int)
    requires
        0 <= start <= end,
        0 <= k,
        0 <= j < 8,
    ensures
        bit_of(range_mask(start, end, k), j) == (start <= 8 * k + j < end),
{
    if end % 8 != 0 {
        lemma_mask_bits((start % 8) as u8, (end % 8) as u8, j as u8);
    } else {
        lemma_mask_bits((start % 8) as u8, 1u8, j as u8);
        lemma_empty_mask((start % 8) as u8, j as u8);
    }
}

impl Bitmap {
    /// The bytes of the bitmap.
    pub closed spec fn bytes(&self) -> Seq<u8> {
        self.map@
    }

    /// Whether block `i` is set.
    #[verifier::inline]
    pub open spec fn is_set(&self, i: int) -> bool {
        bit_of(self.bytes()[i / 8], i % 8)
    }

    /// A bitmap has twenty bytes.
    pub proof fn lemma_bytes_len(&self)
        ensures
            self.bytes().len() == BITMAP_SIZE,
    {
    }

    /// An empty bitmap.
    pub fn new() -> (r: Bitmap)
        ensures
            r.bytes() == Seq::new(20, |i: int| 0u8),
    {
        let r = Bitmap { map: [0u8; 20] };
        assert(r.map@ =~= Seq::new(20, |i: int| 0u8));
        r
    }

    /// Clears every bit.
    pub fn clear(&mut self)
        ensures
            final(self).bytes() == Seq::new(20, |i: int| 0u8),
    {
        let mut i: usize = 0;
        while i < 20
            invariant
                i <= 20,
                forall|j: int| 0 <= j < i ==> self.map@[j] == 0,
            decreases 20 - i,
        {
            self.map[i] = 0;
            i = i + 1;
        }
        assert(self.map@ =~= Seq::new(20, |i: int| 0u8));
    }

    /// Clears the bit of block `idx`.
    pub fn clear_bit(&mut self, idx: usize)
        requires
            idx < 160,
        ensures
            final(self).bytes() == old(self).bytes().update(
                (idx / 8) as int,
                (old(self).bytes()[(idx / 8) as int] & !((1u8 << ((idx % 8) as u8)) as u8)) as u8,
            ),
            forall|i: int| 0 <= i < 160 ==> #[trigger] final(self).is_set(i) == (old(self).is_set(i) && i != idx),
    {
        let map_idx = idx / 8;
        self.map[map_idx] = self.map[map_idx] & !(1u8 << ((idx % 8) as u8));
        proof {
            assert forall|i: int| 0 <= i < 160 implies #[trigger] self.is_set(i) == (old(self).is_set(i) && i
                != idx) by {
                if i / 8 == idx / 8 {
                    lemma_byte_bits(old(self).map@[i / 8], 0u8, (i % 8) as u8, (idx % 8) as u8);
                }
            }
        }
    }

    /// Sets the bit of block `idx`.
    pub fn set_bit(&mut self, idx: usize)
        requires
            idx < 160,
        ensures
            final(self).bytes() == old(self).bytes().update(
                (idx / 8) as int,
                (old(self).bytes()[(idx / 8) as int] | ((1u8 << ((idx % 8) as u8)) as u8)) as u8,
            ),
            forall|i: int| 0 <= i < 160 ==> #[trigger] final(self).is_set(i) == (old(self).is_set(i) || i == idx),
    {
        let map_idx = idx / 8;
        self.map[map_idx] = self.map[map_idx] | (1u8 << ((idx % 8) as u8));
        proof {
            assert forall|i: int| 0 <= i < 160 implies #[trigger] self.is_set(i) == (old(self).is_set(i) || i
                == idx) by {
                if i / 8 == idx / 8 {
                    lemma_byte_bits(old(self).map@[i / 8], 0u8, (i % 8) as u8, (idx % 8) as u8);
                }
            }
        }
    }

    /// Sets the bits of blocks `start_idx..end_idx`. Returns `true` if none of
    /// them was set before, `false` if they overlapped bits already set or
    /// the range is reversed (in which case nothing changes). Each block
    /// stands for 8 bytes of a datagram.
    #[verifier::rlimit(30)]
    pub fn set_bits(&mut self, start_idx: usize, end_idx: usize) -> (r: bool)
        requires
            start_idx > end_idx || end_idx < 160,
        ensures
            start_idx > end_idx ==> !r && final(self).bytes() == old(self).bytes(),
            start_idx <= end_idx ==> ({
                &&& final(self).bytes() == Seq::new(
                    20,
                    |k: int|
                        (old(self).bytes()[k] | range_mask(start_idx as int, end_idx as int, k)) as u8,
                )
                &&& r == forall|k: int|
                    0 <= k < 20 ==> #[trigger] (old(self).bytes()[k] & range_mask(
                        start_idx as int,
                        end_idx as int,
                        k,
                    )) == 0u8
                &&& forall|i: int|
                    0 <= i < 160 ==> #[trigger] final(self).is_set(i) == (old(self).is_set(i) || start_idx <= i
                        < end_idx)
                &&& r == forall|i: int| start_idx <= i < end_idx ==> !#[trigger] old(self).is_set(i)
            }),
    {
        if start_idx > end_idx {
            return false;
        }
        let ghost old_map = self.map@;
        let start_map_idx = start_idx / 8;
        let end_map_idx = end_idx / 8;
        let first: u8 = 0xffu8 << ((start_idx % 8) as u8);
        let second: u8 = if end_idx % 8 == 0 {
            proof {
                lemma_empty_mask(0u8, 0u8);
            }
            0
        } else {
            0xffu8 >> ((8 - end_idx % 8) as u8)
        };
        let ghost m = |k: int| range_mask(start_idx as int, end_idx as int, k);
        if start_map_idx == end_map_idx {
            assert(m(start_map_idx as int) == (first & second));
            let result = (self.map[start_map_idx] & (first & second)) == 0;
            self.map[start_map_idx] = self.map[start_map_idx] | (first & second);
            assert forall|k: int| 0 <= k < 20 && k != start_map_idx implies (old_map[k] | m(k)) as u8
                == old_map[k] && (old_map[k] & m(k)) == 0u8 by {
                let x = old_map[k];
                assert((x | 0u8) == x && (x & 0u8) == 0u8) by (bit_vector);
            }
            assert(self.map@ =~= Seq::new(20, |k: int| (old_map[k] | m(k)) as u8));
            assert(result == forall|k: int|
                0 <= k < 20 ==> #[trigger] (old(self).bytes()[k] & range_mask(
                    start_idx as int,
                    end_idx as int,
                    k,
                )) == 0u8) by {
                assert(old(self).bytes() == old_map);
                if result {
                    assert forall|k: int| 0 <= k < 20 implies #[trigger] (old(self).bytes()[k]
                        & range_mask(start_idx as int, end_idx as int, k)) == 0u8 by {
                        assert((old_map[k] & m(k)) == 0u8);
                    }
                } else {
                    assert((old_map[start_map_idx as int] & m(start_map_idx as int)) != 0u8);
                }
            }
            proof {
                assert(old(self).bytes() == old_map);
                assert(self.map@ =~= Seq::new(
                    20,
                    |k: int| (old(self).bytes()[k] | range_mask(start_idx as int, end_idx as int, k)) as u8,
                ));
                lemma_set_bits_blocks(old(self).bytes(), self.map@, start_idx as int, end_idx as int);
            }
            result
        } else {
            let mut result = (self.map[start_map_idx] & first) == 0;
            result = result && ((self.map[end_map_idx] & second) == 0);
            self.map[start_map_idx] = self.map[start_map_idx] | first;
            self.map[end_map_idx] = self.map[end_map_idx] | second;
            let mut i = start_map_idx + 1;
            while i < end_map_idx
                invariant
                    start_map_idx < i <= end_map_idx < 20,
                    start_map_idx == start_idx / 8,
                    end_map_idx == end_idx / 8,
                    first == range_mask(start_idx as int, end_idx as int, start_map_idx as int),
                    second == range_mask(start_idx as int, end_idx as int, end_map_idx as int),
                    forall|k: int| start_map_idx < k < i ==> self.map@[k] == 0xffu8,
                    forall|k: int| 0 <= k < 20 && (k <= start_map_idx || k >= i) ==> self.map@[k] == (
                    if k == start_map_idx {
                        (old_map[k] | first) as u8
                    } else if k == end_map_idx {
                        (old_map[k] | second) as u8
                    } else {
                        old_map[k]
                    }),
                    result == ((old_map[start_map_idx as int] & first) == 0u8 && (old_map[end_map_idx as int]
                        & second) == 0u8 && forall|k: int| start_map_idx < k < i ==> old_map[k] == 0u8),
                decreases end_map_idx - i,
            {
                result = result && (self.map[i] == 0);
                self.map[i] = 0xff;
                i = i + 1;
            }
            assert forall|k: int| 0 <= k < 20 implies self.map@[k] == (old_map[k] | m(k)) as u8 && ((
            old_map[k] & m(k)) == 0u8) == (if k < start_map_idx || k > end_map_idx {
                true
            } else if k == start_map_idx {
                (old_map[k] & first) == 0u8
            } else if k == end_map_idx {
                (old_map[k] & second) == 0u8
            } else {
                old_map[k] == 0u8
            }) by {
                let x = old_map[k];
                assert((x | 0u8) == x && (x & 0u8) == 0u8 && (x | 0xffu8) == 0xffu8 && ((x & 0xffu8)
                    == 0u8) == (x == 0u8)) by (bit_vector);
            }
            assert(self.map@ =~= Seq::new(20, |k: int| (old_map[k] | m(k)) as u8));
            assert(result == forall|k: int|
                0 <= k < 20 ==> #[trigger] (old(self).bytes()[k] & range_mask(
                    start_idx as int,
                    end_idx as int,
                    k,
                )) == 0u8) by {
                assert(old(self).bytes() == old_map);
                if result {
                    assert forall|k: int| 0 <= k < 20 implies #[trigger] (old(self).bytes()[k]
                        & range_mask(start_idx as int, end_idx as int, k)) == 0u8 by {
                        assert((old_map[k] & m(k)) == 0u8);
                    }
                } else {
                    if (old_map[start_map_idx as int] & first) != 0u8 {
                        assert((old_map[start_map_idx as int] & m(start_map_idx as int)) != 0u8);
                    } else if (old_map[end_map_idx as int] & second) != 0u8 {
                        assert((old_map[end_map_idx as int] & m(end_map_idx as int)) != 0u8);
                    } else {
                        let k = choose|k: int| start_map_idx < k < end_map_idx && old_map[k] != 0u8;
                        assert((old_map[k] & m(k)) != 0u8);
                    }
                }
            }
            proof {
                assert(old(self).bytes() == old_map);
                assert(self.map@ =~= Seq::new(
                    20,
                    |k: int| (old(self).bytes()[k] | range_mask(start_idx as int, end_idx as int, k)) as u8,
                ));
                lemma_set_bits_blocks(old(self).bytes(), self.map@, start_idx as int, end_idx as int);
            }
            result
        }
    }

    /// Whether the first `total_length` blocks are all set and the rest of
    /// their last byte is clear.
    pub fn is_complete(&self, total_length: usize) -> (r: bool)
        requires
            total_length < 160,
        ensures
            r == ((forall|k: int| 0 <= k < total_length / 8 ==> self.bytes()[k] == 0xffu8)
                && self.bytes()[(total_length / 8) as int] == tail_mask(total_length as int)),
    {
        let mut result = true;
        let mut i: usize = 0;
        while i < total_length / 8
            invariant
                i <= total_length / 8,
                total_length < 160,
                result == forall|k: int| 0 <= k < i ==> self.map@[k] == 0xffu8,
            decreases total_length / 8 - i,
        {
            result = result && (self.map[i] == 0xff);
            i = i + 1;
        }
        let mask: u8 = if total_length % 8 == 0 {
            proof {
                lemma_empty_mask(0u8, 0u8);
            }
            0
        } else {
            0xffu8 >> ((8 - total_length % 8) as u8)
        };
        result = result && (self.map[total_length / 8] == mask);
        result
    }
}

} // verus!
