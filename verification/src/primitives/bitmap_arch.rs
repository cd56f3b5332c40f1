//! `BitmapArch`: a bitmap of `usize::BITS` bits held in one `usize`.
use crate::digits::{binary_string, binary_text};
use crate::message::{get_out_of_range, get_prefix, out_of_range_text, set_out_of_range, set_prefix};
use crate::size::BitmapSize;
use core::cmp::Ordering;
use vstd::prelude::*;
use vstd::std_specs::convert::FromSpec;
use vstd::std_specs::ops::{BitAndSpec, BitOrSpec, BitXorSpec, NotSpec};

verus! {

/// A bitmap of `usize::BITS` bits. Bit 0 is the least significant bit of the underlying `usize`.
#[derive(Clone, Copy, Debug, Hash, PartialEq, Eq, Structural, Ord)]
pub struct BitmapArch(usize);

impl BitmapSize for BitmapArch {
    const MAP_LENGTH: usize = usize::BITS as usize;
}

impl View for BitmapArch {
    type V = usize;

    /// The underlying integer.
    closed spec fn view(&self) -> usize {
        self.0
    }
}

/// Whether bit `offset` of `word` is one.
pub open spec fn word_bit(word: usize, offset: int) -> bool {
    (word >> (offset as usize)) & 1 == 1
}

/// `word` with bit `offset` forced to `value`.
pub open spec fn word_with_bit(word: usize, offset: int, value: bool) -> usize {
    if value {
        word | (1usize << (offset as usize))
    } else {
        word & !(1usize << (offset as usize))
    }
}

/// The word whose lowest `count` bits are one: all of them from `usize::BITS` on, none below 1.
pub open spec fn ones_below(count: int) -> usize {
    if count <= 0 {
        0
    } else if count >= usize::BITS {
        usize::MAX
    } else {
        ((1usize << (count as usize)) - 1) as usize
    }
}

/// The word whose bits `begin..end` are `value` and whose other bits are `!value`.
/// Offsets outside the word are clipped; an empty range leaves every bit at `!value`.
pub open spec fn range_word(begin: int, end: int, value: bool) -> usize {
    if value {
        ones_below(end) & !ones_below(begin)
    } else {
        !(ones_below(end) & !ones_below(begin))
    }
}

proof fn lemma_single_bit(word: usize, i: usize, j: usize)
    requires
        i < usize::BITS,
        j < usize::BITS,
    ensures
        ((word & (1usize << i)) > 0) == ((word >> i) & 1 == 1),
        usize::MAX - (1usize << i) == !(1usize << i),
        (((word | (1usize << i)) >> j) & 1 == 1) == (j == i || (word >> j) & 1 == 1),
        (((word & !(1usize << i)) >> j) & 1 == 1) == (j != i && (word >> j) & 1 == 1),
        (((0usize | (1usize << i)) >> j) & 1 == 1) == (j == i),
{
    lemma_single_bit_bits(word, i, j, usize::MAX);
}

proof fn lemma_single_bit_bits(word: usize, i: usize, j: usize, max: usize)
    by (bit_vector)
    requires
        max >= !0usize,
        i < usize::BITS,
        j < usize::BITS,
    ensures
        ((word & (1usize << i)) > 0) == ((word >> i) & 1 == 1),
        max - (1usize << i) == !(1usize << i),
        (((word | (1usize << i)) >> j) & 1 == 1) == (j == i || (word >> j) & 1 == 1),
        (((word & !(1usize << i)) >> j) & 1 == 1) == (j != i && (word >> j) & 1 == 1),
        (((0usize | (1usize << i)) >> j) & 1 == 1) == (j == i),
{
}

proof fn lemma_word_logic(a: usize, b: usize, j: usize)
    requires
        j < usize::BITS,
    ensures
        (((a & b) >> j) & 1 == 1) == (((a >> j) & 1 == 1) && ((b >> j) & 1 == 1)),
        (((a | b) >> j) & 1 == 1) == (((a >> j) & 1 == 1) || ((b >> j) & 1 == 1)),
        (((a ^ b) >> j) & 1 == 1) == (((a >> j) & 1 == 1) != ((b >> j) & 1 == 1)),
        (((!a) >> j) & 1 == 1) == !((a >> j) & 1 == 1),
        ((0usize >> j) & 1 == 1) == false,
        ((usize::MAX >> j) & 1 == 1) == true,
{
    lemma_word_logic_bits(a, b, j, usize::MAX);
}

proof fn lemma_word_logic_bits(a: usize, b: usize, j: usize, max: usize)
    by (bit_vector)
    requires
        max >= !0usize,
        j < usize::BITS,
    ensures
        (((a & b) >> j) & 1 == 1) == (((a >> j) & 1 == 1) && ((b >> j) & 1 == 1)),
        (((a | b) >> j) & 1 == 1) == (((a >> j) & 1 == 1) || ((b >> j) & 1 == 1)),
        (((a ^ b) >> j) & 1 == 1) == (((a >> j) & 1 == 1) != ((b >> j) & 1 == 1)),
        (((!a) >> j) & 1 == 1) == !((a >> j) & 1 == 1),
        ((0usize >> j) & 1 == 1) == false,
        ((max >> j) & 1 == 1) == true,
{
}

proof fn lemma_word_algebra(a: usize, b: usize)
    ensures
        a & b == b & a,
        a | usize::MAX == usize::MAX,
        a & usize::MAX == a,
        a & 0 == 0,
        a ^ a == 0,
        a ^ usize::MAX == !a,
        !(!a) == a,
        a | !a == usize::MAX,
        a & !a == 0,
        !usize::MAX == 0,
        !0usize == usize::MAX,
{
    lemma_word_algebra_bits(a, b, usize::MAX);
}

proof fn lemma_word_algebra_bits(a: usize, b: usize, max: usize)
    by (bit_vector)
    requires
        max >= !0usize,
    ensures
        a & b == b & a,
        a | max == max,
        a & max == a,
        a & 0 == 0,
        a ^ a == 0,
        a ^ max == !a,
        !(!a) == a,
        a | !a == max,
        a & !a == 0,
        !max == 0,
        !0usize == max,
{
}

proof fn lemma_low_ones(count: usize, offset: usize)
    by (bit_vector)
    requires
        0 < count < usize::BITS,
        offset < usize::BITS,
    ensures
        ((((1usize << count) - 1) as usize >> offset) & 1 == 1) == (offset < count),
{
}

proof fn lemma_shifted_range(lo: usize, hi: usize)
    requires
        lo < usize::BITS,
        0 < hi <= usize::BITS,
    ensures
        ({
            let low = if lo == 0 {
                0usize
            } else {
                ((1usize << lo) - 1) as usize
            };
            let high = if hi == usize::BITS {
                usize::MAX
            } else {
                ((1usize << hi) - 1) as usize
            };
            &&& usize::MAX & !low == usize::MAX << lo
            &&& hi < usize::BITS ==> high & !low == usize::MAX << lo & usize::MAX >> (usize::BITS - hi) as usize
        }),
{
    lemma_shifted_range_bits(lo, hi, usize::MAX);
}

proof fn lemma_shifted_range_bits(lo: usize, hi: usize, max: usize)
    by (bit_vector)
    requires
        max >= !0usize,
        lo < usize::BITS,
        0 < hi <= usize::BITS,
    ensures
        ({
            let low = if lo == 0 {
                0usize
            } else {
                ((1usize << lo) - 1) as usize
            };
            let high = if hi == usize::BITS {
                max
            } else {
                ((1usize << hi) - 1) as usize
            };
            &&& max & !low == max << lo
            &&& hi < usize::BITS ==> high & !low == max << lo & max >> (usize::BITS - hi) as usize
        }),
{
}

proof fn lemma_low_bits_step(a: usize, b: usize, count: usize)
    by (bit_vector)
    requires
        count < usize::BITS,
    ensures
        a & (((1usize << 0usize) - 1) as usize) == b & (((1usize << 0usize) - 1) as usize),
        (a & (((1usize << count) - 1) as usize) == b & (((1usize << count) - 1) as usize) && ((a >> count)
            & 1 == 1) == ((b >> count) & 1 == 1)) ==> {
            &&& count < usize::BITS - 1 ==> a & (((1usize << ((count + 1) as usize)) - 1) as usize) == b & (((1usize
                << ((count + 1) as usize)) - 1) as usize)
            &&& count == usize::BITS - 1 ==> a == b
        },
{
}

proof fn lemma_low_bits_agree(a: usize, b: usize, count: usize)
    requires
        count < usize::BITS,
        forall|offset: int| 0 <= offset < usize::BITS ==> word_bit(a, offset) == word_bit(b, offset),
    ensures
        a & (((1usize << count) - 1) as usize) == b & (((1usize << count) - 1) as usize),
    decreases count,
{
    if count == 0 {
        lemma_low_bits_step(a, b, 0);
    } else {
        let below = (count - 1) as usize;
        lemma_low_bits_agree(a, b, below);
        assert(word_bit(a, below as int) == word_bit(b, below as int));
        lemma_low_bits_step(a, b, below);
    }
}

/// Two words whose bits agree are equal.
pub proof fn lemma_word_bits_determine(a: usize, b: usize)
    requires
        forall|offset: int| 0 <= offset < usize::BITS ==> word_bit(a, offset) == word_bit(b, offset),
    ensures
        a == b,
{
    let top = (usize::BITS - 1) as usize;
    lemma_low_bits_agree(a, b, top);
    assert(word_bit(a, top as int) == word_bit(b, top as int));
    lemma_low_bits_step(a, b, top);
}

/// Reading back a bit after forcing one bit of a word: the forced bit has the new value
/// and every other bit is unchanged.
pub proof fn lemma_word_with_bit(word: usize, offset: int, value: bool, other: int)
    requires
        0 <= offset < usize::BITS,
        0 <= other < usize::BITS,
    ensures
        word_bit(word_with_bit(word, offset, value), other) == if other == offset {
            value
        } else {
            word_bit(word, other)
        },
{
    lemma_single_bit(word, offset as usize, other as usize);
}

/// The boolean operations act on each bit independently.
pub proof fn lemma_logic_bits(a: usize, b: usize, offset: int)
    requires
        0 <= offset < usize::BITS,
    ensures
        word_bit(a & b, offset) == (word_bit(a, offset) && word_bit(b, offset)),
        word_bit(a | b, offset) == (word_bit(a, offset) || word_bit(b, offset)),
        word_bit(a ^ b, offset) == (word_bit(a, offset) != word_bit(b, offset)),
        word_bit(!a, offset) == !word_bit(a, offset),
        !word_bit(0, offset),
        word_bit(usize::MAX, offset),
{
    lemma_word_logic(a, b, offset as usize);
}

/// Bit `offset` of a range mask is `value` inside `begin..end` and `!value` outside.
pub proof fn lemma_range_word(begin: int, end: int, value: bool, offset: int)
    requires
        0 <= offset < usize::BITS,
    ensures
        word_bit(range_word(begin, end, value), offset) == ((begin <= offset < end) == value),
{
    if 0 < begin < usize::BITS {
        lemma_low_ones(begin as usize, offset as usize);
    }
    if 0 < end < usize::BITS {
        lemma_low_ones(end as usize, offset as usize);
    }
    lemma_word_logic(0, 0, offset as usize);
    lemma_word_logic(ones_below(begin), 0, offset as usize);
    lemma_word_logic(ones_below(end), !ones_below(begin), offset as usize);
    lemma_word_logic(ones_below(end) & !ones_below(begin), 0, offset as usize);
}

impl BitmapArch {
    /// Whether bit `index` is set.
    pub open spec fn bit(&self, index: int) -> bool {
        word_bit(self@, index)
    }

    /// A bitmap is determined by its underlying integer, and the bitmap made from an
    /// integer holds that integer.
    pub proof fn lemma_view(a: Self, b: Self, value: usize)
        ensures
            a@ == b@ ==> a == b,
            Self::from_spec(value)@ == value,
            Self::from_spec(a@) == a,
    {
    }

    /// Two bitmaps whose bits agree are equal.
    pub proof fn lemma_bits_determine(a: Self, b: Self)
        requires
            forall|index: int| 0 <= index < usize::BITS ==> a.bit(index) == b.bit(index),
        ensures
            a == b,
    {
        assert forall|offset: int| 0 <= offset < usize::BITS implies word_bit(a.0, offset) == word_bit(
            b.0,
            offset,
        ) by {
            assert(a.bit(offset) == b.bit(offset));
        }
        lemma_word_bits_determine(a.0, b.0);
    }

    /// The number of bits in the bitmap.
    pub fn capacity() -> (bits: usize)
        ensures
            bits == usize::BITS,
    {
        BitmapArch::MAP_LENGTH
    }

    /// The underlying integer.
    pub fn to_usize(&self) -> (value: usize)
        ensures
            value == self@,
    {
        self.0
    }

    /// The bitmap with every bit set to `value`.
    pub fn new(value: bool) -> (bitmap: BitmapArch)
        ensures
            bitmap@ == if value {
                usize::MAX
            } else {
                0
            },
            forall|index: int| 0 <= index < usize::BITS ==> #[trigger] bitmap.bit(index) == value,
    {
        let bitmap = BitmapArch(
            if value {
                usize::MAX
            } else {
                0
            },
        );
        proof {
            assert forall|index: int| 0 <= index < usize::BITS implies #[trigger] bitmap.bit(index)
                == value by {
                lemma_logic_bits(0, 0, index);
            }
        }
        bitmap
    }

    /// The bitmap whose bits `begin..end` are `value` and whose other bits are `!value`.
    /// A range that reaches past the capacity is cut off there; a range that is empty, or
    /// that starts at or past the capacity, leaves every bit at `!value`.
    pub fn create_bit_mask(begin: usize, end: usize, value: bool) -> (mask: BitmapArch)
        ensures
            mask@ == range_word(begin as int, end as int, value),
            forall|index: int|
                0 <= index < usize::BITS ==> #[trigger] mask.bit(index) == ((begin <= index < end)
                    == value),
        decreases (if value {
            0int
        } else {
            1int
        }),
    {
        let mask = if value {
            if begin >= BitmapArch::MAP_LENGTH || end < 1 {
                proof {
                    lemma_word_algebra(ones_below(end as int), 0);
                    lemma_word_algebra(!ones_below(begin as int), 0);
                    lemma_word_algebra(0, !ones_below(begin as int));
                }
                BitmapArch(0)
            } else if end >= BitmapArch::MAP_LENGTH {
                proof {
                    lemma_shifted_range(begin as usize, usize::BITS as usize);
                }
                BitmapArch(usize::MAX << begin)
            } else {
                proof {
                    lemma_shifted_range(begin as usize, end as usize);
                }
                BitmapArch(usize::MAX << begin & usize::MAX >> (BitmapArch::MAP_LENGTH - end))
            }
        } else {
            let opposite = BitmapArch::create_bit_mask(begin, end, true);
            proof {
                lemma_word_algebra(opposite.0, 0);
            }
            BitmapArch(opposite.0 ^ usize::MAX)
        };
        proof {
            assert forall|index: int| 0 <= index < usize::BITS implies #[trigger] mask.bit(index) == ((
            begin <= index < end) == value) by {
                lemma_range_word(begin as int, end as int, value, index);
            }
        }
        mask
    }

    /// The bitmap whose only set bit is `index`; `None` when `index` is not below the
    /// capacity.
    pub fn from_set(index: usize) -> (result: Option<BitmapArch>)
        ensures
            index >= usize::BITS ==> result is None,
            index < usize::BITS ==> result is Some && result->Some_0@ == word_with_bit(
                0,
                index as int,
                true,
            ),
            index < usize::BITS ==> forall|other: int|
                0 <= other < usize::BITS ==> #[trigger] result->Some_0.bit(other) == (other == index),
    {
        if index >= BitmapArch::MAP_LENGTH {
            return None;
        }
        let bitmap = BitmapArch(0 | (1usize << index));
        proof {
            assert forall|other: int| 0 <= other < usize::BITS implies #[trigger] bitmap.bit(other) == (
            other == index) by {
                lemma_single_bit(0, index as usize, other as usize);
            }
        }
        Some(bitmap)
    }

    /// Forces bit `index` to `value` and leaves every other bit as it was, or fails and
    /// leaves the bitmap untouched when `index` is not below the capacity.
    pub fn set(&mut self, index: usize, value: bool) -> (result: Result<(), String>)
        ensures
            index < usize::BITS ==> result is Ok && final(self)@ == word_with_bit(
                old(self)@,
                index as int,
                value,
            ),
            index < usize::BITS ==> forall|other: int|
                0 <= other < usize::BITS ==> #[trigger] final(self).bit(other) == if other == index {
                    value
                } else {
                    old(self).bit(other)
                },
            index >= usize::BITS ==> *final(self) == *old(self) && result is Err && result->Err_0@
                == out_of_range_text(set_prefix(), usize::BITS as usize, index),
    {
        if index >= BitmapArch::MAP_LENGTH {
            return Err(set_out_of_range(BitmapArch::MAP_LENGTH, index));
        }
        let ghost before = self.0;
        proof {
            lemma_single_bit(before, index as usize, index as usize);
        }
        if value {
            let mask = 1usize << index;
            self.0 = self.0 | mask;
        } else {
            let mask = usize::MAX - (1usize << index);
            self.0 = self.0 & mask;
        }
        proof {
            assert forall|other: int| 0 <= other < usize::BITS implies #[trigger] self.bit(other)
                == if other == index {
                value
            } else {
                word_bit(before, other)
            } by {
                lemma_word_with_bit(before, index as int, value, other);
            }
        }
        Ok(())
    }

    /// Forces the bits `begin..end` to `value` and leaves every other bit as it was.
    pub fn set_range(&mut self, begin: usize, end: usize, value: bool)
        ensures
            final(self)@ == if value {
                old(self)@ | range_word(begin as int, end as int, true)
            } else {
                old(self)@ & range_word(begin as int, end as int, false)
            },
            forall|index: int|
                0 <= index < usize::BITS ==> #[trigger] final(self).bit(index) == if begin <= index
                    < end {
                    value
                } else {
                    old(self).bit(index)
                },
    {
        let ghost before = self.0;
        let mask = BitmapArch::create_bit_mask(begin, end, value);
        if value {
            self.0 = self.0 | mask.0;
        } else {
            self.0 = self.0 & mask.0;
        }
        proof {
            assert forall|index: int| 0 <= index < usize::BITS implies #[trigger] self.bit(index)
                == if begin <= index < end {
                value
            } else {
                word_bit(before, index)
            } by {
                lemma_logic_bits(before, mask.0, index);
                assert(mask.bit(index) == ((begin <= index < end) == value));
            }
        }
    }

    /// The underlying integer in binary, most significant bit first, with no leading
    /// zero.
    pub fn to_text(&self) -> (text: String)
        ensures
            text@ == binary_text(self@ as nat),
    {
        binary_string(self.0 as u128)
    }

    /// Reads bit `index`, or fails when `index` is not below the capacity.
    pub fn get(&self, index: usize) -> (result: Result<bool, String>)
        ensures
            index < usize::BITS ==> result == Ok::<bool, String>(self.bit(index as int)),
            index >= usize::BITS ==> result is Err && result->Err_0@ == out_of_range_text(
                get_prefix(),
                usize::BITS as usize,
                index,
            ),
    {
        if index >= BitmapArch::MAP_LENGTH {
            return Err(get_out_of_range(BitmapArch::MAP_LENGTH, index));
        }
        let mask = 1usize << index;
        proof {
            lemma_single_bit(self.0, index as usize, index as usize);
        }
        Ok(self.0 & mask > 0)
    }
}

impl Default for BitmapArch {
    /// The empty bitmap.
    fn default() -> (bitmap: Self)
        ensures
            bitmap@ == 0,
            forall|index: int| 0 <= index < usize::BITS ==> !#[trigger] bitmap.bit(index),
    {
        BitmapArch::new(false)
    }
}

impl From<usize> for BitmapArch {
    /// Wraps the given integer.
    fn from(value: usize) -> (bitmap: Self)
        ensures
            bitmap@ == value,
    {
        BitmapArch(value)
    }
}

impl vstd::std_specs::convert::FromSpecImpl<usize> for BitmapArch {
    open spec fn obeys_from_spec() -> bool {
        true
    }

    closed spec fn from_spec(value: usize) -> Self {
        BitmapArch(value)
    }
}

impl core::ops::Deref for BitmapArch {
    type Target = usize;

    fn deref(&self) -> (value: &usize)
        ensures
            *value == self@,
    {
        &self.0
    }
}

impl PartialOrd for BitmapArch {
    /// Bitmaps are ordered as their underlying integers are.
    fn partial_cmp(&self, other: &Self) -> (order: Option<Ordering>) {
        if self.0 < other.0 {
            Some(Ordering::Less)
        } else if self.0 > other.0 {
            Some(Ordering::Greater)
        } else {
            Some(Ordering::Equal)
        }
    }
}

impl vstd::std_specs::cmp::PartialOrdSpecImpl for BitmapArch {
    open spec fn obeys_partial_cmp_spec() -> bool {
        true
    }

    open spec fn partial_cmp_spec(&self, other: &Self) -> Option<Ordering> {
        if self@ < other@ {
            Some(Ordering::Less)
        } else if self@ > other@ {
            Some(Ordering::Greater)
        } else {
            Some(Ordering::Equal)
        }
    }
}

impl core::ops::BitAnd for BitmapArch {
    type Output = Self;

    /// The bit-by-bit AND with the bitmap `rhs`.
    fn bitand(self, rhs: Self) -> (result: Self)
        ensures
            result@ == self@ & rhs@,
    {
        Self(self.0 & rhs.0)
    }
}

impl vstd::std_specs::ops::BitAndSpecImpl for BitmapArch {
    open spec fn obeys_bitand_spec() -> bool {
        true
    }

    open spec fn bitand_req(self, rhs: Self) -> bool {
        true
    }

    open spec fn bitand_spec(self, rhs: Self) -> Self {
        Self::from_spec(self@ & rhs@)
    }
}

impl core::ops::BitAndAssign for BitmapArch {
    /// Replaces the bitmap by its bit-by-bit AND with the bitmap `rhs`.
    fn bitand_assign(&mut self, rhs: Self)
        ensures
            final(self)@ == old(self)@ & rhs@,
    {
        self.0 = self.0 & rhs.0;
    }
}

impl core::ops::BitOr for BitmapArch {
    type Output = Self;

    /// The bit-by-bit OR with the bitmap `rhs`.
    fn bitor(self, rhs: Self) -> (result: Self)
        ensures
            result@ == self@ | rhs@,
    {
        Self(self.0 | rhs.0)
    }
}

impl vstd::std_specs::ops::BitOrSpecImpl for BitmapArch {
    open spec fn obeys_bitor_spec() -> bool {
        true
    }

    open spec fn bitor_req(self, rhs: Self) -> bool {
        true
    }

    open spec fn bitor_spec(self, rhs: Self) -> Self {
        Self::from_spec(self@ | rhs@)
    }
}

impl core::ops::BitOrAssign for BitmapArch {
    /// Replaces the bitmap by its bit-by-bit OR with the bitmap `rhs`.
    fn bitor_assign(&mut self, rhs: Self)
        ensures
            final(self)@ == old(self)@ | rhs@,
    {
        self.0 = self.0 | rhs.0;
    }
}

impl core::ops::BitXor for BitmapArch {
    type Output = Self;

    /// The bit-by-bit XOR with the bitmap `rhs`.
    fn bitxor(self, rhs: Self) -> (result: Self)
        ensures
            result@ == self@ ^ rhs@,
    {
        Self(self.0 ^ rhs.0)
    }
}

impl vstd::std_specs::ops::BitXorSpecImpl for BitmapArch {
    open spec fn obeys_bitxor_spec() -> bool {
        true
    }

    open spec fn bitxor_req(self, rhs: Self) -> bool {
        true
    }

    open spec fn bitxor_spec(self, rhs: Self) -> Self {
        Self::from_spec(self@ ^ rhs@)
    }
}

impl core::ops::BitXorAssign for BitmapArch {
    /// Replaces the bitmap by its bit-by-bit XOR with the bitmap `rhs`.
    fn bitxor_assign(&mut self, rhs: Self)
        ensures
            final(self)@ == old(self)@ ^ rhs@,
    {
        self.0 = self.0 ^ rhs.0;
    }
}

impl core::ops::Add for BitmapArch {
    type Output = Self;

    /// The sum with the bitmap `rhs`, on the underlying integers. The sum must fit the underlying integer.
    fn add(self, rhs: Self) -> (result: Self)
        ensures
            result@ == (self@ + rhs@) as usize,
    {
        Self(self.0 + rhs.0)
    }
}

impl vstd::std_specs::ops::AddSpecImpl for BitmapArch {
    open spec fn obeys_add_spec() -> bool {
        true
    }

    open spec fn add_req(self, rhs: Self) -> bool {
        self@ + rhs@ <= usize::MAX
    }

    open spec fn add_spec(self, rhs: Self) -> Self {
        Self::from_spec((self@ + rhs@) as usize)
    }
}

impl core::ops::AddAssign for BitmapArch {
    /// Adds the bitmap `rhs`, in place, on the underlying integers. The sum must fit the underlying integer.
    fn add_assign(&mut self, rhs: Self)
        requires
            old(self)@ + rhs@ <= usize::MAX,
        ensures
            final(self)@ == (old(self)@ + rhs@) as usize,
    {
        self.0 = self.0 + rhs.0;
    }
}

impl core::ops::Sub for BitmapArch {
    type Output = Self;

    /// The difference from the bitmap `rhs`, on the underlying integers. The bitmap must not be below `rhs`.
    fn sub(self, rhs: Self) -> (result: Self)
        ensures
            result@ == (self@ - rhs@) as usize,
    {
        Self(self.0 - rhs.0)
    }
}

impl vstd::std_specs::ops::SubSpecImpl for BitmapArch {
    open spec fn obeys_sub_spec() -> bool {
        true
    }

    open spec fn sub_req(self, rhs: Self) -> bool {
        self@ >= rhs@
    }

    open spec fn sub_spec(self, rhs: Self) -> Self {
        Self::from_spec((self@ - rhs@) as usize)
    }
}

impl core::ops::SubAssign for BitmapArch {
    /// Subtracts the bitmap `rhs`, in place, on the underlying integers. The bitmap must not be below `rhs`.
    fn sub_assign(&mut self, rhs: Self)
        requires
            old(self)@ >= rhs@,
        ensures
            final(self)@ == (old(self)@ - rhs@) as usize,
    {
        self.0 = self.0 - rhs.0;
    }
}

impl core::ops::Mul for BitmapArch {
    type Output = Self;

    /// The product with the bitmap `rhs`, on the underlying integers. The product must fit the underlying integer.
    fn mul(self, rhs: Self) -> (result: Self)
        ensures
            result@ == (self@ * rhs@) as usize,
    {
        Self(self.0 * rhs.0)
    }
}

impl vstd::std_specs::ops::MulSpecImpl for BitmapArch {
    open spec fn obeys_mul_spec() -> bool {
        true
    }

    open spec fn mul_req(self, rhs: Self) -> bool {
        self@ * rhs@ <= usize::MAX
    }

    open spec fn mul_spec(self, rhs: Self) -> Self {
        Self::from_spec((self@ * rhs@) as usize)
    }
}

impl core::ops::MulAssign for BitmapArch {
    /// Multiplies by the bitmap `rhs`, in place, on the underlying integers. The product must fit the underlying integer.
    fn mul_assign(&mut self, rhs: Self)
        requires
            old(self)@ * rhs@ <= usize::MAX,
        ensures
            final(self)@ == (old(self)@ * rhs@) as usize,
    {
        self.0 = self.0 * rhs.0;
    }
}

impl core::ops::Div for BitmapArch {
    type Output = Self;

    /// The quotient by the bitmap `rhs`, on the underlying integers. `rhs` must not be zero.
    fn div(self, rhs: Self) -> (result: Self)
        ensures
            result@ == self@ / rhs@,
    {
        Self(self.0 / rhs.0)
    }
}

impl vstd::std_specs::ops::DivSpecImpl for BitmapArch {
    open spec fn obeys_div_spec() -> bool {
        true
    }

    open spec fn div_req(self, rhs: Self) -> bool {
        rhs@ != 0
    }

    open spec fn div_spec(self, rhs: Self) -> Self {
        Self::from_spec(self@ / rhs@)
    }
}

impl core::ops::DivAssign for BitmapArch {
    /// Divides by the bitmap `rhs`, in place, on the underlying integers. `rhs` must not be zero.
    fn div_assign(&mut self, rhs: Self)
        requires
            rhs@ != 0,
        ensures
            final(self)@ == old(self)@ / rhs@,
    {
        self.0 = self.0 / rhs.0;
    }
}

impl core::ops::BitAnd<usize> for BitmapArch {
    type Output = Self;

    /// The bit-by-bit AND with the integer `rhs`.
    fn bitand(self, rhs: usize) -> (result: Self)
        ensures
            result@ == self@ & rhs,
    {
        Self(self.0 & rhs)
    }
}

impl vstd::std_specs::ops::BitAndSpecImpl<usize> for BitmapArch {
    open spec fn obeys_bitand_spec() -> bool {
        true
    }

    open spec fn bitand_req(self, rhs: usize) -> bool {
        true
    }

    open spec fn bitand_spec(self, rhs: usize) -> Self {
        Self::from_spec(self@ & rhs)
    }
}

impl core::ops::BitAndAssign<usize> for BitmapArch {
    /// Replaces the bitmap by its bit-by-bit AND with the integer `rhs`.
    fn bitand_assign(&mut self, rhs: usize)
        ensures
            final(self)@ == old(self)@ & rhs,
    {
        self.0 = self.0 & rhs;
    }
}

impl core::ops::BitOr<usize> for BitmapArch {
    type Output = Self;

    /// The bit-by-bit OR with the integer `rhs`.
    fn bitor(self, rhs: usize) -> (result: Self)
        ensures
            result@ == self@ | rhs,
    {
        Self(self.0 | rhs)
    }
}

impl vstd::std_specs::ops::BitOrSpecImpl<usize> for BitmapArch {
    open spec fn obeys_bitor_spec() -> bool {
        true
    }

    open spec fn bitor_req(self, rhs: usize) -> bool {
        true
    }

    open spec fn bitor_spec(self, rhs: usize) -> Self {
        Self::from_spec(self@ | rhs)
    }
}

impl core::ops::BitOrAssign<usize> for BitmapArch {
    /// Replaces the bitmap by its bit-by-bit OR with the integer `rhs`.
    fn bitor_assign(&mut self, rhs: usize)
        ensures
            final(self)@ == old(self)@ | rhs,
    {
        self.0 = self.0 | rhs;
    }
}

impl core::ops::BitXor<usize> for BitmapArch {
    type Output = Self;

    /// The bit-by-bit XOR with the integer `rhs`.
    fn bitxor(self, rhs: usize) -> (result: Self)
        ensures
            result@ == self@ ^ rhs,
    {
        Self(self.0 ^ rhs)
    }
}

impl vstd::std_specs::ops::BitXorSpecImpl<usize> for BitmapArch {
    open spec fn obeys_bitxor_spec() -> bool {
        true
    }

    open spec fn bitxor_req(self, rhs: usize) -> bool {
        true
    }

    open spec fn bitxor_spec(self, rhs: usize) -> Self {
        Self::from_spec(self@ ^ rhs)
    }
}

impl core::ops::BitXorAssign<usize> for BitmapArch {
    /// Replaces the bitmap by its bit-by-bit XOR with the integer `rhs`.
    fn bitxor_assign(&mut self, rhs: usize)
        ensures
            final(self)@ == old(self)@ ^ rhs,
    {
        self.0 = self.0 ^ rhs;
    }
}

impl core::ops::Add<usize> for BitmapArch {
    type Output = Self;

    /// The sum with the integer `rhs`, on the underlying integers. The sum must fit the underlying integer.
    fn add(self, rhs: usize) -> (result: Self)
        ensures
            result@ == (self@ + rhs) as usize,
    {
        Self(self.0 + rhs)
    }
}

impl vstd::std_specs::ops::AddSpecImpl<usize> for BitmapArch {
    open spec fn obeys_add_spec() -> bool {
        true
    }

    open spec fn add_req(self, rhs: usize) -> bool {
        self@ + rhs <= usize::MAX
    }

    open spec fn add_spec(self, rhs: usize) -> Self {
        Self::from_spec((self@ + rhs) as usize)
    }
}

impl core::ops::AddAssign<usize> for BitmapArch {
    /// Adds the integer `rhs`, in place, on the underlying integers. The sum must fit the underlying integer.
    fn add_assign(&mut self, rhs: usize)
        requires
            old(self)@ + rhs <= usize::MAX,
        ensures
            final(self)@ == (old(self)@ + rhs) as usize,
    {
        self.0 = self.0 + rhs;
    }
}

impl core::ops::Sub<usize> for BitmapArch {
    type Output = Self;

    /// The difference from the integer `rhs`, on the underlying integers. The bitmap must not be below `rhs`.
    fn sub(self, rhs: usize) -> (result: Self)
        ensures
            result@ == (self@ - rhs) as usize,
    {
        Self(self.0 - rhs)
    }
}

impl vstd::std_specs::ops::SubSpecImpl<usize> for BitmapArch {
    open spec fn obeys_sub_spec() -> bool {
        true
    }

    open spec fn sub_req(self, rhs: usize) -> bool {
        self@ >= rhs
    }

    open spec fn sub_spec(self, rhs: usize) -> Self {
        Self::from_spec((self@ - rhs) as usize)
    }
}

impl core::ops::SubAssign<usize> for BitmapArch {
    /// Subtracts the integer `rhs`, in place, on the underlying integers. The bitmap must not be below `rhs`.
    fn sub_assign(&mut self, rhs: usize)
        requires
            old(self)@ >= rhs,
        ensures
            final(self)@ == (old(self)@ - rhs) as usize,
    {
        self.0 = self.0 - rhs;
    }
}

impl core::ops::Mul<usize> for BitmapArch {
    type Output = Self;

    /// The product with the integer `rhs`, on the underlying integers. The product must fit the underlying integer.
    fn mul(self, rhs: usize) -> (result: Self)
        ensures
            result@ == (self@ * rhs) as usize,
    {
        Self(self.0 * rhs)
    }
}

impl vstd::std_specs::ops::MulSpecImpl<usize> for BitmapArch {
    open spec fn obeys_mul_spec() -> bool {
        true
    }

    open spec fn mul_req(self, rhs: usize) -> bool {
        self@ * rhs <= usize::MAX
    }

    open spec fn mul_spec(self, rhs: usize) -> Self {
        Self::from_spec((self@ * rhs) as usize)
    }
}

impl core::ops::MulAssign<usize> for BitmapArch {
    /// Multiplies by the integer `rhs`, in place, on the underlying integers. The product must fit the underlying integer.
    fn mul_assign(&mut self, rhs: usize)
        requires
            old(self)@ * rhs <= usize::MAX,
        ensures
            final(self)@ == (old(self)@ * rhs) as usize,
    {
        self.0 = self.0 * rhs;
    }
}

impl core::ops::Div<usize> for BitmapArch {
    type Output = Self;

    /// The quotient by the integer `rhs`, on the underlying integers. `rhs` must not be zero.
    fn div(self, rhs: usize) -> (result: Self)
        ensures
            result@ == self@ / rhs,
    {
        Self(self.0 / rhs)
    }
}

impl vstd::std_specs::ops::DivSpecImpl<usize> for BitmapArch {
    open spec fn obeys_div_spec() -> bool {
        true
    }

    open spec fn div_req(self, rhs: usize) -> bool {
        rhs != 0
    }

    open spec fn div_spec(self, rhs: usize) -> Self {
        Self::from_spec(self@ / rhs)
    }
}

impl core::ops::DivAssign<usize> for BitmapArch {
    /// Divides by the integer `rhs`, in place, on the underlying integers. `rhs` must not be zero.
    fn div_assign(&mut self, rhs: usize)
        requires
            rhs != 0,
        ensures
            final(self)@ == old(self)@ / rhs,
    {
        self.0 = self.0 / rhs;
    }
}

impl core::ops::Shl<usize> for BitmapArch {
    type Output = Self;

    /// The underlying integer shifted left by `rhs` bits, which must be fewer than the
    /// capacity.
    fn shl(self, rhs: usize) -> (result: Self)
        ensures
            result@ == self@ << rhs,
    {
        Self(self.0 << rhs)
    }
}

impl vstd::std_specs::ops::ShlSpecImpl<usize> for BitmapArch {
    open spec fn obeys_shl_spec() -> bool {
        true
    }

    open spec fn shl_req(self, rhs: usize) -> bool {
        rhs < usize::BITS
    }

    open spec fn shl_spec(self, rhs: usize) -> Self {
        Self::from_spec(self@ << rhs)
    }
}

impl core::ops::ShlAssign<usize> for BitmapArch {
    /// Shifts the underlying integer left by `rhs` bits, which must be fewer than the
    /// capacity.
    fn shl_assign(&mut self, rhs: usize)
        requires
            rhs < usize::BITS,
        ensures
            final(self)@ == old(self)@ << rhs,
    {
        self.0 = self.0 << rhs;
    }
}

impl core::ops::Shr<usize> for BitmapArch {
    type Output = Self;

    /// The underlying integer shifted right by `rhs` bits, which must be fewer than the
    /// capacity.
    fn shr(self, rhs: usize) -> (result: Self)
        ensures
            result@ == self@ >> rhs,
    {
        Self(self.0 >> rhs)
    }
}

impl vstd::std_specs::ops::ShrSpecImpl<usize> for BitmapArch {
    open spec fn obeys_shr_spec() -> bool {
        true
    }

    open spec fn shr_req(self, rhs: usize) -> bool {
        rhs < usize::BITS
    }

    open spec fn shr_spec(self, rhs: usize) -> Self {
        Self::from_spec(self@ >> rhs)
    }
}

impl core::ops::ShrAssign<usize> for BitmapArch {
    /// Shifts the underlying integer right by `rhs` bits, which must be fewer than the
    /// capacity.
    fn shr_assign(&mut self, rhs: usize)
        requires
            rhs < usize::BITS,
        ensures
            final(self)@ == old(self)@ >> rhs,
    {
        self.0 = self.0 >> rhs;
    }
}

impl core::ops::Not for BitmapArch {
    type Output = Self;

    /// The complement: every bit flipped.
    fn not(self) -> (result: Self)
        ensures
            result@ == !self@,
    {
        proof {
            lemma_word_algebra(self.0, 0);
        }
        Self(self.0 ^ usize::MAX)
    }
}

impl vstd::std_specs::ops::NotSpecImpl for BitmapArch {
    open spec fn obeys_not_spec() -> bool {
        true
    }

    open spec fn not_req(self) -> bool {
        true
    }

    open spec fn not_spec(self) -> Self {
        Self::from_spec(!self@)
    }
}

impl BitmapArch {
    /// AND is commutative.
    pub proof fn lemma_and_commutative(a: Self, b: Self)
        ensures
            a.bitand_spec(b) == b.bitand_spec(a),
    {
        lemma_word_algebra(a.0, b.0);
    }

    /// OR with the full bitmap gives the full bitmap.
    pub proof fn lemma_or_full(a: Self)
        ensures
            a.bitor_spec(Self::from_spec(usize::MAX)) == Self::from_spec(usize::MAX),
    {
        lemma_word_algebra(a.0, 0);
    }

    /// XOR of a bitmap with itself gives the empty bitmap.
    pub proof fn lemma_xor_self(a: Self)
        ensures
            a.bitxor_spec(a) == Self::from_spec(0usize),
    {
        lemma_word_algebra(a.0, 0);
    }

    /// Complementing twice gives the bitmap back.
    pub proof fn lemma_not_involution(a: Self)
        ensures
            a.not_spec().not_spec() == a,
    {
        lemma_word_algebra(a.0, 0);
    }

    /// A range mask and its opposite cover the whole bitmap between them and share no bit.
    pub proof fn lemma_mask_round_trip(begin: int, end: int)
        ensures
            Self::from_spec(range_word(begin, end, true)).bitor_spec(
                Self::from_spec(range_word(begin, end, false)),
            ) == Self::from_spec(usize::MAX),
            Self::from_spec(range_word(begin, end, true)).bitand_spec(
                Self::from_spec(range_word(begin, end, false)),
            ) == Self::from_spec(0usize),
    {
        lemma_word_algebra(range_word(begin, end, true), 0);
    }
}

} // verus!
