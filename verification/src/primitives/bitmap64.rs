//! `Bitmap64`: a bitmap of 64 bits held in one `u64`.
use crate::digits::{binary_string, binary_text};
use crate::message::{get_out_of_range, get_prefix, out_of_range_text, set_out_of_range, set_prefix};
use crate::size::BitmapSize;
use core::cmp::Ordering;
use vstd::prelude::*;
use vstd::std_specs::convert::FromSpec;
use vstd::std_specs::ops::{BitAndSpec, BitOrSpec, BitXorSpec, NotSpec};

verus! {

/// A bitmap of 64 bits. Bit 0 is the least significant bit of the underlying `u64`.
#[derive(Clone, Copy, Debug, Hash, PartialEq, Eq, Structural, Ord)]
pub struct Bitmap64(u64);

impl BitmapSize for Bitmap64 {
    const MAP_LENGTH: usize = 64;
}

impl View for Bitmap64 {
    type V = u64;

    /// The underlying integer.
    closed spec fn view(&self) -> u64 {
        self.0
    }
}

/// Whether bit `offset` of `word` is one.
pub open spec fn word_bit(word: u64, offset: int) -> bool {
    (word >> (offset as u64)) & 1 == 1
}

/// `word` with bit `offset` forced to `value`.
pub open spec fn word_with_bit(word: u64, offset: int, value: bool) -> u64 {
    if value {
        word | (1u64 << (offset as u64))
    } else {
        word & !(1u64 << (offset as u64))
    }
}

/// The word whose lowest `count` bits are one: all of them from 64 on, none below 1.
pub open spec fn ones_below(count: int) -> u64 {
    if count <= 0 {
        0
    } else if count >= 64 {
        u64::MAX
    } else {
        ((1u64 << (count as u64)) - 1) as u64
    }
}

/// The word whose bits `begin..end` are `value` and whose other bits are `!value`.
/// Offsets outside the word are clipped; an empty range leaves every bit at `!value`.
pub open spec fn range_word(begin: int, end: int, value: bool) -> u64 {
    if value {
        ones_below(end) & !ones_below(begin)
    } else {
        !(ones_below(end) & !ones_below(begin))
    }
}

proof fn lemma_single_bit(word: u64, i: u64, j: u64)
    by (bit_vector)
    requires
        i < 64,
        j < 64,
    ensures
        ((word & (1u64 << i)) > 0) == ((word >> i) & 1 == 1),
        u64::MAX - (1u64 << i) == !(1u64 << i),
        (((word | (1u64 << i)) >> j) & 1 == 1) == (j == i || (word >> j) & 1 == 1),
        (((word & !(1u64 << i)) >> j) & 1 == 1) == (j != i && (word >> j) & 1 == 1),
        (((0u64 | (1u64 << i)) >> j) & 1 == 1) == (j == i),
{
}

proof fn lemma_word_logic(a: u64, b: u64, j: u64)
    by (bit_vector)
    requires
        j < 64,
    ensures
        (((a & b) >> j) & 1 == 1) == (((a >> j) & 1 == 1) && ((b >> j) & 1 == 1)),
        (((a | b) >> j) & 1 == 1) == (((a >> j) & 1 == 1) || ((b >> j) & 1 == 1)),
        (((a ^ b) >> j) & 1 == 1) == (((a >> j) & 1 == 1) != ((b >> j) & 1 == 1)),
        (((!a) >> j) & 1 == 1) == !((a >> j) & 1 == 1),
        ((0u64 >> j) & 1 == 1) == false,
        ((u64::MAX >> j) & 1 == 1) == true,
{
}

proof fn lemma_word_algebra(a: u64, b: u64)
    by (bit_vector)
    ensures
        a & b == b & a,
        a | u64::MAX == u64::MAX,
        a & u64::MAX == a,
        a & 0 == 0,
        a ^ a == 0,
        a ^ u64::MAX == !a,
        !(!a) == a,
        a | !a == u64::MAX,
        a & !a == 0,
        !u64::MAX == 0,
        !0u64 == u64::MAX,
{
}

proof fn lemma_low_ones(count: u64, offset: u64)
    by (bit_vector)
    requires
        0 < count < 64,
        offset < 64,
    ensures
        ((((1u64 << count) - 1) as u64 >> offset) & 1 == 1) == (offset < count),
{
}

proof fn lemma_shifted_range(lo: u64, hi: u64)
    by (bit_vector)
    requires
        lo < 64,
        0 < hi <= 64,
    ensures
        ({
            let low = if lo == 0 {
                0u64
            } else {
                ((1u64 << lo) - 1) as u64
            };
            let high = if hi == 64 {
                u64::MAX
            } else {
                ((1u64 << hi) - 1) as u64
            };
            &&& u64::MAX & !low == u64::MAX << lo
            &&& hi < 64 ==> high & !low == u64::MAX << lo & u64::MAX >> (64 - hi) as u64
        }),
{
}

proof fn lemma_low_bits_step(a: u64, b: u64, count: u64)
    by (bit_vector)
    requires
        count < 64,
    ensures
        a & (((1u64 << 0u64) - 1) as u64) == b & (((1u64 << 0u64) - 1) as u64),
        (a & (((1u64 << count) - 1) as u64) == b & (((1u64 << count) - 1) as u64) && ((a >> count)
            & 1 == 1) == ((b >> count) & 1 == 1)) ==> {
            &&& count < 64 - 1 ==> a & (((1u64 << ((count + 1) as u64)) - 1) as u64) == b & (((1u64
                << ((count + 1) as u64)) - 1) as u64)
            &&& count == 64 - 1 ==> a == b
        },
{
}

proof fn lemma_low_bits_agree(a: u64, b: u64, count: u64)
    requires
        count < 64,
        forall|offset: int| 0 <= offset < 64 ==> word_bit(a, offset) == word_bit(b, offset),
    ensures
        a & (((1u64 << count) - 1) as u64) == b & (((1u64 << count) - 1) as u64),
    decreases count,
{
    if count == 0 {
        lemma_low_bits_step(a, b, 0);
    } else {
        let below = (count - 1) as u64;
        lemma_low_bits_agree(a, b, below);
        assert(word_bit(a, below as int) == word_bit(b, below as int));
        lemma_low_bits_step(a, b, below);
    }
}

/// Two words whose bits agree are equal.
pub proof fn lemma_word_bits_determine(a: u64, b: u64)
    requires
        forall|offset: int| 0 <= offset < 64 ==> word_bit(a, offset) == word_bit(b, offset),
    ensures
        a == b,
{
    let top = (64 - 1) as u64;
    lemma_low_bits_agree(a, b, top);
    assert(word_bit(a, top as int) == word_bit(b, top as int));
    lemma_low_bits_step(a, b, top);
}

/// Reading back a bit after forcing one bit of a word: the forced bit has the new value
/// and every other bit is unchanged.
pub proof fn lemma_word_with_bit(word: u64, offset: int, value: bool, other: int)
    requires
        0 <= offset < 64,
        0 <= other < 64,
    ensures
        word_bit(word_with_bit(word, offset, value), other) == if other == offset {
            value
        } else {
            word_bit(word, other)
        },
{
    lemma_single_bit(word, offset as u64, other as u64);
}

/// The boolean operations act on each bit independently.
pub proof fn lemma_logic_bits(a: u64, b: u64, offset: int)
    requires
        0 <= offset < 64,
    ensures
        word_bit(a & b, offset) == (word_bit(a, offset) && word_bit(b, offset)),
        word_bit(a | b, offset) == (word_bit(a, offset) || word_bit(b, offset)),
        word_bit(a ^ b, offset) == (word_bit(a, offset) != word_bit(b, offset)),
        word_bit(!a, offset) == !word_bit(a, offset),
        !word_bit(0, offset),
        word_bit(u64::MAX, offset),
{
    lemma_word_logic(a, b, offset as u64);
}

/// Bit `offset` of a range mask is `value` inside `begin..end` and `!value` outside.
pub proof fn lemma_range_word(begin: int, end: int, value: bool, offset: int)
    requires
        0 <= offset < 64,
    ensures
        word_bit(range_word(begin, end, value), offset) == ((begin <= offset < end) == value),
{
    if 0 < begin < 64 {
        lemma_low_ones(begin as u64, offset as u64);
    }
    if 0 < end < 64 {
        lemma_low_ones(end as u64, offset as u64);
    }
    lemma_word_logic(0, 0, offset as u64);
    lemma_word_logic(ones_below(begin), 0, offset as u64);
    lemma_word_logic(ones_below(end), !ones_below(begin), offset as u64);
    lemma_word_logic(ones_below(end) & !ones_below(begin), 0, offset as u64);
}

impl Bitmap64 {
    /// Whether bit `index` is set.
    pub open spec fn bit(&self, index: int) -> bool {
        word_bit(self@, index)
    }

    /// A bitmap is determined by its underlying integer, and the bitmap made from an
    /// integer holds that integer.
    pub proof fn lemma_view(a: Self, b: Self, value: u64)
        ensures
            a@ == b@ ==> a == b,
            Self::from_spec(value)@ == value,
            Self::from_spec(a@) == a,
    {
    }

    /// Two bitmaps whose bits agree are equal.
    pub proof fn lemma_bits_determine(a: Self, b: Self)
        requires
            forall|index: int| 0 <= index < 64 ==> a.bit(index) == b.bit(index),
        ensures
            a == b,
    {
        assert forall|offset: int| 0 <= offset < 64 implies word_bit(a.0, offset) == word_bit(
            b.0,
            offset,
        ) by {
            assert(a.bit(offset) == b.bit(offset));
        }
        lemma_word_bits_determine(a.0, b.0);
    }

    /// The number of bits in the bitmap.
    pub fn capacity() -> (bits: usize)
        ensures
            bits == 64,
    {
        Bitmap64::MAP_LENGTH
    }

    /// The underlying integer.
    pub fn to_u64(&self) -> (value: u64)
        ensures
            value == self@,
    {
        self.0
    }

    /// The bitmap with every bit set to `value`.
    pub fn new(value: bool) -> (bitmap: Bitmap64)
        ensures
            bitmap@ == if value {
                u64::MAX
            } else {
                0
            },
            forall|index: int| 0 <= index < 64 ==> #[trigger] bitmap.bit(index) == value,
    {
        let bitmap = Bitmap64(
            if value {
                u64::MAX
            } else {
                0
            },
        );
        proof {
            assert forall|index: int| 0 <= index < 64 implies #[trigger] bitmap.bit(index)
                == value by {
                lemma_logic_bits(0, 0, index);
            }
        }
        bitmap
    }

    /// The bitmap whose bits `begin..end` are `value` and whose other bits are `!value`.
    /// A range that reaches past the capacity is cut off there; a range that is empty, or
    /// that starts at or past the capacity, leaves every bit at `!value`.
    pub fn create_bit_mask(begin: usize, end: usize, value: bool) -> (mask: Bitmap64)
        ensures
            mask@ == range_word(begin as int, end as int, value),
            forall|index: int|
                0 <= index < 64 ==> #[trigger] mask.bit(index) == ((begin <= index < end)
                    == value),
        decreases (if value {
            0int
        } else {
            1int
        }),
    {
        let mask = if value {
            if begin >= Bitmap64::MAP_LENGTH || end < 1 {
                proof {
                    lemma_word_algebra(ones_below(end as int), 0);
                    lemma_word_algebra(!ones_below(begin as int), 0);
                    lemma_word_algebra(0, !ones_below(begin as int));
                }
                Bitmap64(0)
            } else if end >= Bitmap64::MAP_LENGTH {
                proof {
                    lemma_shifted_range(begin as u64, 64 as u64);
                }
                Bitmap64(u64::MAX << begin)
            } else {
                proof {
                    lemma_shifted_range(begin as u64, end as u64);
                }
                Bitmap64(u64::MAX << begin & u64::MAX >> (Bitmap64::MAP_LENGTH - end))
            }
        } else {
            let opposite = Bitmap64::create_bit_mask(begin, end, true);
            proof {
                lemma_word_algebra(opposite.0, 0);
            }
            Bitmap64(opposite.0 ^ u64::MAX)
        };
        proof {
            assert forall|index: int| 0 <= index < 64 implies #[trigger] mask.bit(index) == ((
            begin <= index < end) == value) by {
                lemma_range_word(begin as int, end as int, value, index);
            }
        }
        mask
    }

    /// The bitmap whose only set bit is `index`; `None` when `index` is not below the
    /// capacity.
    pub fn from_set(index: usize) -> (result: Option<Bitmap64>)
        ensures
            index >= 64 ==> result is None,
            index < 64 ==> result is Some && result->Some_0@ == word_with_bit(
                0,
                index as int,
                true,
            ),
            index < 64 ==> forall|other: int|
                0 <= other < 64 ==> #[trigger] result->Some_0.bit(other) == (other == index),
    {
        if index >= Bitmap64::MAP_LENGTH {
            return None;
        }
        let bitmap = Bitmap64(0 | (1u64 << index));
        proof {
            assert forall|other: int| 0 <= other < 64 implies #[trigger] bitmap.bit(other) == (
            other == index) by {
                lemma_single_bit(0, index as u64, other as u64);
            }
        }
        Some(bitmap)
    }

    /// Forces bit `index` to `value` and leaves every other bit as it was, or fails and
    /// leaves the bitmap untouched when `index` is not below the capacity.
    pub fn set(&mut self, index: usize, value: bool) -> (result: Result<(), String>)
        ensures
            index < 64 ==> result is Ok && final(self)@ == word_with_bit(
                old(self)@,
                index as int,
                value,
            ),
            index < 64 ==> forall|other: int|
                0 <= other < 64 ==> #[trigger] final(self).bit(other) == if other == index {
                    value
                } else {
                    old(self).bit(other)
                },
            index >= 64 ==> *final(self) == *old(self) && result is Err && result->Err_0@
                == out_of_range_text(set_prefix(), 64, index),
    {
        if index >= Bitmap64::MAP_LENGTH {
            return Err(set_out_of_range(Bitmap64::MAP_LENGTH, index));
        }
        let ghost before = self.0;
        proof {
            lemma_single_bit(before, index as u64, index as u64);
        }
        if value {
            let mask = 1u64 << index;
            self.0 = self.0 | mask;
        } else {
            let mask = u64::MAX - (1u64 << index);
            self.0 = self.0 & mask;
        }
        proof {
            assert forall|other: int| 0 <= other < 64 implies #[trigger] self.bit(other)
                == if other == index {
                value
            } else {
                word_bit(before, other)
            } by {
                lemma_word_with_bit(before, index as int, value, other);
            }
        }
        Ok(())
    }

    /// Forces the bits `begin..end` to `value` and leaves every other bit as it was.
    pub fn set_range(&mut self, begin: usize, end: usize, value: bool)
        ensures
            final(self)@ == if value {
                old(self)@ | range_word(begin as int, end as int, true)
            } else {
                old(self)@ & range_word(begin as int, end as int, false)
            },
            forall|index: int|
                0 <= index < 64 ==> #[trigger] final(self).bit(index) == if begin <= index
                    < end {
                    value
                } else {
                    old(self).bit(index)
                },
    {
        let ghost before = self.0;
        let mask = Bitmap64::create_bit_mask(begin, end, value);
        if value {
            self.0 = self.0 | mask.0;
        } else {
            self.0 = self.0 & mask.0;
        }
        proof {
            assert forall|index: int| 0 <= index < 64 implies #[trigger] self.bit(index)
                == if begin <= index < end {
                value
            } else {
                word_bit(before, index)
            } by {
                lemma_logic_bits(before, mask.0, index);
                assert(mask.bit(index) == ((begin <= index < end) == value));
            }
        }
    }

    /// The underlying integer in binary, most significant bit first, with no leading
    /// zero.
    pub fn to_text(&self) -> (text: String)
        ensures
            text@ == binary_text(self@ as nat),
    {
        binary_string(self.0 as u128)
    }

    /// Reads bit `index`, or fails when `index` is not below the capacity.
    pub fn get(&self, index: usize) -> (result: Result<bool, String>)
        ensures
            index < 64 ==> result == Ok::<bool, String>(self.bit(index as int)),
            index >= 64 ==> result is Err && result->Err_0@ == out_of_range_text(
                get_prefix(),
                64,
                index,
            ),
    {
        if index >= Bitmap64::MAP_LENGTH {
            return Err(get_out_of_range(Bitmap64::MAP_LENGTH, index));
        }
        let mask = 1u64 << index;
        proof {
            lemma_single_bit(self.0, index as u64, index as u64);
        }
        Ok(self.0 & mask > 0)
    }
}

impl Default for Bitmap64 {
    /// The empty bitmap.
    fn default() -> (bitmap: Self)
        ensures
            bitmap@ == 0,
            forall|index: int| 0 <= index < 64 ==> !#[trigger] bitmap.bit(index),
    {
        Bitmap64::new(false)
    }
}

impl From<u64> for Bitmap64 {
    /// Wraps the given integer.
    fn from(value: u64) -> (bitmap: Self)
        ensures
            bitmap@ == value,
    {
        Bitmap64(value)
    }
}

impl vstd::std_specs::convert::FromSpecImpl<u64> for Bitmap64 {
    open spec fn obeys_from_spec() -> bool {
        true
    }

    closed spec fn from_spec(value: u64) -> Self {
        Bitmap64(value)
    }
}

impl core::ops::Deref for Bitmap64 {
    type Target = u64;

    fn deref(&self) -> (value: &u64)
        ensures
            *value == self@,
    {
        &self.0
    }
}

impl PartialOrd for Bitmap64 {
    /// Bitmaps are ordered as their underlying integers are.
    fn partial_cmp(&self, other: &Self) -> (order: Option<Ordering>) {
        if self.0 < other.0 {
            Some(Ordering::Less)
        } else if self.0 > other.0 {
            Some(Ordering::Greater)
        } else {
            Some(Ordering::Equal)
        }
    }
}

impl vstd::std_specs::cmp::PartialOrdSpecImpl for Bitmap64 {
    open spec fn obeys_partial_cmp_spec() -> bool {
        true
    }

    open spec fn partial_cmp_spec(&self, other: &Self) -> Option<Ordering> {
        if self@ < other@ {
            Some(Ordering::Less)
        } else if self@ > other@ {
            Some(Ordering::Greater)
        } else {
            Some(Ordering::Equal)
        }
    }
}

impl core::ops::BitAnd for Bitmap64 {
    type Output = Self;

    /// The bit-by-bit AND with the bitmap `rhs`.
    fn bitand(self, rhs: Self) -> (result: Self)
        ensures
            result@ == self@ & rhs@,
    {
        Self(self.0 & rhs.0)
    }
}

impl vstd::std_specs::ops::BitAndSpecImpl for Bitmap64 {
    open spec fn obeys_bitand_spec() -> bool {
        true
    }

    open spec fn bitand_req(self, rhs: Self) -> bool {
        true
    }

    open spec fn bitand_spec(self, rhs: Self) -> Self {
        Self::from_spec(self@ & rhs@)
    }
}

impl core::ops::BitAndAssign for Bitmap64 {
    /// Replaces the bitmap by its bit-by-bit AND with the bitmap `rhs`.
    fn bitand_assign(&mut self, rhs: Self)
        ensures
            final(self)@ == old(self)@ & rhs@,
    {
        self.0 = self.0 & rhs.0;
    }
}

impl core::ops::BitOr for Bitmap64 {
    type Output = Self;

    /// The bit-by-bit OR with the bitmap `rhs`.
    fn bitor(self, rhs: Self) -> (result: Self)
        ensures
            result@ == self@ | rhs@,
    {
        Self(self.0 | rhs.0)
    }
}

impl vstd::std_specs::ops::BitOrSpecImpl for Bitmap64 {
    open spec fn obeys_bitor_spec() -> bool {
        true
    }

    open spec fn bitor_req(self, rhs: Self) -> bool {
        true
    }

    open spec fn bitor_spec(self, rhs: Self) -> Self {
        Self::from_spec(self@ | rhs@)
    }
}

impl core::ops::BitOrAssign for Bitmap64 {
    /// Replaces the bitmap by its bit-by-bit OR with the bitmap `rhs`.
    fn bitor_assign(&mut self, rhs: Self)
        ensures
            final(self)@ == old(self)@ | rhs@,
    {
        self.0 = self.0 | rhs.0;
    }
}

impl core::ops::BitXor for Bitmap64 {
    type Output = Self;

    /// The bit-by-bit XOR with the bitmap `rhs`.
    fn bitxor(self, rhs: Self) -> (result: Self)
        ensures
            result@ == self@ ^ rhs@,
    {
        Self(self.0 ^ rhs.0)
    }
}

impl vstd::std_specs::ops::BitXorSpecImpl for Bitmap64 {
    open spec fn obeys_bitxor_spec() -> bool {
        true
    }

    open spec fn bitxor_req(self, rhs: Self) -> bool {
        true
    }

    open spec fn bitxor_spec(self, rhs: Self) -> Self {
        Self::from_spec(self@ ^ rhs@)
    }
}

impl core::ops::BitXorAssign for Bitmap64 {
    /// Replaces the bitmap by its bit-by-bit XOR with the bitmap `rhs`.
    fn bitxor_assign(&mut self, rhs: Self)
        ensures
            final(self)@ == old(self)@ ^ rhs@,
    {
        self.0 = self.0 ^ rhs.0;
    }
}

impl core::ops::Add for Bitmap64 {
    type Output = Self;

    /// The sum with the bitmap `rhs`, on the underlying integers. The sum must fit the underlying integer.
    fn add(self, rhs: Self) -> (result: Self)
        ensures
            result@ == (self@ + rhs@) as u64,
    {
        Self(self.0 + rhs.0)
    }
}

impl vstd::std_specs::ops::AddSpecImpl for Bitmap64 {
    open spec fn obeys_add_spec() -> bool {
        true
    }

    open spec fn add_req(self, rhs: Self) -> bool {
        self@ + rhs@ <= u64::MAX
    }

    open spec fn add_spec(self, rhs: Self) -> Self {
        Self::from_spec((self@ + rhs@) as u64)
    }
}

impl core::ops::AddAssign for Bitmap64 {
    /// Adds the bitmap `rhs`, in place, on the underlying integers. The sum must fit the underlying integer.
    fn add_assign(&mut self, rhs: Self)
        requires
            old(self)@ + rhs@ <= u64::MAX,
        ensures
            final(self)@ == (old(self)@ + rhs@) as u64,
    {
        self.0 = self.0 + rhs.0;
    }
}

impl core::ops::Sub for Bitmap64 {
    type Output = Self;

    /// The difference from the bitmap `rhs`, on the underlying integers. The bitmap must not be below `rhs`.
    fn sub(self, rhs: Self) -> (result: Self)
        ensures
            result@ == (self@ - rhs@) as u64,
    {
        Self(self.0 - rhs.0)
    }
}

impl vstd::std_specs::ops::SubSpecImpl for Bitmap64 {
    open spec fn obeys_sub_spec() -> bool {
        true
    }

    open spec fn sub_req(self, rhs: Self) -> bool {
        self@ >= rhs@
    }

    open spec fn sub_spec(self, rhs: Self) -> Self {
        Self::from_spec((self@ - rhs@) as u64)
    }
}

impl core::ops::SubAssign for Bitmap64 {
    /// Subtracts the bitmap `rhs`, in place, on the underlying integers. The bitmap must not be below `rhs`.
    fn sub_assign(&mut self, rhs: Self)
        requires
            old(self)@ >= rhs@,
        ensures
            final(self)@ == (old(self)@ - rhs@) as u64,
    {
        self.0 = self.0 - rhs.0;
    }
}

impl core::ops::Mul for Bitmap64 {
    type Output = Self;

    /// The product with the bitmap `rhs`, on the underlying integers. The product must fit the underlying integer.
    fn mul(self, rhs: Self) -> (result: Self)
        ensures
            result@ == (self@ * rhs@) as u64,
    {
        Self(self.0 * rhs.0)
    }
}

impl vstd::std_specs::ops::MulSpecImpl for Bitmap64 {
    open spec fn obeys_mul_spec() -> bool {
        true
    }

    open spec fn mul_req(self, rhs: Self) -> bool {
        self@ * rhs@ <= u64::MAX
    }

    open spec fn mul_spec(self, rhs: Self) -> Self {
        Self::from_spec((self@ * rhs@) as u64)
    }
}

impl core::ops::MulAssign for Bitmap64 {
    /// Multiplies by the bitmap `rhs`, in place, on the underlying integers. The product must fit the underlying integer.
    fn mul_assign(&mut self, rhs: Self)
        requires
            old(self)@ * rhs@ <= u64::MAX,
        ensures
            final(self)@ == (old(self)@ * rhs@) as u64,
    {
        self.0 = self.0 * rhs.0;
    }
}

impl core::ops::Div for Bitmap64 {
    type Output = Self;

    /// The quotient by the bitmap `rhs`, on the underlying integers. `rhs` must not be zero.
    fn div(self, rhs: Self) -> (result: Self)
        ensures
            result@ == self@ / rhs@,
    {
        Self(self.0 / rhs.0)
    }
}

impl vstd::std_specs::ops::DivSpecImpl for Bitmap64 {
    open spec fn obeys_div_spec() -> bool {
        true
    }

    open spec fn div_req(self, rhs: Self) -> bool {
        rhs@ != 0
    }

    open spec fn div_spec(self, rhs: Self) -> Self {
        Self::from_spec(self@ / rhs@)
    }
}

impl core::ops::DivAssign for Bitmap64 {
    /// Divides by the bitmap `rhs`, in place, on the underlying integers. `rhs` must not be zero.
    fn div_assign(&mut self, rhs: Self)
        requires
            rhs@ != 0,
        ensures
            final(self)@ == old(self)@ / rhs@,
    {
        self.0 = self.0 / rhs.0;
    }
}

impl core::ops::BitAnd<u64> for Bitmap64 {
    type Output = Self;

    /// The bit-by-bit AND with the integer `rhs`.
    fn bitand(self, rhs: u64) -> (result: Self)
        ensures
            result@ == self@ & rhs,
    {
        Self(self.0 & rhs)
    }
}

impl vstd::std_specs::ops::BitAndSpecImpl<u64> for Bitmap64 {
    open spec fn obeys_bitand_spec() -> bool {
        true
    }

    open spec fn bitand_req(self, rhs: u64) -> bool {
        true
    }

    open spec fn bitand_spec(self, rhs: u64) -> Self {
        Self::from_spec(self@ & rhs)
    }
}

impl core::ops::BitAndAssign<u64> for Bitmap64 {
    /// Replaces the bitmap by its bit-by-bit AND with the integer `rhs`.
    fn bitand_assign(&mut self, rhs: u64)
        ensures
            final(self)@ == old(self)@ & rhs,
    {
        self.0 = self.0 & rhs;
    }
}

impl core::ops::BitOr<u64> for Bitmap64 {
    type Output = Self;

    /// The bit-by-bit OR with the integer `rhs`.
    fn bitor(self, rhs: u64) -> (result: Self)
        ensures
            result@ == self@ | rhs,
    {
        Self(self.0 | rhs)
    }
}

impl vstd::std_specs::ops::BitOrSpecImpl<u64> for Bitmap64 {
    open spec fn obeys_bitor_spec() -> bool {
        true
    }

    open spec fn bitor_req(self, rhs: u64) -> bool {
        true
    }

    open spec fn bitor_spec(self, rhs: u64) -> Self {
        Self::from_spec(self@ | rhs)
    }
}

impl core::ops::BitOrAssign<u64> for Bitmap64 {
    /// Replaces the bitmap by its bit-by-bit OR with the integer `rhs`.
    fn bitor_assign(&mut self, rhs: u64)
        ensures
            final(self)@ == old(self)@ | rhs,
    {
        self.0 = self.0 | rhs;
    }
}

impl core::ops::BitXor<u64> for Bitmap64 {
    type Output = Self;

    /// The bit-by-bit XOR with the integer `rhs`.
    fn bitxor(self, rhs: u64) -> (result: Self)
        ensures
            result@ == self@ ^ rhs,
    {
        Self(self.0 ^ rhs)
    }
}

impl vstd::std_specs::ops::BitXorSpecImpl<u64> for Bitmap64 {
    open spec fn obeys_bitxor_spec() -> bool {
        true
    }

    open spec fn bitxor_req(self, rhs: u64) -> bool {
        true
    }

    open spec fn bitxor_spec(self, rhs: u64) -> Self {
        Self::from_spec(self@ ^ rhs)
    }
}

impl core::ops::BitXorAssign<u64> for Bitmap64 {
    /// Replaces the bitmap by its bit-by-bit XOR with the integer `rhs`.
    fn bitxor_assign(&mut self, rhs: u64)
        ensures
            final(self)@ == old(self)@ ^ rhs,
    {
        self.0 = self.0 ^ rhs;
    }
}

impl core::ops::Add<u64> for Bitmap64 {
    type Output = Self;

    /// The sum with the integer `rhs`, on the underlying integers. The sum must fit the underlying integer.
    fn add(self, rhs: u64) -> (result: Self)
        ensures
            result@ == (self@ + rhs) as u64,
    {
        Self(self.0 + rhs)
    }
}

impl vstd::std_specs::ops::AddSpecImpl<u64> for Bitmap64 {
    open spec fn obeys_add_spec() -> bool {
        true
    }

    open spec fn add_req(self, rhs: u64) -> bool {
        self@ + rhs <= u64::MAX
    }

    open spec fn add_spec(self, rhs: u64) -> Self {
        Self::from_spec((self@ + rhs) as u64)
    }
}

impl core::ops::AddAssign<u64> for Bitmap64 {
    /// Adds the integer `rhs`, in place, on the underlying integers. The sum must fit the underlying integer.
    fn add_assign(&mut self, rhs: u64)
        requires
            old(self)@ + rhs <= u64::MAX,
        ensures
            final(self)@ == (old(self)@ + rhs) as u64,
    {
        self.0 = self.0 + rhs;
    }
}

impl core::ops::Sub<u64> for Bitmap64 {
    type Output = Self;

    /// The difference from the integer `rhs`, on the underlying integers. The bitmap must not be below `rhs`.
    fn sub(self, rhs: u64) -> (result: Self)
        ensures
            result@ == (self@ - rhs) as u64,
    {
        Self(self.0 - rhs)
    }
}

impl vstd::std_specs::ops::SubSpecImpl<u64> for Bitmap64 {
    open spec fn obeys_sub_spec() -> bool {
        true
    }

    open spec fn sub_req(self, rhs: u64) -> bool {
        self@ >= rhs
    }

    open spec fn sub_spec(self, rhs: u64) -> Self {
        Self::from_spec((self@ - rhs) as u64)
    }
}

impl core::ops::SubAssign<u64> for Bitmap64 {
    /// Subtracts the integer `rhs`, in place, on the underlying integers. The bitmap must not be below `rhs`.
    fn sub_assign(&mut self, rhs: u64)
        requires
            old(self)@ >= rhs,
        ensures
            final(self)@ == (old(self)@ - rhs) as u64,
    {
        self.0 = self.0 - rhs;
    }
}

impl core::ops::Mul<u64> for Bitmap64 {
    type Output = Self;

    /// The product with the integer `rhs`, on the underlying integers. The product must fit the underlying integer.
    fn mul(self, rhs: u64) -> (result: Self)
        ensures
            result@ == (self@ * rhs) as u64,
    {
        Self(self.0 * rhs)
    }
}

impl vstd::std_specs::ops::MulSpecImpl<u64> for Bitmap64 {
    open spec fn obeys_mul_spec() -> bool {
        true
    }

    open spec fn mul_req(self, rhs: u64) -> bool {
        self@ * rhs <= u64::MAX
    }

    open spec fn mul_spec(self, rhs: u64) -> Self {
        Self::from_spec((self@ * rhs) as u64)
    }
}

impl core::ops::MulAssign<u64> for Bitmap64 {
    /// Multiplies by the integer `rhs`, in place, on the underlying integers. The product must fit the underlying integer.
    fn mul_assign(&mut self, rhs: u64)
        requires
            old(self)@ * rhs <= u64::MAX,
        ensures
            final(self)@ == (old(self)@ * rhs) as u64,
    {
        self.0 = self.0 * rhs;
    }
}

impl core::ops::Div<u64> for Bitmap64 {
    type Output = Self;

    /// The quotient by the integer `rhs`, on the underlying integers. `rhs` must not be zero.
    fn div(self, rhs: u64) -> (result: Self)
        ensures
            result@ == self@ / rhs,
    {
        Self(self.0 / rhs)
    }
}

impl vstd::std_specs::ops::DivSpecImpl<u64> for Bitmap64 {
    open spec fn obeys_div_spec() -> bool {
        true
    }

    open spec fn div_req(self, rhs: u64) -> bool {
        rhs != 0
    }

    open spec fn div_spec(self, rhs: u64) -> Self {
        Self::from_spec(self@ / rhs)
    }
}

impl core::ops::DivAssign<u64> for Bitmap64 {
    /// Divides by the integer `rhs`, in place, on the underlying integers. `rhs` must not be zero.
    fn div_assign(&mut self, rhs: u64)
        requires
            rhs != 0,
        ensures
            final(self)@ == old(self)@ / rhs,
    {
        self.0 = self.0 / rhs;
    }
}

impl core::ops::Shl<usize> for Bitmap64 {
    type Output = Self;

    /// The underlying integer shifted left by `rhs` bits, which must be fewer than the
    /// capacity.
    fn shl(self, rhs: usize) -> (result: Self)
        ensures
            result@ == self@ << rhs,
    {
        Self(self.0 << rhs)
    }
}

impl vstd::std_specs::ops::ShlSpecImpl<usize> for Bitmap64 {
    open spec fn obeys_shl_spec() -> bool {
        true
    }

    open spec fn shl_req(self, rhs: usize) -> bool {
        rhs < 64
    }

    open spec fn shl_spec(self, rhs: usize) -> Self {
        Self::from_spec(self@ << rhs)
    }
}

impl core::ops::ShlAssign<usize> for Bitmap64 {
    /// Shifts the underlying integer left by `rhs` bits, which must be fewer than the
    /// capacity.
    fn shl_assign(&mut self, rhs: usize)
        requires
            rhs < 64,
        ensures
            final(self)@ == old(self)@ << rhs,
    {
        self.0 = self.0 << rhs;
    }
}

impl core::ops::Shr<usize> for Bitmap64 {
    type Output = Self;

    /// The underlying integer shifted right by `rhs` bits, which must be fewer than the
    /// capacity.
    fn shr(self, rhs: usize) -> (result: Self)
        ensures
            result@ == self@ >> rhs,
    {
        Self(self.0 >> rhs)
    }
}

impl vstd::std_specs::ops::ShrSpecImpl<usize> for Bitmap64 {
    open spec fn obeys_shr_spec() -> bool {
        true
    }

    open spec fn shr_req(self, rhs: usize) -> bool {
        rhs < 64
    }

    open spec fn shr_spec(self, rhs: usize) -> Self {
        Self::from_spec(self@ >> rhs)
    }
}

impl core::ops::ShrAssign<usize> for Bitmap64 {
    /// Shifts the underlying integer right by `rhs` bits, which must be fewer than the
    /// capacity.
    fn shr_assign(&mut self, rhs: usize)
        requires
            rhs < 64,
        ensures
            final(self)@ == old(self)@ >> rhs,
    {
        self.0 = self.0 >> rhs;
    }
}

impl core::ops::Not for Bitmap64 {
    type Output = Self;

    /// The complement: every bit flipped.
    fn not(self) -> (result: Self)
        ensures
            result@ == !self@,
    {
        proof {
            lemma_word_algebra(self.0, 0);
        }
        Self(self.0 ^ u64::MAX)
    }
}

impl vstd::std_specs::ops::NotSpecImpl for Bitmap64 {
    open spec fn obeys_not_spec() -> bool {
        true
    }

    open spec fn not_req(self) -> bool {
        true
    }

    open spec fn not_spec(self) -> Self {
        Self::from_spec(!self@)
    }
}

impl Bitmap64 {
    /// AND is commutative.
    pub proof fn lemma_and_commutative(a: Self, b: Self)
        ensures
            a.bitand_spec(b) == b.bitand_spec(a),
    {
        lemma_word_algebra(a.0, b.0);
    }

    /// OR with the full bitmap gives the full bitmap.
    pub proof fn lemma_or_full(a: Self)
        ensures
            a.bitor_spec(Self::from_spec(u64::MAX)) == Self::from_spec(u64::MAX),
    {
        lemma_word_algebra(a.0, 0);
    }

    /// XOR of a bitmap with itself gives the empty bitmap.
    pub proof fn lemma_xor_self(a: Self)
        ensures
            a.bitxor_spec(a) == Self::from_spec(0u64),
    {
        lemma_word_algebra(a.0, 0);
    }

    /// Complementing twice gives the bitmap back.
    pub proof fn lemma_not_involution(a: Self)
        ensures
            a.not_spec().not_spec() == a,
    {
        lemma_word_algebra(a.0, 0);
    }

    /// A range mask and its opposite cover the whole bitmap between them and share no bit.
    pub proof fn lemma_mask_round_trip(begin: int, end: int)
        ensures
            Self::from_spec(range_word(begin, end, true)).bitor_spec(
                Self::from_spec(range_word(begin, end, false)),
            ) == Self::from_spec(u64::MAX),
            Self::from_spec(range_word(begin, end, true)).bitand_spec(
                Self::from_spec(range_word(begin, end, false)),
            ) == Self::from_spec(0u64),
    {
        lemma_word_algebra(range_word(begin, end, true), 0);
    }
}

} // verus!
