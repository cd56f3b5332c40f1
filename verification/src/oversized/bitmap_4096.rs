//! `Bitmap4096`: a bitmap of 4096 bits held in 64 words of 64 bits, most significant
//! word first.
use crate::message::{get_out_of_range, get_prefix, out_of_range_text, set_out_of_range, set_prefix};
use crate::size::BitmapSize;
use crate::words::{
    add_scalar, and_assign, and_words, array_of, bit_at, element_location, first_difference,
    full_words, get_bit, lemma_array_of, mask_words, not_assign, not_words, or_assign, or_words,
    range_mask, set_bit, value_of, with_bit, word_location, word_span, words_of, words_string,
    words_text, xor_assign, xor_words, zero_words,
};
use core::cmp::Ordering;
use vstd::prelude::*;
use vstd::std_specs::ops::{BitAndSpec, BitOrSpec, BitXorSpec, NotSpec};

verus! {

/// Number of bits in one word of the bitmap.
pub const ELEMENT_SIZE: usize = 64;

/// Number of words in the bitmap.
pub const ELEMENT_COUNT: usize = 64;

/// A bitmap of 4096 bits. Bit 0 is the least significant bit of the last word, and
/// the capacity is a whole number of words, so every bit of every word belongs to the
/// bitmap.
#[derive(Clone, Copy, Debug, Hash, Eq, Ord)]
pub struct Bitmap4096([u64; ELEMENT_COUNT]);

impl BitmapSize for Bitmap4096 {
    const MAP_LENGTH: usize = 4096;
}

impl View for Bitmap4096 {
    type V = Seq<u64>;

    /// The words of the bitmap, most significant first.
    open spec fn view(&self) -> Seq<u64> {
        self.words()@
    }
}

impl Bitmap4096 {
    /// The array of words that the bitmap holds.
    pub closed spec fn words(&self) -> [u64; ELEMENT_COUNT] {
        self.0
    }

    /// Whether bit `index` is set.
    pub open spec fn bit(&self, index: int) -> bool {
        bit_at(self@, index)
    }

    /// The bitmap read as one unsigned integer.
    pub open spec fn value(&self) -> nat {
        value_of(self@)
    }

    /// The bitmap that holds the given array.
    pub closed spec fn of_array(array: [u64; ELEMENT_COUNT]) -> Self {
        Bitmap4096(array)
    }

    /// The bitmap that holds the given `ELEMENT_COUNT` words.
    pub open spec fn of_words(words: Seq<u64>) -> Self {
        Self::of_array(array_of(words))
    }

    /// The bitmap whose value is that of `self` plus `rhs`, wrapped at the capacity.
    pub open spec fn wrapping_sum(self, rhs: u64) -> Self {
        Self::of_words(
            words_of(
                ((self.value() + rhs) % (word_span(ELEMENT_COUNT as nat) as int)) as nat,
                ELEMENT_COUNT as nat,
            ),
        )
    }

    /// The value of a wrapping sum is the sum of the values, wrapped at the capacity.
    pub proof fn lemma_wrapping_sum(self, rhs: u64)
        ensures
            self.wrapping_sum(rhs).value() == (self.value() + rhs) % (word_span(
                ELEMENT_COUNT as nat,
            ) as int),
    {
        let span = word_span(ELEMENT_COUNT as nat);
        crate::words::lemma_word_span_positive(ELEMENT_COUNT as nat);
        vstd::arithmetic::div_mod::lemma_mod_bound(self.value() + rhs, span as int);
        let wrapped = ((self.value() + rhs) % (span as int)) as nat;
        crate::words::lemma_words_of(wrapped, ELEMENT_COUNT as nat);
        Self::lemma_from_words(words_of(wrapped, ELEMENT_COUNT as nat));
    }

    /// A bitmap is determined by its words.
    pub proof fn lemma_words_determine(a: Self, b: Self)
        requires
            a@ == b@,
        ensures
            a == b,
    {
        assert(a.0 =~= b.0);
    }

    /// Two bitmaps whose bits agree are equal.
    pub proof fn lemma_bits_determine(a: Self, b: Self)
        requires
            forall|index: int| 0 <= index < 4096 ==> a.bit(index) == b.bit(index),
        ensures
            a == b,
    {
        assert forall|index: int| 0 <= index < a@.len() * 64 implies bit_at(a@, index) == bit_at(
            b@,
            index,
        ) by {
            assert(a.bit(index) == b.bit(index));
        }
        crate::words::lemma_bits_determine(a@, b@);
        Self::lemma_words_determine(a, b);
    }

    /// The bitmap made from an array holds that array.
    pub proof fn lemma_from_array(array: [u64; ELEMENT_COUNT])
        ensures
            Self::of_array(array).words() == array,
    {
    }

    /// The bitmap made from `ELEMENT_COUNT` words holds those words.
    pub proof fn lemma_from_words(words: Seq<u64>)
        requires
            words.len() == ELEMENT_COUNT,
        ensures
            Self::of_words(words)@ == words,
    {
        lemma_array_of::<ELEMENT_COUNT>(words);
    }

    /// The place, in the array of words, of the word that holds bit `bit_index`: the last
    /// word holds bit 0.
    pub fn get_element_location(bit_index: usize) -> (location: usize)
        requires
            bit_index < 4096,
        ensures
            location == word_location(ELEMENT_COUNT as int, bit_index as int),
            location < ELEMENT_COUNT,
    {
        element_location::<ELEMENT_COUNT>(bit_index)
    }

    /// The number of bits in the bitmap.
    pub fn capacity() -> (bits: usize)
        ensures
            bits == 4096,
    {
        Bitmap4096::MAP_LENGTH
    }

    /// The words of the bitmap, most significant first.
    #[verifier::when_used_as_spec(words)]
    pub fn to_array(&self) -> (array: [u64; ELEMENT_COUNT])
        ensures
            array == self.words(),
    {
        self.0
    }

    /// Reads bit `index`, or fails when `index` is not below the capacity.
    pub fn get(&self, index: usize) -> (result: Result<bool, String>)
        ensures
            index < 4096 ==> result == Ok::<bool, String>(self.bit(index as int)),
            index >= 4096 ==> result is Err && result->Err_0@ == out_of_range_text(
                get_prefix(),
                4096,
                index,
            ),
    {
        if index >= Bitmap4096::MAP_LENGTH {
            return Err(get_out_of_range(Bitmap4096::MAP_LENGTH, index));
        }
        Ok(get_bit(&self.0, index))
    }

    /// Forces bit `index` to `value` and leaves every other bit as it was, or fails and
    /// leaves the bitmap untouched when `index` is not below the capacity.
    pub fn set(&mut self, index: usize, value: bool) -> (result: Result<(), String>)
        ensures
            index < 4096 ==> result is Ok && final(self)@ == with_bit(
                old(self)@,
                index as int,
                value,
            ),
            index < 4096 ==> forall|other: int|
                0 <= other < 4096 ==> #[trigger] final(self).bit(other) == if other == index {
                    value
                } else {
                    old(self).bit(other)
                },
            index >= 4096 ==> *final(self) == *old(self) && result is Err && result->Err_0@
                == out_of_range_text(set_prefix(), 4096, index),
    {
        if index >= Bitmap4096::MAP_LENGTH {
            return Err(set_out_of_range(Bitmap4096::MAP_LENGTH, index));
        }
        let ghost before = self.0@;
        set_bit(&mut self.0, index, value);
        proof {
            assert forall|other: int| 0 <= other < 4096 implies #[trigger] bit_at(
                self.0@,
                other,
            ) == if other == index {
                value
            } else {
                bit_at(before, other)
            } by {
                crate::words::lemma_with_bit(before, index as int, value, other);
            }
        }
        Ok(())
    }

    /// The bitmap whose only set bit is `index`; `None` when `index` is not below the
    /// capacity.
    pub fn from_set(index: usize) -> (result: Option<Bitmap4096>)
        ensures
            index >= 4096 ==> result is None,
            index < 4096 ==> result is Some && result->Some_0@ == with_bit(
                zero_words(ELEMENT_COUNT as nat),
                index as int,
                true,
            ),
            index < 4096 ==> forall|other: int|
                0 <= other < 4096 ==> #[trigger] result->Some_0.bit(other) == (other == index),
    {
        if index >= Bitmap4096::MAP_LENGTH {
            return None;
        }
        let mut words = [0u64; ELEMENT_COUNT];
        assert(words@ =~= zero_words(ELEMENT_COUNT as nat));
        let ghost before = words@;
        set_bit(&mut words, index, true);
        proof {
            assert forall|other: int| 0 <= other < 4096 implies #[trigger] bit_at(words@, other)
                == (other == index) by {
                crate::words::lemma_with_bit(before, index as int, true, other);
                crate::words::lemma_logic_bits(before, before, other);
            }
        }
        Some(Bitmap4096(words))
    }

    /// The bitmap with every bit set to `value`.
    pub fn new(value: bool) -> (bitmap: Bitmap4096)
        ensures
            bitmap@ == if value {
                full_words(ELEMENT_COUNT as nat)
            } else {
                zero_words(ELEMENT_COUNT as nat)
            },
            forall|index: int| 0 <= index < 4096 ==> #[trigger] bitmap.bit(index) == value,
    {
        let bitmap = Bitmap4096(
            if value {
                [u64::MAX;ELEMENT_COUNT]
            } else {
                [0u64;ELEMENT_COUNT]
            },
        );
        proof {
            if value {
                assert(bitmap@ =~= full_words(ELEMENT_COUNT as nat));
            } else {
                assert(bitmap@ =~= zero_words(ELEMENT_COUNT as nat));
            }
            assert forall|index: int| 0 <= index < 4096 implies #[trigger] bitmap.bit(index)
                == value by {
                crate::words::lemma_logic_bits(bitmap@, bitmap@, index);
            }
        }
        bitmap
    }

    /// The bitmap whose bits `begin..end` are `value` and whose other bits are `!value`.
    /// A range that reaches past the capacity is cut off there; a range that is empty, or
    /// that starts at or past the capacity, leaves every bit at `!value`.
    pub fn create_bit_mask(begin: usize, end: usize, value: bool) -> (mask: Bitmap4096)
        ensures
            mask@ == mask_words(ELEMENT_COUNT as nat, begin as int, end as int, value),
            forall|index: int|
                0 <= index < 4096 ==> #[trigger] mask.bit(index) == ((begin <= index < end)
                    == value),
    {
        Bitmap4096(range_mask::<ELEMENT_COUNT>(begin, end, value))
    }

    /// Forces the bits `begin..end` to `value` and leaves every other bit as it was.
    pub fn set_range(&mut self, begin: usize, end: usize, value: bool)
        ensures
            final(self)@ == if value {
                or_words(old(self)@, mask_words(ELEMENT_COUNT as nat, begin as int, end as int, true))
            } else {
                and_words(
                    old(self)@,
                    mask_words(ELEMENT_COUNT as nat, begin as int, end as int, false),
                )
            },
            forall|index: int|
                0 <= index < 4096 ==> #[trigger] final(self).bit(index) == if begin <= index
                    < end {
                    value
                } else {
                    old(self).bit(index)
                },
    {
        let ghost before = self.0@;
        let mask = range_mask::<ELEMENT_COUNT>(begin, end, value);
        if value {
            or_assign(&mut self.0, &mask);
        } else {
            and_assign(&mut self.0, &mask);
        }
        proof {
            assert forall|index: int| 0 <= index < 4096 implies #[trigger] bit_at(self.0@, index)
                == if begin <= index < end {
                value
            } else {
                bit_at(before, index)
            } by {
                crate::words::lemma_logic_bits(before, mask@, index);
                assert(bit_at(mask@, index) == ((begin <= index < end) == value));
            }
        }
    }

    /// The words in hexadecimal, most significant word first, with `_` between them.
    pub fn to_text(&self) -> (text: String)
        ensures
            text@ == words_text(self@),
    {
        words_string(&self.0)
    }

    /// Adds `rhs` to the bitmap read as one unsigned integer, wrapping at the capacity.
    /// The flag tells whether the sum went past the capacity and wrapped.
    pub fn overflowing_add(self, rhs: u64) -> (result: (Bitmap4096, bool))
        ensures
            result.0 == self.wrapping_sum(rhs),
            result.0.value() == (self.value() + rhs) % (word_span(ELEMENT_COUNT as nat) as int),
            result.1 == (self.value() + rhs >= word_span(ELEMENT_COUNT as nat)),
    {
        let mut words = self.0;
        let overflow = add_scalar(&mut words, rhs);
        let sum = Bitmap4096(words);
        proof {
            self.lemma_wrapping_sum(rhs);
            crate::words::lemma_value_injective(sum@, self.wrapping_sum(rhs)@);
            Self::lemma_words_determine(sum, self.wrapping_sum(rhs));
        }
        (sum, overflow)
    }
}

impl Default for Bitmap4096 {
    /// The empty bitmap.
    fn default() -> (bitmap: Self)
        ensures
            bitmap@ == zero_words(ELEMENT_COUNT as nat),
            forall|index: int| 0 <= index < 4096 ==> !#[trigger] bitmap.bit(index),
    {
        Bitmap4096::new(false)
    }
}

impl From<[u64; ELEMENT_COUNT]> for Bitmap4096 {
    /// Wraps the given words, most significant first.
    fn from(value: [u64; ELEMENT_COUNT]) -> (bitmap: Self)
        ensures
            bitmap.words() == value,
    {
        Bitmap4096(value)
    }
}

impl vstd::std_specs::convert::FromSpecImpl<[u64; ELEMENT_COUNT]> for Bitmap4096 {
    open spec fn obeys_from_spec() -> bool {
        true
    }

    open spec fn from_spec(value: [u64; ELEMENT_COUNT]) -> Self {
        Self::of_array(value)
    }
}

impl core::ops::Deref for Bitmap4096 {
    type Target = [u64; ELEMENT_COUNT];

    fn deref(&self) -> (array: &[u64; ELEMENT_COUNT])
        ensures
            *array == self.words(),
    {
        &self.0
    }
}

impl PartialEq for Bitmap4096 {
    /// Two bitmaps are equal when they hold the same words.
    fn eq(&self, other: &Self) -> (equal: bool)
        ensures
            equal == (self@ == other@),
    {
        first_difference(&self.0, &other.0).is_none()
    }
}

impl vstd::std_specs::cmp::PartialEqSpecImpl for Bitmap4096 {
    open spec fn obeys_eq_spec() -> bool {
        true
    }

    open spec fn eq_spec(&self, other: &Self) -> bool {
        self@ == other@
    }
}

impl PartialOrd for Bitmap4096 {
    /// Bitmaps are ordered word by word from the most significant word, which is the
    /// order of their values.
    fn partial_cmp(&self, other: &Self) -> (order: Option<Ordering>) {
        match first_difference(&self.0, &other.0) {
            None => Some(Ordering::Equal),
            Some(location) => {
                if self.0[location] < other.0[location] {
                    Some(Ordering::Less)
                } else {
                    Some(Ordering::Greater)
                }
            },
        }
    }
}

impl vstd::std_specs::cmp::PartialOrdSpecImpl for Bitmap4096 {
    open spec fn obeys_partial_cmp_spec() -> bool {
        true
    }

    open spec fn partial_cmp_spec(&self, other: &Self) -> Option<Ordering> {
        if self.value() < other.value() {
            Some(Ordering::Less)
        } else if self.value() > other.value() {
            Some(Ordering::Greater)
        } else {
            Some(Ordering::Equal)
        }
    }
}

impl core::ops::BitAnd for Bitmap4096 {
    type Output = Self;

    /// The word-by-word AND with the bitmap `rhs`.
    fn bitand(self, rhs: Self) -> (result: Self)
        ensures
            result@ == and_words(self@, rhs@),
    {
        let mut words = self.0;
        and_assign(&mut words, &rhs.0);
        let result = Self(words);
        proof {
            lemma_array_of::<ELEMENT_COUNT>(and_words(self@, rhs@));
            assert(result.0 =~= array_of::<ELEMENT_COUNT>(and_words(self@, rhs@)));
        }
        result
    }
}

impl vstd::std_specs::ops::BitAndSpecImpl for Bitmap4096 {
    open spec fn obeys_bitand_spec() -> bool {
        true
    }

    open spec fn bitand_req(self, rhs: Self) -> bool {
        true
    }

    open spec fn bitand_spec(self, rhs: Self) -> Self {
        Self::of_words(and_words(self@, rhs@))
    }
}

impl core::ops::BitAndAssign for Bitmap4096 {
    /// Replaces the bitmap by its word-by-word AND with the bitmap `rhs`.
    fn bitand_assign(&mut self, rhs: Self)
        ensures
            final(self)@ == and_words(old(self)@, rhs@),
    {
        and_assign(&mut self.0, &rhs.0);
    }
}

impl core::ops::BitOr for Bitmap4096 {
    type Output = Self;

    /// The word-by-word OR with the bitmap `rhs`.
    fn bitor(self, rhs: Self) -> (result: Self)
        ensures
            result@ == or_words(self@, rhs@),
    {
        let mut words = self.0;
        or_assign(&mut words, &rhs.0);
        let result = Self(words);
        proof {
            lemma_array_of::<ELEMENT_COUNT>(or_words(self@, rhs@));
            assert(result.0 =~= array_of::<ELEMENT_COUNT>(or_words(self@, rhs@)));
        }
        result
    }
}

impl vstd::std_specs::ops::BitOrSpecImpl for Bitmap4096 {
    open spec fn obeys_bitor_spec() -> bool {
        true
    }

    open spec fn bitor_req(self, rhs: Self) -> bool {
        true
    }

    open spec fn bitor_spec(self, rhs: Self) -> Self {
        Self::of_words(or_words(self@, rhs@))
    }
}

impl core::ops::BitOrAssign for Bitmap4096 {
    /// Replaces the bitmap by its word-by-word OR with the bitmap `rhs`.
    fn bitor_assign(&mut self, rhs: Self)
        ensures
            final(self)@ == or_words(old(self)@, rhs@),
    {
        or_assign(&mut self.0, &rhs.0);
    }
}

impl core::ops::BitXor for Bitmap4096 {
    type Output = Self;

    /// The word-by-word XOR with the bitmap `rhs`.
    fn bitxor(self, rhs: Self) -> (result: Self)
        ensures
            result@ == xor_words(self@, rhs@),
    {
        let mut words = self.0;
        xor_assign(&mut words, &rhs.0);
        let result = Self(words);
        proof {
            lemma_array_of::<ELEMENT_COUNT>(xor_words(self@, rhs@));
            assert(result.0 =~= array_of::<ELEMENT_COUNT>(xor_words(self@, rhs@)));
        }
        result
    }
}

impl vstd::std_specs::ops::BitXorSpecImpl for Bitmap4096 {
    open spec fn obeys_bitxor_spec() -> bool {
        true
    }

    open spec fn bitxor_req(self, rhs: Self) -> bool {
        true
    }

    open spec fn bitxor_spec(self, rhs: Self) -> Self {
        Self::of_words(xor_words(self@, rhs@))
    }
}

impl core::ops::BitXorAssign for Bitmap4096 {
    /// Replaces the bitmap by its word-by-word XOR with the bitmap `rhs`.
    fn bitxor_assign(&mut self, rhs: Self)
        ensures
            final(self)@ == xor_words(old(self)@, rhs@),
    {
        xor_assign(&mut self.0, &rhs.0);
    }
}

impl core::ops::BitAnd<[u64; ELEMENT_COUNT]> for Bitmap4096 {
    type Output = Self;

    /// The word-by-word AND with the array of words `rhs`.
    fn bitand(self, rhs: [u64; ELEMENT_COUNT]) -> (result: Self)
        ensures
            result@ == and_words(self@, rhs@),
    {
        let mut words = self.0;
        and_assign(&mut words, &rhs);
        let result = Self(words);
        proof {
            lemma_array_of::<ELEMENT_COUNT>(and_words(self@, rhs@));
            assert(result.0 =~= array_of::<ELEMENT_COUNT>(and_words(self@, rhs@)));
        }
        result
    }
}

impl vstd::std_specs::ops::BitAndSpecImpl<[u64; ELEMENT_COUNT]> for Bitmap4096 {
    open spec fn obeys_bitand_spec() -> bool {
        true
    }

    open spec fn bitand_req(self, rhs: [u64; ELEMENT_COUNT]) -> bool {
        true
    }

    open spec fn bitand_spec(self, rhs: [u64; ELEMENT_COUNT]) -> Self {
        Self::of_words(and_words(self@, rhs@))
    }
}

impl core::ops::BitAndAssign<[u64; ELEMENT_COUNT]> for Bitmap4096 {
    /// Replaces the bitmap by its word-by-word AND with the array of words `rhs`.
    fn bitand_assign(&mut self, rhs: [u64; ELEMENT_COUNT])
        ensures
            final(self)@ == and_words(old(self)@, rhs@),
    {
        and_assign(&mut self.0, &rhs);
    }
}

impl core::ops::BitOr<[u64; ELEMENT_COUNT]> for Bitmap4096 {
    type Output = Self;

    /// The word-by-word OR with the array of words `rhs`.
    fn bitor(self, rhs: [u64; ELEMENT_COUNT]) -> (result: Self)
        ensures
            result@ == or_words(self@, rhs@),
    {
        let mut words = self.0;
        or_assign(&mut words, &rhs);
        let result = Self(words);
        proof {
            lemma_array_of::<ELEMENT_COUNT>(or_words(self@, rhs@));
            assert(result.0 =~= array_of::<ELEMENT_COUNT>(or_words(self@, rhs@)));
        }
        result
    }
}

impl vstd::std_specs::ops::BitOrSpecImpl<[u64; ELEMENT_COUNT]> for Bitmap4096 {
    open spec fn obeys_bitor_spec() -> bool {
        true
    }

    open spec fn bitor_req(self, rhs: [u64; ELEMENT_COUNT]) -> bool {
        true
    }

    open spec fn bitor_spec(self, rhs: [u64; ELEMENT_COUNT]) -> Self {
        Self::of_words(or_words(self@, rhs@))
    }
}

impl core::ops::BitOrAssign<[u64; ELEMENT_COUNT]> for Bitmap4096 {
    /// Replaces the bitmap by its word-by-word OR with the array of words `rhs`.
    fn bitor_assign(&mut self, rhs: [u64; ELEMENT_COUNT])
        ensures
            final(self)@ == or_words(old(self)@, rhs@),
    {
        or_assign(&mut self.0, &rhs);
    }
}

impl core::ops::BitXor<[u64; ELEMENT_COUNT]> for Bitmap4096 {
    type Output = Self;

    /// The word-by-word XOR with the array of words `rhs`.
    fn bitxor(self, rhs: [u64; ELEMENT_COUNT]) -> (result: Self)
        ensures
            result@ == xor_words(self@, rhs@),
    {
        let mut words = self.0;
        xor_assign(&mut words, &rhs);
        let result = Self(words);
        proof {
            lemma_array_of::<ELEMENT_COUNT>(xor_words(self@, rhs@));
            assert(result.0 =~= array_of::<ELEMENT_COUNT>(xor_words(self@, rhs@)));
        }
        result
    }
}

impl vstd::std_specs::ops::BitXorSpecImpl<[u64; ELEMENT_COUNT]> for Bitmap4096 {
    open spec fn obeys_bitxor_spec() -> bool {
        true
    }

    open spec fn bitxor_req(self, rhs: [u64; ELEMENT_COUNT]) -> bool {
        true
    }

    open spec fn bitxor_spec(self, rhs: [u64; ELEMENT_COUNT]) -> Self {
        Self::of_words(xor_words(self@, rhs@))
    }
}

impl core::ops::BitXorAssign<[u64; ELEMENT_COUNT]> for Bitmap4096 {
    /// Replaces the bitmap by its word-by-word XOR with the array of words `rhs`.
    fn bitxor_assign(&mut self, rhs: [u64; ELEMENT_COUNT])
        ensures
            final(self)@ == xor_words(old(self)@, rhs@),
    {
        xor_assign(&mut self.0, &rhs);
    }
}

impl core::ops::Not for Bitmap4096 {
    type Output = Self;

    /// The complement: every bit flipped.
    fn not(self) -> (result: Self)
        ensures
            result@ == not_words(self@),
    {
        let mut words = self.0;
        not_assign(&mut words);
        let result = Self(words);
        proof {
            lemma_array_of::<ELEMENT_COUNT>(not_words(self@));
            assert(result.0 =~= array_of::<ELEMENT_COUNT>(not_words(self@)));
        }
        result
    }
}

impl vstd::std_specs::ops::NotSpecImpl for Bitmap4096 {
    open spec fn obeys_not_spec() -> bool {
        true
    }

    open spec fn not_req(self) -> bool {
        true
    }

    open spec fn not_spec(self) -> Self {
        Self::of_words(not_words(self@))
    }
}

impl core::ops::Add<u64> for Bitmap4096 {
    type Output = Self;

    /// Adds `rhs` to the bitmap read as one unsigned integer; the sum wraps at the
    /// capacity.
    fn add(self, rhs: u64) -> (sum: Self)
        ensures
            sum.value() == (self.value() + rhs) % (word_span(ELEMENT_COUNT as nat) as int),
    {
        let mut words = self.0;
        let _ = add_scalar(&mut words, rhs);
        let sum = Self(words);
        proof {
            self.lemma_wrapping_sum(rhs);
            crate::words::lemma_value_injective(sum@, self.wrapping_sum(rhs)@);
            Self::lemma_words_determine(sum, self.wrapping_sum(rhs));
        }
        sum
    }
}

impl vstd::std_specs::ops::AddSpecImpl<u64> for Bitmap4096 {
    open spec fn obeys_add_spec() -> bool {
        true
    }

    open spec fn add_req(self, rhs: u64) -> bool {
        true
    }

    open spec fn add_spec(self, rhs: u64) -> Self {
        self.wrapping_sum(rhs)
    }
}

impl core::ops::AddAssign<u64> for Bitmap4096 {
    /// Adds `rhs` to the bitmap read as one unsigned integer, in place; the sum wraps at
    /// the capacity.
    fn add_assign(&mut self, rhs: u64)
        ensures
            *final(self) == old(self).wrapping_sum(rhs),
            final(self).value() == (old(self).value() + rhs) % (word_span(
                ELEMENT_COUNT as nat,
            ) as int),
    {
        let ghost before = *self;
        let _ = add_scalar(&mut self.0, rhs);
        proof {
            before.lemma_wrapping_sum(rhs);
            crate::words::lemma_value_injective(self@, before.wrapping_sum(rhs)@);
            Self::lemma_words_determine(*self, before.wrapping_sum(rhs));
        }
    }
}

impl Bitmap4096 {
    /// AND is commutative.
    pub proof fn lemma_and_commutative(a: Self, b: Self)
        ensures
            a.bitand_spec(b) == b.bitand_spec(a),
    {
        crate::words::lemma_and_commutative(a@, b@);
    }

    /// OR with the full bitmap gives the full bitmap.
    pub proof fn lemma_or_full(a: Self)
        ensures
            a.bitor_spec(Self::of_words(full_words(ELEMENT_COUNT as nat))) == Self::of_words(
                full_words(ELEMENT_COUNT as nat),
            ),
    {
        let full = full_words(ELEMENT_COUNT as nat);
        Self::lemma_from_words(full);
        crate::words::lemma_or_full(a@);
    }

    /// XOR of a bitmap with itself gives the empty bitmap.
    pub proof fn lemma_xor_self(a: Self)
        ensures
            a.bitxor_spec(a) == Self::of_words(zero_words(ELEMENT_COUNT as nat)),
    {
        crate::words::lemma_xor_self(a@);
    }

    /// Complementing twice gives the bitmap back.
    pub proof fn lemma_not_involution(a: Self)
        ensures
            a.not_spec().not_spec() == a,
    {
        Self::lemma_from_words(not_words(a@));
        crate::words::lemma_not_involution(a@);
        Self::lemma_from_words(a@);
        Self::lemma_words_determine(a.not_spec().not_spec(), a);
    }

    /// A range mask and its opposite cover the whole bitmap between them and share no bit.
    pub proof fn lemma_mask_round_trip(begin: int, end: int)
        ensures
            Self::of_words(mask_words(ELEMENT_COUNT as nat, begin, end, true)).bitor_spec(
                Self::of_words(mask_words(ELEMENT_COUNT as nat, begin, end, false)),
            ) == Self::of_words(full_words(ELEMENT_COUNT as nat)),
            Self::of_words(mask_words(ELEMENT_COUNT as nat, begin, end, true)).bitand_spec(
                Self::of_words(mask_words(ELEMENT_COUNT as nat, begin, end, false)),
            ) == Self::of_words(zero_words(ELEMENT_COUNT as nat)),
    {
        Self::lemma_from_words(mask_words(ELEMENT_COUNT as nat, begin, end, true));
        Self::lemma_from_words(mask_words(ELEMENT_COUNT as nat, begin, end, false));
        crate::words::lemma_mask_round_trip(ELEMENT_COUNT as nat, begin, end);
    }
}

} // verus!
