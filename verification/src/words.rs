//! Bit addressing and arithmetic over a most-significant-word-first sequence of 64-bit words.
use crate::digits::{hex_string, hex_text};
use vstd::prelude::*;
use vstd::string::StringExecFns;

verus! {

/// Number of bits in one word.
pub const WORD_BITS: usize = 64;

/// Whether bit `offset` (counted from the least significant bit) of `word` is one.
pub open spec fn word_bit(word: u64, offset: int) -> bool {
    (word >> (offset as u64)) & 1 == 1
}

/// The position, in a sequence of `count` words, of the word that holds bit `index`.
/// Bit 0 lives in the last word.
pub open spec fn word_location(count: int, index: int) -> int {
    count - 1 - index / 64
}

/// Whether bit `index` of the bitmap stored in `words` is one.
pub open spec fn bit_at(words: Seq<u64>, index: int) -> bool {
    word_bit(words[word_location(words.len() as int, index)], index % 64)
}

/// `word` with bit `offset` forced to `value`.
pub open spec fn word_with_bit(word: u64, offset: int, value: bool) -> u64 {
    if value {
        word | (1u64 << (offset as u64))
    } else {
        word & !(1u64 << (offset as u64))
    }
}

/// `words` with bit `index` forced to `value`.
pub open spec fn with_bit(words: Seq<u64>, index: int, value: bool) -> Seq<u64> {
    let location = word_location(words.len() as int, index);
    words.update(location, word_with_bit(words[location], index % 64, value))
}

proof fn lemma_single_bit(word: u64, i: u64, j: u64)
    by (bit_vector)
    requires
        i < 64,
        j < 64,
    ensures
        ((word & (1u64 << i)) > 0) == ((word >> i) & 1 == 1),
        u64::MAX - (1u64 << i) == !(1u64 << i),
        (((word | (1u64 << i)) >> j) & 1 == 1) == (j == i || (word >> j) & 1 == 1),
        (((word & !(1u64 << i)) >> j) & 1 == 1) == (j != i && (word >> j) & 1 == 1),
{
}

/// Reading back a bit after forcing one bit of a word.
pub proof fn lemma_word_with_bit(word: u64, offset: int, value: bool, other: int)
    requires
        0 <= offset < 64,
        0 <= other < 64,
    ensures
        word_bit(word_with_bit(word, offset, value), other) == if other == offset {
            value
        } else {
            word_bit(word, other)
        },
{
    lemma_single_bit(word, offset as u64, other as u64);
}

/// The array position of the word that holds bit `bit_index`.
pub fn element_location<const N: usize>(bit_index: usize) -> (location: usize)
    requires
        bit_index < N * 64,
    ensures
        location == word_location(N as int, bit_index as int),
        location < N,
{
    N - 1 - bit_index / WORD_BITS
}

/// Reads bit `index`.
pub fn get_bit<const N: usize>(words: &[u64; N], index: usize) -> (bit: bool)
    requires
        index < N * 64,
    ensures
        bit == bit_at(words@, index as int),
{
    let location = element_location::<N>(index);
    let offset = index % WORD_BITS;
    let mask = 1u64 << offset;
    proof {
        lemma_single_bit(words[location as int], offset as u64, offset as u64);
    }
    words[location] & mask > 0
}

/// Forces bit `index` to `value`, leaving every other bit as it was.
pub fn set_bit<const N: usize>(words: &mut [u64; N], index: usize, value: bool)
    requires
        index < N * 64,
    ensures
        final(words)@ == with_bit(old(words)@, index as int, value),
{
    let location = element_location::<N>(index);
    let offset = index % WORD_BITS;
    proof {
        lemma_single_bit(words[location as int], offset as u64, offset as u64);
    }
    if value {
        let mask = 1u64 << offset;
        words[location] = words[location] | mask;
    } else {
        let mask = u64::MAX - (1u64 << offset);
        words[location] = words[location] & mask;
    }
}

/// Reading back a bit after forcing one bit of a bitmap: the forced bit has the new value
/// and every other bit is unchanged.
pub proof fn lemma_with_bit(words: Seq<u64>, index: int, value: bool, other: int)
    requires
        0 <= index < words.len() * 64,
        0 <= other < words.len() * 64,
    ensures
        with_bit(words, index, value).len() == words.len(),
        bit_at(with_bit(words, index, value), other) == if other == index {
            value
        } else {
            bit_at(words, other)
        },
{
    let location = word_location(words.len() as int, index);
    lemma_word_with_bit(words[location], index % 64, value, other % 64);
}

/// All words zero: the empty bitmap.
pub open spec fn zero_words(count: nat) -> Seq<u64> {
    Seq::new(count, |k: int| 0u64)
}

/// All words at their maximum: the full bitmap.
pub open spec fn full_words(count: nat) -> Seq<u64> {
    Seq::new(count, |k: int| u64::MAX)
}

/// Word-by-word AND of two bitmaps of the same length.
pub open spec fn and_words(a: Seq<u64>, b: Seq<u64>) -> Seq<u64> {
    Seq::new(a.len(), |k: int| a[k] & b[k])
}

/// Word-by-word OR of two bitmaps of the same length.
pub open spec fn or_words(a: Seq<u64>, b: Seq<u64>) -> Seq<u64> {
    Seq::new(a.len(), |k: int| a[k] | b[k])
}

/// Word-by-word XOR of two bitmaps of the same length.
pub open spec fn xor_words(a: Seq<u64>, b: Seq<u64>) -> Seq<u64> {
    Seq::new(a.len(), |k: int| a[k] ^ b[k])
}

/// Word-by-word complement of a bitmap.
pub open spec fn not_words(a: Seq<u64>) -> Seq<u64> {
    Seq::new(a.len(), |k: int| !a[k])
}

proof fn lemma_word_logic(a: u64, b: u64, j: u64)
    by (bit_vector)
    requires
        j < 64,
    ensures
        (((a & b) >> j) & 1 == 1) == (((a >> j) & 1 == 1) && ((b >> j) & 1 == 1)),
        (((a | b) >> j) & 1 == 1) == (((a >> j) & 1 == 1) || ((b >> j) & 1 == 1)),
        (((a ^ b) >> j) & 1 == 1) == (((a >> j) & 1 == 1) != ((b >> j) & 1 == 1)),
        (((!a) >> j) & 1 == 1) == !((a >> j) & 1 == 1),
        a ^ u64::MAX == !a,
        ((0u64 >> j) & 1 == 1) == false,
        ((u64::MAX >> j) & 1 == 1) == true,
{
}

proof fn lemma_word_algebra(a: u64, b: u64)
    by (bit_vector)
    ensures
        a & b == b & a,
        a | u64::MAX == u64::MAX,
        a & u64::MAX == a,
        a & 0 == 0,
        a ^ a == 0,
        !(!a) == a,
        a | !a == u64::MAX,
        a & !a == 0,
        !u64::MAX == 0,
        !0u64 == u64::MAX,
{
}

/// The boolean operations act on each bit independently.
pub proof fn lemma_logic_bits(a: Seq<u64>, b: Seq<u64>, index: int)
    requires
        a.len() == b.len(),
        0 <= index < a.len() * 64,
    ensures
        bit_at(and_words(a, b), index) == (bit_at(a, index) && bit_at(b, index)),
        bit_at(or_words(a, b), index) == (bit_at(a, index) || bit_at(b, index)),
        bit_at(xor_words(a, b), index) == (bit_at(a, index) != bit_at(b, index)),
        bit_at(not_words(a), index) == !bit_at(a, index),
        !bit_at(zero_words(a.len()), index),
        bit_at(full_words(a.len()), index),
{
    let location = word_location(a.len() as int, index);
    lemma_word_logic(a[location], b[location], (index % 64) as u64);
}

/// AND is commutative.
pub proof fn lemma_and_commutative(a: Seq<u64>, b: Seq<u64>)
    requires
        a.len() == b.len(),
    ensures
        and_words(a, b) == and_words(b, a),
{
    assert forall|k: int| 0 <= k < a.len() implies a[k] & b[k] == b[k] & a[k] by {
        lemma_word_algebra(a[k], b[k]);
    }
    assert(and_words(a, b) =~= and_words(b, a));
}

/// OR with the full bitmap gives the full bitmap.
pub proof fn lemma_or_full(a: Seq<u64>)
    ensures
        or_words(a, full_words(a.len())) == full_words(a.len()),
{
    assert forall|k: int| 0 <= k < a.len() implies a[k] | u64::MAX == u64::MAX by {
        lemma_word_algebra(a[k], 0);
    }
    assert(or_words(a, full_words(a.len())) =~= full_words(a.len()));
}

/// XOR of a bitmap with itself gives the empty bitmap.
pub proof fn lemma_xor_self(a: Seq<u64>)
    ensures
        xor_words(a, a) == zero_words(a.len()),
{
    assert forall|k: int| 0 <= k < a.len() implies a[k] ^ a[k] == 0 by {
        lemma_word_algebra(a[k], 0);
    }
    assert(xor_words(a, a) =~= zero_words(a.len()));
}

/// Complementing twice gives the bitmap back.
pub proof fn lemma_not_involution(a: Seq<u64>)
    ensures
        not_words(not_words(a)) == a,
{
    assert forall|k: int| 0 <= k < a.len() implies !(!a[k]) == a[k] by {
        lemma_word_algebra(a[k], 0);
    }
    assert(not_words(not_words(a)) =~= a);
}

/// Replaces each word by its AND with the matching word of `rhs`.
pub fn and_assign<const N: usize>(words: &mut [u64; N], rhs: &[u64; N])
    ensures
        final(words)@ == and_words(old(words)@, rhs@),
{
    let mut i: usize = 0;
    while i < N
        invariant
            i <= N,
            forall|k: int| 0 <= k < i ==> words@[k] == old(words)@[k] & rhs@[k],
            forall|k: int| i <= k < N ==> words@[k] == old(words)@[k],
        decreases N - i,
    {
        words[i] = words[i] & rhs[i];
        i += 1;
    }
    assert(words@ =~= and_words(old(words)@, rhs@));
}

/// Replaces each word by its OR with the matching word of `rhs`.
pub fn or_assign<const N: usize>(words: &mut [u64; N], rhs: &[u64; N])
    ensures
        final(words)@ == or_words(old(words)@, rhs@),
{
    let mut i: usize = 0;
    while i < N
        invariant
            i <= N,
            forall|k: int| 0 <= k < i ==> words@[k] == old(words)@[k] | rhs@[k],
            forall|k: int| i <= k < N ==> words@[k] == old(words)@[k],
        decreases N - i,
    {
        words[i] = words[i] | rhs[i];
        i += 1;
    }
    assert(words@ =~= or_words(old(words)@, rhs@));
}

/// Replaces each word by its XOR with the matching word of `rhs`.
pub fn xor_assign<const N: usize>(words: &mut [u64; N], rhs: &[u64; N])
    ensures
        final(words)@ == xor_words(old(words)@, rhs@),
{
    let mut i: usize = 0;
    while i < N
        invariant
            i <= N,
            forall|k: int| 0 <= k < i ==> words@[k] == old(words)@[k] ^ rhs@[k],
            forall|k: int| i <= k < N ==> words@[k] == old(words)@[k],
        decreases N - i,
    {
        words[i] = words[i] ^ rhs[i];
        i += 1;
    }
    assert(words@ =~= xor_words(old(words)@, rhs@));
}

/// Replaces each word by its complement.
pub fn not_assign<const N: usize>(words: &mut [u64; N])
    ensures
        final(words)@ == not_words(old(words)@),
{
    let mut i: usize = 0;
    while i < N
        invariant
            i <= N,
            forall|k: int| 0 <= k < i ==> words@[k] == !old(words)@[k],
            forall|k: int| i <= k < N ==> words@[k] == old(words)@[k],
        decreases N - i,
    {
        proof {
            lemma_word_logic(words@[i as int], 0, 0);
        }
        words[i] = words[i] ^ u64::MAX;
        i += 1;
    }
    assert(words@ =~= not_words(old(words)@));
}

/// The word whose lowest `count` bits are one: all of them from 64 on, none below 1.
pub open spec fn ones_below(count: int) -> u64 {
    if count <= 0 {
        0
    } else if count >= 64 {
        u64::MAX
    } else {
        ((1u64 << (count as u64)) - 1) as u64
    }
}

/// The word whose bits `lo..hi` are one and whose other bits are zero.
/// Offsets outside the word are clipped; an empty range gives zero.
pub open spec fn word_range(lo: int, hi: int) -> u64 {
    ones_below(hi) & !ones_below(lo)
}

/// The `count`-word bitmap whose bits `begin..end` are `value` and whose other bits are `!value`.
pub open spec fn mask_words(count: nat, begin: int, end: int, value: bool) -> Seq<u64> {
    Seq::new(
        count,
        |k: int|
            {
                let base = (count - 1 - k) * 64;
                let word = word_range(begin - base, end - base);
                if value {
                    word
                } else {
                    !word
                }
            },
    )
}

proof fn lemma_low_ones(count: u64, offset: u64)
    by (bit_vector)
    requires
        0 < count < 64,
        offset < 64,
    ensures
        ((((1u64 << count) - 1) as u64 >> offset) & 1 == 1) == (offset < count),
{
}

proof fn lemma_shifted_range(lo: u64, hi: u64)
    by (bit_vector)
    requires
        lo < 64,
        0 < hi <= 64,
    ensures
        ({
            let low = if lo == 0 {
                0u64
            } else {
                ((1u64 << lo) - 1) as u64
            };
            let high = if hi == 64 {
                u64::MAX
            } else {
                ((1u64 << hi) - 1) as u64
            };
            &&& u64::MAX & !low == u64::MAX << lo
            &&& hi < 64 ==> high & !low == u64::MAX << lo & u64::MAX >> (64 - hi) as u64
        }),
{
}

proof fn lemma_ones_below(count: int, offset: int)
    requires
        0 <= offset < 64,
    ensures
        word_bit(ones_below(count), offset) == (offset < count),
{
    if 0 < count < 64 {
        lemma_low_ones(count as u64, offset as u64);
    } else {
        lemma_word_logic(0, 0, offset as u64);
    }
}

/// Bit `offset` of `word_range(lo, hi)` is one exactly when `lo <= offset < hi`.
pub proof fn lemma_word_range(lo: int, hi: int, offset: int)
    requires
        0 <= offset < 64,
    ensures
        word_bit(word_range(lo, hi), offset) == (lo <= offset < hi),
{
    lemma_ones_below(lo, offset);
    lemma_ones_below(hi, offset);
    lemma_word_logic(ones_below(lo), 0, offset as u64);
    lemma_word_logic(ones_below(hi), !ones_below(lo), offset as u64);
}

/// Bit `index` of a range mask is `value` inside `begin..end` and `!value` outside.
pub proof fn lemma_mask_bits(count: nat, begin: int, end: int, value: bool, index: int)
    requires
        0 <= index < count * 64,
    ensures
        bit_at(mask_words(count, begin, end, value), index) == ((begin <= index < end) == value),
{
    let location = word_location(count as int, index);
    let base = (count - 1 - location) * 64;
    assert(base + index % 64 == index);
    let word = word_range(begin - base, end - base);
    lemma_word_range(begin - base, end - base, index % 64);
    lemma_word_logic(word, 0, (index % 64) as u64);
}

/// A range mask and its opposite cover the whole bitmap between them and share no bit.
pub proof fn lemma_mask_round_trip(count: nat, begin: int, end: int)
    ensures
        or_words(mask_words(count, begin, end, true), mask_words(count, begin, end, false))
            == full_words(count),
        and_words(mask_words(count, begin, end, true), mask_words(count, begin, end, false))
            == zero_words(count),
        mask_words(count, begin, end, false) == not_words(mask_words(count, begin, end, true)),
{
    let on = mask_words(count, begin, end, true);
    let off = mask_words(count, begin, end, false);
    assert forall|k: int| 0 <= k < count implies on[k] | off[k] == u64::MAX && on[k] & off[k]
        == 0 by {
        lemma_word_algebra(on[k], 0);
    }
    assert(or_words(on, off) =~= full_words(count));
    assert(and_words(on, off) =~= zero_words(count));
    assert(off =~= not_words(on));
}

/// The one-word mask with bits `lo..hi` set, clipped to the word.
pub fn word_range_mask(lo: usize, hi: usize) -> (word: u64)
    ensures
        word == word_range(lo as int, hi as int),
{
    if lo >= WORD_BITS || hi < 1 {
        proof {
            lemma_word_algebra(ones_below(hi as int), 0);
            lemma_word_algebra(!ones_below(lo as int), 0);
            lemma_word_algebra(0, !ones_below(lo as int));
        }
        0
    } else if hi >= WORD_BITS {
        proof {
            lemma_shifted_range(lo as u64, 64);
        }
        u64::MAX << lo
    } else {
        proof {
            lemma_shifted_range(lo as u64, hi as u64);
        }
        u64::MAX << lo & u64::MAX >> (WORD_BITS - hi)
    }
}

/// Builds the bitmap whose bits `begin..end` are `value` and whose other bits are `!value`.
/// A range that reaches past the capacity is clipped to it; an empty range, or one that
/// starts at or past the capacity, leaves every bit at `!value`.
pub fn range_mask<const N: usize>(begin: usize, end: usize, value: bool) -> (mask: [u64; N])
    requires
        N * 64 <= usize::MAX,
    ensures
        mask@ == mask_words(N as nat, begin as int, end as int, value),
        forall|index: int|
            0 <= index < N * 64 ==> #[trigger] bit_at(mask@, index) == ((begin <= index < end)
                == value),
{
    let mut mask = [0u64; N];
    let mut k: usize = 0;
    while k < N
        invariant
            k <= N,
            N * 64 <= usize::MAX,
            forall|i: int|
                0 <= i < k ==> mask@[i] == mask_words(N as nat, begin as int, end as int, value)[i],
        decreases N - k,
    {
        let base = (N - 1 - k) * WORD_BITS;
        let lo = if begin > base {
            begin - base
        } else {
            0
        };
        let hi = if end > base {
            end - base
        } else {
            0
        };
        let word = word_range_mask(lo, hi);
        proof {
            assert(ones_below(lo as int) == ones_below(begin - base));
            assert(ones_below(hi as int) == ones_below(end - base));
            lemma_word_logic(word, 0, 0);
        }
        mask[k] = if value {
            word
        } else {
            word ^ u64::MAX
        };
        k += 1;
    }
    proof {
        assert(mask@ =~= mask_words(N as nat, begin as int, end as int, value));
        assert forall|index: int| 0 <= index < N * 64 implies #[trigger] bit_at(mask@, index) == ((
        begin <= index < end) == value) by {
            lemma_mask_bits(N as nat, begin as int, end as int, value, index);
        }
    }
    mask
}

/// The number of values that `count` words can hold: 2 to the power `64 * count`.
pub open spec fn word_span(count: nat) -> nat
    decreases count,
{
    if count == 0 {
        1
    } else {
        0x1_0000_0000_0000_0000 * word_span((count - 1) as nat)
    }
}

/// The unsigned integer that the words spell out, most significant word first.
pub open spec fn value_of(words: Seq<u64>) -> nat
    decreases words.len(),
{
    if words.len() == 0 {
        0
    } else {
        (words[0] as nat) * word_span((words.len() - 1) as nat) + value_of(words.skip(1))
    }
}

/// A span is never zero.
pub proof fn lemma_word_span_positive(count: nat)
    ensures
        word_span(count) >= 1,
    decreases count,
{
    if count > 0 {
        lemma_word_span_positive((count - 1) as nat);
    }
}

/// The value of a bitmap is below the span of its length.
pub proof fn lemma_value_bound(words: Seq<u64>)
    ensures
        value_of(words) < word_span(words.len()),
    decreases words.len(),
{
    if words.len() > 0 {
        let rest = words.skip(1);
        let span = word_span(rest.len());
        lemma_value_bound(rest);
        assert(words[0] * span + span <= 0x1_0000_0000_0000_0000 * span) by (nonlinear_arith)
            requires
                words[0] < 0x1_0000_0000_0000_0000,
                span >= 0,
        ;
    }
}

/// Replacing one word moves the value by the change of that word times the weight of its
/// position.
pub proof fn lemma_value_update(words: Seq<u64>, location: int, word: u64)
    requires
        0 <= location < words.len(),
    ensures
        value_of(words.update(location, word)) == value_of(words) + (word - words[location])
            * word_span((words.len() - 1 - location) as nat),
    decreases words.len(),
{
    let updated = words.update(location, word);
    let span = word_span((words.len() - 1) as nat);
    if location == 0 {
        assert(updated.skip(1) =~= words.skip(1));
        assert(word * span == words[0] * span + (word - words[0]) * span) by (nonlinear_arith);
    } else {
        assert(updated.skip(1) =~= words.skip(1).update(location - 1, word));
        lemma_value_update(words.skip(1), location - 1, word);
    }
}

/// Two bitmaps of the same length with the same value have the same words.
pub proof fn lemma_value_injective(a: Seq<u64>, b: Seq<u64>)
    requires
        a.len() == b.len(),
        value_of(a) == value_of(b),
    ensures
        a == b,
    decreases a.len(),
{
    if a.len() > 0 {
        let span = word_span((a.len() - 1) as nat);
        lemma_value_bound(a.skip(1));
        lemma_value_bound(b.skip(1));
        assert(a[0] == b[0]) by (nonlinear_arith)
            requires
                a[0] * span + value_of(a.skip(1)) == b[0] * span + value_of(b.skip(1)),
                value_of(a.skip(1)) < span,
                value_of(b.skip(1)) < span,
        ;
        lemma_value_injective(a.skip(1), b.skip(1));
        assert(a =~= seq![a[0]] + a.skip(1));
        assert(b =~= seq![b[0]] + b.skip(1));
    }
    assert(a =~= b);
}

/// The `count` words, most significant first, that spell out `value`.
pub open spec fn words_of(value: nat, count: nat) -> Seq<u64>
    decreases count,
{
    if count == 0 {
        Seq::empty()
    } else {
        let span = word_span((count - 1) as nat);
        seq![((value / span) % 0x1_0000_0000_0000_0000) as u64] + words_of(
            value % span,
            (count - 1) as nat,
        )
    }
}

/// Every value below the span of `count` words is spelled out by `count` words.
pub proof fn lemma_words_of(value: nat, count: nat)
    requires
        value < word_span(count),
    ensures
        words_of(value, count).len() == count,
        value_of(words_of(value, count)) == value,
    decreases count,
{
    if count > 0 {
        let span = word_span((count - 1) as nat);
        lemma_word_span_positive((count - 1) as nat);
        let high = value / span;
        let rest = words_of(value % span, (count - 1) as nat);
        vstd::arithmetic::div_mod::lemma_fundamental_div_mod(value as int, span as int);
        vstd::arithmetic::div_mod::lemma_mod_bound(value as int, span as int);
        assert(high < 0x1_0000_0000_0000_0000) by (nonlinear_arith)
            requires
                value < 0x1_0000_0000_0000_0000 * span,
                span > 0,
                value == span * high + value % span,
                value % span >= 0,
        ;
        lemma_words_of(value % span, (count - 1) as nat);
        let words = words_of(value, count);
        assert(words.skip(1) =~= rest);
        assert(words[0] == high);
        assert(high * span == span * high) by (nonlinear_arith);
    }
}

/// Adds `rhs` to the integer that the words spell out, rippling the carry from the last
/// word toward the first. The sum wraps at the span of the words; the result tells whether
/// it did.
pub fn add_scalar<const N: usize>(words: &mut [u64; N], rhs: u64) -> (overflow: bool)
    ensures
        value_of(final(words)@) == (value_of(old(words)@) + rhs) % (word_span(N as nat) as int),
        overflow == (value_of(old(words)@) + rhs >= word_span(N as nat)),
{
    let mut carry = rhs;
    let mut i: usize = N;
    let ghost total = value_of(words@) + rhs;
    proof {
        assert(word_span((N - i) as nat) == 1);
        assert(carry * 1 == rhs);
    }
    while i > 0 && carry > 0
        invariant
            i <= N,
            i < N ==> carry <= 1,
            value_of(words@) + carry * word_span((N - i) as nat) == total,
        decreases i,
    {
        i -= 1;
        let word = words[i];
        let ghost before = words@;
        let ghost weight = word_span((N - 1 - i) as nat);
        proof {
            lemma_value_update(before, i as int, word.wrapping_add(carry));
            assert(word_span((N - i) as nat) == 0x1_0000_0000_0000_0000 * weight);
        }
        if u64::MAX - carry < word {
            words[i] = word.wrapping_add(carry);
            proof {
                assert((word + carry - 0x1_0000_0000_0000_0000 - word) * weight + 1
                    * (0x1_0000_0000_0000_0000 * weight) == carry * weight) by (nonlinear_arith);
            }
            carry = 1;
        } else {
            words[i] = word + carry;
            proof {
                assert((word + carry - word) * weight == carry * weight) by (nonlinear_arith);
            }
            carry = 0;
        }
    }
    proof {
        let span = word_span(N as nat);
        lemma_value_bound(words@);
        lemma_word_span_positive(N as nat);
        if carry == 0 {
            assert(carry * word_span((N - i) as nat) == 0) by (nonlinear_arith)
                requires
                    carry == 0,
            ;
            vstd::arithmetic::div_mod::lemma_small_mod(total as nat, span);
        } else {
            assert(i == 0);
            vstd::arithmetic::div_mod::lemma_fundamental_div_mod_converse(
                total,
                span as int,
                carry as int,
                value_of(words@) as int,
            );
            assert(carry * span >= span) by (nonlinear_arith)
                requires
                    carry >= 1,
                    span >= 0,
            ;
        }
    }
    carry > 0
}

/// Increasing the first word in which two bitmaps differ increases the value, whatever
/// the words after it hold.
pub proof fn lemma_first_difference_orders(a: Seq<u64>, b: Seq<u64>, location: int)
    requires
        a.len() == b.len(),
        0 <= location < a.len(),
        forall|k: int| 0 <= k < location ==> a[k] == b[k],
        a[location] < b[location],
    ensures
        value_of(a) < value_of(b),
    decreases a.len(),
{
    let span = word_span((a.len() - 1) as nat);
    if location == 0 {
        lemma_value_bound(a.skip(1));
        assert(a[0] * span + span <= b[0] * span) by (nonlinear_arith)
            requires
                a[0] < b[0],
                span >= 0,
        ;
    } else {
        lemma_first_difference_orders(a.skip(1), b.skip(1), location - 1);
    }
}

/// Finds the first word, counted from the most significant one, in which two bitmaps
/// differ; `None` when they hold the same words.
pub fn first_difference<const N: usize>(a: &[u64; N], b: &[u64; N]) -> (found: Option<usize>)
    ensures
        found is None <==> a@ == b@,
        found matches Some(location) ==> {
            &&& location < N
            &&& a@[location as int] != b@[location as int]
            &&& forall|k: int| 0 <= k < location ==> a@[k] == b@[k]
            &&& (a@[location as int] < b@[location as int]) == (value_of(a@) < value_of(b@))
            &&& (a@[location as int] > b@[location as int]) == (value_of(a@) > value_of(b@))
        },
{
    let mut i: usize = 0;
    while i < N
        invariant
            i <= N,
            forall|k: int| 0 <= k < i ==> a@[k] == b@[k],
        decreases N - i,
    {
        if a[i] != b[i] {
            proof {
                if a@[i as int] < b@[i as int] {
                    lemma_first_difference_orders(a@, b@, i as int);
                } else {
                    lemma_first_difference_orders(b@, a@, i as int);
                }
            }
            return Some(i);
        }
        i += 1;
    }
    assert(a@ =~= b@);
    None
}

spec fn filled_array<const N: usize>(words: Seq<u64>, filled: nat) -> [u64; N]
    decreases filled,
{
    if filled == 0 {
        vstd::array::spec_array_fill_for_copy_type::<u64, N>(0)
    } else {
        vstd::array::spec_array_update(
            filled_array::<N>(words, (filled - 1) as nat),
            filled - 1,
            words[filled - 1],
        )
    }
}

proof fn lemma_filled_array<const N: usize>(words: Seq<u64>, filled: nat)
    requires
        filled <= N,
    ensures
        forall|k: int| 0 <= k < filled ==> filled_array::<N>(words, filled)@[k] == words[k],
    decreases filled,
{
    if filled > 0 {
        lemma_filled_array::<N>(words, (filled - 1) as nat);
    }
}

/// The array that holds the given words.
pub open spec fn array_of<const N: usize>(words: Seq<u64>) -> [u64; N] {
    choose|array: [u64; N]| array@ == words
}

/// Every sequence of `N` words is held by an array.
pub proof fn lemma_array_of<const N: usize>(words: Seq<u64>)
    requires
        words.len() == N,
    ensures
        array_of::<N>(words)@ == words,
{
    lemma_filled_array::<N>(words, N as nat);
    assert(filled_array::<N>(words, N as nat)@ =~= words);
}

/// The words in hexadecimal, most significant word first, with `_` between them.
pub open spec fn words_text(words: Seq<u64>) -> Seq<char>
    decreases words.len(),
{
    if words.len() == 0 {
        Seq::empty()
    } else if words.len() == 1 {
        hex_text(words[0] as nat)
    } else {
        words_text(words.drop_last()) + "_"@ + hex_text(words.last() as nat)
    }
}

/// Writes the words in hexadecimal, most significant word first, with `_` between them.
pub fn words_string<const N: usize>(words: &[u64; N]) -> (text: String)
    ensures
        text@ == words_text(words@),
{
    let mut text = String::new();
    let mut i: usize = 0;
    while i < N
        invariant
            i <= N,
            text@ == words_text(words@.take(i as int)),
        decreases N - i,
    {
        if i > 0 {
            text.append("_");
        }
        text.append(hex_string(words[i] as u128).as_str());
        proof {
            let longer = words@.take(i + 1);
            assert(longer.drop_last() =~= words@.take(i as int));
            assert(longer.last() == words@[i as int]);
            assert(text@ =~= words_text(longer));
        }
        i += 1;
    }
    assert(words@.take(N as int) =~= words@);
    text
}

proof fn lemma_low_bits_step(a: u64, b: u64, count: u64)
    by (bit_vector)
    requires
        count < 64,
    ensures
        a & (((1u64 << 0u64) - 1) as u64) == b & (((1u64 << 0u64) - 1) as u64),
        (a & (((1u64 << count) - 1) as u64) == b & (((1u64 << count) - 1) as u64) && ((a >> count)
            & 1 == 1) == ((b >> count) & 1 == 1)) ==> {
            &&& count < 63 ==> a & (((1u64 << ((count + 1) as u64)) - 1) as u64) == b & (((1u64 << ((
            count + 1) as u64)) - 1) as u64)
            &&& count == 63 ==> a == b
        },
{
}

proof fn lemma_low_bits_agree(a: u64, b: u64, count: u64)
    requires
        count <= 63,
        forall|offset: int| 0 <= offset < 64 ==> word_bit(a, offset) == word_bit(b, offset),
    ensures
        a & (((1u64 << count) - 1) as u64) == b & (((1u64 << count) - 1) as u64),
    decreases count,
{
    if count == 0 {
        lemma_low_bits_step(a, b, 0);
    } else {
        let below = (count - 1) as u64;
        lemma_low_bits_agree(a, b, below);
        assert(word_bit(a, below as int) == word_bit(b, below as int));
        lemma_low_bits_step(a, b, below);
    }
}

/// Two words whose bits agree are equal.
pub proof fn lemma_word_bits_determine(a: u64, b: u64)
    requires
        forall|offset: int| 0 <= offset < 64 ==> word_bit(a, offset) == word_bit(b, offset),
    ensures
        a == b,
{
    lemma_low_bits_agree(a, b, 63);
    assert(word_bit(a, 63) == word_bit(b, 63));
    lemma_low_bits_step(a, b, 63);
}

/// Two bitmaps of the same length whose bits agree hold the same words.
pub proof fn lemma_bits_determine(a: Seq<u64>, b: Seq<u64>)
    requires
        a.len() == b.len(),
        forall|index: int| 0 <= index < a.len() * 64 ==> bit_at(a, index) == bit_at(b, index),
    ensures
        a == b,
{
    assert forall|k: int| 0 <= k < a.len() implies a[k] == b[k] by {
        assert forall|offset: int| 0 <= offset < 64 implies word_bit(a[k], offset) == word_bit(
            b[k],
            offset,
        ) by {
            let index = (a.len() - 1 - k) * 64 + offset;
            assert(word_location(a.len() as int, index) == k);
            assert(index % 64 == offset);
            assert(bit_at(a, index) == bit_at(b, index));
        }
        lemma_word_bits_determine(a[k], b[k]);
    }
    assert(a =~= b);
}

} // verus!
