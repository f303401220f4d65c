//! Packed palette indices: several indices of equal width in each 64-bit word, none of them split.

use vstd::arithmetic::div_mod::{
    lemma_basic_div, lemma_div_is_ordered, lemma_fundamental_div_mod, lemma_hoist_over_denominator,
    lemma_mod_multiples_vanish, lemma_small_mod,
};
use vstd::arithmetic::power2::{
    lemma2_to64, lemma2_to64_rest, lemma_pow2_adds, lemma_pow2_pos, lemma_pow2_strictly_increases,
    lemma_pow2_unfold, pow2,
};
use vstd::bits::{lemma_u64_low_bits_mask_is_mod, lemma_u64_shl_is_mul, lemma_u64_shr_is_div};
use vstd::prelude::*;

verus! {

/// The number of binary digits of `n`.
pub open spec fn bit_width(n: nat) -> nat
    decreases n,
{
    if n == 0 {
        0
    } else {
        1 + bit_width(n / 2)
    }
}

/// `bit_width(n)` is the least width in which `n` can be written.
pub proof fn bit_width_is_least(n: nat)
    ensures
        n < pow2(bit_width(n)),
        n > 0 ==> pow2((bit_width(n) - 1) as nat) <= n,
    decreases n,
{
    lemma2_to64();
    if n > 0 {
        bit_width_is_least(n / 2);
        lemma_pow2_unfold(bit_width(n));
        if n / 2 > 0 {
            lemma_pow2_unfold((bit_width(n) - 1) as nat);
        }
    }
}

/// The width of an index into a palette of that many entries.
pub open spec fn palette_bits(palette_len: nat) -> nat {
    bit_width(if palette_len == 0 { 0 } else { (palette_len - 1) as nat })
}

/// The width of a packed index: at least four bits.
pub open spec fn entry_bits(palette_len: nat) -> nat {
    if palette_bits(palette_len) < 4 {
        4
    } else {
        palette_bits(palette_len)
    }
}

/// How many indices of a width stand in one word.
pub open spec fn slots(bits: nat) -> nat {
    64nat / bits
}

/// What the first `n` slots of word number `l` add up to.
pub open spec fn word(indices: Seq<usize>, bits: nat, l: nat, n: nat) -> nat
    decreases n,
{
    if n == 0 {
        0
    } else {
        word(indices, bits, l, (n - 1) as nat) + slot_value(indices, bits, l, (n - 1) as nat) * pow2(
            ((n - 1) * bits) as nat,
        )
    }
}

/// The index in slot `s` of word number `l`; zero behind the last index.
pub open spec fn slot_value(indices: Seq<usize>, bits: nat, l: nat, s: nat) -> nat {
    let i = l * slots(bits) + s;
    if i < indices.len() {
        indices[i as int] as nat
    } else {
        0
    }
}

/// The words that hold the indices, the first index of each word in its lowest bits.
pub open spec fn packed(indices: Seq<usize>, bits: nat) -> Seq<u64> {
    Seq::new(
        (indices.len() + slots(bits) - 1) as nat / slots(bits),
        |l: int| word(indices, bits, l as nat, slots(bits)) as u64,
    )
}

/// The index number `i` in the words, or nothing where they are too short.
pub open spec fn unpacked(words: Seq<u64>, bits: nat, i: nat) -> Option<nat> {
    let l = i / slots(bits);
    if l < words.len() {
        Some((words[l as int] as nat / pow2(((i % slots(bits)) * bits) as nat)) % pow2(bits))
    } else {
        None
    }
}

/// True iff every index fits in `bits` bits.
pub open spec fn indices_fit(indices: Seq<usize>, bits: nat) -> bool {
    forall|i: int| 0 <= i < indices.len() ==> (#[trigger] indices[i]) < pow2(bits)
}

proof fn slot_fits(indices: Seq<usize>, bits: nat, l: nat, s: nat)
    requires
        indices_fit(indices, bits),
    ensures
        slot_value(indices, bits, l, s) < pow2(bits),
{
    lemma_pow2_pos(bits);
}

proof fn word_is_bounded(indices: Seq<usize>, bits: nat, l: nat, n: nat)
    requires
        indices_fit(indices, bits),
    ensures
        word(indices, bits, l, n) < pow2((n * bits) as nat),
    decreases n,
{
    if n == 0 {
        lemma2_to64();
        assert(0 * bits == 0) by (nonlinear_arith);
    } else {
        let m = (n - 1) as nat;
        word_is_bounded(indices, bits, l, m);
        slot_fits(indices, bits, l, m);
        let d = slot_value(indices, bits, l, m);
        let unit = pow2((m * bits) as nat);
        assert(n * bits == m * bits + bits) by (nonlinear_arith)
            requires
                n == m + 1,
        ;
        assert(m * bits >= 0) by (nonlinear_arith);
        lemma_pow2_adds((m * bits) as nat, bits);
        assert(d * unit + unit <= pow2(bits) * unit) by (nonlinear_arith)
            requires
                d + 1 <= pow2(bits),
        ;
        assert(pow2(bits) * unit == unit * pow2(bits)) by (nonlinear_arith);
    }
}

proof fn word_digit(indices: Seq<usize>, bits: nat, l: nat, n: nat, s: nat)
    requires
        indices_fit(indices, bits),
        s < n,
    ensures
        (word(indices, bits, l, n) / pow2((s * bits) as nat)) % pow2(bits) == slot_value(
            indices,
            bits,
            l,
            s,
        ),
    decreases n,
{
    let m = (n - 1) as nat;
    let d = slot_value(indices, bits, l, m);
    let rest = word(indices, bits, l, m);
    let base = pow2(bits);
    assert(m * bits >= 0 && s * bits >= 0) by (nonlinear_arith);
    let low = pow2((s * bits) as nat);
    let unit = pow2((m * bits) as nat);
    lemma_pow2_pos(bits);
    lemma_pow2_pos((s * bits) as nat);
    lemma_pow2_pos((m * bits) as nat);
    slot_fits(indices, bits, l, m);
    if s == m {
        word_is_bounded(indices, bits, l, m);
        lemma_hoist_over_denominator(rest as int, d as int, unit);
        lemma_basic_div(rest as int, unit as int);
        lemma_small_mod(d, base);
    } else {
        word_digit(indices, bits, l, m, s);
        // unit == low * base * q
        let gap = ((m - s - 1) * bits) as nat;
        assert(m * bits == s * bits + bits + (m - s - 1) * bits) by (nonlinear_arith)
            requires
                s < m,
        ;
        assert((m - s - 1) * bits >= 0) by (nonlinear_arith)
            requires
                s < m,
        ;
        lemma_pow2_adds((s * bits) as nat, bits);
        lemma_pow2_adds((s * bits + bits) as nat, gap);
        let q = pow2(gap);
        assert(unit == (low * base) * q);
        assert(d * unit == (d * base * q) * low) by (nonlinear_arith)
            requires
                unit == (low * base) * q,
        ;
        lemma_hoist_over_denominator(rest as int, (d * base * q) as int, low);
        assert(d * base * q == base * (d * q)) by (nonlinear_arith);
        lemma_mod_multiples_vanish((d * q) as int, (rest / low) as int, base as int);
    }
}

/// Packing loses nothing: every index comes back out of the words.
pub proof fn packed_indices_come_back(indices: Seq<usize>, bits: nat, i: nat)
    requires
        0 < bits <= 64,
        indices_fit(indices, bits),
        i < indices.len(),
    ensures
        unpacked(packed(indices, bits), bits, i) == Some(indices[i as int] as nat),
{
    let n = slots(bits);
    slots_are_positive(bits);
    lemma_fundamental_div_mod(i as int, n as int);
    let l = i / n;
    let s = i % n;
    let count = (indices.len() + n - 1) as nat / n;
    assert(l < count) by {
        lemma_hoist_over_denominator(i as int, 1, n);
        lemma_div_is_ordered((i + n) as int, (indices.len() + n - 1) as int, n as int);
    }
    assert(l * n + s == i) by (nonlinear_arith)
        requires
            i == n * l + s,
    ;
    word_digit(indices, bits, l, n, s);
    full_word_fits(indices, bits, l);
}

proof fn slots_are_positive(bits: nat)
    requires
        0 < bits <= 64,
    ensures
        0 < slots(bits) <= 64,
        slots(bits) * bits <= 64,
{
    lemma_fundamental_div_mod(64, bits as int);
    let n = slots(bits);
    assert(n * bits <= 64) by (nonlinear_arith)
        requires
            64 == bits * n + 64nat % bits,
    ;
    assert(0 < n <= 64) by (nonlinear_arith)
        requires
            64 == bits * n + 64nat % bits,
            64nat % bits < bits,
            0 < bits <= 64,
    ;
}

proof fn full_word_fits(indices: Seq<usize>, bits: nat, l: nat)
    requires
        0 < bits <= 64,
        indices_fit(indices, bits),
    ensures
        word(indices, bits, l, slots(bits)) <= u64::MAX,
{
    slots_are_positive(bits);
    word_is_bounded(indices, bits, l, slots(bits));
    pow2_in_word((slots(bits) * bits) as nat);
}

proof fn pow2_in_word(e: nat)
    requires
        e <= 64,
    ensures
        pow2(e) <= 0x1_0000_0000_0000_0000,
        e < 64 ==> pow2(e) <= 0x8000_0000_0000_0000,
{
    lemma2_to64();
    lemma2_to64_rest();
    if e < 64 {
        lemma_pow2_strictly_increases(e, 64);
        if e < 63 {
            lemma_pow2_strictly_increases(e, 63);
        }
    }
}

/// The width of an index into a palette of that many entries.
pub fn bits_per_palette_index(palette_len: usize) -> (r: usize)
    ensures
        r == palette_bits(palette_len as nat),
        r <= 64,
{
    let mut n: usize = if palette_len == 0 {
        0
    } else {
        palette_len - 1
    };
    let ghost start = n;
    let mut bits: usize = 0;
    proof {
        width_fits(start as nat);
    }
    while n > 0
        invariant
            bits + bit_width(n as nat) == bit_width(start as nat),
            bit_width(start as nat) <= 64,
        decreases n,
    {
        n = n / 2;
        bits = bits + 1;
    }
    bits
}

proof fn width_fits(n: nat)
    requires
        n <= usize::MAX,
    ensures
        bit_width(n) <= 64,
{
    bit_width_is_least(n);
    lemma2_to64_rest();
    if bit_width(n) > 64 {
        if bit_width(n) > 65 {
            lemma_pow2_strictly_increases(64, (bit_width(n) - 1) as nat);
        }
    }
}

/// The width of a packed index into a palette of that many entries.
pub fn packed_entry_bits(palette_len: usize) -> (r: usize)
    ensures
        r == entry_bits(palette_len as nat),
        4 <= r <= 64,
{
    let bits = bits_per_palette_index(palette_len);
    if bits < 4 {
        4
    } else {
        bits
    }
}

/// Packs indices into a palette of `palette_len` entries.
pub fn pack_palette_indices(indices: &Vec<usize>, palette_len: usize) -> (r: Vec<u64>)
    requires
        indices_fit(indices@, entry_bits(palette_len as nat)),
    ensures
        r@ == packed(indices@, entry_bits(palette_len as nat)),
{
    let bits = packed_entry_bits(palette_len);
    let values_per_long: usize = 64 / bits;
    proof {
        slots_are_positive(bits as nat);
    }
    let quotient: usize = indices.len() / values_per_long;
    let remainder: usize = indices.len() % values_per_long;
    proof {
        lemma_fundamental_div_mod(indices@.len() as int, values_per_long as int);
        assert(quotient + remainder <= indices@.len()) by (nonlinear_arith)
            requires
                indices@.len() == values_per_long * quotient + remainder,
                values_per_long >= 1,
                quotient >= 0,
        ;
    }
    let count: usize = if remainder > 0 {
        quotient + 1
    } else {
        quotient
    };
    let ghost total = packed(indices@, bits as nat).len();
    proof {
        let n = values_per_long as int;
        let len = indices@.len() as int;
        lemma_fundamental_div_mod(len, n);
        let q = len / n;
        let rem = len % n;
        if rem == 0 {
            lemma_hoist_over_denominator(n - 1, q, n as nat);
            lemma_basic_div(n - 1, n);
            assert(len + n - 1 == (n - 1) + q * n) by (nonlinear_arith)
                requires
                    len == n * q + rem,
                    rem == 0,
            ;
        } else {
            lemma_hoist_over_denominator(rem - 1, q + 1, n as nat);
            lemma_basic_div(rem - 1, n);
            assert(len + n - 1 == (rem - 1) + (q + 1) * n) by (nonlinear_arith)
                requires
                    len == n * q + rem,
            ;
        }
        assert(total == count);
    }
    let mut longs: Vec<u64> = Vec::new();
    let mut l: usize = 0;
    while l < count
        invariant
            l <= count,
            count == total,
            total == packed(indices@, bits as nat).len(),
            longs@ =~= packed(indices@, bits as nat).take(l as int),
            4 <= bits <= 64,
            values_per_long == slots(bits as nat),
            indices_fit(indices@, bits as nat),
        decreases count - l,
    {
        proof {
            slots_are_positive(bits as nat);
        }
        let long = pack_word(indices, bits, l);
        longs.push(long);
        l = l + 1;
    }
    proof {
        assert(packed(indices@, bits as nat).take(total as int) =~= packed(indices@, bits as nat));
    }
    longs
}

fn pack_word(indices: &Vec<usize>, bits: usize, l: usize) -> (r: u64)
    requires
        4 <= bits <= 64,
        indices_fit(indices@, bits as nat),
    ensures
        r == word(indices@, bits as nat, l as nat, slots(bits as nat)),
{
    let values_per_long: usize = 64 / bits;
    let mut long: u64 = 0;
    let mut s: usize = 0;
    while s < values_per_long
        invariant
            4 <= bits <= 64,
            values_per_long == slots(bits as nat),
            s <= values_per_long,
            indices_fit(indices@, bits as nat),
            long == word(indices@, bits as nat, l as nat, s as nat),
        decreases values_per_long - s,
    {
        proof {
            slots_are_positive(bits as nat);
            assert(s * bits <= 64 - bits && (s + 1) * bits == s * bits + bits) by (nonlinear_arith)
                requires
                    s + 1 <= values_per_long,
                    values_per_long * bits <= 64,
            ;
            assert(s * bits >= 0) by (nonlinear_arith);
        }
        let shift: u64 = (s * bits) as u64;
        let index: u64 = index_in_slot(indices, values_per_long, l, s) as u64;
        proof {
            word_is_bounded(indices@, bits as nat, l as nat, s as nat);
            word_is_bounded(indices@, bits as nat, l as nat, (s + 1) as nat);
            pow2_in_word(((s + 1) * bits) as nat);
            assert(index == slot_value(indices@, bits as nat, l as nat, s as nat));
            assert(index * pow2(shift as nat) <= u64::MAX);
            lemma_u64_shl_is_mul(index, shift);
        }
        long = long + (index << shift);
        s = s + 1;
    }
    long
}

fn index_in_slot(indices: &Vec<usize>, values_per_long: usize, l: usize, s: usize) -> (r: usize)
    requires
        0 < values_per_long <= 64,
        s < values_per_long,
    ensures
        r == {
            let i = l * values_per_long + s;
            if i < indices@.len() {
                indices@[i as int]
            } else {
                0
            }
        },
{
    proof {
        assert(0 <= l * values_per_long <= usize::MAX * 64) by (nonlinear_arith)
            requires
                0 <= l <= usize::MAX,
                0 < values_per_long <= 64,
        ;
    }
    let i: u128 = l as u128 * values_per_long as u128 + s as u128;
    if i < indices.len() as u128 {
        indices[i as usize]
    } else {
        0
    }
}

/// The index number `index` in the words, or nothing where they are too short.
pub fn unpack_index(words: &Vec<u64>, bits: usize, index: usize) -> (r: Option<u64>)
    requires
        4 <= bits <= 64,
    ensures
        r matches Some(v) ==> unpacked(words@, bits as nat, index as nat) == Some(v as nat),
        r is None ==> unpacked(words@, bits as nat, index as nat) is None,
{
    let values_per_long: usize = 64 / bits;
    proof {
        slots_are_positive(bits as nat);
    }
    let long_index: usize = index / values_per_long;
    if long_index >= words.len() {
        return None;
    }
    let slot: usize = index % values_per_long;
    proof {
        assert(slot * bits <= 64 - bits) by (nonlinear_arith)
            requires
                slot + 1 <= values_per_long,
                values_per_long * bits <= 64,
        ;
        assert(slot * bits >= 0) by (nonlinear_arith);
    }
    let shift: u64 = (slot * bits) as u64;
    let shifted: u64 = words[long_index] >> shift;
    proof {
        lemma_u64_shr_is_div(words@[long_index as int], shift);
    }
    if bits == 64 {
        proof {
            lemma2_to64_rest();
            lemma_small_mod(shifted as nat, pow2(64));
        }
        Some(shifted)
    } else {
        proof {
            lemma2_to64();
            pow2_in_word(bits as nat);
            lemma_u64_shl_is_mul(1, bits as u64);
            lemma_pow2_pos(bits as nat);
            lemma_u64_low_bits_mask_is_mod(shifted, bits as nat);
        }
        let mask: u64 = (1u64 << (bits as u64)) - 1;
        Some(shifted & mask)
    }
}

// ---- laws ----

/// A packed index is at least four bits wide, wide enough for every entry of the palette, and no wider
/// than that needs.
pub proof fn index_width_is_least(palette_len: nat)
    ensures
        entry_bits(palette_len) >= 4,
        palette_len <= pow2(entry_bits(palette_len)),
        entry_bits(palette_len) > 4 ==> palette_len > pow2((entry_bits(palette_len) - 1) as nat),
{
    let n = if palette_len == 0 {
        0
    } else {
        (palette_len - 1) as nat
    };
    bit_width_is_least(n);
    lemma_pow2_pos(palette_bits(palette_len));
    lemma_pow2_pos(4);
    if palette_bits(palette_len) < 4 {
        lemma_pow2_strictly_increases(palette_bits(palette_len), 4);
    }
}

/// As many indices stand in a word as fit without splitting one: the first in the lowest bits, each
/// further one right above the one before it, and in the next word where the word is full.
pub proof fn words_are_filled_from_their_lowest_bits(indices: Seq<usize>, bits: nat, k: nat, l: nat, s: nat)
    requires
        0 < bits <= 64,
        indices_fit(indices, bits),
        k * bits <= 64 < (k + 1) * bits,
        s < k,
        l * k + s < indices.len(),
    ensures
        l < packed(indices, bits).len(),
        (packed(indices, bits)[l as int] as nat / pow2((s * bits) as nat)) % pow2(bits)
            == indices[(l * k + s) as int],
        (packed(indices, bits).len() - 1) * k < indices.len() <= packed(indices, bits).len() * k,
{
    slots_are_positive(bits);
    lemma_fundamental_div_mod(64, bits as int);
    assert(k == slots(bits)) by (nonlinear_arith)
        requires
            64 == bits * slots(bits) + 64nat % bits,
            0 <= 64nat % bits < bits,
            k * bits <= 64 < (k + 1) * bits,
            bits > 0,
    ;
    let i = (l * k + s) as nat;
    let count = (indices.len() + k - 1) as nat / k;
    lemma_fundamental_div_mod((indices.len() + k - 1) as int, k as int);
    assert(l < count && (count - 1) * k < indices.len() <= count * k) by (nonlinear_arith)
        requires
            indices.len() + k - 1 == k * count + (indices.len() + k - 1) as nat % k,
            0 <= (indices.len() + k - 1) as nat % k < k,
            l * k + s < indices.len(),
            s >= 0,
            k > 0,
    ;
    word_digit(indices, bits, l, k, s);
    full_word_fits(indices, bits, l);
}

} // verus!
