//! The Internet checksum (one's-complement sum of big-endian 16-bit words).
use vstd::prelude::*;

verus! {

/// Modulus of one's-complement 16-bit arithmetic.
pub open spec fn ones_modulus() -> int {
    65535
}

/// The `k`-th big-endian 16-bit word of `s`; an odd trailing byte is
/// padded with a zero low byte.
pub open spec fn word_at(s: Seq<u8>, k: int) -> nat {
    let hi = s[2 * k] as nat;
    let lo = if 2 * k + 1 < s.len() { s[2 * k + 1] as nat } else { 0nat };
    hi * 256 + lo
}

/// Number of 16-bit words covering `s`.
pub open spec fn word_count(s: Seq<u8>) -> nat {
    ((s.len() + 1) / 2) as nat
}

/// Plain sum of the first `n` words of `s`.
pub open spec fn word_sum_upto(s: Seq<u8>, n: int) -> nat
    decreases n,
{
    if n <= 0 {
        0
    } else {
        word_sum_upto(s, n - 1) + word_at(s, n - 1)
    }
}

/// Plain sum of all the words of `s`.
pub open spec fn word_sum(s: Seq<u8>) -> nat {
    word_sum_upto(s, word_count(s) as int)
}

/// Folding carries back into the low 16 bits until none remain: zero stays
/// zero, any other value lands in `1..=0xFFFF` with the same remainder
/// modulo `0xFFFF`.
pub open spec fn fold_carries(x: nat) -> nat {
    if x == 0 {
        0
    } else {
        (((x - 1) as int) % ones_modulus() + 1) as nat
    }
}

/// The Internet checksum of `s`: the one's complement of the folded sum.
pub open spec fn internet_checksum(s: Seq<u8>) -> u16 {
    (0xFFFF - fold_carries(word_sum(s))) as u16
}

proof fn lemma_fold_small(x: nat)
    requires
        x <= 0xFFFF,
    ensures
        fold_carries(x) == x,
{
    if x > 0 {
        assert(((x - 1) as int) % 65535 == x - 1);
    }
}

proof fn lemma_fold_bounded(x: nat)
    ensures
        fold_carries(x) <= 0xFFFF,
        fold_carries(x) == 0 <==> x == 0,
{
}

/// Adding to an already folded value folds to the same as adding to the
/// unfolded one.
proof fn lemma_fold_add(a: nat, w: nat)
    ensures
        fold_carries(fold_carries(a) + w) == fold_carries(a + w),
{
    if a > 0 {
        let m = ones_modulus();
        let x = a - 1;
        let q = x / m;
        vstd::arithmetic::div_mod::lemma_fundamental_div_mod(x, m);
        assert(fold_carries(a) - 1 + w == m * (-q) + (x + w));
        vstd::arithmetic::div_mod::lemma_mod_multiples_vanish(-q, x + w, m);
    }
}

/// Computes the Internet checksum of `bytes`: big-endian 16-bit words are
/// summed with end-around carry, and the result is complemented.
pub fn checksum(bytes: &[u8]) -> (r: u16)
    ensures
        r == internet_checksum(bytes@),
{
    let n = bytes.len();
    let words = n / 2 + n % 2;
    let mut acc: u32 = 0;
    let mut k: usize = 0;
    while k < words
        invariant
            n == bytes@.len(),
            words == word_count(bytes@),
            k <= words,
            acc <= 0xFFFF,
            fold_carries(acc as nat) == fold_carries(word_sum_upto(bytes@, k as int)),
        decreases words - k,
    {
        let i = 2 * k;
        let hi = bytes[i] as u32;
        let lo: u32 = if i + 1 < n {
            bytes[i + 1] as u32
        } else {
            0
        };
        let word = hi * 256 + lo;
        proof {
            assert(word == word_at(bytes@, k as int));
            lemma_fold_add(word_sum_upto(bytes@, k as int), word as nat);
            lemma_fold_add(acc as nat, word as nat);
            lemma_fold_small(acc as nat);
        }
        acc = acc + word;
        if acc > 0xFFFF {
            proof {
                vstd::arithmetic::div_mod::lemma_mod_sub_multiples_vanish(acc - 1, 65535);
            }
            acc = acc - 0xFFFF;
        }
        k = k + 1;
    }
    proof {
        lemma_fold_small(acc as nat);
    }
    (0xFFFF - acc) as u16
}

/// Weight of byte `i` within its word: a high byte counts 256, a low byte 1.
pub open spec fn byte_weight(i: int) -> int {
    if i % 2 == 0 {
        256
    } else {
        1
    }
}

/// `s` with its checksum field (bytes 2 and 3) holding `c` in big-endian order.
pub open spec fn with_checksum_field(s: Seq<u8>, c: u16) -> Seq<u8> {
    s.update(2, (c / 256) as u8).update(3, (c % 256) as u8)
}

/// The checksum of `s` is zero exactly when its word sum is a positive
/// multiple of `0xFFFF`.
pub proof fn lemma_checksum_zero_iff(s: Seq<u8>)
    ensures
        internet_checksum(s) == 0 <==> (word_sum(s) > 0 && word_sum(s) % 65535 == 0),
{
    let x = word_sum(s);
    if x > 0 {
        vstd::arithmetic::div_mod::lemma_mod_add_multiples_vanish((x - 1) as int, 65535);
        assert(((x - 1) as int) % 65535 == 65534 <==> x % 65535 == 0) by {
            vstd::arithmetic::div_mod::lemma_fundamental_div_mod((x - 1) as int, 65535);
            vstd::arithmetic::div_mod::lemma_fundamental_div_mod(x as int, 65535);
            if x % 65535 == 0 {
                vstd::arithmetic::div_mod::lemma_mod_multiples_vanish(x / 65535 - 1, 65534, 65535);
                assert(x - 1 == 65535 * (x / 65535 - 1) + 65534) by (nonlinear_arith)
                    requires x == 65535 * (x / 65535) + x % 65535, x % 65535 == 0;
            }
            if ((x - 1) as int) % 65535 == 65534 {
                vstd::arithmetic::div_mod::lemma_mod_multiples_vanish((x - 1) / 65535 + 1, 0, 65535);
                assert(x == 65535 * ((x - 1) / 65535 + 1) + 0) by (nonlinear_arith)
                    requires x - 1 == 65535 * ((x - 1) / 65535) + ((x - 1) as int) % 65535,
                        ((x - 1) as int) % 65535 == 65534;
            }
        }
    }
}

/// Changing byte `i` of `s` to `v` changes the sum of the first `n` words
/// by the weighted difference, if that byte lies among them.
proof fn lemma_word_sum_upto_update(s: Seq<u8>, i: int, v: u8, n: int)
    requires
        0 <= i < s.len(),
        0 <= n <= word_count(s),
    ensures
        word_sum_upto(s.update(i, v), n) == word_sum_upto(s, n) + (if i / 2 < n {
            (v - s[i]) * byte_weight(i)
        } else {
            0
        }),
    decreases n,
{
    let t = s.update(i, v);
    if n > 0 {
        lemma_word_sum_upto_update(s, i, v, n - 1);
        let k = n - 1;
        if k != i / 2 {
            assert(2 * k != i && 2 * k + 1 != i);
            assert(word_at(t, k) == word_at(s, k));
        } else {
            assert(word_at(t, k) == word_at(s, k) + (v - s[i]) * byte_weight(i));
        }
    }
}

/// Changing byte `i` of `s` to `v` changes the word sum by
/// `(v - s[i]) * byte_weight(i)`.
pub proof fn lemma_word_sum_update(s: Seq<u8>, i: int, v: u8)
    requires
        0 <= i < s.len(),
    ensures
        word_sum(s.update(i, v)) == word_sum(s) + (v - s[i]) * byte_weight(i),
{
    lemma_word_sum_upto_update(s, i, v, word_count(s) as int);
}

/// A buffer whose checksum field is zero, once the checksum computed over
/// it is written into that field, has a checksum of zero when recomputed.
pub proof fn lemma_stamped_checksum_is_zero(s: Seq<u8>)
    requires
        s.len() >= 4,
        s[2] == 0,
        s[3] == 0,
    ensures
        internet_checksum(with_checksum_field(s, internet_checksum(s))) == 0,
{
    let c = internet_checksum(s);
    let x = word_sum(s);
    let t1 = s.update(2, (c / 256) as u8);
    let t = with_checksum_field(s, c);
    lemma_word_sum_update(s, 2, (c / 256) as u8);
    lemma_word_sum_update(t1, 3, (c % 256) as u8);
    assert(word_sum(t) == x + c);
    lemma_fold_bounded(x);
    let f = fold_carries(x);
    assert(c == 0xFFFF - f);
    let y = x + c;
    if x == 0 {
        assert(y == 65535);
    } else {
        let q = (x - 1) / 65535;
        vstd::arithmetic::div_mod::lemma_fundamental_div_mod((x - 1) as int, 65535);
        assert(y == 65535 * (q + 1));
        vstd::arithmetic::div_mod::lemma_mod_multiples_vanish(q + 1, 0, 65535);
    }
    lemma_checksum_zero_iff(t);
}

/// Changing one byte of a buffer whose checksum is zero makes the checksum
/// nonzero: a one-byte difference is never a multiple of `0xFFFF`.
pub proof fn lemma_single_byte_change_detected(s: Seq<u8>, i: int, v: u8)
    requires
        0 <= i < s.len(),
        v != s[i],
        internet_checksum(s) == 0,
    ensures
        internet_checksum(s.update(i, v)) != 0,
{
    let t = s.update(i, v);
    let d = (v - s[i]) * byte_weight(i);
    lemma_word_sum_update(s, i, v);
    lemma_checksum_zero_iff(s);
    lemma_checksum_zero_iff(t);
    let x = word_sum(s) as int;
    let y = word_sum(t) as int;
    assert(-65535 < d < 65535 && d != 0) by (nonlinear_arith)
        requires d == (v - s[i]) * byte_weight(i), v != s[i], 0 <= v < 256, 0 <= s[i] < 256,
            byte_weight(i) == 256 || byte_weight(i) == 1;
    if y > 0 && y % 65535 == 0 {
        vstd::arithmetic::div_mod::lemma_fundamental_div_mod(x, 65535);
        vstd::arithmetic::div_mod::lemma_fundamental_div_mod(y, 65535);
        let qx = x / 65535;
        let qy = y / 65535;
        assert(d == 65535 * (qy - qx));
        assert(false) by (nonlinear_arith)
            requires d == 65535 * (qy - qx), -65535 < d < 65535, d != 0;
    }
}

} // verus!
