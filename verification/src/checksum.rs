//! The Internet checksum (RFC 1071) of a byte buffer, as ICMP uses it.
use vstd::prelude::*;
use vstd::arithmetic::div_mod::*;

verus! {

/// The 16-bit word whose high byte is `hi` and whose low byte is `lo`.
pub open spec fn be_word(hi: u8, lo: u8) -> nat {
    hi as nat * 256 + lo as nat
}

/// The sum of the first `k` big-endian 16-bit words of `b`.
pub open spec fn word_sum(b: Seq<u8>, k: nat) -> nat
    decreases k,
{
    if k == 0 {
        0
    } else {
        word_sum(b, (k - 1) as nat) + be_word(b[2 * k - 2], b[2 * k - 1])
    }
}

/// The sum of all big-endian 16-bit words of `b`; a last odd byte counts as
/// the high byte of a word whose low byte is zero.
pub open spec fn ones_sum(b: Seq<u8>) -> nat {
    word_sum(b, b.len() / 2) + if b.len() % 2 == 1 {
        b[b.len() - 1] as nat * 256
    } else {
        0
    }
}

/// Adds the carries above bit 16 back into the low 16 bits until none is left.
pub open spec fn fold_carries(x: nat) -> nat
    decreases x,
{
    if x < 0x10000 {
        x
    } else {
        proof {
            lemma_fold_step_decreases(x);
        }
        fold_carries((x % 0x10000 + x / 0x10000) as nat)
    }
}

/// One folding step makes a value of 17 bits or more strictly smaller.
pub proof fn lemma_fold_step_decreases(x: nat)
    requires
        x >= 0x10000,
    ensures
        x % 0x10000 + x / 0x10000 < x,
{
    lemma_fundamental_div_mod(x as int, 0x10000);
    assert(x / 0x10000 >= 1) by {
        lemma_div_is_ordered(0x10000, x as int, 0x10000);
    }
    assert(0x10000 * (x / 0x10000) == x / 0x10000 + 0xFFFF * (x / 0x10000)) by (nonlinear_arith);
}

/// The checksum that `sum16::new` computes: the ones' complement of the folded
/// sum of the words of `b`, where that sum is accumulated in 32 bits and wraps.
pub open spec fn internet_checksum(b: Seq<u8>) -> u16 {
    (0xFFFF - fold_carries(ones_sum(b) % 0x1_0000_0000)) as u16
}

/// An Internet checksum.
#[allow(non_camel_case_types)]
#[derive(Debug, Clone, Copy)]
pub struct sum16(pub u16);

impl Default for sum16 {
    fn default() -> (r: Self)
        ensures
            r.0 == 0,
    {
        sum16(0)
    }
}

proof fn lemma_wrapping_add_is_mod(a: u32, b: u32)
    ensures
        vstd::wrapping::u32_specs::wrapping_add(a, b) == (a + b) % 0x1_0000_0000,
{
    if a + b < 0x1_0000_0000 {
        lemma_small_mod((a + b) as nat, 0x1_0000_0000);
    } else {
        lemma_small_mod((a + b - 0x1_0000_0000) as nat, 0x1_0000_0000);
        lemma_mod_sub_multiples_vanish(a + b, 0x1_0000_0000);
    }
}


/// Folding keeps a value's residue modulo 0xFFFF, yields at most 16 bits, and
/// yields zero only for zero.
pub proof fn lemma_fold_carries(x: nat)
    ensures
        fold_carries(x) < 0x10000,
        fold_carries(x) % 0xFFFF == x % 0xFFFF,
        x > 0 ==> fold_carries(x) > 0,
    decreases x,
{
    if x >= 0x10000 {
        let y: nat = (x % 0x10000 + x / 0x10000) as nat;
        lemma_fold_step_decreases(x);
        lemma_fold_carries(y);
        lemma_fundamental_div_mod(x as int, 0x10000);
        let q: int = x as int / 0x10000;
        assert(x as int == y as int + 0xFFFF * q) by (nonlinear_arith)
            requires
                x as int == 0x10000 * q + x as int % 0x10000,
                y as int == x as int % 0x10000 + q,
        ;
        lemma_mod_multiples_vanish(q, y as int, 0xFFFF);
        assert(q >= 1) by {
            lemma_div_is_ordered(0x10000, x as int, 0x10000);
        }
    }
}

/// `word_sum` over the first `k` words only reads the first `2 * k` bytes.
proof fn lemma_word_sum_prefix(a: Seq<u8>, b: Seq<u8>, k: nat)
    requires
        2 * k <= a.len(),
        2 * k <= b.len(),
        forall|i: int| 0 <= i < 2 * k ==> a[i] == b[i],
    ensures
        word_sum(a, k) == word_sum(b, k),
    decreases k,
{
    if k > 0 {
        lemma_word_sum_prefix(a, b, (k - 1) as nat);
        assert(a[2 * k - 2] == b[2 * k - 2]);
        assert(a[2 * k - 1] == b[2 * k - 1]);
    }
}

/// Each word is at most 0xFFFF, so `k` words sum to at most `0xFFFF * k`.
proof fn lemma_word_sum_bound(b: Seq<u8>, k: nat)
    ensures
        word_sum(b, k) <= 0xFFFF * k,
    decreases k,
{
    if k > 0 {
        lemma_word_sum_bound(b, (k - 1) as nat);
    }
}

/// Replacing the word at byte offset `2 * j` changes the sum of the first `k > j`
/// words by the difference of the two words.
proof fn lemma_word_sum_update(b: Seq<u8>, j: int, hi: u8, lo: u8, k: nat)
    requires
        0 <= j < k,
        2 * k <= b.len(),
    ensures
        word_sum(b.update(2 * j, hi).update(2 * j + 1, lo), k) + be_word(b[2 * j], b[2 * j + 1])
            == word_sum(b, k) + be_word(hi, lo),
    decreases k,
{
    let b2 = b.update(2 * j, hi).update(2 * j + 1, lo);
    if k == j + 1 {
        lemma_word_sum_prefix(b, b2, j as nat);
    } else {
        lemma_word_sum_update(b, j, hi, lo, (k - 1) as nat);
        assert(b2[2 * k - 2] == b[2 * k - 2]);
        assert(b2[2 * k - 1] == b[2 * k - 1]);
    }
}

/// The checksum verifies: writing the checksum of a buffer, high byte first,
/// into a zeroed 16-bit field at an even offset gives a buffer whose checksum is
/// zero. The 32-bit accumulator must not wrap, which holds for buffers of up to
/// 131074 bytes.
pub proof fn lemma_checksum_verifies(b: Seq<u8>, p: int)
    requires
        0 <= p,
        p % 2 == 0,
        p + 1 < b.len(),
        b.len() <= 131074,
        b[p] == 0,
        b[p + 1] == 0,
    ensures
        internet_checksum(
            b.update(p, (internet_checksum(b) / 256) as u8).update(
                p + 1,
                (internet_checksum(b) % 256) as u8,
            ),
        ) == 0,
{
    let c = internet_checksum(b);
    let hi = (c / 256) as u8;
    let lo = (c % 256) as u8;
    let b2 = b.update(p, hi).update(p + 1, lo);
    let k: nat = b.len() / 2;
    let j: int = p / 2;
    assert(2 * j == p);
    lemma_word_sum_update(b, j, hi, lo, k);
    assert(be_word(hi, lo) == c);
    assert(be_word(b[p], b[p + 1]) == 0);
    assert(b2.len() == b.len());
    if b.len() % 2 == 1 {
        assert(b2[b.len() - 1] == b[b.len() - 1]);
    }
    let s = ones_sum(b);
    assert(ones_sum(b2) == s + c);
    lemma_word_sum_bound(b2, k);
    if b.len() % 2 == 0 {
        assert(0xFFFF * k <= 0xFFFF * 65537) by (nonlinear_arith)
            requires
                k <= 65537,
        ;
    } else {
        assert(0xFFFF * k <= 0xFFFF * 65536) by (nonlinear_arith)
            requires
                k <= 65536,
        ;
    }
    assert(s + c < 0x1_0000_0000);
    lemma_small_mod(s, 0x1_0000_0000);
    let f = fold_carries(s);
    lemma_fold_carries(s);
    assert(c == 0xFFFF - f);
    lemma_small_mod((s + c) as nat, 0x1_0000_0000);
    let g = fold_carries((s + c) as nat);
    lemma_fold_carries((s + c) as nat);
    assert((s + c) as int == s as int - f as int + 0xFFFF);
    assert((s as int - f as int) % 0xFFFF == 0) by {
        lemma_fundamental_div_mod(s as int, 0xFFFF);
        lemma_fundamental_div_mod(f as int, 0xFFFF);
        lemma_mod_multiples_basic(s as int / 0xFFFF - f as int / 0xFFFF, 0xFFFF);
        assert(s as int - f as int == (s as int / 0xFFFF - f as int / 0xFFFF) * 0xFFFF)
            by (nonlinear_arith)
            requires
                s as int == 0xFFFF * (s as int / 0xFFFF) + s as int % 0xFFFF,
                f as int == 0xFFFF * (f as int / 0xFFFF) + f as int % 0xFFFF,
                s as int % 0xFFFF == f as int % 0xFFFF,
        ;
    }
    lemma_mod_adds(s as int - f as int, 0xFFFF, 0xFFFF);
    lemma_mod_self_0(0xFFFF);
    assert(g % 0xFFFF == 0);
    assert(s + c > 0);
    assert(g == 0xFFFF);
}

/// Appending a zero byte does not change the checksum.
pub proof fn lemma_checksum_zero_padding(b: Seq<u8>)
    ensures
        internet_checksum(b.push(0)) == internet_checksum(b),
{
    let b2 = b.push(0);
    let k: nat = b.len() / 2;
    if b.len() % 2 == 1 {
        assert(b2.len() / 2 == k + 1);
        lemma_word_sum_prefix(b, b2, k);
        assert(b2[2 * (k + 1) - 2] == b[b.len() - 1]);
        assert(b2[2 * (k + 1) - 1] == 0);
    } else {
        assert(b2.len() / 2 == k);
        lemma_word_sum_prefix(b, b2, k);
        assert(b2[b2.len() - 1] == 0);
    }
    assert(ones_sum(b2) == ones_sum(b));
}

/// The words of `b` after a prefix of `2 * ka` bytes are the words of the rest.
proof fn lemma_word_sum_concat(a: Seq<u8>, b: Seq<u8>, j: nat)
    requires
        a.len() % 2 == 0,
        2 * j <= b.len(),
    ensures
        word_sum(a + b, a.len() / 2 + j) == word_sum(a, a.len() / 2) + word_sum(b, j),
    decreases j,
{
    let ka: nat = a.len() / 2;
    if j == 0 {
        lemma_word_sum_prefix(a, a + b, ka);
    } else {
        lemma_word_sum_concat(a, b, (j - 1) as nat);
        let k: nat = ka + j;
        assert(2 * k - 2 == a.len() + 2 * j - 2);
        assert((a + b)[2 * k - 2] == b[2 * j - 2]);
        assert((a + b)[2 * k - 1] == b[2 * j - 1]);
    }
}

/// The sum of the words of an even-length buffer followed by another is the
/// sum of the two sums.
proof fn lemma_ones_sum_concat(a: Seq<u8>, b: Seq<u8>)
    requires
        a.len() % 2 == 0,
    ensures
        ones_sum(a + b) == ones_sum(a) + ones_sum(b),
{
    lemma_word_sum_concat(a, b, b.len() / 2);
    assert((a + b).len() / 2 == a.len() / 2 + b.len() / 2);
    if b.len() % 2 == 1 {
        assert((a + b)[(a + b).len() - 1] == b[b.len() - 1]);
    }
}

/// The order of the 16-bit words does not matter: two even-length buffers
/// have the same checksum in either order.
pub proof fn lemma_checksum_word_order(a: Seq<u8>, b: Seq<u8>)
    requires
        a.len() % 2 == 0,
        b.len() % 2 == 0,
    ensures
        internet_checksum(a + b) == internet_checksum(b + a),
{
    lemma_ones_sum_concat(a, b);
    lemma_ones_sum_concat(b, a);
}

/// `b` with the two bytes of every 16-bit word exchanged.
pub open spec fn swap_word_bytes(b: Seq<u8>) -> Seq<u8> {
    Seq::new(b.len(), |i: int| if i % 2 == 0 { b[i + 1] } else { b[i - 1] })
}

/// The sum of the high bytes of the first `k` words of `b`.
spec fn high_sum(b: Seq<u8>, k: nat) -> nat
    decreases k,
{
    if k == 0 {
        0
    } else {
        high_sum(b, (k - 1) as nat) + b[2 * k - 2] as nat
    }
}

proof fn lemma_word_sum_swap(b: Seq<u8>, k: nat)
    requires
        b.len() % 2 == 0,
        2 * k <= b.len(),
    ensures
        256 * word_sum(b, k) == word_sum(swap_word_bytes(b), k) + 0xFFFF * high_sum(b, k),
    decreases k,
{
    if k > 0 {
        lemma_word_sum_swap(b, (k - 1) as nat);
        let sw = swap_word_bytes(b);
        assert((2 * k - 2) % 2 == 0);
        assert((2 * k - 1) % 2 == 1);
        assert(sw[2 * k - 2] == b[2 * k - 1]);
        assert(sw[2 * k - 1] == b[2 * k - 2]);
    }
}

proof fn lemma_word_sum_zero(b: Seq<u8>, k: nat)
    requires
        2 * k <= b.len(),
    ensures
        word_sum(b, k) == 0 <==> forall|i: int| 0 <= i < 2 * k ==> b[i] == 0,
    decreases k,
{
    if k > 0 {
        lemma_word_sum_zero(b, (k - 1) as nat);
        if word_sum(b, k) == 0 {
            assert forall|i: int| 0 <= i < 2 * k implies b[i] == 0 by {
                if i >= 2 * k - 2 {
                    assert(b[2 * k - 2] == 0 && b[2 * k - 1] == 0);
                }
            }
        }
        if forall|i: int| 0 <= i < 2 * k ==> b[i] == 0 {
            assert(b[2 * k - 2] == 0 && b[2 * k - 1] == 0);
            assert forall|i: int| 0 <= i < 2 * (k - 1) implies b[i] == 0 by {}
        }
    }
}

proof fn lemma_congruent_in_range(x: int, y: int)
    requires
        1 <= x <= 0xFFFF,
        1 <= y <= 0xFFFF,
        x % 0xFFFF == y % 0xFFFF,
    ensures
        x == y,
{
    lemma_mod_equivalence(x, y, 0xFFFF);
    lemma_fundamental_div_mod(x - y, 0xFFFF);
    let q = (x - y) / 0xFFFF;
    assert(q == 0) by (nonlinear_arith)
        requires
            x - y == 0xFFFF * q,
            -0xFFFF < x - y < 0xFFFF,
    ;
}

proof fn lemma_swap_word_bytes_zero(b: Seq<u8>)
    requires
        b.len() % 2 == 0,
    ensures
        ones_sum(b) == 0 <==> ones_sum(swap_word_bytes(b)) == 0,
{
    let sw = swap_word_bytes(b);
    let k: nat = b.len() / 2;
    lemma_word_sum_zero(b, k);
    lemma_word_sum_zero(sw, k);
    if ones_sum(b) == 0 {
        assert forall|i: int| 0 <= i < 2 * k implies sw[i] == 0 by {
            if i % 2 == 0 {
                assert(b[i + 1] == 0);
            } else {
                assert(b[i - 1] == 0);
            }
        }
    }
    if ones_sum(sw) == 0 {
        assert forall|i: int| 0 <= i < 2 * k implies b[i] == 0 by {
            if i % 2 == 0 {
                assert(sw[i + 1] == 0);
            } else {
                assert(sw[i - 1] == 0);
            }
        }
    }
}

proof fn lemma_swap_word_bytes_congruent(b: Seq<u8>)
    requires
        b.len() % 2 == 0,
    ensures
        ones_sum(swap_word_bytes(b)) % 0xFFFF == (256 * ones_sum(b)) % 0xFFFF,
{
    let k: nat = b.len() / 2;
    lemma_word_sum_swap(b, k);
    let h = high_sum(b, k);
    let s2 = ones_sum(swap_word_bytes(b));
    assert(256 * ones_sum(b) == 0xFFFF * h + s2);
    lemma_mod_multiples_vanish(h as int, s2 as int, 0xFFFF);
}

proof fn lemma_swap_bytes16_congruent(f: u16)
    ensures
        crate::endian::swap_bytes16(f) as int % 0xFFFF == (256 * f) % 0xFFFF,
        f != 0 ==> crate::endian::swap_bytes16(f) != 0,
        crate::endian::swap_bytes16((0xFFFF - f) as u16) == 0xFFFF - crate::endian::swap_bytes16(f),
{
    let sf = crate::endian::swap_bytes16(f);
    assert(sf as int == (f % 256) as int * 256 + (f / 256) as int && (f != 0 ==> sf != 0))
        by (bit_vector)
        requires
            sf == ((f & 0xff) << 8) | (f >> 8),
    ;
    assert(crate::endian::swap_bytes16((0xFFFF - f) as u16) == 0xFFFF - sf) by (bit_vector)
        requires
            sf == ((f & 0xff) << 8) | (f >> 8),
    ;
    lemma_fundamental_div_mod(f as int, 256);
    assert(256 * f == sf as int + 0xFFFF * (f / 256) as int);
    lemma_mod_multiples_vanish((f / 256) as int, sf as int, 0xFFFF);
}

/// Exchanging the two bytes of every word of an even-length buffer exchanges
/// the two bytes of its checksum. The 32-bit accumulator must not wrap, which
/// holds for buffers of up to 131074 bytes.
pub proof fn lemma_checksum_byte_swap(b: Seq<u8>)
    requires
        b.len() % 2 == 0,
        b.len() <= 131074,
    ensures
        internet_checksum(swap_word_bytes(b)) == crate::endian::swap_bytes16(internet_checksum(b)),
{
    let sw = swap_word_bytes(b);
    let k: nat = b.len() / 2;
    let s = ones_sum(b);
    let s2 = ones_sum(sw);
    lemma_word_sum_bound(b, k);
    lemma_word_sum_bound(sw, k);
    assert(0xFFFF * k <= 0xFFFF * 65537) by (nonlinear_arith)
        requires
            k <= 65537,
    ;
    lemma_small_mod(s, 0x1_0000_0000);
    lemma_small_mod(s2, 0x1_0000_0000);
    let f = fold_carries(s);
    let f2 = fold_carries(s2);
    lemma_fold_carries(s);
    lemma_fold_carries(s2);
    let fu: u16 = f as u16;
    lemma_swap_bytes16_congruent(fu);
    lemma_swap_word_bytes_zero(b);
    if s != 0 {
        lemma_swap_word_bytes_congruent(b);
        lemma_mul_mod_noop_right(256, s as int, 0xFFFF);
        lemma_mul_mod_noop_right(256, f as int, 0xFFFF);
        lemma_congruent_in_range(f2 as int, crate::endian::swap_bytes16(fu) as int);
    } else {
        assert(crate::endian::swap_bytes16(0) == 0) by (bit_vector);
    }
}

impl sum16 {
    /// The checksum value as a host-order integer.
    pub fn value(&self) -> (r: u16)
        ensures
            r == self.0,
    {
        self.0
    }

    /// Computes the Internet checksum of `buf`.
    pub fn new(buf: &[u8]) -> (r: Self)
        ensures
            r.0 == internet_checksum(buf@),
    {
        let mut sum: u32 = 0;
        let mut i: usize = 0;
        while i + 1 < buf.len()
            invariant
                i % 2 == 0,
                i <= buf.len(),
                sum == word_sum(buf@, (i / 2) as nat) % 0x1_0000_0000,
            decreases buf.len() - i,
        {
            let word: u32 = (buf[i] as u32) * 256 + (buf[i + 1] as u32);
            proof {
                let k: nat = (i / 2 + 1) as nat;
                assert(2 * k - 2 == i && 2 * k - 1 == i + 1);
                assert(word_sum(buf@, k) == word_sum(buf@, (i / 2) as nat) + word);
                lemma_add_mod_noop(word_sum(buf@, (i / 2) as nat) as int, word as int, 0x1_0000_0000);
                lemma_small_mod(word as nat, 0x1_0000_0000);
                lemma_wrapping_add_is_mod(sum, word);
            }
            sum = sum.wrapping_add(word);
            i += 2;
        }
        proof {
            assert(i / 2 == buf.len() / 2);
        }
        if i < buf.len() {
            let hi: u8 = buf[i];
            let pad: u32 = (hi as u32) << 8;
            assert(pad == hi as nat * 256) by (bit_vector)
                requires
                    pad == (hi as u32) << 8,
            ;
            proof {
                lemma_add_mod_noop(word_sum(buf@, (i / 2) as nat) as int, pad as int, 0x1_0000_0000);
                lemma_small_mod(pad as nat, 0x1_0000_0000);
                lemma_wrapping_add_is_mod(sum, pad);
            }
            sum = sum.wrapping_add(pad);
        }
        assert(sum == ones_sum(buf@) % 0x1_0000_0000);
        let ghost total: nat = sum as nat;
        while (sum >> 16) != 0
            invariant
                fold_carries(sum as nat) == fold_carries(total),
            decreases sum,
        {
            let s: u32 = sum;
            assert(s >> 16 != 0 ==> s >= 0x10000) by (bit_vector);
            assert((s & 0xFFFF) + (s >> 16) == s % 0x10000 + s / 0x10000) by (bit_vector);
            assert((s & 0xFFFF) + (s >> 16) <= 0x1FFFE) by (bit_vector);
            proof {
                lemma_fold_step_decreases(s as nat);
            }
            sum = (sum & 0xFFFF) + (sum >> 16);
        }
        let s: u32 = sum;
        assert(s >> 16 == 0 ==> s < 0x10000) by (bit_vector);
        let folded: u16 = sum as u16;
        assert(!folded == 0xFFFF - folded) by (bit_vector);
        sum16(!folded)
    }
}

} // verus!
