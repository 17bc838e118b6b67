//! Human-readable file sizes (`1.50 GB`, `512.00 KB`), computed exactly in
//! integers: the byte count as the nearest binary64 value, scaled by a power
//! of 1024 and rounded to hundredths as `{:.2}` does.
use vstd::prelude::*;
use crate::text::{dec, dec_pad, push_char, push_digits, push_padded, push_str};
use vstd::arithmetic::power2::{pow2, lemma2_to64, lemma2_to64_rest, lemma_pow2_adds, lemma_pow2_pos, lemma_pow2_strictly_increases, lemma_pow2_unfold};

verus! {

/// Number of binary digits of `n` (zero for zero).
pub open spec fn bit_len(n: nat) -> nat
    decreases n,
{
    if n == 0 {
        0
    } else {
        1 + bit_len(n / 2)
    }
}

/// The integer nearest to `n / m`, ties going to the even one.
pub open spec fn div_round_even(n: nat, m: nat) -> nat {
    let q = n / m;
    let r = n % m;
    if 2 * r > m || (2 * r == m && q % 2 == 1) {
        q + 1
    } else {
        q
    }
}

/// The value of `b as f64`: `b` itself below 2^53, above it `b` rounded to 53
/// significant bits, ties to even.
pub open spec fn f64_value(b: nat) -> nat {
    if b < pow2(53) {
        b
    } else {
        let k = (bit_len(b) - 53) as nat;
        div_round_even(b, pow2(k)) * pow2(k)
    }
}

/// The unit a size is shown in: its power of two and its suffix.
pub open spec fn size_unit(b: nat) -> (nat, Seq<char>) {
    if b >= pow2(30) {
        (30, seq![' ', 'G', 'B'])
    } else if b >= pow2(20) {
        (20, seq![' ', 'M', 'B'])
    } else {
        (10, seq![' ', 'K', 'B'])
    }
}

/// `format_size`'s text: the size in its unit with two decimals, then the unit.
pub open spec fn size_text(b: nat) -> Seq<char> {
    let (e, suffix) = size_unit(b);
    let hundredths = div_round_even(f64_value(b) * 100, pow2(e));
    dec(hundredths / 100) + seq!['.'] + dec_pad(hundredths % 100, 2) + suffix
}

/// `2^k` in 128 bits.
fn pow2_exec(k: u32) -> (r: u128)
    requires
        k <= 127,
    ensures
        r == pow2(k as nat),
{
    let mut p: u128 = 1;
    let mut i: u32 = 0;
    proof {
        lemma2_to64();
        lemma_pow2_pos(127);
    }
    while i < k
        invariant
            i <= k <= 127,
            p == pow2(i as nat),
            p <= pow2(127),
        decreases k - i,
    {
        proof {
            lemma_pow2_unfold((i + 1) as nat);
            lemma_pow2_monotone((i + 1) as nat, 127);
            lemma_pow2_adds(64, 63);
            lemma2_to64();
            lemma2_to64_rest();
        }
        p = p * 2;
        i += 1;
    }
    p
}

/// Larger exponents give larger powers.
pub proof fn lemma_pow2_monotone(a: nat, b: nat)
    requires
        a <= b,
    ensures
        pow2(a) <= pow2(b),
{
    if a < b {
        lemma_pow2_strictly_increases(a, b);
    }
}

/// A number has `k` binary digits exactly when it lies in `[2^(k-1), 2^k)`.
pub proof fn lemma_bit_len_bounds(n: nat)
    requires
        n >= 1,
    ensures
        bit_len(n) >= 1,
        pow2((bit_len(n) - 1) as nat) <= n < pow2(bit_len(n)),
    decreases n,
{
    lemma2_to64();
    if n >= 2 {
        let h = n / 2;
        lemma_bit_len_bounds(h);
        let l = bit_len(n);
        assert(l == 1 + bit_len(h));
        lemma_pow2_unfold(l);
        lemma_pow2_unfold((l - 1) as nat);
        assert(pow2((l - 1) as nat) == 2 * pow2((l - 2) as nat));
        assert(pow2(l) == 2 * pow2((l - 1) as nat));
        assert(2 * h <= n <= 2 * h + 1);
    } else {
        assert(bit_len(n) == 1 + bit_len(0));
    }
}

fn bit_len_exec(n: u64) -> (r: u32)
    ensures
        r == bit_len(n as nat),
        r <= 64,
{
    let mut m = n;
    let mut len: u32 = 0;
    proof {
        if n > 0 {
            lemma_bit_len_bounds(n as nat);
            if bit_len(n as nat) > 64 {
                lemma_pow2_monotone(64, (bit_len(n as nat) - 1) as nat);
                lemma2_to64();
            }
        } else {
            assert(bit_len(0) == 0);
        }
    }
    while m > 0
        invariant
            bit_len(n as nat) == len + bit_len(m as nat),
            len + bit_len(m as nat) <= 64,
        decreases m,
    {
        m = m / 2;
        len += 1;
    }
    len
}

fn div_round_even_exec(n: u128, m: u128) -> (r: u128)
    requires
        m > 0,
        n < u128::MAX,
    ensures
        r == div_round_even(n as nat, m as nat),
{
    let q = n / m;
    let r = n % m;
    proof {
        assert(q <= n) by (nonlinear_arith)
            requires
                m > 0,
                q == n / m,
        ;
    }
    if (r > m - r) || (r == m - r && q % 2 == 1) {
        q + 1
    } else {
        q
    }
}

/// The exact value of `b as f64`.
fn f64_value_exec(b: u64) -> (r: u128)
    ensures
        r == f64_value(b as nat),
        r <= 0x1_0000_0000_0000_0000,
{
    proof {
        lemma2_to64();
        lemma2_to64_rest();
    }
    if b < 0x20_0000_0000_0000 {
        b as u128
    } else {
        let len = bit_len_exec(b);
        proof {
            lemma_bit_len_bounds(b as nat);
            if len < 54 {
                lemma_pow2_monotone(len as nat, 53);
            }
        }
        let k = len - 53;
        let p = pow2_exec(k);
        let q = div_round_even_exec(b as u128, p);
        proof {
            lemma_pow2_pos(k as nat);
            lemma_pow2_monotone(k as nat, 11);

            assert(pow2((len - 1) as nat) == pow2(k as nat) * pow2(52)) by {
                lemma_pow2_adds(k as nat, 52);
            }
            assert(pow2(len as nat) == pow2(k as nat) * pow2(53)) by {
                lemma_pow2_adds(k as nat, 53);
            }
            let bi = b as int;
            let pi = p as int;
            let t = pow2(53) as int;
            assert(bi / pi < t) by (nonlinear_arith)
                requires
                    bi < pi * t,
                    pi >= 1,
                    bi >= 0,
            ;
            assert(q <= pow2(53));
            assert(q * p <= 0x1_0000_0000_0000_0000) by (nonlinear_arith)
                requires
                    q <= pow2(53),
                    p <= 2048,
                    pow2(53) == 0x20_0000_0000_0000,
            ;
        }
        q * p
    }
}

/// Formats a byte count in GB, MB or KB with two decimals (`1.50 GB`).
pub fn format_size(bytes: u64) -> (r: String)
    ensures
        r@ == size_text(bytes as nat),
{
    proof {
        lemma2_to64();
    }
    let (e, suffix): (u128, &str) = if bytes >= 0x4000_0000 {
        (0x4000_0000, " GB")
    } else if bytes >= 0x10_0000 {
        (0x10_0000, " MB")
    } else {
        (0x400, " KB")
    };
    proof {
        reveal_strlit(" GB");
        reveal_strlit(" MB");
        reveal_strlit(" KB");
    }
    let x = f64_value_exec(bytes);
    let hundredths = div_round_even_exec(x * 100, e);
    let mut s = String::new();
    push_digits(&mut s, hundredths / 100, 10);
    push_char(&mut s, '.');
    push_padded(&mut s, hundredths % 100, 10, 2);
    push_str(&mut s, suffix);
    s
}

} // verus!
