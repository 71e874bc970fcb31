//! Prices are IEEE 754 binary64 numbers, held by their 64-bit encoding: sign bit,
//! 11 exponent bits, 52 fraction bits.
use vstd::arithmetic::power2::{
    lemma2_to64, lemma_pow2_adds, lemma_pow2_pos, lemma_pow2_strictly_increases, lemma_pow2_unfold,
    pow2,
};
use vstd::prelude::*;

verus! {

/// The encoding of a price that is accepted: a finite number that is not below zero
/// (`-0.0` included).
pub open spec fn is_valid_price(bits: u64) -> bool {
    bits < 0x7FF0_0000_0000_0000 || bits == 0x8000_0000_0000_0000
}

/// Whether the encoded number is finite and not below zero.
pub fn valid_price(bits: u64) -> (r: bool)
    ensures
        r == is_valid_price(bits),
{
    bits < 0x7FF0_0000_0000_0000 || bits == 0x8000_0000_0000_0000
}

/// The number of binary digits of `n`.
pub open spec fn bit_len(n: nat) -> nat
    decreases n,
{
    if n == 0 {
        0
    } else {
        1 + bit_len(n / 2)
    }
}

/// The binary64 number nearest to the whole number `n`, ties to even, as a significand
/// `m` and an exponent `s` (its value is `m * 2^s`): `n` itself when it has at most 53
/// binary digits, else its top 53 digits, rounded.
pub open spec fn rounded_whole(n: nat) -> (nat, nat) {
    let k = bit_len(n);
    if k <= 53 {
        (n, 0)
    } else {
        let s = (k - 53) as nat;
        let q = n / pow2(s);
        let r = n % pow2(s);
        if 2 * r > pow2(s) || (2 * r == pow2(s) && q % 2 == 1) {
            (q + 1, s)
        } else {
            (q, s)
        }
    }
}

/// The value of the binary64 number nearest to the whole number `n`.
pub open spec fn rounded_value(n: nat) -> nat {
    rounded_whole(n).0 * pow2(rounded_whole(n).1)
}

/// The binary64 encoding of the number `m * 2^s`, for a significand `m` of at most 53
/// binary digits or equal to `2^53`: sign 0, biased exponent, and the fraction bits
/// below the leading one.
pub open spec fn binary64_encoding(m: nat, s: nat) -> u64 {
    if m == 0 {
        0
    } else {
        let k = bit_len(m);
        let fraction = if k <= 53 {
            m * pow2((53 - k) as nat) - pow2(52)
        } else {
            m / pow2((k - 53) as nat) - pow2(52)
        };
        ((s + k - 1 + 1023) * pow2(52) + fraction) as u64
    }
}

/// The binary64 encoding of the number nearest to the whole number `n` (ties to even),
/// as `n as f64` gives it.
pub open spec fn whole_as_binary64(n: nat) -> u64 {
    binary64_encoding(rounded_whole(n).0, rounded_whole(n).1)
}

proof fn lemma_pow2_values()
    ensures
        pow2(0) == 1,
        pow2(1) == 2,
        pow2(11) == 0x800,
        pow2(13) == 0x2000,
        pow2(52) == 0x10_0000_0000_0000,
        pow2(53) == 0x20_0000_0000_0000,
        pow2(54) == 0x40_0000_0000_0000,
        pow2(64) == 0x1_0000_0000_0000_0000,
        pow2(66) == 0x4_0000_0000_0000_0000,
{
    lemma2_to64();
    lemma_pow2_adds(32, 20);
    lemma_pow2_adds(32, 21);
    lemma_pow2_adds(32, 22);
    lemma_pow2_adds(64, 2);
}

proof fn lemma_bit_len(n: nat)
    ensures
        n < pow2(bit_len(n)),
        n > 0 ==> pow2((bit_len(n) - 1) as nat) <= n,
    decreases n,
{
    lemma_pow2_values();
    if n > 0 {
        lemma_bit_len(n / 2);
        lemma_pow2_unfold(bit_len(n));
        if n / 2 > 0 {
            lemma_pow2_unfold((bit_len(n) - 1) as nat);
        }
    }
}

proof fn lemma_bit_len_at_most(n: nat, b: nat)
    requires
        n < pow2(b),
    ensures
        bit_len(n) <= b,
{
    lemma_bit_len(n);
    if bit_len(n) > b + 1 {
        lemma_pow2_strictly_increases(b, (bit_len(n) - 1) as nat);
    }
}

fn bit_length(n: u128) -> (r: u32)
    requires
        n < 0x4_0000_0000_0000_0000,
    ensures
        r == bit_len(n as nat),
        r <= 66,
{
    proof {
        lemma_pow2_values();
        lemma_pow2_adds(64, 2);
        lemma_bit_len_at_most(n as nat, 66);
    }
    let mut x: u128 = n;
    let mut c: u32 = 0;
    while x > 0
        invariant
            c + bit_len(x as nat) == bit_len(n as nat),
            bit_len(n as nat) <= 66,
        decreases x,
    {
        x = x / 2;
        c = c + 1;
    }
    c
}

fn pow2_of(e: u32) -> (r: u128)
    requires
        e <= 66,
    ensures
        r == pow2(e as nat),
        0 < r <= 0x4_0000_0000_0000_0000,
{
    proof {
        lemma_pow2_values();
        lemma_pow2_adds(64, 2);
    }
    let mut r: u128 = 1;
    let mut i: u32 = 0;
    while i < e
        invariant
            i <= e,
            e <= 66,
            r == pow2(i as nat),
            pow2(66) == 0x4_0000_0000_0000_0000,
        decreases e - i,
    {
        proof {
            lemma_pow2_unfold((i + 1) as nat);
            if i + 1 < 66 {
                lemma_pow2_strictly_increases((i + 1) as nat, 66);
            }
        }
        r = r * 2;
        i = i + 1;
    }
    proof {
        lemma_pow2_pos(e as nat);
        if e < 66 {
            lemma_pow2_strictly_increases(e as nat, 66);
        }
    }
    r
}

/// The binary64 number nearest to the whole number `n` (below `2^66`), as significand
/// and exponent.
fn round_whole(n: u128) -> (r: (u128, u32))
    requires
        n < 0x4_0000_0000_0000_0000,
    ensures
        r.0 == rounded_whole(n as nat).0,
        r.1 == rounded_whole(n as nat).1,
        r.0 <= 0x20_0000_0000_0000,
        r.1 <= 13,
        r.1 == 0 || r.1 + 53 == bit_len(n as nat),
{
    proof {
        lemma_pow2_values();
    }
    let k = bit_length(n);
    if k <= 53 {
        proof {
            lemma_bit_len(n as nat);
            if k < 53 {
                lemma_pow2_strictly_increases(k as nat, 53);
            }
        }
        return (n, 0);
    }
    let s = k - 53;
    let p = pow2_of(s);
    let q = n / p;
    let rem = n % p;
    proof {
        lemma_bit_len(n as nat);
        lemma_pow2_adds(53, s as nat);
        lemma_pow2_pos(s as nat);
        assert(q < pow2(53)) by (nonlinear_arith)
            requires
                q == n / p,
                p > 0,
                n < pow2(53) * p,
        {
            assert(n == p * (n / p) + n % p);
            if n / p >= pow2(53) {
                assert(p * (n / p) >= p * pow2(53));
            }
        }
    }
    if 2 * rem > p || (2 * rem == p && q % 2 == 1) {
        (q + 1, s)
    } else {
        (q, s)
    }
}

/// The binary64 encoding of `m * 2^s`.
fn encode(m: u128, s: u32) -> (r: u64)
    requires
        m <= 0x20_0000_0000_0000,
        s <= 13,
    ensures
        r == binary64_encoding(m as nat, s as nat),
        is_valid_price(r),
{
    proof {
        lemma_pow2_values();
    }
    if m == 0 {
        return 0;
    }
    let k = bit_length(m);
    proof {
        lemma_bit_len(m as nat);
        if k > 54 {
            lemma_pow2_strictly_increases(53, (k - 1) as nat);
        }
        assert(k <= 54);
    }
    let fraction: u128 = if k <= 53 {
        let p = pow2_of(53 - k);
        proof {
            lemma_pow2_adds((k - 1) as nat, (53 - k) as nat);
            lemma_pow2_adds(k as nat, (53 - k) as nat);
            assert(pow2((k - 1) as nat) * p <= m * p) by (nonlinear_arith)
                requires
                    pow2((k - 1) as nat) <= m,
                    p >= 0,
            ;
            assert(m * p < pow2(k as nat) * p) by (nonlinear_arith)
                requires
                    m < pow2(k as nat),
                    p > 0,
            {
            }
            lemma_pow2_pos((53 - k) as nat);
        }
        m * p - 0x10_0000_0000_0000
    } else {
        proof {
            assert(pow2(1) == 2);
        }
        m / 2 - 0x10_0000_0000_0000
    };
    let biased: u64 = (s + k - 1 + 1023) as u64;
    biased * 0x10_0000_0000_0000 + fraction as u64
}

/// The binary64 encoding of the number nearest to `n` (below `2^66`), ties to even.
pub fn binary64_of_whole(n: u128) -> (r: u64)
    requires
        n < 0x4_0000_0000_0000_0000,
    ensures
        r == whole_as_binary64(n as nat),
        is_valid_price(r),
{
    let (m, s) = round_whole(n);
    encode(m, s)
}

/// The value of the binary64 number nearest to `n` (below `2^66`).
pub fn binary64_value_of_whole(n: u128) -> (r: u128)
    requires
        n < 0x4_0000_0000_0000_0000,
    ensures
        r == rounded_value(n as nat),
        r <= 0x4_0000_0000_0000_0000,
        n < 0x1_0000_0000_0000_0000 ==> r <= 0x1_0000_0000_0000_0000,
{
    let (m, s) = round_whole(n);
    let p = pow2_of(s);
    proof {
        lemma_pow2_values();
        if n < 0x1_0000_0000_0000_0000 {
            lemma_bit_len_at_most(n as nat, 64);
            lemma_pow2_adds(53, 11);
            if s < 11 {
                lemma_pow2_strictly_increases(s as nat, 11);
            }
            assert(m * p <= pow2(53) * pow2(11)) by (nonlinear_arith)
                requires
                    m <= pow2(53),
                    p <= pow2(11),
            ;
        }
        lemma_pow2_adds(53, 13);
        if s < 13 {
            lemma_pow2_strictly_increases(s as nat, 13);
        }
        assert(m * p <= pow2(53) * pow2(13)) by (nonlinear_arith)
            requires
                m <= pow2(53),
                p <= pow2(13),
        ;
        lemma_pow2_adds(64, 2);
    }
    m * p
}

} // verus!
