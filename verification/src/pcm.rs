//! Little-endian 16-bit PCM, as the browser sends it.

use vstd::arithmetic::power2::{
    lemma2_to64, lemma_pow2_adds, lemma_pow2_pos, lemma_pow2_strictly_increases, lemma_pow2_unfold,
    pow2,
};
use vstd::prelude::*;

verus! {

/// The two's complement number in two bytes, the low one first.
pub open spec fn pcm_sample(low: u8, high: u8) -> int {
    let n = low as int + 256 * (high as int);
    if n < 0x8000 {
        n
    } else {
        n - 0x1_0000
    }
}

pub open spec fn magnitude(n: int) -> nat {
    if n < 0 {
        (-n) as nat
    } else {
        n as nat
    }
}

/// The exponent field of an IEEE 754 single.
pub open spec fn exponent_of(bits: u32) -> int {
    bits as int / 0x80_0000 % 256
}

/// The fraction field of an IEEE 754 single.
pub open spec fn fraction_of(bits: u32) -> int {
    bits as int % 0x80_0000
}

/// Whether these are the bits of the IEEE 754 single whose value is exactly `n` parts
/// in 32768. Apart from zero that is a normal number, and its value is
/// `(0x80_0000 + fraction) * 2^(exponent - 150)` under its sign.
pub open spec fn stands_for(bits: u32, n: int) -> bool {
    if n == 0 {
        bits == 0
    } else {
        &&& (bits >= 0x8000_0000) == (n < 0)
        &&& 1 <= exponent_of(bits) <= 254
        &&& (0x80_0000 + fraction_of(bits)) * pow2(exponent_of(bits) as nat) == magnitude(n) * pow2(
            135,
        )
    }
}

/// The bits of the single whose value is `n` parts in 32768.
fn single_bits(n: i32) -> (bits: u32)
    requires
        -0x8000 <= n < 0x8000,
    ensures
        stands_for(bits, n as int),
{
    if n == 0 {
        return 0;
    }
    let negative: bool = n < 0;
    let size: u32 = if negative {
        (-n) as u32
    } else {
        n as u32
    };
    let mut m: u32 = size;
    let mut e: u32 = 135;
    proof {
        lemma2_to64();
    }
    while m < 0x80_0000
        invariant
            0 < m < 0x100_0000,
            e <= 135,
            m as int * pow2(e as nat) == size as int * pow2(135),
            m >= pow2((135 - e) as nat),
            pow2(24) == 0x100_0000,
        decreases 0x100_0000 - m,
    {
        proof {
            if 135 - e >= 24 {
                if 135 - e > 24 {
                    lemma_pow2_strictly_increases(24, (135 - e) as nat);
                }
            }
            lemma_pow2_unfold(e as nat);
            lemma_pow2_unfold((136 - e) as nat);
            assert(m * 2 * pow2((e - 1) as nat) == m * (2 * pow2((e - 1) as nat)))
                by (nonlinear_arith);
        }
        m = m * 2;
        e = e - 1;
    }
    proof {
        if 135 - e >= 24 {
            if 135 - e > 24 {
                lemma_pow2_strictly_increases(24, (135 - e) as nat);
            }
        }
    }
    let sign: u32 = if negative {
        0x8000_0000
    } else {
        0
    };
    let bits: u32 = sign + e * 0x80_0000 + (m - 0x80_0000);
    assert(exponent_of(bits) == e);
    assert(fraction_of(bits) == m - 0x80_0000);
    bits
}

/// The bits of the single whose value is `n` parts in 32768.
pub open spec fn bits_of(n: int) -> u32 {
    choose|bits: u32| stands_for(bits, n)
}

/// The samples that PCM bytes hold, as the bits of singles.
pub open spec fn samples_of(bytes: Seq<u8>) -> Seq<u32> {
    Seq::new(bytes.len() / 2, |i: int| bits_of(pcm_sample(bytes[2 * i], bytes[2 * i + 1])))
}

/// Little-endian Int16 PCM straight off the socket, as the bits of singles between
/// -1 and 1. A byte that is left over at the end is dropped.
pub fn pcm16_to_f32(bytes: &[u8]) -> (samples: Vec<u32>)
    ensures
        samples@ == samples_of(bytes@),
        samples@.len() == bytes@.len() / 2,
        forall|i: int|
            0 <= i < samples@.len() ==> stands_for(
                #[trigger] samples@[i],
                pcm_sample(bytes@[2 * i], bytes@[2 * i + 1]),
            ),
{
    let mut samples: Vec<u32> = Vec::new();
    let count: usize = bytes.len() / 2;
    let mut i: usize = 0;
    while i < count
        invariant
            i <= count,
            count == bytes@.len() / 2,
            2 * count <= bytes@.len() <= usize::MAX,
            samples@.len() == i,
            forall|k: int|
                0 <= k < i ==> stands_for(
                    #[trigger] samples@[k],
                    pcm_sample(bytes@[2 * k], bytes@[2 * k + 1]),
                ),
        decreases count - i,
    {
        let n: i32 = bytes[2 * i] as i32 + 256 * (bytes[2 * i + 1] as i32);
        let n: i32 = if n < 0x8000 {
            n
        } else {
            n - 0x1_0000
        };
        samples.push(single_bits(n));
        i += 1;
    }
    assert forall|k: int| 0 <= k < samples@.len() implies #[trigger] samples@[k] == samples_of(
        bytes@,
    )[k] by {
        let n = pcm_sample(bytes@[2 * k], bytes@[2 * k + 1]);
        assert(stands_for(samples@[k], n));
        samples_have_one_representation(samples@[k], bits_of(n), n);
    }
    assert(samples@ =~= samples_of(bytes@));
    samples
}

/// A number has one representation only: the bits are settled by what they stand for.
pub proof fn samples_have_one_representation(a: u32, b: u32, n: int)
    requires
        stands_for(a, n),
        stands_for(b, n),
    ensures
        a == b,
{
    if n != 0 {
        let (e, f) = (exponent_of(a), 0x80_0000 + fraction_of(a));
        let (d, g) = (exponent_of(b), 0x80_0000 + fraction_of(b));
        if e < d {
            lemma_larger_exponent(f, e as nat, g, d as nat);
        } else if d < e {
            lemma_larger_exponent(g, d as nat, f, e as nat);
        }
        let p = pow2(e as nat) as int;
        lemma_pow2_pos(e as nat);
        assert(f == g) by (nonlinear_arith)
            requires
                f * p == g * p,
                p > 0,
        ;
    }
}

proof fn lemma_larger_exponent(f: int, e: nat, g: int, d: nat)
    requires
        0x80_0000 <= f < 0x100_0000,
        0x80_0000 <= g < 0x100_0000,
        e < d,
    ensures
        f * pow2(e) < g * pow2(d),
{
    lemma_pow2_pos(e);
    lemma_pow2_pos((d - e - 1) as nat);
    lemma_pow2_adds(e, (d - e) as nat);
    lemma_pow2_unfold((d - e) as nat);
    let p = pow2(e) as int;
    let r = pow2((d - e - 1) as nat) as int;
    assert(f * p < g * (p * (2 * r))) by (nonlinear_arith)
        requires
            p > 0,
            r > 0,
            0 < f < 0x100_0000,
            g >= 0x80_0000,
    {
        assert(g * (2 * r) >= 0x80_0000 * 2);
        assert(g * (p * (2 * r)) == p * (g * (2 * r)));
        assert(p * (g * (2 * r)) >= p * 0x100_0000);
        assert(f * p < 0x100_0000 * p);
    }
}

/// PCM is read as it was written: a number between -32768 and 32767, in two's complement
/// with its low byte first, is the sample that its two bytes stand for.
pub proof fn pcm_reads_back(n: i16)
    ensures
        ({
            let unsigned: int = if n < 0 {
                n + 0x1_0000
            } else {
                n as int
            };
            pcm_sample((unsigned % 256) as u8, (unsigned / 256) as u8) == n
        }),
{
}

/// A stream of PCM holds one sample for every two of its bytes, in order; each is its number
/// of parts in 32768.
pub proof fn streams_hold_a_sample_for_every_two_bytes(
    bytes: Seq<u8>,
    samples: Seq<u32>,
)
    requires
        samples.len() == bytes.len() / 2,
        forall|i: int|
            0 <= i < samples.len() ==> stands_for(
                #[trigger] samples[i],
                pcm_sample(bytes[2 * i], bytes[2 * i + 1]),
            ),
    ensures
        samples_of(bytes) == samples,
{
    assert forall|i: int| 0 <= i < samples.len() implies #[trigger] samples_of(bytes)[i]
        == samples[i] by {
        let n = pcm_sample(bytes[2 * i], bytes[2 * i + 1]);
        assert(stands_for(samples[i], n));
        samples_have_one_representation(samples[i], bits_of(n), n);
    }
    assert(samples_of(bytes) =~= samples);
}

/// Samples are in proportion: one is 32768 parts, a sample of the other sign differs in its
/// sign alone, and one that is twice as large in its exponent alone.
pub proof fn samples_are_in_proportion(bits: u32, n: int)
    requires
        stands_for(bits, n),
        0 < n <= 0x4000,
    ensures
        stands_for(0x3f80_0000, 0x8000),
        bits < 0x8000_0000,
        stands_for((bits + 0x8000_0000) as u32, -n),
        stands_for((bits + 0x80_0000) as u32, 2 * n),
{
    lemma2_to64();
    lemma_pow2_adds(127, 8);
    let q = pow2(127) as int;
    assert(exponent_of(0x3f80_0000) == 127 && fraction_of(0x3f80_0000) == 0);
    assert(0x80_0000 * q == 0x8000 * (q * 256)) by (nonlinear_arith);
    let e = exponent_of(bits);
    let f = 0x80_0000 + fraction_of(bits);
    if e >= 135 {
        if e > 135 {
            lemma_pow2_strictly_increases(135, e as nat);
        }
        let p = pow2(e as nat) as int;
        let r = pow2(135) as int;
        lemma_pow2_pos(135);
        assert(f * p > n * r) by (nonlinear_arith)
            requires
                p >= r > 0,
                f >= 0x80_0000,
                0 < n <= 0x4000,
        ;
    }
    let opposite = (bits + 0x8000_0000) as u32;
    assert(exponent_of(opposite) == e && fraction_of(opposite) == fraction_of(bits));
    let double = (bits + 0x80_0000) as u32;
    assert(exponent_of(double) == e + 1 && fraction_of(double) == fraction_of(bits));
    lemma_pow2_unfold((e + 1) as nat);
    let p = pow2(e as nat) as int;
    let r = pow2(135) as int;
    assert(f * (2 * p) == (2 * n) * r) by (nonlinear_arith)
        requires
            f * p == n * r,
    ;
}

} // verus!
