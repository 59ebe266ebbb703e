//! XXH64, the 64-bit xxHash function.
use vstd::prelude::*;
use vstd::arithmetic::div_mod::{lemma_mod_multiples_vanish, lemma_mul_mod_noop_left, lemma_small_mod};

verus! {

pub const CHUNK_SIZE: usize = 32;

pub const PRIME_1: u64 = 0x9E3779B185EBCA87;

pub const PRIME_2: u64 = 0xC2B2AE3D27D4EB4F;

pub const PRIME_3: u64 = 0x165667B19E3779F9;

pub const PRIME_4: u64 = 0x85EBCA77C2B2AE63;

pub const PRIME_5: u64 = 0x27D4EB2F165667C5;

/// `x` rotated left by `n` bits (`0 < n < 64`).
pub open spec fn rotl(x: u64, n: u64) -> u64 {
    (x << n) | (x >> ((64 - n) as u64))
}

/// The little-endian value of the four bytes of `d` that start at `i`.
pub open spec fn le_u32(d: Seq<u8>, i: int) -> u32 {
    (d[i] as int + d[i + 1] as int * 0x100 + d[i + 2] as int * 0x1_0000 + d[i + 3] as int
        * 0x100_0000) as u32
}

/// The little-endian value of the eight bytes of `d` that start at `i`.
pub open spec fn le_u64(d: Seq<u8>, i: int) -> u64 {
    (d[i] as int + d[i + 1] as int * 0x100 + d[i + 2] as int * 0x1_0000 + d[i + 3] as int
        * 0x100_0000 + d[i + 4] as int * 0x1_0000_0000 + d[i + 5] as int * 0x100_0000_0000
        + d[i + 6] as int * 0x1_0000_0000_0000 + d[i + 7] as int * 0x100_0000_0000_0000) as u64
}

/// One accumulation round: mixes an eight-byte lane into an accumulator.
pub open spec fn round_spec(acc: u64, input: u64) -> u64 {
    rotl(acc.wrapping_add(input.wrapping_mul(PRIME_2)), 31).wrapping_mul(PRIME_1)
}

/// Folds one lane accumulator into the converged accumulator.
pub open spec fn merge_round_spec(acc: u64, val: u64) -> u64 {
    (acc ^ round_spec(0, val)).wrapping_mul(PRIME_1).wrapping_add(PRIME_4)
}

/// The final bit mixing.
pub open spec fn avalanche_spec(h: u64) -> u64 {
    let h1 = h ^ (h >> 33u64);
    let h2 = h1.wrapping_mul(PRIME_2);
    let h3 = h2 ^ (h2 >> 29u64);
    let h4 = h3.wrapping_mul(PRIME_3);
    h4 ^ (h4 >> 32u64)
}

/// A wrapping multiplication by `p` is undone by one by `q` where `p * q` is one more
/// than a multiple of two to the 64.
proof fn lemma_mul_undone(x: u64, p: u64, q: u64, k: int)
    requires
        k >= 0,
        p * q == k * 0x1_0000_0000_0000_0000int + 1,
    ensures
        x.wrapping_mul(p).wrapping_mul(q) == x,
{
    let m = 0x1_0000_0000_0000_0000int;
    let a = x.wrapping_mul(p);
    assert(a as int == (x * p) % m);
    lemma_mul_mod_noop_left(x * p, q as int, m);
    assert(a.wrapping_mul(q) as int == (x * p) * q % m);
    assert((x * p) * q == (x * k) * m + x) by (nonlinear_arith)
        requires
            p * q == k * m + 1,
    ;
    lemma_mod_multiples_vanish(x * k, x as int, m);
    assert(m * (x * k) == (x * k) * m) by (nonlinear_arith);
    lemma_small_mod(x as nat, m as nat);
}

/// Distinct inputs give distinct outputs: each step of the final mix can be undone.
pub proof fn lemma_avalanche_injective(a: u64, b: u64)
    ensures
        avalanche_spec(a) == avalanche_spec(b) ==> a == b,
{
    if avalanche_spec(a) == avalanche_spec(b) {
        let a1 = a ^ (a >> 33u64);
        let b1 = b ^ (b >> 33u64);
        let a2 = a1.wrapping_mul(PRIME_2);
        let b2 = b1.wrapping_mul(PRIME_2);
        let a3 = a2 ^ (a2 >> 29u64);
        let b3 = b2 ^ (b2 >> 29u64);
        let a4 = a3.wrapping_mul(PRIME_3);
        let b4 = b3.wrapping_mul(PRIME_3);
        let a5 = a4 ^ (a4 >> 32u64);
        let b5 = b4 ^ (b4 >> 32u64);
        assert(a5 == b5);
        assert(a5 ^ (a5 >> 32u64) == a4) by (bit_vector)
            requires
                a5 == a4 ^ (a4 >> 32u64),
        ;
        assert(b5 ^ (b5 >> 32u64) == b4) by (bit_vector)
            requires
                b5 == b4 ^ (b4 >> 32u64),
        ;
        lemma_mul_undone(a3, PRIME_3, 0xe9e9f4c41d6df849u64, 0x14690e6081378f7fint);
        lemma_mul_undone(b3, PRIME_3, 0xe9e9f4c41d6df849u64, 0x14690e6081378f7fint);
        assert(a3 ^ (a3 >> 29u64) ^ (a3 >> 58u64) == a2) by (bit_vector)
            requires
                a3 == a2 ^ (a2 >> 29u64),
        ;
        assert(b3 ^ (b3 >> 29u64) ^ (b3 >> 58u64) == b2) by (bit_vector)
            requires
                b3 == b2 ^ (b2 >> 29u64),
        ;
        lemma_mul_undone(a1, PRIME_2, 0x0ba79078168d4bafu64, 0x08dd1dec21860607int);
        lemma_mul_undone(b1, PRIME_2, 0x0ba79078168d4bafu64, 0x08dd1dec21860607int);
        assert(a1 ^ (a1 >> 33u64) == a) by (bit_vector)
            requires
                a1 == a ^ (a >> 33u64),
        ;
        assert(b1 ^ (b1 >> 33u64) == b) by (bit_vector)
            requires
                b1 == b ^ (b >> 33u64),
        ;
    }
}

/// Consumes the bytes `d[pos..end]` that the stripe loop left over: eight at a time,
/// then four at most once, then one at a time.
pub open spec fn tail_spec(acc: u64, d: Seq<u8>, pos: int, end: int) -> u64
    decreases end - pos,
{
    if end - pos <= 0 {
        acc
    } else if end - pos >= 8 {
        tail_spec(
            rotl(acc ^ round_spec(0, le_u64(d, pos)), 27).wrapping_mul(PRIME_1).wrapping_add(
                PRIME_4,
            ),
            d,
            pos + 8,
            end,
        )
    } else if end - pos >= 4 {
        tail_spec(
            rotl(acc ^ (le_u32(d, pos) as u64).wrapping_mul(PRIME_1), 23).wrapping_mul(
                PRIME_2,
            ).wrapping_add(PRIME_3),
            d,
            pos + 4,
            end,
        )
    } else {
        tail_spec(
            rotl(acc ^ (d[pos] as u64).wrapping_mul(PRIME_5), 11).wrapping_mul(PRIME_1),
            d,
            pos + 1,
            end,
        )
    }
}

/// The four lane accumulators.
pub struct Lanes {
    pub v1: u64,
    pub v2: u64,
    pub v3: u64,
    pub v4: u64,
}

/// One stripe: each lane takes the next eight bytes.
pub open spec fn stripe_spec(v: Lanes, d: Seq<u8>, pos: int) -> Lanes {
    Lanes {
        v1: round_spec(v.v1, le_u64(d, pos)),
        v2: round_spec(v.v2, le_u64(d, pos + 8)),
        v3: round_spec(v.v3, le_u64(d, pos + 16)),
        v4: round_spec(v.v4, le_u64(d, pos + 24)),
    }
}

/// Consumes whole 32-byte stripes of `d[pos..end]`; gives the lanes and where it stopped.
pub open spec fn stripes_spec(v: Lanes, d: Seq<u8>, pos: int, end: int) -> (Lanes, int)
    decreases end - pos,
{
    if end - pos >= 32 {
        stripes_spec(stripe_spec(v, d, pos), d, pos + 32, end)
    } else {
        (v, pos)
    }
}

pub open spec fn initial_lanes(seed: u64) -> Lanes {
    Lanes {
        v1: seed.wrapping_add(PRIME_1).wrapping_add(PRIME_2),
        v2: seed.wrapping_add(PRIME_2),
        v3: seed,
        v4: seed.wrapping_sub(PRIME_1),
    }
}

pub open spec fn converge_spec(v: Lanes) -> u64 {
    let r = rotl(v.v1, 1).wrapping_add(rotl(v.v2, 7)).wrapping_add(rotl(v.v3, 12)).wrapping_add(
        rotl(v.v4, 18),
    );
    merge_round_spec(
        merge_round_spec(merge_round_spec(merge_round_spec(r, v.v1), v.v2), v.v3),
        v.v4,
    )
}

/// XXH64 of the `len` bytes of `d` that start at `offset`, with `seed`.
pub open spec fn xxh64_range_spec(d: Seq<u8>, offset: int, len: int, seed: u64) -> u64 {
    let end = offset + len;
    let (acc, pos) = if len >= 32 {
        let (v, p) = stripes_spec(initial_lanes(seed), d, offset, end);
        (converge_spec(v), p)
    } else {
        (seed.wrapping_add(PRIME_5), offset)
    };
    avalanche_spec(tail_spec(acc.wrapping_add(len as u64), d, pos, end))
}

/// XXH64 of all of `d`, with `seed`.
pub open spec fn xxh64_spec(d: Seq<u8>, seed: u64) -> u64 {
    xxh64_range_spec(d, 0, d.len() as int, seed)
}

proof fn lemma_answer_hello_world()
    ensures
        xxh64_spec(seq![104u8, 101u8, 108u8, 108u8, 111u8, 32u8, 119u8, 111u8, 114u8, 108u8, 100u8], 0x0u64) == 0x45ab6734b21e6968u64,
{
    let d: Seq<u8> = seq![104u8, 101u8, 108u8, 108u8, 111u8, 32u8, 119u8, 111u8, 114u8, 108u8, 100u8];
    let seed: u64 = 0x0u64;
    let acc: u64 = seed.wrapping_add(PRIME_5);
    let t0: u64 = acc.wrapping_add(11u64);
    assert(xxh64_spec(d, seed) == avalanche_spec(tail_spec(t0, d, 0, 11)));
    assert(le_u64(d, 0) == 0x6f77206f6c6c6568u64);
    let t1: u64 = rotl(t0 ^ round_spec(0, 0x6f77206f6c6c6568u64), 27).wrapping_mul(PRIME_1).wrapping_add(PRIME_4);
    assert(tail_spec(t0, d, 0, 11) == tail_spec(t1, d, 8, 11));
    assert(d[8] == 114u8);
    let t2: u64 = rotl(t1 ^ (114u64).wrapping_mul(PRIME_5), 11).wrapping_mul(PRIME_1);
    assert(tail_spec(t1, d, 8, 11) == tail_spec(t2, d, 9, 11));
    assert(d[9] == 108u8);
    let t3: u64 = rotl(t2 ^ (108u64).wrapping_mul(PRIME_5), 11).wrapping_mul(PRIME_1);
    assert(tail_spec(t2, d, 9, 11) == tail_spec(t3, d, 10, 11));
    assert(d[10] == 100u8);
    let t4: u64 = rotl(t3 ^ (100u64).wrapping_mul(PRIME_5), 11).wrapping_mul(PRIME_1);
    assert(tail_spec(t3, d, 10, 11) == tail_spec(t4, d, 11, 11));
    assert(tail_spec(t4, d, 11, 11) == t4);
    assert(avalanche_spec(t4) == 0x45ab6734b21e6968u64) by (bit_vector)
        requires
            seed == 0x0u64,
            acc == seed.wrapping_add(PRIME_5),
            t0 == acc.wrapping_add(11u64),
            t1 == rotl(t0 ^ round_spec(0, 0x6f77206f6c6c6568u64), 27).wrapping_mul(PRIME_1).wrapping_add(PRIME_4),
            t2 == rotl(t1 ^ (114u64).wrapping_mul(PRIME_5), 11).wrapping_mul(PRIME_1),
            t3 == rotl(t2 ^ (108u64).wrapping_mul(PRIME_5), 11).wrapping_mul(PRIME_1),
            t4 == rotl(t3 ^ (100u64).wrapping_mul(PRIME_5), 11).wrapping_mul(PRIME_1),
    ;
}

proof fn lemma_answer_hello_comma_world()
    ensures
        xxh64_spec(seq![104u8, 101u8, 108u8, 108u8, 111u8, 44u8, 32u8, 119u8, 111u8, 114u8, 108u8, 100u8], 0x0u64) == 0xb33a384e6d1b1242u64,
{
    let d: Seq<u8> = seq![104u8, 101u8, 108u8, 108u8, 111u8, 44u8, 32u8, 119u8, 111u8, 114u8, 108u8, 100u8];
    let seed: u64 = 0x0u64;
    let acc: u64 = seed.wrapping_add(PRIME_5);
    let t0: u64 = acc.wrapping_add(12u64);
    assert(xxh64_spec(d, seed) == avalanche_spec(tail_spec(t0, d, 0, 12)));
    assert(le_u64(d, 0) == 0x77202c6f6c6c6568u64);
    let t1: u64 = rotl(t0 ^ round_spec(0, 0x77202c6f6c6c6568u64), 27).wrapping_mul(PRIME_1).wrapping_add(PRIME_4);
    assert(tail_spec(t0, d, 0, 12) == tail_spec(t1, d, 8, 12));
    assert(le_u32(d, 8) == 0x646c726fu32);
    let t2: u64 = rotl(t1 ^ (0x646c726fu64).wrapping_mul(PRIME_1), 23).wrapping_mul(PRIME_2).wrapping_add(PRIME_3);
    assert(tail_spec(t1, d, 8, 12) == tail_spec(t2, d, 12, 12));
    assert(tail_spec(t2, d, 12, 12) == t2);
    assert(avalanche_spec(t2) == 0xb33a384e6d1b1242u64) by (bit_vector)
        requires
            seed == 0x0u64,
            acc == seed.wrapping_add(PRIME_5),
            t0 == acc.wrapping_add(12u64),
            t1 == rotl(t0 ^ round_spec(0, 0x77202c6f6c6c6568u64), 27).wrapping_mul(PRIME_1).wrapping_add(PRIME_4),
            t2 == rotl(t1 ^ (0x646c726fu64).wrapping_mul(PRIME_1), 23).wrapping_mul(PRIME_2).wrapping_add(PRIME_3),
    ;
}

proof fn lemma_answer_abc()
    ensures
        xxh64_spec(seq![97u8, 98u8, 99u8], 0x0u64) == 0x44bc2cf5ad770999u64,
{
    let d: Seq<u8> = seq![97u8, 98u8, 99u8];
    let seed: u64 = 0x0u64;
    let acc: u64 = seed.wrapping_add(PRIME_5);
    let t0: u64 = acc.wrapping_add(3u64);
    assert(xxh64_spec(d, seed) == avalanche_spec(tail_spec(t0, d, 0, 3)));
    assert(d[0] == 97u8);
    let t1: u64 = rotl(t0 ^ (97u64).wrapping_mul(PRIME_5), 11).wrapping_mul(PRIME_1);
    assert(tail_spec(t0, d, 0, 3) == tail_spec(t1, d, 1, 3));
    assert(d[1] == 98u8);
    let t2: u64 = rotl(t1 ^ (98u64).wrapping_mul(PRIME_5), 11).wrapping_mul(PRIME_1);
    assert(tail_spec(t1, d, 1, 3) == tail_spec(t2, d, 2, 3));
    assert(d[2] == 99u8);
    let t3: u64 = rotl(t2 ^ (99u64).wrapping_mul(PRIME_5), 11).wrapping_mul(PRIME_1);
    assert(tail_spec(t2, d, 2, 3) == tail_spec(t3, d, 3, 3));
    assert(tail_spec(t3, d, 3, 3) == t3);
    assert(avalanche_spec(t3) == 0x44bc2cf5ad770999u64) by (bit_vector)
        requires
            seed == 0x0u64,
            acc == seed.wrapping_add(PRIME_5),
            t0 == acc.wrapping_add(3u64),
            t1 == rotl(t0 ^ (97u64).wrapping_mul(PRIME_5), 11).wrapping_mul(PRIME_1),
            t2 == rotl(t1 ^ (98u64).wrapping_mul(PRIME_5), 11).wrapping_mul(PRIME_1),
            t3 == rotl(t2 ^ (99u64).wrapping_mul(PRIME_5), 11).wrapping_mul(PRIME_1),
    ;
}

proof fn lemma_answer_stripe()
    ensures
        xxh64_spec(seq![48u8, 49u8, 50u8, 51u8, 52u8, 53u8, 54u8, 55u8, 56u8, 57u8, 97u8, 98u8, 99u8, 100u8, 101u8, 102u8, 103u8, 104u8, 105u8, 106u8, 107u8, 108u8, 109u8, 110u8, 111u8, 112u8, 113u8, 114u8, 115u8, 116u8, 117u8, 118u8, 119u8, 120u8, 121u8, 122u8, 65u8, 66u8, 67u8, 68u8, 69u8, 70u8, 71u8, 72u8, 73u8, 74u8, 75u8, 76u8, 77u8, 78u8], 0x9e3779b1u64) == 0x46bda8617866c8abu64,
{
    let d: Seq<u8> = seq![48u8, 49u8, 50u8, 51u8, 52u8, 53u8, 54u8, 55u8, 56u8, 57u8, 97u8, 98u8, 99u8, 100u8, 101u8, 102u8, 103u8, 104u8, 105u8, 106u8, 107u8, 108u8, 109u8, 110u8, 111u8, 112u8, 113u8, 114u8, 115u8, 116u8, 117u8, 118u8, 119u8, 120u8, 121u8, 122u8, 65u8, 66u8, 67u8, 68u8, 69u8, 70u8, 71u8, 72u8, 73u8, 74u8, 75u8, 76u8, 77u8, 78u8];
    let seed: u64 = 0x9e3779b1u64;
    let w1: u64 = seed.wrapping_add(PRIME_1).wrapping_add(PRIME_2);
    let w2: u64 = seed.wrapping_add(PRIME_2);
    let w3: u64 = seed;
    let w4: u64 = seed.wrapping_sub(PRIME_1);
    assert(le_u64(d, 0) == 0x3736353433323130u64);
    assert(le_u64(d, 8) == 0x6665646362613938u64);
    assert(le_u64(d, 16) == 0x6e6d6c6b6a696867u64);
    assert(le_u64(d, 24) == 0x767574737271706fu64);
    let v1: u64 = round_spec(w1, 0x3736353433323130u64);
    let v2: u64 = round_spec(w2, 0x6665646362613938u64);
    let v3: u64 = round_spec(w3, 0x6e6d6c6b6a696867u64);
    let v4: u64 = round_spec(w4, 0x767574737271706fu64);
    let lanes = Lanes { v1, v2, v3, v4 };
    assert(stripes_spec(initial_lanes(seed), d, 0, 50) == stripes_spec(lanes, d, 32, 50));
    assert(stripes_spec(lanes, d, 32, 50) == (lanes, 32int));
    let acc: u64 = converge_spec(lanes);
    let t0: u64 = acc.wrapping_add(50u64);
    assert(xxh64_spec(d, seed) == avalanche_spec(tail_spec(t0, d, 32, 50)));
    assert(le_u64(d, 32) == 0x444342417a797877u64);
    let t1: u64 = rotl(t0 ^ round_spec(0, 0x444342417a797877u64), 27).wrapping_mul(PRIME_1).wrapping_add(PRIME_4);
    assert(tail_spec(t0, d, 32, 50) == tail_spec(t1, d, 40, 50));
    assert(le_u64(d, 40) == 0x4c4b4a4948474645u64);
    let t2: u64 = rotl(t1 ^ round_spec(0, 0x4c4b4a4948474645u64), 27).wrapping_mul(PRIME_1).wrapping_add(PRIME_4);
    assert(tail_spec(t1, d, 40, 50) == tail_spec(t2, d, 48, 50));
    assert(d[48] == 77u8);
    let t3: u64 = rotl(t2 ^ (77u64).wrapping_mul(PRIME_5), 11).wrapping_mul(PRIME_1);
    assert(tail_spec(t2, d, 48, 50) == tail_spec(t3, d, 49, 50));
    assert(d[49] == 78u8);
    let t4: u64 = rotl(t3 ^ (78u64).wrapping_mul(PRIME_5), 11).wrapping_mul(PRIME_1);
    assert(tail_spec(t3, d, 49, 50) == tail_spec(t4, d, 50, 50));
    assert(tail_spec(t4, d, 50, 50) == t4);
    assert(avalanche_spec(t4) == 0x46bda8617866c8abu64) by (bit_vector)
        requires
            seed == 0x9e3779b1u64,
            w1 == seed.wrapping_add(PRIME_1).wrapping_add(PRIME_2),
            w2 == seed.wrapping_add(PRIME_2),
            w3 == seed,
            w4 == seed.wrapping_sub(PRIME_1),
            v1 == round_spec(w1, 0x3736353433323130u64),
            v2 == round_spec(w2, 0x6665646362613938u64),
            v3 == round_spec(w3, 0x6e6d6c6b6a696867u64),
            v4 == round_spec(w4, 0x767574737271706fu64),
            acc == merge_round_spec(merge_round_spec(merge_round_spec(merge_round_spec(rotl(v1, 1).wrapping_add(rotl(v2, 7)).wrapping_add(rotl(v3, 12)).wrapping_add(rotl(v4, 18)), v1), v2), v3), v4),
            t0 == acc.wrapping_add(50u64),
            t1 == rotl(t0 ^ round_spec(0, 0x444342417a797877u64), 27).wrapping_mul(PRIME_1).wrapping_add(PRIME_4),
            t2 == rotl(t1 ^ round_spec(0, 0x4c4b4a4948474645u64), 27).wrapping_mul(PRIME_1).wrapping_add(PRIME_4),
            t3 == rotl(t2 ^ (77u64).wrapping_mul(PRIME_5), 11).wrapping_mul(PRIME_1),
            t4 == rotl(t3 ^ (78u64).wrapping_mul(PRIME_5), 11).wrapping_mul(PRIME_1),
    ;
}

/// XXH64 gives the published answers on inputs that take every path: one-byte,
/// four-byte and eight-byte tail blocks, and a stripe of four lanes with a seed.
pub proof fn lemma_xxh64_known_answers()
    ensures
        xxh64_spec(seq![104u8, 101u8, 108u8, 108u8, 111u8, 32u8, 119u8, 111u8, 114u8, 108u8, 100u8], 0x0u64) == 0x45ab6734b21e6968u64,
        xxh64_spec(seq![104u8, 101u8, 108u8, 108u8, 111u8, 44u8, 32u8, 119u8, 111u8, 114u8, 108u8, 100u8], 0x0u64) == 0xb33a384e6d1b1242u64,
        xxh64_spec(seq![97u8, 98u8, 99u8], 0x0u64) == 0x44bc2cf5ad770999u64,
        xxh64_spec(seq![48u8, 49u8, 50u8, 51u8, 52u8, 53u8, 54u8, 55u8, 56u8, 57u8, 97u8, 98u8, 99u8, 100u8, 101u8, 102u8, 103u8, 104u8, 105u8, 106u8, 107u8, 108u8, 109u8, 110u8, 111u8, 112u8, 113u8, 114u8, 115u8, 116u8, 117u8, 118u8, 119u8, 120u8, 121u8, 122u8, 65u8, 66u8, 67u8, 68u8, 69u8, 70u8, 71u8, 72u8, 73u8, 74u8, 75u8, 76u8, 77u8, 78u8], 0x9e3779b1u64) == 0x46bda8617866c8abu64,
{
    lemma_answer_hello_world();
    lemma_answer_hello_comma_world();
    lemma_answer_abc();
    lemma_answer_stripe();
}

/// Consuming the bytes `d[pos..end]` depends on those bytes alone: it is consuming
/// them from any window `d[o..e]` that holds them, at the shifted positions.
pub proof fn lemma_tail_shift(acc: u64, d: Seq<u8>, o: int, e: int, pos: int, end: int)
    requires
        0 <= o <= pos,
        end <= e <= d.len(),
    ensures
        tail_spec(acc, d, pos, end) == tail_spec(acc, d.subrange(o, e), pos - o, end - o),
    decreases end - pos,
{
    let s = d.subrange(o, e);
    if end - pos <= 0 {
    } else if end - pos >= 8 {
        assert(le_u64(d, pos) == le_u64(s, pos - o));
        lemma_tail_shift(
            rotl(acc ^ round_spec(0, le_u64(d, pos)), 27).wrapping_mul(PRIME_1).wrapping_add(
                PRIME_4,
            ),
            d,
            o,
            e,
            pos + 8,
            end,
        );
    } else if end - pos >= 4 {
        assert(le_u32(d, pos) == le_u32(s, pos - o));
        lemma_tail_shift(
            rotl(acc ^ (le_u32(d, pos) as u64).wrapping_mul(PRIME_1), 23).wrapping_mul(
                PRIME_2,
            ).wrapping_add(PRIME_3),
            d,
            o,
            e,
            pos + 4,
            end,
        );
    } else {
        assert(d[pos] == s[pos - o]);
        lemma_tail_shift(
            rotl(acc ^ (d[pos] as u64).wrapping_mul(PRIME_5), 11).wrapping_mul(PRIME_1),
            d,
            o,
            e,
            pos + 1,
            end,
        );
    }
}

proof fn lemma_stripes_shift(v: Lanes, d: Seq<u8>, o: int, e: int, pos: int, end: int)
    requires
        0 <= o <= pos,
        end <= e <= d.len(),
    ensures
        ({
            let (v1, p1) = stripes_spec(v, d, pos, end);
            let (v2, p2) = stripes_spec(v, d.subrange(o, e), pos - o, end - o);
            v1 == v2 && p1 == p2 + o
        }),
    decreases end - pos,
{
    let s = d.subrange(o, e);
    if end - pos >= 32 {
        assert(stripe_spec(v, d, pos) == stripe_spec(v, s, pos - o)) by {
            assert(le_u64(d, pos) == le_u64(s, pos - o));
            assert(le_u64(d, pos + 8) == le_u64(s, pos - o + 8));
            assert(le_u64(d, pos + 16) == le_u64(s, pos - o + 16));
            assert(le_u64(d, pos + 24) == le_u64(s, pos - o + 24));
        }
        lemma_stripes_shift(stripe_spec(v, d, pos), d, o, e, pos + 32, end);
    }
}

proof fn lemma_stripes_bounds(v: Lanes, d: Seq<u8>, pos: int, end: int)
    requires
        pos <= end,
    ensures
        pos <= stripes_spec(v, d, pos, end).1 <= end,
        end - stripes_spec(v, d, pos, end).1 < 32,
    decreases end - pos,
{
    if end - pos >= 32 {
        lemma_stripes_bounds(stripe_spec(v, d, pos), d, pos + 32, end);
    }
}

/// Hashing an empty range, wherever it starts, is hashing no bytes.
pub proof fn lemma_empty_range(d: Seq<u8>, offset: int, seed: u64)
    ensures
        xxh64_range_spec(d, offset, 0, seed) == xxh64_spec(Seq::empty(), seed),
{
}

/// Hashing a range of a byte sequence is hashing the sub-sequence it covers.
pub proof fn lemma_range_is_subslice(d: Seq<u8>, offset: int, len: int, seed: u64)
    requires
        0 <= offset,
        0 <= len,
        offset + len <= d.len(),
    ensures
        xxh64_range_spec(d, offset, len, seed) == xxh64_spec(d.subrange(offset, offset + len), seed),
{
    let end = offset + len;
    let s = d.subrange(offset, end);
    assert(s.len() == len);
    if len >= 32 {
        lemma_stripes_shift(initial_lanes(seed), d, offset, end, offset, end);
        lemma_stripes_bounds(initial_lanes(seed), d, offset, end);
        let (v, p) = stripes_spec(initial_lanes(seed), d, offset, end);
        lemma_tail_shift(
            converge_spec(v).wrapping_add(len as u64),
            d,
            offset,
            end,
            p,
            end,
        );
    } else {
        lemma_tail_shift(
            seed.wrapping_add(PRIME_5).wrapping_add(len as u64),
            d,
            offset,
            end,
            offset,
            end,
        );
    }
}

fn rotate(x: u64, n: u64) -> (r: u64)
    requires
        0 < n < 64,
    ensures
        r == rotl(x, n),
{
    (x << n) | (x >> (64 - n))
}

fn read_u32(input: &[u8], cursor: usize) -> (r: u32)
    requires
        cursor + 4 <= input@.len(),
    ensures
        r == le_u32(input@, cursor as int),
{
    let b0 = input[cursor];
    let b1 = input[cursor + 1];
    let b2 = input[cursor + 2];
    let b3 = input[cursor + 3];
    let r = b0 as u32 | (b1 as u32) << 8 | (b2 as u32) << 16 | (b3 as u32) << 24;
    assert(r == b0 as u32 + (b1 as u32) * 0x100 + (b2 as u32) * 0x1_0000 + (b3 as u32)
        * 0x100_0000) by (bit_vector)
        requires
            r == b0 as u32 | (b1 as u32) << 8 | (b2 as u32) << 16 | (b3 as u32) << 24,
    ;
    r
}

fn read_u64(input: &[u8], cursor: usize) -> (r: u64)
    requires
        cursor + 8 <= input@.len(),
    ensures
        r == le_u64(input@, cursor as int),
{
    let b0 = input[cursor];
    let b1 = input[cursor + 1];
    let b2 = input[cursor + 2];
    let b3 = input[cursor + 3];
    let b4 = input[cursor + 4];
    let b5 = input[cursor + 5];
    let b6 = input[cursor + 6];
    let b7 = input[cursor + 7];
    let r = b0 as u64 | (b1 as u64) << 8 | (b2 as u64) << 16 | (b3 as u64) << 24 | (b4 as u64)
        << 32 | (b5 as u64) << 40 | (b6 as u64) << 48 | (b7 as u64) << 56;
    assert(r == b0 as u64 + (b1 as u64) * 0x100 + (b2 as u64) * 0x1_0000 + (b3 as u64)
        * 0x100_0000 + (b4 as u64) * 0x1_0000_0000 + (b5 as u64) * 0x100_0000_0000 + (b6 as u64)
        * 0x1_0000_0000_0000 + (b7 as u64) * 0x100_0000_0000_0000) by (bit_vector)
        requires
            r == b0 as u64 | (b1 as u64) << 8 | (b2 as u64) << 16 | (b3 as u64) << 24 | (b4 as u64)
                << 32 | (b5 as u64) << 40 | (b6 as u64) << 48 | (b7 as u64) << 56,
    ;
    r
}

fn round(acc: u64, input: u64) -> (r: u64)
    ensures
        r == round_spec(acc, input),
{
    rotate(acc.wrapping_add(input.wrapping_mul(PRIME_2)), 31).wrapping_mul(PRIME_1)
}

fn merge_round(acc: u64, val: u64) -> (r: u64)
    ensures
        r == merge_round_spec(acc, val),
{
    let acc = acc ^ round(0, val);
    acc.wrapping_mul(PRIME_1).wrapping_add(PRIME_4)
}

fn avalanche(input: u64) -> (r: u64)
    ensures
        r == avalanche_spec(input),
{
    let mut h = input;
    h = h ^ (h >> 33);
    h = h.wrapping_mul(PRIME_2);
    h = h ^ (h >> 29);
    h = h.wrapping_mul(PRIME_3);
    h = h ^ (h >> 32);
    h
}

fn finalize(input: u64, data: &[u8], cursor: usize, end: usize) -> (r: u64)
    requires
        cursor <= end,
        cursor < end ==> end <= data@.len(),
    ensures
        r == avalanche_spec(tail_spec(input, data@, cursor as int, end as int)),
        cursor == end ==> r == avalanche_spec(input),
        end <= data@.len() ==> r == avalanche_spec(
            tail_spec(input, data@.subrange(cursor as int, end as int), 0, end - cursor),
        ),
{
    proof {
        if end <= data@.len() {
            lemma_tail_shift(input, data@, cursor as int, end as int, cursor as int, end as int);
        }
    }
    let mut acc = input;
    let mut cursor = cursor;
    let mut len = end - cursor;
    let ghost first = cursor;
    while len >= 8
        invariant
            cursor <= end,
            cursor < end ==> end <= data@.len(),
            len == end - cursor,
            tail_spec(input, data@, first as int, end as int) == tail_spec(
                acc,
                data@,
                cursor as int,
                end as int,
            ),
        decreases len,
    {
        acc = acc ^ round(0, read_u64(data, cursor));
        cursor = cursor + 8;
        len = len - 8;
        acc = rotate(acc, 27).wrapping_mul(PRIME_1).wrapping_add(PRIME_4);
    }
    if len >= 4 {
        acc = acc ^ (read_u32(data, cursor) as u64).wrapping_mul(PRIME_1);
        cursor = cursor + 4;
        len = len - 4;
        acc = rotate(acc, 23).wrapping_mul(PRIME_2).wrapping_add(PRIME_3);
    }
    while len > 0
        invariant
            cursor <= end,
            cursor < end ==> end <= data@.len(),
            len == end - cursor,
            len < 4,
            tail_spec(input, data@, first as int, end as int) == tail_spec(
                acc,
                data@,
                cursor as int,
                end as int,
            ),
        decreases len,
    {
        acc = acc ^ (data[cursor] as u64).wrapping_mul(PRIME_5);
        cursor = cursor + 1;
        len = len - 1;
        acc = rotate(acc, 11).wrapping_mul(PRIME_1);
    }
    avalanche(acc)
}

/// XXH64 of all of `input`, with `seed`.
pub fn xxh64(input: &[u8], seed: u64) -> (r: u64)
    ensures
        r == xxh64_spec(input@, seed),
{
    xxh64_range(input, 0, input.len(), seed)
}

/// XXH64 of the `len` bytes of `input` that start at `offset`, with `seed`.
pub fn xxh64_range(input: &[u8], offset: usize, len: usize, seed: u64) -> (r: u64)
    requires
        len == 0 || offset + len <= input@.len(),
    ensures
        r == xxh64_range_spec(input@, offset as int, len as int, seed),
        offset + len <= input@.len() ==> r == xxh64_spec(
            input@.subrange(offset as int, offset + len),
            seed,
        ),
        len == 0 ==> r == xxh64_spec(Seq::empty(), seed),
{
    let input_len = len as u64;
    let total = input.len();
    assert(len == 0 || offset + len <= total);
    let mut cursor = offset;
    let end = offset + len;
    let mut result;
    if len >= CHUNK_SIZE {
        let mut v1 = seed.wrapping_add(PRIME_1).wrapping_add(PRIME_2);
        let mut v2 = seed.wrapping_add(PRIME_2);
        let mut v3 = seed;
        let mut v4 = seed.wrapping_sub(PRIME_1);
        while end - cursor >= CHUNK_SIZE
            invariant
                offset <= cursor <= end,
                end == offset + len,
                end <= input@.len(),
                stripes_spec(initial_lanes(seed), input@, offset as int, end as int)
                    == stripes_spec(
                    Lanes { v1, v2, v3, v4 },
                    input@,
                    cursor as int,
                    end as int,
                ),
            decreases end - cursor,
        {
            v1 = round(v1, read_u64(input, cursor));
            cursor = cursor + 8;
            v2 = round(v2, read_u64(input, cursor));
            cursor = cursor + 8;
            v3 = round(v3, read_u64(input, cursor));
            cursor = cursor + 8;
            v4 = round(v4, read_u64(input, cursor));
            cursor = cursor + 8;
        }
        result = rotate(v1, 1).wrapping_add(rotate(v2, 7)).wrapping_add(rotate(v3, 12)).wrapping_add(
            rotate(v4, 18),
        );
        result = merge_round(result, v1);
        result = merge_round(result, v2);
        result = merge_round(result, v3);
        result = merge_round(result, v4);
    } else {
        result = seed.wrapping_add(PRIME_5);
    }
    result = result.wrapping_add(input_len);
    let r = finalize(result, input, cursor, end);
    proof {
        if offset + len <= input@.len() {
            lemma_range_is_subslice(input@, offset as int, len as int, seed);
        }
        if len == 0 {
            lemma_empty_range(input@, offset as int, seed);
        }
    }
    r
}

} // verus!
