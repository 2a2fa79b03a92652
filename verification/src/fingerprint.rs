//! A sparse fingerprint of a clipboard image, used to notice that a new image
//! was put on the clipboard without comparing whole images.

use vstd::prelude::*;

verus! {

/// Odd 64-bit constant that spreads the byte length over the seed.
pub const LENGTH_MIX: u64 = 0x9E37_79B9_7F4A_7C15;

/// The 64-bit FNV prime, applied once per sampled byte.
pub const FNV_PRIME: u64 = 1_099_511_628_211;

/// Number of evenly spaced samples aimed for on large images.
pub const SAMPLE_TARGET: usize = 64;

/// The value the hash starts from: dimensions and byte length.
pub open spec fn header_hash(width: usize, height: usize, len: nat) -> u64 {
    ((width as u64) << 32u64) ^ (height as u64) ^ (len as u64).wrapping_mul(LENGTH_MIX)
}

/// Distance between two sampled bytes: a 64th of the length, at least one.
pub open spec fn sample_step(len: nat) -> nat {
    if len / (SAMPLE_TARGET as nat) == 0 {
        1
    } else {
        len / (SAMPLE_TARGET as nat)
    }
}

/// One FNV-style round: multiply by the prime, add the byte, both modulo 2^64.
pub open spec fn absorb(acc: u64, byte: u8) -> u64 {
    acc.wrapping_mul(FNV_PRIME).wrapping_add(byte as u64)
}

/// Absorbs the bytes at `i`, `i + step`, `i + 2 * step`, ... into `acc`.
pub open spec fn absorb_from(bytes: Seq<u8>, step: nat, i: nat, acc: u64) -> u64
    decreases (if i < bytes.len() { bytes.len() - i } else { 0int }),
{
    if step == 0 || i >= bytes.len() {
        acc
    } else {
        absorb_from(bytes, step, i + step, absorb(acc, bytes[i as int]))
    }
}

/// The fingerprint of an image of `width` x `height` pixels whose raw bytes
/// are `bytes`.
pub open spec fn spec_fingerprint(width: usize, height: usize, bytes: Seq<u8>) -> u64 {
    absorb_from(bytes, sample_step(bytes.len()), 0, header_hash(width, height, bytes.len()))
}

/// Whether `i` is one of the positions the fingerprint reads.
pub open spec fn is_sample_position(len: nat, i: int) -> bool {
    0 <= i < len && i % (sample_step(len) as int) == 0
}

proof fn lemma_absorb_reads_only_samples(a: Seq<u8>, b: Seq<u8>, step: nat, i: nat, acc: u64)
    requires
        a.len() == b.len(),
        step > 0,
        i as int % step as int == 0,
        forall|j: int| 0 <= j < a.len() && j % (step as int) == 0 ==> a[j] == b[j],
    ensures
        absorb_from(a, step, i, acc) == absorb_from(b, step, i, acc),
    decreases (if i < a.len() { a.len() - i } else { 0int }),
{
    if i < a.len() {
        vstd::arithmetic::div_mod::lemma_mod_add_multiples_vanish(i as int, step as int);
        assert(a[i as int] == b[i as int]);
        lemma_absorb_reads_only_samples(a, b, step, i + step, absorb(acc, a[i as int]));
    }
}

/// The fingerprint is sparse: it reads only the sampled positions, so two
/// images with the same dimensions and byte length that agree on every
/// sampled byte have the same fingerprint.
pub proof fn lemma_fingerprint_reads_only_samples(
    width: usize,
    height: usize,
    a: Seq<u8>,
    b: Seq<u8>,
)
    requires
        a.len() == b.len(),
        forall|j: int| is_sample_position(a.len(), j) ==> a[j] == b[j],
    ensures
        spec_fingerprint(width, height, a) == spec_fingerprint(width, height, b),
{
    lemma_absorb_reads_only_samples(
        a,
        b,
        sample_step(a.len()),
        0,
        header_hash(width, height, a.len()),
    );
}

/// The fingerprint reads at most 128 bytes, however large the image: every
/// sampled position is below 128 sample steps.
pub proof fn lemma_fingerprint_reads_few_bytes(len: nat, i: int)
    requires
        is_sample_position(len, i),
    ensures
        i / (sample_step(len) as int) < 128,
{
    let step = sample_step(len) as int;
    if len / 64 == 0 {
        assert(step == 1);
        assert(i / 1 == i) by (nonlinear_arith);
        assert(i < 64) by (nonlinear_arith)
            requires len / 64 == 0, 0 <= i < len;
    } else {
        assert(step == len / 64);
        assert(len < 64 * step + 64) by (nonlinear_arith)
            requires step == len / 64;
        assert(i < 128 * step);
        assert(i / step < 128) by (nonlinear_arith)
            requires 0 <= i < 128 * step, step >= 1;
    }
}

/// The inverse of the FNV prime modulo 2^64 (the prime is odd).
pub open spec fn fnv_prime_inverse() -> int {
    14886173955864302971
}

/// Multiplying by the FNV prime modulo 2^64 loses nothing: multiplying
/// again by its inverse gives the value back.
proof fn lemma_prime_inverse(x: u64)
    ensures
        ((x as int * FNV_PRIME as int) % 0x1_0000_0000_0000_0000 * fnv_prime_inverse())
            % 0x1_0000_0000_0000_0000 == x as int,
{
    let m: int = 0x1_0000_0000_0000_0000;
    let k: int = 887285111055;
    let y = x as int * FNV_PRIME as int;
    vstd::arithmetic::div_mod::lemma_mul_mod_noop_left(y, fnv_prime_inverse(), m);
    assert(FNV_PRIME as int * fnv_prime_inverse() == 1 + k * m);
    vstd::arithmetic::mul::lemma_mul_is_associative(x as int, FNV_PRIME as int, fnv_prime_inverse());
    vstd::arithmetic::mul::lemma_mul_is_distributive_add(x as int, 1, k * m);
    vstd::arithmetic::mul::lemma_mul_is_associative(x as int, k, m);
    assert(x as int * (k * m) == m * (x as int * k)) by (nonlinear_arith);
    vstd::arithmetic::div_mod::lemma_mod_multiples_vanish(x as int * k, x as int, m);
    assert(y * fnv_prime_inverse() == m * (x as int * k) + x as int);
    assert((x as int) % m == x as int);
}

/// Each round is injective in the accumulator for a fixed byte, and in the
/// byte for a fixed accumulator.
proof fn lemma_absorb_injective(x: u64, y: u64, b: u8, c: u8)
    ensures
        absorb(x, b) == absorb(x, c) ==> b == c,
        absorb(x, b) == absorb(y, b) ==> x == y,
{
    if absorb(x, b) == absorb(y, b) {
        assert(x.wrapping_mul(FNV_PRIME) == y.wrapping_mul(FNV_PRIME));
        lemma_prime_inverse(x);
        lemma_prime_inverse(y);
    }
}

/// Rounds over equal bytes keep accumulators apart.
proof fn lemma_absorb_keeps_difference(
    a: Seq<u8>,
    b: Seq<u8>,
    step: nat,
    i: nat,
    acc_a: u64,
    acc_b: u64,
)
    requires
        a.len() == b.len(),
        step > 0,
        acc_a != acc_b,
        forall|j: int| i <= j < a.len() ==> a[j] == b[j],
    ensures
        absorb_from(a, step, i, acc_a) != absorb_from(b, step, i, acc_b),
    decreases (if i < a.len() { a.len() - i } else { 0int }),
{
    if i < a.len() {
        lemma_absorb_injective(acc_a, acc_b, a[i as int], a[i as int]);
        lemma_absorb_keeps_difference(
            a,
            b,
            step,
            i + step,
            absorb(acc_a, a[i as int]),
            absorb(acc_b, b[i as int]),
        );
    }
}

proof fn lemma_absorb_notices_change(
    a: Seq<u8>,
    b: Seq<u8>,
    step: nat,
    c: nat,
    k: nat,
    acc: u64,
)
    requires
        a.len() == b.len(),
        step > 0,
        c <= k,
        k * step < a.len(),
        a[(k * step) as int] != b[(k * step) as int],
        forall|j: int| 0 <= j < a.len() && j != k * step ==> a[j] == b[j],
    ensures
        absorb_from(a, step, c * step, acc) != absorb_from(b, step, c * step, acc),
    decreases k - c,
{
    let i = c * step;
    assert(c * step <= k * step) by (nonlinear_arith)
        requires
            c <= k,
    ;
    if c < k {
        assert(c * step + step <= k * step) by (nonlinear_arith)
            requires
                c < k,
        ;
        assert(a[i as int] == b[i as int]);
        assert((c + 1) * step == c * step + step) by (nonlinear_arith);
        lemma_absorb_notices_change(a, b, step, c + 1, k, absorb(acc, a[i as int]));
    } else {
        lemma_absorb_injective(acc, acc, a[i as int], b[i as int]);
        lemma_absorb_keeps_difference(
            a,
            b,
            step,
            i + step,
            absorb(acc, a[i as int]),
            absorb(acc, b[i as int]),
        );
    }
}

/// The fingerprint notices every sampled byte: two images of the same
/// dimensions and byte length that differ in exactly one byte, at a
/// position that is a multiple of `max(len / 64, 1)`, have different
/// fingerprints, wherever that byte lies in the image.
pub proof fn lemma_fingerprint_sees_each_sampled_byte(
    width: usize,
    height: usize,
    a: Seq<u8>,
    b: Seq<u8>,
    i: int,
)
    requires
        a.len() == b.len(),
        0 <= i < a.len(),
        i % (if a.len() / 64 == 0 { 1 } else { a.len() / 64 }) as int == 0,
        a[i] != b[i],
        forall|j: int| 0 <= j < a.len() && j != i ==> a[j] == b[j],
    ensures
        spec_fingerprint(width, height, a) != spec_fingerprint(width, height, b),
{
    let step = sample_step(a.len());
    assert(step == (if a.len() / 64 == 0 { 1 } else { a.len() / 64 }));
    vstd::arithmetic::div_mod::lemma_fundamental_div_mod(i, step as int);
    let k = (i / (step as int)) as nat;
    assert(i / (step as int) >= 0) by (nonlinear_arith)
        requires
            i >= 0,
            step > 0,
    ;
    assert(k * step == i) by (nonlinear_arith)
        requires
            i == step * (i / (step as int)) + i % (step as int),
            i % (step as int) == 0,
            k == i / (step as int),
    ;
    assert(0nat * step == 0) by (nonlinear_arith);
    lemma_absorb_notices_change(a, b, step, 0, k, header_hash(width, height, a.len()));
}

/// Fingerprint of an image: dimensions and length, then about 64 evenly
/// spaced bytes of its pixel data.
pub fn fingerprint(width: usize, height: usize, bytes: &[u8]) -> (hash: u64)
    ensures
        hash == spec_fingerprint(width, height, bytes@),
{
    let len = bytes.len();
    let mut hash: u64 = ((width as u64) << 32u64) ^ (height as u64) ^ (len as u64).wrapping_mul(
        LENGTH_MIX,
    );
    let step: usize = if len / SAMPLE_TARGET == 0 {
        1
    } else {
        len / SAMPLE_TARGET
    };
    assert(step as nat == sample_step(len as nat));
    let ghost start = hash;
    let mut i: usize = 0;
    while i < len
        invariant
            len == bytes@.len(),
            step as nat == sample_step(len as nat),
            step >= 1,
            i <= len,
            start == header_hash(width, height, len as nat),
            absorb_from(bytes@, step as nat, i as nat, hash) == absorb_from(
                bytes@,
                step as nat,
                0,
                start,
            ),
        decreases len - i,
    {
        hash = hash.wrapping_mul(FNV_PRIME).wrapping_add(bytes[i] as u64);
        if step >= len - i {
            assert(absorb_from(bytes@, step as nat, (i + step) as nat, hash) == hash);
            return hash;
        }
        i = i + step;
    }
    hash
}

} // verus!
