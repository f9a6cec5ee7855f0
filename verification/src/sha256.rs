//! FIPS 180-4 SHA-256, with all arithmetic wrapping modulo 2^32.
use vstd::prelude::*;

verus! {

pub open spec fn ch(e: u32, f: u32, g: u32) -> u32 {
    (e & f) ^ (!e & g)
}

pub open spec fn maj(a: u32, b: u32, c: u32) -> u32 {
    (a & b) ^ (a & c) ^ (b & c)
}

pub open spec fn big_sigma0(x: u32) -> u32 {
    ((x >> 2u32) | (x << 30u32)) ^ ((x >> 13u32) | (x << 19u32)) ^ ((x >> 22u32) | (x << 10u32))
}

pub open spec fn big_sigma1(x: u32) -> u32 {
    ((x >> 6u32) | (x << 26u32)) ^ ((x >> 11u32) | (x << 21u32)) ^ ((x >> 25u32) | (x << 7u32))
}

pub open spec fn small_sigma0(x: u32) -> u32 {
    ((x >> 7u32) | (x << 25u32)) ^ ((x >> 18u32) | (x << 14u32)) ^ (x >> 3u32)
}

pub open spec fn small_sigma1(x: u32) -> u32 {
    ((x >> 17u32) | (x << 15u32)) ^ ((x >> 19u32) | (x << 13u32)) ^ (x >> 10u32)
}

/// The 64 round constants.
pub open spec fn round_constants() -> Seq<u32> {
    seq![
        0x428a2f98u32, 0x71374491, 0xb5c0fbcf, 0xe9b5dba5, 0x3956c25b, 0x59f111f1, 0x923f82a4,
        0xab1c5ed5, 0xd807aa98, 0x12835b01, 0x243185be, 0x550c7dc3, 0x72be5d74, 0x80deb1fe,
        0x9bdc06a7, 0xc19bf174, 0xe49b69c1, 0xefbe4786, 0x0fc19dc6, 0x240ca1cc, 0x2de92c6f,
        0x4a7484aa, 0x5cb0a9dc, 0x76f988da, 0x983e5152, 0xa831c66d, 0xb00327c8, 0xbf597fc7,
        0xc6e00bf3, 0xd5a79147, 0x06ca6351, 0x14292967, 0x27b70a85, 0x2e1b2138, 0x4d2c6dfc,
        0x53380d13, 0x650a7354, 0x766a0abb, 0x81c2c92e, 0x92722c85, 0xa2bfe8a1, 0xa81a664b,
        0xc24b8b70, 0xc76c51a3, 0xd192e819, 0xd6990624, 0xf40e3585, 0x106aa070, 0x19a4c116,
        0x1e376c08, 0x2748774c, 0x34b0bcb5, 0x391c0cb3, 0x4ed8aa4a, 0x5b9cca4f, 0x682e6ff3,
        0x748f82ee, 0x78a5636f, 0x84c87814, 0x8cc70208, 0x90befffa, 0xa4506ceb, 0xbef9a3f7,
        0xc67178f2,
    ]
}

/// The initial hash value.
pub open spec fn initial_hash() -> Seq<u32> {
    seq![
        0x6a09e667u32, 0xbb67ae85, 0x3c6ef372, 0xa54ff53a, 0x510e527f, 0x9b05688c, 0x1f83d9ab,
        0x5be0cd19,
    ]
}

/// The big-endian word of four bytes.
pub open spec fn be_word(b0: u8, b1: u8, b2: u8, b3: u8) -> u32 {
    ((b0 as u32) << 24u32) | ((b1 as u32) << 16u32) | ((b2 as u32) << 8u32) | (b3 as u32)
}

/// Word `t` of the message schedule of a 64-byte block.
pub open spec fn schedule_word(block: Seq<u8>, t: nat) -> u32
    decreases t,
{
    if t < 16 {
        {
            let i = 4 * t as int;
            be_word(block[i], block[i + 1], block[i + 2], block[i + 3])
        }
    } else {
        schedule_word(block, (t - 16) as nat).wrapping_add(
            small_sigma0(schedule_word(block, (t - 15) as nat)),
        ).wrapping_add(schedule_word(block, (t - 7) as nat)).wrapping_add(
            small_sigma1(schedule_word(block, (t - 2) as nat)),
        )
    }
}

/// The eight working variables `a` to `h`.
pub struct Working {
    pub a: u32,
    pub b: u32,
    pub c: u32,
    pub d: u32,
    pub e: u32,
    pub f: u32,
    pub g: u32,
    pub h: u32,
}

/// One round with constant `k` and schedule word `w`.
pub open spec fn round(s: Working, k: u32, w: u32) -> Working {
    let t1 = s.h.wrapping_add(big_sigma1(s.e)).wrapping_add(ch(s.e, s.f, s.g)).wrapping_add(
        k,
    ).wrapping_add(w);
    let t2 = big_sigma0(s.a).wrapping_add(maj(s.a, s.b, s.c));
    Working {
        a: t1.wrapping_add(t2),
        b: s.a,
        c: s.b,
        d: s.c,
        e: s.d.wrapping_add(t1),
        f: s.e,
        g: s.f,
        h: s.g,
    }
}

/// The working variables after the first `t` rounds over `block`.
pub open spec fn rounds(init: Working, block: Seq<u8>, t: nat) -> Working
    decreases t,
{
    if t == 0 {
        init
    } else {
        round(
            rounds(init, block, (t - 1) as nat),
            round_constants()[t - 1],
            schedule_word(block, (t - 1) as nat),
        )
    }
}

/// The working variables loaded from a hash value.
pub open spec fn working_of(h: Seq<u32>) -> Working {
    Working { a: h[0], b: h[1], c: h[2], d: h[3], e: h[4], f: h[5], g: h[6], h: h[7] }
}

/// The hash value after processing one block.
pub open spec fn compress(h: Seq<u32>, block: Seq<u8>) -> Seq<u32> {
    let s = rounds(working_of(h), block, 64);
    seq![
        h[0].wrapping_add(s.a),
        h[1].wrapping_add(s.b),
        h[2].wrapping_add(s.c),
        h[3].wrapping_add(s.d),
        h[4].wrapping_add(s.e),
        h[5].wrapping_add(s.f),
        h[6].wrapping_add(s.g),
        h[7].wrapping_add(s.h),
    ]
}

/// The number of zero bytes that pad a message of `len` bytes.
pub open spec fn zero_pad_len(len: nat) -> nat {
    ((119 - (len % 64)) % 64) as nat
}

/// The eight big-endian bytes of `x`.
pub open spec fn be_u64_bytes(x: u64) -> Seq<u8> {
    seq![
        (x >> 56u64) as u8,
        (x >> 48u64) as u8,
        (x >> 40u64) as u8,
        (x >> 32u64) as u8,
        (x >> 24u64) as u8,
        (x >> 16u64) as u8,
        (x >> 8u64) as u8,
        x as u8,
    ]
}

/// The padded message: a one bit, zeros, and the bit length modulo 2^64.
pub open spec fn padded(msg: Seq<u8>) -> Seq<u8> {
    msg + seq![0x80u8] + Seq::new(zero_pad_len(msg.len()), |i: int| 0u8) + be_u64_bytes(
        (msg.len() as u64).wrapping_mul(8),
    )
}

/// The hash value after the first `n` blocks of `p`.
pub open spec fn hash_blocks(p: Seq<u8>, n: nat) -> Seq<u32>
    decreases n,
{
    if n == 0 {
        initial_hash()
    } else {
        compress(hash_blocks(p, (n - 1) as nat), p.subrange(64 * (n - 1), 64 * n as int))
    }
}

/// The 32 big-endian bytes of a final hash value.
pub open spec fn digest_of(h: Seq<u32>) -> Seq<u8> {
    seq![
        (h[0] >> 24u32) as u8, (h[0] >> 16u32) as u8, (h[0] >> 8u32) as u8, h[0] as u8,
        (h[1] >> 24u32) as u8, (h[1] >> 16u32) as u8, (h[1] >> 8u32) as u8, h[1] as u8,
        (h[2] >> 24u32) as u8, (h[2] >> 16u32) as u8, (h[2] >> 8u32) as u8, h[2] as u8,
        (h[3] >> 24u32) as u8, (h[3] >> 16u32) as u8, (h[3] >> 8u32) as u8, h[3] as u8,
        (h[4] >> 24u32) as u8, (h[4] >> 16u32) as u8, (h[4] >> 8u32) as u8, h[4] as u8,
        (h[5] >> 24u32) as u8, (h[5] >> 16u32) as u8, (h[5] >> 8u32) as u8, h[5] as u8,
        (h[6] >> 24u32) as u8, (h[6] >> 16u32) as u8, (h[6] >> 8u32) as u8, h[6] as u8,
        (h[7] >> 24u32) as u8, (h[7] >> 16u32) as u8, (h[7] >> 8u32) as u8, h[7] as u8,
    ]
}

/// The SHA-256 digest of `msg`.
pub open spec fn sha256_spec(msg: Seq<u8>) -> Seq<u8> {
    let p = padded(msg);
    digest_of(hash_blocks(p, p.len() / 64))
}

fn ch_exec(e: u32, f: u32, g: u32) -> (r: u32)
    ensures
        r == ch(e, f, g),
{
    (e & f) ^ (!e & g)
}

fn maj_exec(a: u32, b: u32, c: u32) -> (r: u32)
    ensures
        r == maj(a, b, c),
{
    (a & b) ^ (a & c) ^ (b & c)
}

fn big_sigma0_exec(x: u32) -> (r: u32)
    ensures
        r == big_sigma0(x),
{
    ((x >> 2u32) | (x << 30u32)) ^ ((x >> 13u32) | (x << 19u32)) ^ ((x >> 22u32) | (x << 10u32))
}

fn big_sigma1_exec(x: u32) -> (r: u32)
    ensures
        r == big_sigma1(x),
{
    ((x >> 6u32) | (x << 26u32)) ^ ((x >> 11u32) | (x << 21u32)) ^ ((x >> 25u32) | (x << 7u32))
}

fn small_sigma0_exec(x: u32) -> (r: u32)
    ensures
        r == small_sigma0(x),
{
    ((x >> 7u32) | (x << 25u32)) ^ ((x >> 18u32) | (x << 14u32)) ^ (x >> 3u32)
}

fn small_sigma1_exec(x: u32) -> (r: u32)
    ensures
        r == small_sigma1(x),
{
    ((x >> 17u32) | (x << 15u32)) ^ ((x >> 19u32) | (x << 13u32)) ^ (x >> 10u32)
}

fn round_constant_table() -> (r: Vec<u32>)
    ensures
        r@ == round_constants(),
{
    let r = vec![
        0x428a2f98u32, 0x71374491, 0xb5c0fbcf, 0xe9b5dba5, 0x3956c25b, 0x59f111f1, 0x923f82a4,
        0xab1c5ed5, 0xd807aa98, 0x12835b01, 0x243185be, 0x550c7dc3, 0x72be5d74, 0x80deb1fe,
        0x9bdc06a7, 0xc19bf174, 0xe49b69c1, 0xefbe4786, 0x0fc19dc6, 0x240ca1cc, 0x2de92c6f,
        0x4a7484aa, 0x5cb0a9dc, 0x76f988da, 0x983e5152, 0xa831c66d, 0xb00327c8, 0xbf597fc7,
        0xc6e00bf3, 0xd5a79147, 0x06ca6351, 0x14292967, 0x27b70a85, 0x2e1b2138, 0x4d2c6dfc,
        0x53380d13, 0x650a7354, 0x766a0abb, 0x81c2c92e, 0x92722c85, 0xa2bfe8a1, 0xa81a664b,
        0xc24b8b70, 0xc76c51a3, 0xd192e819, 0xd6990624, 0xf40e3585, 0x106aa070, 0x19a4c116,
        0x1e376c08, 0x2748774c, 0x34b0bcb5, 0x391c0cb3, 0x4ed8aa4a, 0x5b9cca4f, 0x682e6ff3,
        0x748f82ee, 0x78a5636f, 0x84c87814, 0x8cc70208, 0x90befffa, 0xa4506ceb, 0xbef9a3f7,
        0xc67178f2,
    ];
    assert(r@ =~= round_constants());
    r
}

/// The message schedule of the block at `base` in `p`.
fn schedule(p: &Vec<u8>, base: usize) -> (w: Vec<u32>)
    requires
        base + 64 <= p@.len(),
    ensures
        w@.len() == 64,
        forall|t: int| 0 <= t < 64 ==> #[trigger] w@[t] == schedule_word(
            p@.subrange(base as int, base + 64),
            t as nat,
        ),
{
    let ghost block = p@.subrange(base as int, base + 64);
    let plen = p.len();
    let mut w: Vec<u32> = Vec::new();
    let mut t: usize = 0;
    while t < 16
        invariant
            t <= 16,
            base + 64 <= p@.len(),
            plen == p@.len(),
            block == p@.subrange(base as int, base + 64),
            w@.len() == t,
            forall|i: int| 0 <= i < t ==> #[trigger] w@[i] == schedule_word(block, i as nat),
        decreases 16 - t,
    {
        let o = base + 4 * t;
        let word = ((p[o] as u32) << 24u32) | ((p[o + 1] as u32) << 16u32) | ((p[o + 2] as u32)
            << 8u32) | (p[o + 3] as u32);
        assert(block[4 * t] == p@[o as int]);
        assert(block[4 * t + 1] == p@[o + 1]);
        assert(block[4 * t + 2] == p@[o + 2]);
        assert(block[4 * t + 3] == p@[o + 3]);
        w.push(word);
        t = t + 1;
    }
    while t < 64
        invariant
            16 <= t <= 64,
            w@.len() == t,
            forall|i: int| 0 <= i < t ==> #[trigger] w@[i] == schedule_word(block, i as nat),
        decreases 64 - t,
    {
        let word = w[t - 16].wrapping_add(small_sigma0_exec(w[t - 15])).wrapping_add(
            w[t - 7],
        ).wrapping_add(small_sigma1_exec(w[t - 2]));
        assert(w@[t - 16] == schedule_word(block, (t - 16) as nat));
        assert(w@[t - 15] == schedule_word(block, (t - 15) as nat));
        assert(w@[t - 7] == schedule_word(block, (t - 7) as nat));
        assert(w@[t - 2] == schedule_word(block, (t - 2) as nat));
        w.push(word);
        t = t + 1;
    }
    w
}

/// Processes the block at `base` in `p`, updating the hash value `h`.
fn compress_block(h: &mut Vec<u32>, p: &Vec<u8>, base: usize, k: &Vec<u32>)
    requires
        old(h)@.len() == 8,
        base + 64 <= p@.len(),
        k@ == round_constants(),
    ensures
        final(h)@ == compress(old(h)@, p@.subrange(base as int, base + 64)),
{
    let ghost block = p@.subrange(base as int, base + 64);
    let ghost h0 = h@;
    let w = schedule(p, base);
    let mut a = h[0];
    let mut b = h[1];
    let mut c = h[2];
    let mut d = h[3];
    let mut e = h[4];
    let mut f = h[5];
    let mut g = h[6];
    let mut hh = h[7];
    let mut t: usize = 0;
    while t < 64
        invariant
            t <= 64,
            w@.len() == 64,
            k@ == round_constants(),
            h@ == h0,
            h0.len() == 8,
            forall|i: int| 0 <= i < 64 ==> #[trigger] w@[i] == schedule_word(block, i as nat),
            rounds(working_of(h0), block, t as nat) == (Working { a, b, c, d, e, f, g, h: hh }),
        decreases 64 - t,
    {
        let t1 = hh.wrapping_add(big_sigma1_exec(e)).wrapping_add(ch_exec(e, f, g)).wrapping_add(
            k[t],
        ).wrapping_add(w[t]);
        let t2 = big_sigma0_exec(a).wrapping_add(maj_exec(a, b, c));
        hh = g;
        g = f;
        f = e;
        e = d.wrapping_add(t1);
        d = c;
        c = b;
        b = a;
        a = t1.wrapping_add(t2);
        t = t + 1;
    }
    let n0 = h[0].wrapping_add(a);
    let n1 = h[1].wrapping_add(b);
    let n2 = h[2].wrapping_add(c);
    let n3 = h[3].wrapping_add(d);
    let n4 = h[4].wrapping_add(e);
    let n5 = h[5].wrapping_add(f);
    let n6 = h[6].wrapping_add(g);
    let n7 = h[7].wrapping_add(hh);
    h.set(0, n0);
    h.set(1, n1);
    h.set(2, n2);
    h.set(3, n3);
    h.set(4, n4);
    h.set(5, n5);
    h.set(6, n6);
    h.set(7, n7);
    assert(h@ =~= compress(h0, block));
}

/// `input` followed by the SHA-256 padding.
fn pad_message(input: &[u8]) -> (p: Vec<u8>)
    ensures
        p@ == padded(input@),
        p@.len() % 64 == 0,
{
    let bit_len = (input.len() as u64).wrapping_mul(8);
    let mut p: Vec<u8> = Vec::new();
    let mut i: usize = 0;
    while i < input.len()
        invariant
            i <= input@.len(),
            p@ == input@.take(i as int),
        decreases input@.len() - i,
    {
        p.push(input[i]);
        i = i + 1;
        assert(p@ =~= input@.take(i as int));
    }
    assert(input@.take(input@.len() as int) =~= input@);
    p.push(0x80);
    let zeros = (119 - input.len() % 64) % 64;
    let mut z: usize = 0;
    assert(p@ =~= input@ + seq![0x80u8] + Seq::new(0 as nat, |i: int| 0u8));
    while z < zeros
        invariant
            z <= zeros,
            zeros == zero_pad_len(input@.len()),
            p@ == input@ + seq![0x80u8] + Seq::new(z as nat, |i: int| 0u8),
        decreases zeros - z,
    {
        p.push(0);
        z = z + 1;
        assert(p@ =~= input@ + seq![0x80u8] + Seq::new(z as nat, |i: int| 0u8));
    }
    p.push((bit_len >> 56u64) as u8);
    p.push((bit_len >> 48u64) as u8);
    p.push((bit_len >> 40u64) as u8);
    p.push((bit_len >> 32u64) as u8);
    p.push((bit_len >> 24u64) as u8);
    p.push((bit_len >> 16u64) as u8);
    p.push((bit_len >> 8u64) as u8);
    p.push(bit_len as u8);
    assert(p@ =~= padded(input@));
    p
}

/// The hash value after every block of the padded message `p`.
fn hash_padded(p: &Vec<u8>) -> (h: Vec<u32>)
    requires
        p@.len() % 64 == 0,
    ensures
        h@ == hash_blocks(p@, p@.len() / 64),
        h@.len() == 8,
{
    let k = round_constant_table();
    let mut h: Vec<u32> = vec![
        0x6a09e667u32, 0xbb67ae85, 0x3c6ef372, 0xa54ff53a, 0x510e527f, 0x9b05688c, 0x1f83d9ab,
        0x5be0cd19,
    ];
    assert(h@ =~= initial_hash());
    let plen = p.len();
    let blocks = plen / 64;
    let mut n: usize = 0;
    while n < blocks
        invariant
            n <= blocks,
            plen == p@.len(),
            blocks == p@.len() / 64,
            k@ == round_constants(),
            h@.len() == 8,
            h@ == hash_blocks(p@, n as nat),
        decreases blocks - n,
    {
        assert((n + 1) * 64 <= p@.len()) by (nonlinear_arith)
            requires
                n < blocks,
                blocks == p@.len() / 64,
        ;
        compress_block(&mut h, p, n * 64, &k);
        n = n + 1;
    }
    h
}

/// The SHA-256 digest of `input`.
pub fn sha256(input: &[u8]) -> (res: [u8; 32])
    ensures
        res@ == sha256_spec(input@),
{
    let p = pad_message(input);
    let h = hash_padded(&p);
    let out: [u8; 32] = [
        (h[0] >> 24u32) as u8, (h[0] >> 16u32) as u8, (h[0] >> 8u32) as u8, h[0] as u8,
        (h[1] >> 24u32) as u8, (h[1] >> 16u32) as u8, (h[1] >> 8u32) as u8, h[1] as u8,
        (h[2] >> 24u32) as u8, (h[2] >> 16u32) as u8, (h[2] >> 8u32) as u8, h[2] as u8,
        (h[3] >> 24u32) as u8, (h[3] >> 16u32) as u8, (h[3] >> 8u32) as u8, h[3] as u8,
        (h[4] >> 24u32) as u8, (h[4] >> 16u32) as u8, (h[4] >> 8u32) as u8, h[4] as u8,
        (h[5] >> 24u32) as u8, (h[5] >> 16u32) as u8, (h[5] >> 8u32) as u8, h[5] as u8,
        (h[6] >> 24u32) as u8, (h[6] >> 16u32) as u8, (h[6] >> 8u32) as u8, h[6] as u8,
        (h[7] >> 24u32) as u8, (h[7] >> 16u32) as u8, (h[7] >> 8u32) as u8, h[7] as u8,
    ];
    assert(out@ =~= digest_of(h@));
    out
}

} // verus!
