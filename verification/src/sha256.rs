//! SHA-256 (FIPS 180-4) on byte slices, specified by the standard's own
//! definitions and implemented with fixed-size arrays.

use vstd::prelude::*;

verus! {

/// Initial hash value H(0) (FIPS 180-4, section 5.3.3).
pub const INITIAL_HASH: [u32; 8] = [
    0x6a09e667, 0xbb67ae85, 0x3c6ef372, 0xa54ff53a, 0x510e527f, 0x9b05688c, 0x1f83d9ab, 0x5be0cd19,
];

/// The sixty-four round constants K (FIPS 180-4, section 4.2.2).
pub const ROUND_CONSTANTS: [u32; 64] = [
    0x428a2f98, 0x71374491, 0xb5c0fbcf, 0xe9b5dba5, 0x3956c25b, 0x59f111f1, 0x923f82a4, 0xab1c5ed5,
    0xd807aa98, 0x12835b01, 0x243185be, 0x550c7dc3, 0x72be5d74, 0x80deb1fe, 0x9bdc06a7, 0xc19bf174,
    0xe49b69c1, 0xefbe4786, 0x0fc19dc6, 0x240ca1cc, 0x2de92c6f, 0x4a7484aa, 0x5cb0a9dc, 0x76f988da,
    0x983e5152, 0xa831c66d, 0xb00327c8, 0xbf597fc7, 0xc6e00bf3, 0xd5a79147, 0x06ca6351, 0x14292967,
    0x27b70a85, 0x2e1b2138, 0x4d2c6dfc, 0x53380d13, 0x650a7354, 0x766a0abb, 0x81c2c92e, 0x92722c85,
    0xa2bfe8a1, 0xa81a664b, 0xc24b8b70, 0xc76c51a3, 0xd192e819, 0xd6990624, 0xf40e3585, 0x106aa070,
    0x19a4c116, 0x1e376c08, 0x2748774c, 0x34b0bcb5, 0x391c0cb3, 0x4ed8aa4a, 0x5b9cca4f, 0x682e6ff3,
    0x748f82ee, 0x78a5636f, 0x84c87814, 0x8cc70208, 0x90befffa, 0xa4506ceb, 0xbef9a3f7, 0xc67178f2,
];

/// ROTR^n(x): circular right rotation of a 32-bit word.
pub open spec fn rotr(x: u32, n: u32) -> u32
    recommends
        0 < n < 32,
{
    (x >> n) | (x << ((32 - n) as u32))
}


/// Ch(x, y, z) = (x AND y) XOR (NOT x AND z).
pub open spec fn ch(x: u32, y: u32, z: u32) -> u32 {
    (x & y) ^ (!x & z)
}

/// Maj(x, y, z) = (x AND y) XOR (x AND z) XOR (y AND z).
pub open spec fn maj(x: u32, y: u32, z: u32) -> u32 {
    (x & y) ^ (x & z) ^ (y & z)
}

/// Upper-case Sigma 0 of the compression function.
pub open spec fn big_sigma0(x: u32) -> u32 {
    rotr(x, 2) ^ rotr(x, 13) ^ rotr(x, 22)
}

/// Upper-case Sigma 1 of the compression function.
pub open spec fn big_sigma1(x: u32) -> u32 {
    rotr(x, 6) ^ rotr(x, 11) ^ rotr(x, 25)
}

/// Lower-case sigma 0 of the message schedule.
pub open spec fn small_sigma0(x: u32) -> u32 {
    rotr(x, 7) ^ rotr(x, 18) ^ (x >> 3)
}

/// Lower-case sigma 1 of the message schedule.
pub open spec fn small_sigma1(x: u32) -> u32 {
    rotr(x, 17) ^ rotr(x, 19) ^ (x >> 10)
}

/// The big-endian 32-bit word made of four bytes.
pub open spec fn be_word(b0: u8, b1: u8, b2: u8, b3: u8) -> u32 {
    ((b0 as u32) << 24u32) | ((b1 as u32) << 16u32) | ((b2 as u32) << 8u32) | (b3 as u32)
}

/// Byte `j` (0 is the most significant) of a 32-bit word.
pub open spec fn word_byte(w: u32, j: int) -> u8 {
    if j == 0 {
        (w >> 24u32) as u8
    } else if j == 1 {
        (w >> 16u32) as u8
    } else if j == 2 {
        (w >> 8u32) as u8
    } else {
        w as u8
    }
}

/// Number of zero bytes that padding inserts after the 0x80 marker so that
/// the length becomes 56 modulo 64.
pub open spec fn pad_zero_count(len: nat) -> nat {
    ((119 - (len % 64)) % 64) as nat
}

/// The 64-bit message length in bits, most significant byte first.
pub open spec fn length_bytes(bits: u64) -> Seq<u8> {
    Seq::new(8, |i: int| (bits >> ((56 - 8 * i) as u64)) as u8)
}

/// The padded message (FIPS 180-4, section 5.1.1): the message, the byte
/// 0x80, zero bytes, and the bit length as a big-endian 64-bit integer.
pub open spec fn padded(msg: Seq<u8>) -> Seq<u8> {
    msg + seq![0x80u8] + Seq::new(pad_zero_count(msg.len()), |i: int| 0u8) + length_bytes(
        (msg.len() * 8) as u64,
    )
}

/// Word W_t of the message schedule of a 64-byte block (section 6.2.2, step 1).
pub open spec fn schedule(block: Seq<u8>, t: nat) -> u32
    decreases t,
{
    if t < 16 {
        let i = 4 * t as int;
        be_word(block[i], block[i + 1], block[i + 2], block[i + 3])
    } else {
        schedule(block, (t - 16) as nat).wrapping_add(
            small_sigma0(schedule(block, (t - 15) as nat)),
        ).wrapping_add(schedule(block, (t - 7) as nat)).wrapping_add(
            small_sigma1(schedule(block, (t - 2) as nat)),
        )
    }
}

/// The sixty-four schedule words of a block.
pub open spec fn schedule_words(block: Seq<u8>) -> Seq<u32> {
    Seq::new(64, |t: int| schedule(block, t as nat))
}

/// One round of the compression function on the working variables a..h.
pub open spec fn round(s: Seq<u32>, k: u32, w: u32) -> Seq<u32> {
    let t1 = s[7].wrapping_add(big_sigma1(s[4])).wrapping_add(ch(s[4], s[5], s[6])).wrapping_add(
        k,
    ).wrapping_add(w);
    let t2 = big_sigma0(s[0]).wrapping_add(maj(s[0], s[1], s[2]));
    seq![t1.wrapping_add(t2), s[0], s[1], s[2], s[3].wrapping_add(t1), s[4], s[5], s[6]]
}

/// The working variables after the first `n` rounds.
pub open spec fn rounds(s: Seq<u32>, w: Seq<u32>, n: nat) -> Seq<u32>
    decreases n,
{
    if n == 0 {
        s
    } else {
        round(rounds(s, w, (n - 1) as nat), ROUND_CONSTANTS@[n - 1], w[n - 1])
    }
}

/// The intermediate hash value after compressing a block with schedule `w`.
pub open spec fn compress(h: Seq<u32>, w: Seq<u32>) -> Seq<u32> {
    let r = rounds(h, w, 64);
    Seq::new(8, |i: int| h[i].wrapping_add(r[i]))
}

/// The hash value after the first `n` blocks of a padded message.
pub open spec fn hash_blocks(p: Seq<u8>, n: nat) -> Seq<u32>
    decreases n,
{
    if n == 0 {
        INITIAL_HASH@
    } else {
        compress(
            hash_blocks(p, (n - 1) as nat),
            schedule_words(p.subrange(64 * (n - 1), 64 * n as int)),
        )
    }
}

/// The 32 bytes of a hash value, each word most significant byte first.
pub open spec fn digest_bytes(h: Seq<u32>) -> Seq<u8> {
    Seq::new(32, |i: int| word_byte(h[i / 4], i % 4))
}

/// SHA-256 of a byte sequence.
pub open spec fn sha256(msg: Seq<u8>) -> Seq<u8> {
    let p = padded(msg);
    digest_bytes(hash_blocks(p, p.len() / 64))
}

/// ROTR^n(x).
fn rotate_right(x: u32, n: u32) -> (r: u32)
    requires
        0 < n < 32,
    ensures
        r == rotr(x, n),
{
    (x >> n) | (x << (32 - n))
}

/// The padded message of `data`.
fn pad_message(data: &[u8]) -> (msg: Vec<u8>)
    requires
        data@.len() * 8 <= u64::MAX,
        data@.len() + 128 <= usize::MAX,
    ensures
        msg@ == padded(data@),
        msg@.len() % 64 == 0,
{
    let bit_len: u64 = (data.len() as u64) * 8;
    let mut msg: Vec<u8> = Vec::new();
    msg.extend_from_slice(data);
    msg.push(0x80);
    let ghost n = data@.len();
    let ghost k = pad_zero_count(n);
    assert((n + 1 + k) % 64 == 56);
    while msg.len() % 64 != 56
        invariant
            n == data@.len(),
            k == pad_zero_count(n),
            (n + 1 + k) % 64 == 56,
            n + 1 <= msg@.len() <= n + 1 + k,
            msg@ == data@ + seq![0x80u8] + Seq::new((msg@.len() - n - 1) as nat, |i: int| 0u8),
            data@.len() + 128 <= usize::MAX,
        decreases n + 1 + k - msg@.len(),
    {
        msg.push(0);
        assert(msg@ =~= data@ + seq![0x80u8] + Seq::new((msg@.len() - n - 1) as nat, |i: int| 0u8));
    }
    assert(msg@.len() == n + 1 + k);
    let ghost prefix = msg@;
    let mut i: usize = 0;
    while i < 8
        invariant
            0 <= i <= 8,
            msg@ == prefix + length_bytes(bit_len).take(i as int),
            prefix.len() == n + 1 + k,
            bit_len == n * 8,
            data@.len() + 128 <= usize::MAX,
        decreases 8 - i,
    {
        let shift: u64 = 56 - 8 * (i as u64);
        msg.push((bit_len >> shift) as u8);
        i = i + 1;
        assert(msg@ =~= prefix + length_bytes(bit_len).take(i as int));
    }
    assert(length_bytes(bit_len).take(8) =~= length_bytes(bit_len));
    assert(msg@ =~= padded(data@));
    msg
}


/// The message schedule W_0..W_63 of the block `msg[base..base + 64]`.
fn message_schedule(msg: &Vec<u8>, base: usize) -> (w: [u32; 64])
    requires
        base + 64 <= msg@.len(),
    ensures
        w@ == schedule_words(msg@.subrange(base as int, base + 64)),
{
    let ghost block = msg@.subrange(base as int, base + 64);
    let mut w: [u32; 64] = [0u32; 64];
    let mut t: usize = 0;
    while t < 16
        invariant
            0 <= t <= 16,
            base + 64 <= msg.len(),
            block == msg@.subrange(base as int, base + 64),
            forall|j: int| 0 <= j < t ==> w@[j] == schedule(block, j as nat),
        decreases 16 - t,
    {
        let j = base + 4 * t;
        let word = ((msg[j] as u32) << 24u32) | ((msg[j + 1] as u32) << 16u32) | ((msg[j + 2] as u32)
            << 8u32) | (msg[j + 3] as u32);
        assert(word == schedule(block, t as nat)) by {
            assert(block[4 * t] == msg@[j as int]);
            assert(block[4 * t + 1] == msg@[j + 1]);
            assert(block[4 * t + 2] == msg@[j + 2]);
            assert(block[4 * t + 3] == msg@[j + 3]);
        }
        w[t] = word;
        t = t + 1;
    }
    while t < 64
        invariant
            16 <= t <= 64,
            forall|j: int| 0 <= j < t ==> w@[j] == schedule(block, j as nat),
        decreases 64 - t,
    {
        let a = w[t - 15];
        let b = w[t - 2];
        let s0 = rotate_right(a, 7) ^ rotate_right(a, 18) ^ (a >> 3u32);
        let s1 = rotate_right(b, 17) ^ rotate_right(b, 19) ^ (b >> 10u32);
        let word = w[t - 16].wrapping_add(s0).wrapping_add(w[t - 7]).wrapping_add(s1);
        assert(word == schedule(block, t as nat));
        w[t] = word;
        t = t + 1;
    }
    assert(w@ =~= schedule_words(block));
    w
}

/// The hash value after compressing one block with schedule `w` into `h`.
fn compress_block(h: &[u32; 8], w: &[u32; 64]) -> (out: [u32; 8])
    ensures
        out@ == compress(h@, w@),
{
    let mut a = h[0];
    let mut b = h[1];
    let mut c = h[2];
    let mut d = h[3];
    let mut e = h[4];
    let mut f = h[5];
    let mut g = h[6];
    let mut hh = h[7];
    let mut t: usize = 0;
    assert(seq![a, b, c, d, e, f, g, hh] =~= rounds(h@, w@, 0));
    while t < 64
        invariant
            0 <= t <= 64,
            seq![a, b, c, d, e, f, g, hh] == rounds(h@, w@, t as nat),
        decreases 64 - t,
    {
        let s1 = rotate_right(e, 6) ^ rotate_right(e, 11) ^ rotate_right(e, 25);
        let chv = (e & f) ^ ((!e) & g);
        let temp1 = hh.wrapping_add(s1).wrapping_add(chv).wrapping_add(ROUND_CONSTANTS[t]).wrapping_add(
            w[t],
        );
        let s0 = rotate_right(a, 2) ^ rotate_right(a, 13) ^ rotate_right(a, 22);
        let majv = (a & b) ^ (a & c) ^ (b & c);
        let temp2 = s0.wrapping_add(majv);
        let ghost prev = seq![a, b, c, d, e, f, g, hh];
        hh = g;
        g = f;
        f = e;
        e = d.wrapping_add(temp1);
        d = c;
        c = b;
        b = a;
        a = temp1.wrapping_add(temp2);
        t = t + 1;
        assert(seq![a, b, c, d, e, f, g, hh] =~= round(prev, ROUND_CONSTANTS@[t - 1], w@[t - 1]));
    }
    let out: [u32; 8] = [
        h[0].wrapping_add(a),
        h[1].wrapping_add(b),
        h[2].wrapping_add(c),
        h[3].wrapping_add(d),
        h[4].wrapping_add(e),
        h[5].wrapping_add(f),
        h[6].wrapping_add(g),
        h[7].wrapping_add(hh),
    ];
    assert(out@ =~= compress(h@, w@));
    out
}


/// Largest input length, in bytes, whose bit length fits the 64-bit length field
/// and whose padded form fits in memory.
pub open spec fn hashable_len(len: nat) -> bool {
    len * 8 <= u64::MAX && len + 128 <= usize::MAX
}

/// SHA-256 digest of `data`.
pub fn sha256_bytes(data: &[u8]) -> (out: [u8; 32])
    requires
        hashable_len(data@.len()),
    ensures
        out@ == sha256(data@),
{
    let msg = pad_message(data);
    let nblocks = msg.len() / 64;
    let mut h: [u32; 8] = INITIAL_HASH;
    let mut blk: usize = 0;
    while blk < nblocks
        invariant
            0 <= blk <= nblocks,
            nblocks == msg@.len() / 64,
            msg@.len() % 64 == 0,
            h@ == hash_blocks(msg@, blk as nat),
        decreases nblocks - blk,
    {
        assert(blk * 64 + 64 <= msg@.len()) by (nonlinear_arith)
            requires
                blk < nblocks,
                nblocks == msg@.len() / 64,
        ;
        assert(msg@.len() == msg.len());
        let base = blk * 64;
        assert(msg@.subrange(base as int, base + 64) == msg@.subrange(
            64 * (blk + 1 - 1),
            64 * (blk + 1),
        ));
        let w = message_schedule(&msg, base);
        h = compress_block(&h, &w);
        blk = blk + 1;
    }
    let mut out: [u8; 32] = [0u8; 32];
    let mut i: usize = 0;
    while i < 8
        invariant
            0 <= i <= 8,
            forall|j: int| 0 <= j < 4 * i ==> out@[j] == word_byte(h@[j / 4], j % 4),
        decreases 8 - i,
    {
        let word = h[i];
        out[4 * i] = (word >> 24u32) as u8;
        out[4 * i + 1] = (word >> 16u32) as u8;
        out[4 * i + 2] = (word >> 8u32) as u8;
        out[4 * i + 3] = word as u8;
        i = i + 1;
    }
    assert(out@ =~= digest_bytes(h@));
    out
}


/// The HMAC block size of SHA-256, in bytes.
pub const BLOCK_SIZE: usize = 64;

/// The key normalised to one block (RFC 2104): keys longer than a block are
/// replaced by their digest, and the result is padded with zero bytes.
pub open spec fn hmac_key_block(key: Seq<u8>) -> Seq<u8> {
    if key.len() <= 64 {
        key + Seq::new((64 - key.len()) as nat, |i: int| 0u8)
    } else {
        sha256(key) + Seq::new(32, |i: int| 0u8)
    }
}

/// HMAC-SHA256(key, msg) = H((K xor opad) || H((K xor ipad) || msg)).
pub open spec fn hmac_sha256(key: Seq<u8>, msg: Seq<u8>) -> Seq<u8> {
    let k = hmac_key_block(key);
    let ipad = Seq::new(64, |i: int| k[i] ^ 0x36u8);
    let opad = Seq::new(64, |i: int| k[i] ^ 0x5cu8);
    sha256(opad + sha256(ipad + msg))
}

/// HMAC-SHA256 of `body` under `key`.
pub fn hmac_sha256_bytes(key: &[u8], body: &[u8]) -> (out: [u8; 32])
    requires
        hashable_len(key@.len()),
        hashable_len(body@.len() + 64),
    ensures
        out@ == hmac_sha256(key@, body@),
{
    let mut k: [u8; 64] = [0u8; 64];
    if key.len() <= BLOCK_SIZE {
        let mut i: usize = 0;
        while i < key.len()
            invariant
                0 <= i <= key@.len() <= 64,
                forall|j: int| 0 <= j < i ==> k@[j] == key@[j],
                forall|j: int| i <= j < 64 ==> k@[j] == 0u8,
            decreases key@.len() - i,
        {
            k[i] = key[i];
            i = i + 1;
        }
        assert(k@ =~= hmac_key_block(key@));
    } else {
        let hashed = sha256_bytes(key);
        let mut i: usize = 0;
        while i < 32
            invariant
                0 <= i <= 32,
                hashed@.len() == 32,
                forall|j: int| 0 <= j < i ==> k@[j] == hashed@[j],
                forall|j: int| i <= j < 64 ==> k@[j] == 0u8,
            decreases 32 - i,
        {
            k[i] = hashed[i];
            i = i + 1;
        }
        assert(k@ =~= hmac_key_block(key@));
    }
    let mut ipad: [u8; 64] = [0u8; 64];
    let mut opad: [u8; 64] = [0u8; 64];
    let mut i: usize = 0;
    while i < BLOCK_SIZE
        invariant
            0 <= i <= 64,
            forall|j: int| 0 <= j < i ==> ipad@[j] == k@[j] ^ 0x36u8,
            forall|j: int| 0 <= j < i ==> opad@[j] == k@[j] ^ 0x5cu8,
        decreases 64 - i,
    {
        ipad[i] = k[i] ^ 0x36;
        opad[i] = k[i] ^ 0x5c;
        i = i + 1;
    }
    let mut inner_input: Vec<u8> = Vec::new();
    inner_input.extend_from_slice(ipad.as_slice());
    inner_input.extend_from_slice(body);
    assert(inner_input@ =~= Seq::new(64, |j: int| k@[j] ^ 0x36u8) + body@);
    let inner_hash = sha256_bytes(inner_input.as_slice());
    let mut outer_input: Vec<u8> = Vec::new();
    outer_input.extend_from_slice(opad.as_slice());
    outer_input.extend_from_slice(inner_hash.as_slice());
    assert(outer_input@ =~= Seq::new(64, |j: int| k@[j] ^ 0x5cu8) + inner_hash@);
    sha256_bytes(outer_input.as_slice())
}

} // verus!
