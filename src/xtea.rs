use vstd::bytes::{spec_u32_from_le_bytes, spec_u32_to_le_bytes, u32_from_le_bytes, u32_to_le_bytes};
use vstd::prelude::*;

verus! {

/// The key schedule constant of XTEA.
pub const DELTA: u32 = 0x9E3779B9;

/// Rounds applied to each pair of words.
pub const ROUNDS: usize = 32;

/// Bytes per cipher block: a pair of 32-bit words.
pub const BLOCK_SIZE: usize = 8;

/// The byte that pads a buffer to whole blocks.
pub const PAD_BYTE: u8 = 0x33;

/// `((v << 4) ^ (v >> 5)) + v`, wrapping.
pub open spec fn mix(v: u32) -> u32 {
    ((v << 4u32) ^ (v >> 5u32)).wrapping_add(v)
}

/// One encryption round on the words `(a, b)` with running sum `s`.
pub open spec fn encipher_round(key: Seq<u32>, a: u32, b: u32, s: u32) -> (u32, u32) {
    let a2 = a.wrapping_add(mix(b) ^ s.wrapping_add(key[(s & 3u32) as int]));
    let s2 = s.wrapping_add(DELTA);
    let b2 = b.wrapping_add(mix(a2) ^ s2.wrapping_add(key[((s2 >> 11u32) & 3u32) as int]));
    (a2, b2)
}

/// `n` encryption rounds starting at sum `s`.
pub open spec fn encipher_rounds(key: Seq<u32>, a: u32, b: u32, s: u32, n: nat) -> (u32, u32)
    decreases n,
{
    if n == 0 {
        (a, b)
    } else {
        let (a2, b2) = encipher_round(key, a, b, s);
        encipher_rounds(key, a2, b2, s.wrapping_add(DELTA), (n - 1) as nat)
    }
}

/// One decryption round on the words `(a, b)` with running sum `s`.
pub open spec fn decipher_round(key: Seq<u32>, a: u32, b: u32, s: u32) -> (u32, u32) {
    let b2 = b.wrapping_sub(mix(a) ^ s.wrapping_add(key[((s >> 11u32) & 3u32) as int]));
    let s2 = s.wrapping_sub(DELTA);
    let a2 = a.wrapping_sub(mix(b2) ^ s2.wrapping_add(key[(s2 & 3u32) as int]));
    (a2, b2)
}

/// `n` decryption rounds starting at sum `s`.
pub open spec fn decipher_rounds(key: Seq<u32>, a: u32, b: u32, s: u32, n: nat) -> (u32, u32)
    decreases n,
{
    if n == 0 {
        (a, b)
    } else {
        let (a2, b2) = decipher_round(key, a, b, s);
        decipher_rounds(key, a2, b2, s.wrapping_sub(DELTA), (n - 1) as nat)
    }
}

/// The sum that decryption starts from: where encryption's rounds end.
pub open spec fn decipher_start() -> u32 {
    DELTA.wrapping_mul(ROUNDS as u32)
}

/// `words` with each whole pair `(2p, 2p + 1)` passed through `cipher`; an
/// odd last word stays as it is.
pub open spec fn pairwise(words: Seq<u32>, cipher: spec_fn(u32, u32) -> (u32, u32)) -> Seq<u32> {
    Seq::new(
        words.len(),
        |i: int|
            if 2 * (i / 2) + 1 < words.len() {
                let r = cipher(words[2 * (i / 2)], words[2 * (i / 2) + 1]);
                if i % 2 == 0 {
                    r.0
                } else {
                    r.1
                }
            } else {
                words[i]
            },
    )
}

pub open spec fn encipher_blocks(key: Seq<u32>, words: Seq<u32>) -> Seq<u32> {
    pairwise(words, |a: u32, b: u32| encipher_rounds(key, a, b, 0, ROUNDS as nat))
}

pub open spec fn decipher_blocks(key: Seq<u32>, words: Seq<u32>) -> Seq<u32> {
    pairwise(words, |a: u32, b: u32| decipher_rounds(key, a, b, decipher_start(), ROUNDS as nat))
}

/// `bytes` padded with `PAD_BYTE` to a whole number of blocks.
pub open spec fn padded(bytes: Seq<u8>) -> Seq<u8> {
    let padding = (8 - bytes.len() % 8) % 8;
    bytes + Seq::new(padding as nat, |i: int| PAD_BYTE)
}

/// Little-endian 32-bit words of `bytes`, four bytes each.
pub open spec fn words_of(bytes: Seq<u8>) -> Seq<u32> {
    Seq::new(bytes.len() / 4, |i: int| spec_u32_from_le_bytes(bytes.subrange(4 * i, 4 * i + 4)))
}

/// The little-endian bytes of `words`, four for each word.
pub open spec fn bytes_of(words: Seq<u32>) -> Seq<u8> {
    Seq::new(4 * words.len(), |j: int| spec_u32_to_le_bytes(words[j / 4])[j % 4])
}

proof fn lemma_add_sub(x: u32, y: u32)
    ensures
        x.wrapping_add(y).wrapping_sub(y) == x,
{
}

/// The sum after `n` encryption rounds from `s`.
pub open spec fn sum_after(s: u32, n: nat) -> u32
    decreases n,
{
    if n == 0 {
        s
    } else {
        sum_after(s.wrapping_add(DELTA), (n - 1) as nat)
    }
}

/// A decryption round at the sum an encryption round ended on undoes it.
proof fn lemma_round_inverse(key: Seq<u32>, a: u32, b: u32, s: u32)
    ensures
        ({
            let (a2, b2) = encipher_round(key, a, b, s);
            decipher_round(key, a2, b2, s.wrapping_add(DELTA)) == (a, b)
        }),
{
    let (a2, b2) = encipher_round(key, a, b, s);
    let s2 = s.wrapping_add(DELTA);
    lemma_add_sub(s, DELTA);
    lemma_add_sub(b, mix(a2) ^ s2.wrapping_add(key[((s2 >> 11u32) & 3u32) as int]));
    lemma_add_sub(a, mix(b) ^ s.wrapping_add(key[(s & 3u32) as int]));
}

/// `n + 1` rounds are `n` rounds and then one more.
proof fn lemma_last_round(key: Seq<u32>, a: u32, b: u32, s: u32, n: nat)
    ensures
        encipher_rounds(key, a, b, s, n + 1) == encipher_round(
            key,
            encipher_rounds(key, a, b, s, n).0,
            encipher_rounds(key, a, b, s, n).1,
            sum_after(s, n),
        ),
        sum_after(s, n + 1) == sum_after(s, n).wrapping_add(DELTA),
    decreases n,
{
    let (a2, b2) = encipher_round(key, a, b, s);
    let s2 = s.wrapping_add(DELTA);
    assert(encipher_rounds(key, a, b, s, n + 1) == encipher_rounds(key, a2, b2, s2, n));
    assert(sum_after(s, n + 1) == sum_after(s2, n));
    if n > 0 {
        let m = (n - 1) as nat;
        lemma_last_round(key, a2, b2, s2, m);
        assert(encipher_rounds(key, a, b, s, n) == encipher_rounds(key, a2, b2, s2, m));
        assert(sum_after(s, n) == sum_after(s2, m));
    } else {
        assert(encipher_rounds(key, a2, b2, s2, 0) == (a2, b2));
        assert(encipher_rounds(key, a, b, s, 0) == (a, b));
    }
}

/// `n` decryption rounds from where `n` encryption rounds ended undo them.
proof fn lemma_rounds_inverse(key: Seq<u32>, a: u32, b: u32, s: u32, n: nat)
    ensures
        ({
            let (x, y) = encipher_rounds(key, a, b, s, n);
            decipher_rounds(key, x, y, sum_after(s, n), n) == (a, b)
        }),
    decreases n,
{
    if n > 0 {
        let m = (n - 1) as nat;
        lemma_last_round(key, a, b, s, m);
        let (x, y) = encipher_rounds(key, a, b, s, m);
        let t = sum_after(s, m);
        lemma_round_inverse(key, x, y, t);
        lemma_add_sub(t, DELTA);
        lemma_rounds_inverse(key, a, b, s, m);
    }
}

proof fn lemma_decipher_start()
    ensures
        sum_after(0, ROUNDS as nat) == decipher_start(),
{
    reveal_with_fuel(sum_after, 33);
    assert(sum_after(0, 32) == 0xC6EF3720u32);
}

proof fn lemma_blocks_inverse(key: Seq<u32>, words: Seq<u32>)
    ensures
        decipher_blocks(key, encipher_blocks(key, words)) == words,
{
    let e = encipher_blocks(key, words);
    let d = decipher_blocks(key, e);
    lemma_decipher_start();
    assert forall|i: int| 0 <= i < words.len() implies d[i] == words[i] by {
        let p = i / 2;
        if 2 * p + 1 < words.len() {
            assert((2 * p) / 2 == p);
            assert((2 * p + 1) / 2 == p);
            assert((2 * p) % 2 == 0);
            assert((2 * p + 1) % 2 == 1);
            lemma_rounds_inverse(key, words[2 * p], words[2 * p + 1], 0, ROUNDS as nat);
        }
    }
    assert(d =~= words);
}

proof fn lemma_bytes_of_words_of(bytes: Seq<u8>)
    requires
        bytes.len() % 4 == 0,
    ensures
        bytes_of(words_of(bytes)) == bytes,
{
    vstd::bytes::lemma_auto_spec_u32_to_from_le_bytes();
    let r = bytes_of(words_of(bytes));
    assert forall|j: int| 0 <= j < bytes.len() implies r[j] == bytes[j] by {
        let q = j / 4;
        let chunk = bytes.subrange(4 * q, 4 * q + 4);
        assert(chunk.len() == 4);
        assert(r[j] == spec_u32_to_le_bytes(spec_u32_from_le_bytes(chunk))[j % 4]);
        assert(chunk[j % 4] == bytes[j]);
    }
    assert(r =~= bytes);
}

proof fn lemma_words_of_bytes_of(words: Seq<u32>)
    ensures
        words_of(bytes_of(words)) == words,
{
    vstd::bytes::lemma_auto_spec_u32_to_from_le_bytes();
    let b = bytes_of(words);
    let r = words_of(b);
    assert forall|i: int| 0 <= i < words.len() implies r[i] == words[i] by {
        let chunk = b.subrange(4 * i, 4 * i + 4);
        let le = spec_u32_to_le_bytes(words[i]);
        assert forall|k: int| 0 <= k < 4 implies chunk[k] == le[k] by {
            assert((4 * i + k) / 4 == i);
            assert((4 * i + k) % 4 == k);
        }
        assert(chunk =~= le);
    }
    assert(r =~= words);
}

/// Decryption undoes encryption: decrypting what encryption returned gives
/// back the input padded to whole blocks.
pub proof fn lemma_decrypt_encrypt(key: Seq<u32>, bytes: Seq<u8>)
    ensures
        bytes_of(decipher_blocks(key, words_of(padded(bytes_of(encipher_blocks(key, words_of(padded(bytes))))))))
            == padded(bytes),
{
    let w = words_of(padded(bytes));
    let e = bytes_of(encipher_blocks(key, w));
    assert(padded(bytes).len() % 8 == 0);
    assert(e.len() % 8 == 0);
    assert(padded(e) =~= e);
    lemma_words_of_bytes_of(encipher_blocks(key, w));
    lemma_blocks_inverse(key, w);
    lemma_bytes_of_words_of(padded(bytes));
}

/// The XTEA cipher of the game protocol, with its key.
#[derive(Clone, Copy, Debug)]
pub struct Xtea {
    key: [u32; 4],
}

impl Xtea {
    pub closed spec fn key_view(&self) -> Seq<u32> {
        self.key@
    }

    pub fn new(key: [u32; 4]) -> (r: Xtea)
        ensures
            r.key_view() == key@,
    {
        Xtea { key }
    }

    pub fn key(&self) -> (r: [u32; 4])
        ensures
            r@ == self.key_view(),
    {
        self.key
    }
    /// Encrypts `buffer`, padded with `PAD_BYTE` to whole blocks.
    pub fn encrypt(&self, buffer: Vec<u8>) -> (r: Vec<u8>)
        requires
            buffer@.len() + BLOCK_SIZE <= usize::MAX,
        ensures
            r@ == bytes_of(encipher_blocks(self.key_view(), words_of(padded(buffer@)))),
    {
        self.process(true, buffer)
    }

    /// Decrypts `buffer`, padded with `PAD_BYTE` to whole blocks.
    pub fn decrypt(&self, buffer: Vec<u8>) -> (r: Vec<u8>)
        requires
            buffer@.len() + BLOCK_SIZE <= usize::MAX,
        ensures
            r@ == bytes_of(decipher_blocks(self.key_view(), words_of(padded(buffer@)))),
    {
        self.process(false, buffer)
    }

    fn process(&self, encrypting: bool, buffer: Vec<u8>) -> (r: Vec<u8>)
        requires
            buffer@.len() + BLOCK_SIZE <= usize::MAX,
        ensures
            r@ == bytes_of(
                if encrypting {
                    encipher_blocks(self.key_view(), words_of(padded(buffer@)))
                } else {
                    decipher_blocks(self.key_view(), words_of(padded(buffer@)))
                },
            ),
    {
        let ghost input = buffer@;
        let mut buffer = buffer;
        let padding = (BLOCK_SIZE - buffer.len() % BLOCK_SIZE) % BLOCK_SIZE;
        let mut k: usize = 0;
        while k < padding
            invariant
                k <= padding,
                padding < BLOCK_SIZE,
                padding == (8 - input.len() % 8) % 8,
                buffer@ == input + Seq::new(k as nat, |i: int| PAD_BYTE),
            decreases padding - k,
        {
            buffer.push(PAD_BYTE);
            k = k + 1;
            proof {
                assert(buffer@ =~= input + Seq::new(k as nat, |i: int| PAD_BYTE));
            }
        }
        proof {
            assert(buffer@ == padded(input));
        }
        let mut words: Vec<u32> = Vec::new();
        let mut i: usize = 0;
        while i < buffer.len() / 4
            invariant
                buffer@ == padded(input),
                i <= buffer@.len() / 4,
                words@ == words_of(buffer@).take(i as int),
            decreases buffer@.len() / 4 - i,
        {
            let chunk: Vec<u8> = vec![buffer[4 * i], buffer[4 * i + 1], buffer[4 * i + 2], buffer[4 * i + 3]];
            proof {
                assert(chunk@ =~= buffer@.subrange(4 * i, 4 * i + 4));
            }
            words.push(u32_from_le_bytes(chunk.as_slice()));
            i = i + 1;
            proof {
                assert(words@ =~= words_of(buffer@).take(i as int));
            }
        }
        proof {
            assert(words@ =~= words_of(buffer@));
        }
        if encrypting {
            Xtea::encipher(&mut words, &self.key);
        } else {
            Xtea::decipher(&mut words, &self.key);
        }
        let ghost cipher = words@;
        let mut out: Vec<u8> = Vec::new();
        let mut j: usize = 0;
        while j < words.len()
            invariant
                words@ == cipher,
                j <= cipher.len(),
                input.len() + BLOCK_SIZE <= usize::MAX,
                cipher.len() == padded(input).len() / 4,
                out@ == bytes_of(cipher.take(j as int)),
            decreases cipher.len() - j,
        {
            let mut bytes = u32_to_le_bytes(words[j]);
            proof {
                vstd::bytes::lemma_auto_spec_u32_to_from_le_bytes();
            }
            let ghost before = out@;
            out.append(&mut bytes);
            j = j + 1;
            proof {
                assert(out@ =~= bytes_of(cipher.take(j as int)));
            }
        }
        proof {
            assert(cipher.take(j as int) =~= cipher);
        }
        out
    }

    /// Encrypts each whole pair of words in place.
    fn encipher(blocks: &mut Vec<u32>, key: &[u32; 4])
        ensures
            final(blocks)@ == encipher_blocks(key@, old(blocks)@),
    {
        let ghost start = blocks@;
        let n = blocks.len();
        let mut p: usize = 0;
        while p < n / 2
            invariant
                n == start.len(),
                blocks@.len() == n,
                p <= n / 2,
                forall|j: int| 0 <= j < 2 * p ==> blocks@[j] == encipher_blocks(key@, start)[j],
                forall|j: int| 2 * p <= j < n ==> blocks@[j] == start[j],
            decreases n / 2 - p,
        {
            let mut a = blocks[2 * p];
            let mut b = blocks[2 * p + 1];
            let mut s: u32 = 0;
            let ghost goal = encipher_rounds(key@, a, b, 0, ROUNDS as nat);
            let mut r: usize = 0;
            while r < ROUNDS
                invariant
                    r <= ROUNDS,
                    goal == encipher_rounds(key@, a, b, s, (ROUNDS - r) as nat),
                decreases ROUNDS - r,
            {
                let k1 = (s & 3) as usize;
                proof {
                    assert(s & 3u32 < 4) by (bit_vector);
                }
                a = a.wrapping_add((((b << 4) ^ (b >> 5)).wrapping_add(b)) ^ s.wrapping_add(key[k1]));
                s = s.wrapping_add(DELTA);
                let k2 = ((s >> 11) & 3) as usize;
                proof {
                    assert((s >> 11u32) & 3u32 < 4) by (bit_vector);
                }
                b = b.wrapping_add((((a << 4) ^ (a >> 5)).wrapping_add(a)) ^ s.wrapping_add(key[k2]));
                r = r + 1;
            }
            blocks.set(2 * p, a);
            blocks.set(2 * p + 1, b);
            p = p + 1;
        }
        proof {
            assert(blocks@ =~= encipher_blocks(key@, start));
        }
    }

    /// Decrypts each whole pair of words in place.
    fn decipher(blocks: &mut Vec<u32>, key: &[u32; 4])
        ensures
            final(blocks)@ == decipher_blocks(key@, old(blocks)@),
    {
        let ghost start = blocks@;
        let n = blocks.len();
        let sum: u32 = DELTA.wrapping_mul(ROUNDS as u32);
        let mut p: usize = 0;
        while p < n / 2
            invariant
                n == start.len(),
                blocks@.len() == n,
                p <= n / 2,
                sum == decipher_start(),
                forall|j: int| 0 <= j < 2 * p ==> blocks@[j] == decipher_blocks(key@, start)[j],
                forall|j: int| 2 * p <= j < n ==> blocks@[j] == start[j],
            decreases n / 2 - p,
        {
            let mut a = blocks[2 * p];
            let mut b = blocks[2 * p + 1];
            let mut s: u32 = sum;
            let ghost goal = decipher_rounds(key@, a, b, sum, ROUNDS as nat);
            let mut r: usize = 0;
            while r < ROUNDS
                invariant
                    r <= ROUNDS,
                    goal == decipher_rounds(key@, a, b, s, (ROUNDS - r) as nat),
                decreases ROUNDS - r,
            {
                let k2 = ((s >> 11) & 3) as usize;
                proof {
                    assert((s >> 11u32) & 3u32 < 4) by (bit_vector);
                }
                b = b.wrapping_sub((((a << 4) ^ (a >> 5)).wrapping_add(a)) ^ s.wrapping_add(key[k2]));
                s = s.wrapping_sub(DELTA);
                let k1 = (s & 3) as usize;
                proof {
                    assert(s & 3u32 < 4) by (bit_vector);
                }
                a = a.wrapping_sub((((b << 4) ^ (b >> 5)).wrapping_add(b)) ^ s.wrapping_add(key[k1]));
                r = r + 1;
            }
            blocks.set(2 * p, a);
            blocks.set(2 * p + 1, b);
            p = p + 1;
        }
        proof {
            assert(blocks@ =~= decipher_blocks(key@, start));
        }
    }
}

} // verus!
