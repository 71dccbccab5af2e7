//! The keystream cipher: a fixed secret that is combined with a stream by
//! exclusive or, starting at a place that a digest of the stream's seed selects.

use vstd::prelude::*;
use vstd::slice::slice_to_vec;
use vstd::utf8::encode_utf8;

use crate::arclib::error::Error;
use crate::arclib::utils::{md5, md5_digest};

verus! {

/// Length of the secret, in bytes.
pub const KEY_LEN: usize = 43;

/// Where in the secret a stream starts, given the digest of its seed: the
/// eighth byte of the digest, reduced modulo the secret's length.
pub open spec fn key_index_of(digest: Seq<u8>) -> int {
    digest[7] as int % (KEY_LEN as int)
}

/// Where in the secret the stream of a seed starts. The seed, itself the
/// hexadecimal text of a path's digest, is hashed once more.
pub open spec fn start_index(seed: Seq<u8>) -> int {
    key_index_of(md5_digest(seed)@)
}

/// The bytes of `data`, each combined by exclusive or with the byte of the
/// secret that the repeating keystream holds at its place, the first byte of
/// `data` meeting the secret at `start`.
pub open spec fn keystream_xor(key: Seq<u8>, start: int, data: Seq<u8>) -> Seq<u8> {
    Seq::new(data.len(), |i: int| data[i] ^ key[(start + i) % (KEY_LEN as int)])
}

/// What the cipher makes of `data` under a secret and a seed.
pub open spec fn cipher(key: Seq<u8>, seed: Seq<u8>, data: Seq<u8>) -> Seq<u8> {
    keystream_xor(key, start_index(seed), data)
}

/// The keystream cipher: a secret of exactly `KEY_LEN` bytes.
#[derive(Debug)]
pub struct MD5Crypt {
    /// The secret.
    pub key: [u8; KEY_LEN],
}

/// The place in the secret that the next byte of a stream will meet.
#[derive(Debug)]
pub struct KeyCursor {
    index: usize,
}

impl View for KeyCursor {
    type V = int;

    closed spec fn view(&self) -> int {
        self.index as int
    }
}

impl KeyCursor {
    #[verifier::type_invariant]
    spec fn in_key(self) -> bool {
        self.index < KEY_LEN
    }

    /// The cursor at the start of the stream that `path_md5` seeds.
    pub fn for_seed(path_md5: &str) -> (cursor: KeyCursor)
        ensures
            cursor@ == start_index(encode_utf8(path_md5@)),
    {
        // The seed is hashed again, although it is a digest already.
        let digest = md5(path_md5.as_bytes());
        KeyCursor { index: MD5Crypt::key_index(&digest) }
    }

    /// The place in the secret, counted from its first byte.
    pub fn index(&self) -> (index: usize)
        ensures
            index == self@,
            index < KEY_LEN,
    {
        proof {
            use_type_invariant(self);
        }
        self.index
    }
}

impl MD5Crypt {
    /// Builds the cipher from a secret. The secret is taken as it is when it
    /// has exactly `KEY_LEN` bytes and refused otherwise, never cut or padded.
    pub fn new(k: &[u8]) -> (res: Result<MD5Crypt, Error>)
        ensures
            k@.len() == KEY_LEN ==> (res matches Ok(crypt) && crypt.key@ == k@),
            k@.len() != KEY_LEN ==> (res matches Err(Error::InvalidKeyLength(expected, got))
                && expected == KEY_LEN && got == k@.len()),
    {
        if k.len() != KEY_LEN {
            return Err(Error::InvalidKeyLength(KEY_LEN, k.len()));
        }
        let mut key = [0u8; KEY_LEN];
        let mut i: usize = 0;
        while i < KEY_LEN
            invariant
                i <= KEY_LEN,
                k@.len() == KEY_LEN,
                forall|j: int| 0 <= j < i ==> key@[j] == k@[j],
            decreases KEY_LEN - i,
        {
            key[i] = k[i];
            i += 1;
        }
        Ok(MD5Crypt { key })
    }

    /// Where in the secret a stream starts, given the digest of its seed.
    pub fn key_index(digest: &[u8; 16]) -> (index: usize)
        ensures
            index == key_index_of(digest@),
            index < KEY_LEN,
    {
        (digest[7] as usize) % KEY_LEN
    }

    /// Transforms the next piece of a stream in place and moves the cursor
    /// past it, so that a stream of any length can go through piece by piece.
    pub fn apply_chunk(&self, cursor: &mut KeyCursor, chunk: &mut [u8])
        ensures
            final(chunk)@ == keystream_xor(self.key@, old(cursor)@, old(chunk)@),
            final(cursor)@ == (old(cursor)@ + old(chunk)@.len()) % (KEY_LEN as int),
    {
        proof {
            use_type_invariant(&*cursor);
        }
        let ghost start = cursor.index as int;
        let ghost before = chunk@;
        let mut key_index = cursor.index;
        let mut i: usize = 0;
        while i < chunk.len()
            invariant
                i <= chunk.len(),
                chunk@.len() == before.len(),
                key_index < KEY_LEN,
                key_index == (start + i) % (KEY_LEN as int),
                0 <= start < KEY_LEN,
                forall|j: int| 0 <= j < i ==> chunk@[j] == keystream_xor(self.key@, start, before)[j],
                forall|j: int| i <= j < chunk.len() ==> chunk@[j] == before[j],
            decreases chunk.len() - i,
        {
            chunk[i] = chunk[i] ^ self.key[key_index];
            key_index = (key_index + 1) % KEY_LEN;
            i += 1;
        }
        cursor.index = key_index;
    }

    /// Transforms a whole stream: the bytes of `input` under the keystream
    /// that the seed `path_md5` selects. The same call turns plain bytes into
    /// obfuscated ones and obfuscated ones back into plain ones.
    pub fn apply(&self, path_md5: &str, input: &[u8]) -> (output: Vec<u8>)
        ensures
            output@ == cipher(self.key@, encode_utf8(path_md5@), input@),
    {
        let mut cursor = KeyCursor::for_seed(path_md5);
        let mut output = slice_to_vec(input);
        self.apply_chunk(&mut cursor, output.as_mut_slice());
        output
    }
}

/// Exclusive or with the same byte, twice, gives the byte back.
proof fn lemma_xor_twice(b: u8, k: u8)
    ensures
        (b ^ k) ^ k == b,
{
    assert((b ^ k) ^ k == b) by (bit_vector);
}

/// The keystream is its own inverse: applied twice from the same place in
/// the same secret it gives the data back.
pub proof fn lemma_keystream_involution(key: Seq<u8>, start: int, data: Seq<u8>)
    ensures
        keystream_xor(key, start, keystream_xor(key, start, data)) == data,
{
    let once = keystream_xor(key, start, data);
    let twice = keystream_xor(key, start, once);
    assert forall|i: int| 0 <= i < data.len() implies twice[i] == data[i] by {
        lemma_xor_twice(data[i], key[(start + i) % (KEY_LEN as int)]);
    }
    assert(twice =~= data);
}

/// The cipher is an involution: for every secret, seed and data, applying it
/// to its own output under the same secret and seed gives the data back.
pub proof fn lemma_cipher_involution(key: Seq<u8>, seed: Seq<u8>, data: Seq<u8>)
    ensures
        cipher(key, seed, cipher(key, seed, data)) == data,
{
    lemma_keystream_involution(key, start_index(seed), data);
}

/// A stream may be cut anywhere: transforming the first piece, then the rest
/// from where the first piece left the keystream, equals transforming the
/// whole.
pub proof fn lemma_keystream_split(key: Seq<u8>, start: int, head: Seq<u8>, tail: Seq<u8>)
    ensures
        keystream_xor(key, start, head + tail) == keystream_xor(key, start, head) + keystream_xor(
            key,
            (start + head.len()) % (KEY_LEN as int),
            tail,
        ),
{
    let whole = keystream_xor(key, start, head + tail);
    let next = (start + head.len()) % (KEY_LEN as int);
    let parts = keystream_xor(key, start, head) + keystream_xor(key, next, tail);
    assert forall|i: int| 0 <= i < whole.len() implies whole[i] == parts[i] by {
        if i >= head.len() {
            let j = i - head.len();
            assert((start + i) % (KEY_LEN as int) == (next + j) % (KEY_LEN as int));
        }
    }
    assert(whole =~= parts);
}

/// An all-zero secret leaves every stream as it is.
pub proof fn lemma_zero_key_is_identity(key: Seq<u8>, start: int, data: Seq<u8>)
    requires
        key.len() == KEY_LEN,
        forall|i: int| 0 <= i < KEY_LEN ==> key[i] == 0,
    ensures
        keystream_xor(key, start, data) == data,
{
    let out = keystream_xor(key, start, data);
    assert forall|i: int| 0 <= i < data.len() implies out[i] == data[i] by {
        let k = key[(start + i) % (KEY_LEN as int)];
        assert(k == 0);
        let b = data[i];
        assert(b ^ 0 == b) by (bit_vector);
    }
    assert(out =~= data);
}

} // verus!
