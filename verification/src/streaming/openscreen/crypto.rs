//! Cast Streaming frame encryption.
//!
//! Every encoded frame is encrypted as one unit with AES-128-CTR. The nonce
//! is the 16-byte IV mask (negotiated in the OFFER) XORed with the frame id,
//! written big-endian into bytes 8..12.

use vstd::prelude::*;

use aes::cipher::{KeyIvInit, StreamCipher, StreamCipherSeek};

use crate::mirror::rtp::PayloadProcessor;
use crate::wire::be32;

verus! {

/// Byte `position` of the AES-128-CTR keystream for `key` and the initial
/// counter block `nonce` (the whole 16-byte block counts as one big-endian
/// counter).
pub uninterp spec fn aes128_ctr_keystream(key: Seq<u8>, nonce: Seq<u8>, position: int) -> u8;

/// XORs `buffer[start..]` with the AES-128-CTR keystream of `key` and
/// `nonce`, beginning at keystream byte `position`.
///
/// Calls `ctr::Ctr128BE::<aes::Aes128>::new`, `seek` and `apply_keystream`.
/// The contract claims what CTR mode is: every byte is XORed with the
/// keystream byte at its own position, bytes before `start` are untouched.
/// With a 128-bit counter the keystream never runs out at a `u64` position,
/// so neither call panics. What the keystream bytes are is left to the name
/// `aes128_ctr_keystream`.
#[verifier::external_body]
fn apply_ctr_keystream(
    key: &[u8; 16],
    nonce: &[u8; 16],
    position: u64,
    buffer: &mut Vec<u8>,
    start: usize,
)
    requires
        start <= old(buffer)@.len(),
    ensures
        final(buffer)@.len() == old(buffer)@.len(),
        forall|i: int| 0 <= i < start ==> #[trigger] final(buffer)@[i] == old(buffer)@[i],
        forall|i: int|
            start <= i < old(buffer)@.len() ==> #[trigger] final(buffer)@[i] == old(buffer)@[i]
                ^ aes128_ctr_keystream(key@, nonce@, position + (i - start)),
{
    let mut cipher = ctr::Ctr128BE::<aes::Aes128>::new(&(*key).into(), &(*nonce).into());
    cipher.seek(position);
    cipher.apply_keystream(&mut buffer[start..]);
}

/// The keys of one stream.
pub struct FrameCrypto {
    key: [u8; 16],
    iv_mask: [u8; 16],
}

/// The nonce of frame `frame_id`: the IV mask with the low 32 bits of the
/// frame id XORed, big-endian, into bytes 8..12.
pub open spec fn spec_nonce(iv_mask: Seq<u8>, frame_id: u64) -> Seq<u8> {
    Seq::new(
        16,
        |i: int|
            if 8 <= i < 12 {
                iv_mask[i] ^ be32(frame_id as u32)[i - 8]
            } else {
                iv_mask[i]
            },
    )
}

/// `input` encrypted (or decrypted) with the keystream of `key` and `nonce`,
/// starting at keystream byte `offset`.
pub open spec fn ctr_transform(key: Seq<u8>, nonce: Seq<u8>, offset: int, input: Seq<u8>) -> Seq<
    u8,
> {
    Seq::new(input.len(), |i: int| input[i] ^ aes128_ctr_keystream(key, nonce, offset + i))
}

impl FrameCrypto {
    pub closed spec fn key(&self) -> Seq<u8> {
        self.key@
    }

    pub closed spec fn iv_mask(&self) -> Seq<u8> {
        self.iv_mask@
    }

    pub fn new(key: [u8; 16], iv_mask: [u8; 16]) -> (r: Self)
        ensures
            r.key() == key@,
            r.iv_mask() == iv_mask@,
    {
        Self { key, iv_mask }
    }

    /// The nonce of frame `frame_id`.
    pub fn nonce(&self, frame_id: u64) -> (r: [u8; 16])
        ensures
            r@ == spec_nonce(self.iv_mask(), frame_id),
    {
        let mut nonce = self.iv_mask;
        let id = frame_id as u32;
        let b0 = (id >> 24) as u8;
        let b1 = (id >> 16) as u8;
        let b2 = (id >> 8) as u8;
        let b3 = id as u8;
        assert(b0 == (id / 0x100_0000) as u8 && b1 == (id / 0x1_0000 % 0x100) as u8 && b2 == (id
            / 0x100 % 0x100) as u8 && b3 == (id % 0x100) as u8) by (bit_vector)
            requires
                b0 == (id >> 24) as u8,
                b1 == (id >> 16) as u8,
                b2 == (id >> 8) as u8,
                b3 == id as u8,
        ;
        nonce[8] = nonce[8] ^ b0;
        nonce[9] = nonce[9] ^ b1;
        nonce[10] = nonce[10] ^ b2;
        nonce[11] = nonce[11] ^ b3;
        assert(nonce@ =~= spec_nonce(self.iv_mask@, frame_id));
        nonce
    }

    /// A cipher positioned at the start of `frame_id`'s keystream. Feeding the
    /// frame's bytes through it in order (in any chunk sizes) encrypts the
    /// frame without an intermediate copy.
    pub fn cipher(&self, frame_id: u64) -> (r: FrameCipher)
        ensures
            r.key() == self.key(),
            r.nonce() == spec_nonce(self.iv_mask(), frame_id),
            r.calls() == Seq::<(int, Seq<u8>)>::empty(),
    {
        FrameCipher { key: self.key, nonce: self.nonce(frame_id), log: Ghost(Seq::empty()) }
    }
}

/// The AES-128-CTR keystream of one frame.
pub struct FrameCipher {
    key: [u8; 16],
    nonce: [u8; 16],
    log: Ghost<Seq<(int, Seq<u8>)>>,
}

impl FrameCipher {
    pub closed spec fn key(&self) -> Seq<u8> {
        self.key@
    }

    pub closed spec fn nonce(&self) -> Seq<u8> {
        self.nonce@
    }
}

impl PayloadProcessor for FrameCipher {
    open spec fn processed(&self, offset: int, input: Seq<u8>) -> Seq<u8> {
        ctr_transform(self.key(), self.nonce(), offset, input)
    }

    open spec fn capacity(&self) -> nat {
        usize::MAX as nat
    }

    closed spec fn calls(&self) -> Seq<(int, Seq<u8>)> {
        self.log@
    }

    proof fn lemma_processed_len(&self, offset: int, input: Seq<u8>) {
    }

    fn process(&mut self, buffer: &mut Vec<u8>, start: usize, offset: usize) {
        let ghost before = buffer@;
        self.log = Ghost(self.log@.push((offset as int, before.skip(start as int))));
        apply_ctr_keystream(&self.key, &self.nonce, offset as u64, buffer, start);
        assert(buffer@ =~= before.take(start as int) + ctr_transform(
            self.key@,
            self.nonce@,
            offset as int,
            before.skip(start as int),
        ));
    }
}

/// CTR is symmetric: transforming twice at the same keystream position gives
/// back the input, so the same frame id decrypts what it encrypted.
pub proof fn lemma_ctr_symmetric(key: Seq<u8>, nonce: Seq<u8>, offset: int, input: Seq<u8>)
    ensures
        ctr_transform(key, nonce, offset, ctr_transform(key, nonce, offset, input)) == input,
{
    let once = ctr_transform(key, nonce, offset, input);
    let twice = ctr_transform(key, nonce, offset, once);
    assert forall|i: int| 0 <= i < input.len() implies twice[i] == input[i] by {
        let a = input[i];
        let k = aes128_ctr_keystream(key, nonce, offset + i);
        assert((a ^ k) ^ k == a) by (bit_vector);
    }
    assert(twice =~= input);
}

/// Feeding a frame through the cipher in chunks gives the same bytes as one
/// pass over the whole frame.
pub proof fn lemma_ctr_chunked(
    key: Seq<u8>,
    nonce: Seq<u8>,
    offset: int,
    first: Seq<u8>,
    second: Seq<u8>,
)
    ensures
        ctr_transform(key, nonce, offset, first + second) == ctr_transform(
            key,
            nonce,
            offset,
            first,
        ) + ctr_transform(key, nonce, offset + first.len(), second),
{
    assert(ctr_transform(key, nonce, offset, first + second) =~= ctr_transform(
        key,
        nonce,
        offset,
        first,
    ) + ctr_transform(key, nonce, offset + first.len(), second));
}

/// Frames whose ids differ in their low 32 bits get different nonces, so no
/// two frames of a stream (within 2^32 frames) share a keystream.
pub proof fn lemma_distinct_frames_distinct_nonces(iv_mask: Seq<u8>, a: u64, b: u64)
    requires
        iv_mask.len() == 16,
        a as u32 != b as u32,
    ensures
        spec_nonce(iv_mask, a) != spec_nonce(iv_mask, b),
{
    let x = a as u32;
    let y = b as u32;
    if spec_nonce(iv_mask, a) == spec_nonce(iv_mask, b) {
        assert forall|j: int| 0 <= j < 4 implies be32(x)[j] == be32(y)[j] by {
            let m = iv_mask[8 + j];
            let p = be32(x)[j];
            let q = be32(y)[j];
            assert(spec_nonce(iv_mask, a)[8 + j] == spec_nonce(iv_mask, b)[8 + j]);
            assert(m ^ p == m ^ q ==> p == q) by (bit_vector);
        }
        crate::wire::lemma_be32_roundtrip(x);
        crate::wire::lemma_be32_roundtrip(y);
    }
}

/// Only the low 32 bits of a frame id reach its nonce: frames whose ids agree
/// in those bits share a nonce, and so a keystream.
pub proof fn lemma_nonce_depends_on_low_bits(iv_mask: Seq<u8>, a: u64, b: u64)
    requires
        a as u32 == b as u32,
    ensures
        spec_nonce(iv_mask, a) == spec_nonce(iv_mask, b),
{
    assert(spec_nonce(iv_mask, a) =~= spec_nonce(iv_mask, b));
}

} // verus!
