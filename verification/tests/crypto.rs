use aes::cipher::{BlockCipherEncrypt, KeyInit};
use shell_cast::mirror::rtp::PayloadProcessor;
use shell_cast::streaming::openscreen::crypto::FrameCrypto;

fn encrypt(crypto: &FrameCrypto, frame_id: u64, data: &[u8]) -> Vec<u8> {
    let mut out = data.to_vec();
    crypto.cipher(frame_id).process(&mut out, 0, 0);
    out
}

#[test]
fn ctr_construction_matches_openssl_aes_ctr128() {
    let key = [7_u8; 16];
    let iv_mask = [0x55_u8; 16];
    let frame_id = 0x0102_0304_u64;

    let crypto = FrameCrypto::new(key, iv_mask);
    let encrypted = encrypt(&crypto, frame_id, &[0_u8; 16]);

    let mut nonce = iv_mask;
    nonce[8] ^= 0x01;
    nonce[9] ^= 0x02;
    nonce[10] ^= 0x03;
    nonce[11] ^= 0x04;
    assert_eq!(crypto.nonce(frame_id), nonce);
    let ecb = aes::Aes128::new(&key.into());
    let mut block = aes::Block::from(nonce);
    ecb.encrypt_block(&mut block);
    assert_eq!(encrypted, block.to_vec());
}

#[test]
fn chunked_keystream_matches_one_shot() {
    let crypto = FrameCrypto::new([3; 16], [4; 16]);
    let data: Vec<u8> = (0..100).map(|i| i as u8).collect();
    let whole = encrypt(&crypto, 9, &data);
    let mut cipher = crypto.cipher(9);
    let mut chunked = Vec::new();
    let mut offset = 0;
    for chunk in data.chunks(33) {
        let start = chunked.len();
        chunked.extend_from_slice(chunk);
        cipher.process(&mut chunked, start, offset);
        offset += chunk.len();
    }
    assert_eq!(chunked, whole);
}

#[test]
fn different_frames_use_different_keystreams() {
    let crypto = FrameCrypto::new([1; 16], [2; 16]);
    let a = encrypt(&crypto, 1, b"hello cast streaming");
    let b = encrypt(&crypto, 2, b"hello cast streaming");
    assert_ne!(a, b);
    assert_eq!(encrypt(&crypto, 1, &a), b"hello cast streaming");
}

#[test]
fn bytes_before_the_start_are_left_alone() {
    let crypto = FrameCrypto::new([9; 16], [8; 16]);
    let mut buffer = vec![1_u8, 2, 3, 4, 5];
    crypto.cipher(3).process(&mut buffer, 2, 0);
    assert_eq!(&buffer[..2], &[1, 2]);
    let tail = encrypt(&crypto, 3, &[3, 4, 5]);
    assert_eq!(&buffer[2..], &tail[..]);
}

#[test]
fn only_the_low_32_bits_of_the_frame_id_reach_the_nonce() {
    let crypto = FrameCrypto::new([0; 16], [0; 16]);
    assert_eq!(crypto.nonce(5), crypto.nonce(5 + (1 << 32)));
    assert_ne!(crypto.nonce(5), crypto.nonce(6));
}
