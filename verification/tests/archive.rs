use dirworld::archive::{
    cipher_outcome, key_digest, open, pkcs_pad, pkcs_strip, seal, ArchiveError,
};

fn key() -> Vec<u8> {
    b"0123456789abcdefXYZ".to_vec()
}

#[test]
fn seal_then_open_gives_the_archive_back() {
    let archive: Vec<u8> = (0..5000u32).map(|i| (i % 251) as u8).collect();
    let sealed = seal(&archive, &key()).unwrap();
    assert_ne!(sealed, archive);
    assert_eq!(sealed.len() % 16, 0);
    assert_eq!(open(&sealed, &key()).unwrap(), archive);
}

#[test]
fn seal_of_nothing_opens_to_nothing() {
    let sealed = seal(&Vec::new(), &key()).unwrap();
    assert!(!sealed.is_empty());
    assert_eq!(open(&sealed, &key()).unwrap(), Vec::<u8>::new());
}

/// AES-128 in ECB mode with PKCS padding, by the cipher crate itself.
fn encrypt(key: &[u8], plain: &[u8]) -> Vec<u8> {
    let mut buffer = vec![0u8; plain.len() + 16];
    let mut input = crypto::buffer::RefReadBuffer::new(plain);
    let mut output = crypto::buffer::RefWriteBuffer::new(&mut buffer);
    let mut encryptor = crypto::aes::ecb_encryptor(
        crypto::aes::KeySize::KeySize128,
        key,
        crypto::blockmodes::PkcsPadding,
    );
    let done = encryptor.encrypt(&mut input, &mut output, true);
    assert!(matches!(done, Ok(crypto::buffer::BufferResult::BufferUnderflow)));
    let mut written = crypto::buffer::WriteBuffer::take_read_buffer(&mut output);
    crypto::buffer::ReadBuffer::take_remaining(&mut written).to_vec()
}

/// AES-128 block by block, nothing added, by the cipher crate itself.
fn encrypt_blocks(key: &[u8], blocks: &[u8]) -> Vec<u8> {
    let mut buffer = vec![0u8; blocks.len()];
    let mut input = crypto::buffer::RefReadBuffer::new(blocks);
    let mut output = crypto::buffer::RefWriteBuffer::new(&mut buffer);
    let mut encryptor = crypto::aes::ecb_encryptor(
        crypto::aes::KeySize::KeySize128,
        key,
        crypto::blockmodes::NoPadding,
    );
    let done = encryptor.encrypt(&mut input, &mut output, true);
    assert!(matches!(done, Ok(crypto::buffer::BufferResult::BufferUnderflow)));
    let mut written = crypto::buffer::WriteBuffer::take_read_buffer(&mut output);
    crypto::buffer::ReadBuffer::take_remaining(&mut written).to_vec()
}

/// The xz stream of `data` at preset 0, by the compression crate itself.
fn compress(data: &[u8]) -> Vec<u8> {
    let mut compressed = Vec::new();
    let mut encoder = xz2::read::XzEncoder::new(data, 0);
    std::io::Read::read_to_end(&mut encoder, &mut compressed).unwrap();
    compressed
}

#[test]
fn sealed_is_the_encrypted_xz_stream() {
    let archive: Vec<u8> = (0..2000u32).map(|i| (i % 7) as u8).collect();
    let compressed = compress(&archive);
    assert_eq!(&compressed[..6], &[0xfd, b'7', b'z', b'X', b'Z', 0x00]);
    assert!(compressed.len() < archive.len());
    let sealed = seal(&archive, &key()).unwrap();
    assert_eq!(sealed, encrypt(b"0123456789abcdef", &compressed));
    assert_eq!(sealed.len(), (compressed.len() / 16 + 1) * 16);
}

#[test]
fn one_block_of_zeros_under_the_zero_key() {
    // Known answer for AES-128: a block of zeros under the zero key.
    let sealed = seal(&Vec::new(), &vec![0u8; 16]).unwrap();
    let opened = open(&sealed, &vec![0u8; 16]).unwrap();
    assert!(opened.is_empty());
    let block = encrypt(&[0u8; 16], &[0u8; 16]);
    assert_eq!(
        &block[..16],
        &[
            0x66, 0xe9, 0x4b, 0xd4, 0xef, 0x8a, 0x2c, 0x3b, 0x88, 0x4c, 0xfa, 0x59, 0xca, 0x34,
            0x2b, 0x2e
        ]
    );
}

#[test]
fn only_the_first_sixteen_key_bytes_count() {
    let sealed_a = seal(&vec![1, 2, 3], &key()).unwrap();
    let sealed_b = seal(&vec![1, 2, 3], &b"0123456789abcdef".to_vec()).unwrap();
    assert_eq!(sealed_a, sealed_b);
    assert_eq!(open(&sealed_a, &b"0123456789abcdef-and-more".to_vec()).unwrap(), vec![1, 2, 3]);
}

#[test]
fn short_key_is_refused() {
    let short = b"too short".to_vec();
    assert_eq!(seal(&vec![1, 2, 3], &short), Err(ArchiveError::KeyTooShort));
    assert_eq!(open(&vec![0; 32], &short), Err(ArchiveError::KeyTooShort));
    assert_eq!(key_digest(&short), None);
}

#[test]
fn open_with_wrong_key_fails() {
    let sealed = seal(&vec![7; 100], &key()).unwrap();
    let other = b"fedcba9876543210".to_vec();
    assert!(open(&sealed, &other).is_err());
}

#[test]
fn open_of_garbage_fails() {
    assert_eq!(open(&vec![1, 2, 3], &key()), Err(ArchiveError::Cipher));
    assert!(open(&vec![0; 16], &key()).is_err());
    assert!(open(&vec![0xab; 4096], &key()).is_err());
}

#[test]
fn open_of_encrypted_bytes_that_are_no_xz_stream_fails() {
    let sealed = encrypt(b"0123456789abcdef", b"not an xz stream at all");
    assert_eq!(open(&sealed, &key()), Err(ArchiveError::Compression));
}

#[test]
fn large_archive_goes_through() {
    let archive: Vec<u8> = (0..300_000u32).map(|i| (i.wrapping_mul(2654435761) >> 24) as u8).collect();
    let sealed = seal(&archive, &key()).unwrap();
    assert_eq!(open(&sealed, &key()).unwrap(), archive);
}

#[test]
fn key_digest_is_md5_of_first_sixteen_bytes() {
    // MD5 of "0123456789abcdef".
    let expected = u128::from_be_bytes(md5::compute(b"0123456789abcdef").0);
    assert_eq!(key_digest(&key()), Some(expected));
    assert_eq!(format!("{:032x}", expected), "4032af8d61035123906e58e067140cc5");
}

#[test]
fn padding_fills_the_last_block() {
    assert_eq!(pkcs_pad(&Vec::new()), vec![16u8; 16]);
    assert_eq!(pkcs_pad(&vec![7]), [vec![7u8], vec![15u8; 15]].concat());
    assert_eq!(pkcs_pad(&vec![9; 15]), [vec![9u8; 15], vec![1u8]].concat());
    assert_eq!(pkcs_pad(&vec![9; 16]), [vec![9u8; 16], vec![16u8; 16]].concat());
    assert_eq!(pkcs_pad(&vec![3; 17]).len(), 32);
    assert_eq!(pkcs_pad(&vec![3; 17])[17..], [15u8; 15]);
}

#[test]
fn padding_comes_off_again() {
    for len in 0..50usize {
        let data: Vec<u8> = (0..len).map(|i| (i * 5) as u8).collect();
        let padded = pkcs_pad(&data);
        assert_eq!(padded.len() % 16, 0);
        assert!(padded.len() > data.len());
        assert_eq!(pkcs_strip(padded), Ok(data));
    }
}

#[test]
fn padding_out_of_order_is_refused() {
    assert_eq!(pkcs_strip(Vec::new()), Err(ArchiveError::Cipher));
    assert_eq!(pkcs_strip(vec![1; 15]), Err(ArchiveError::Cipher));
    assert_eq!(pkcs_strip(vec![1; 17]), Err(ArchiveError::Cipher));
    assert_eq!(pkcs_strip(vec![0; 16]), Err(ArchiveError::Cipher));
    assert_eq!(pkcs_strip(vec![17; 32]), Err(ArchiveError::Cipher));
    assert_eq!(pkcs_strip(vec![0x20; 16]), Err(ArchiveError::Cipher));
    assert_eq!(pkcs_strip(vec![255; 256]), Err(ArchiveError::Cipher));
    let mut broken = vec![4u8; 16];
    broken[13] = 5;
    assert_eq!(pkcs_strip(broken), Err(ArchiveError::Cipher));
    // The bytes before the padding do not matter.
    let mut fine = vec![9u8; 16];
    fine[15] = 2;
    fine[14] = 2;
    assert_eq!(pkcs_strip(fine), Ok(vec![9u8; 14]));
    assert_eq!(pkcs_strip(vec![16; 16]), Ok(Vec::new()));
    assert_eq!(pkcs_strip(vec![1; 16]), Ok(vec![1; 15]));
}

#[test]
fn last_block_of_equal_bytes_above_sixteen_is_refused() {
    for value in [17u8, 0x20, 100, 255] {
        let sealed = encrypt_blocks(b"0123456789abcdef", &[value; 16]);
        assert_eq!(open(&sealed, &key()), Err(ArchiveError::Cipher));
        let longer = encrypt_blocks(b"0123456789abcdef", &[value; 48]);
        assert_eq!(open(&longer, &key()), Err(ArchiveError::Cipher));
    }
}

#[test]
fn sealed_bytes_that_are_no_whole_blocks_are_refused() {
    let sealed = seal(&vec![1, 2, 3], &key()).unwrap();
    for cut in [1usize, 15, 17] {
        let part = sealed[..sealed.len() - cut].to_vec();
        assert_eq!(open(&part, &key()), Err(ArchiveError::Cipher));
    }
    assert_eq!(open(&Vec::new(), &key()), Err(ArchiveError::Cipher));
}

#[test]
fn whole_blocks_that_hold_no_xz_stream_are_refused() {
    let sealed = encrypt_blocks(b"0123456789abcdef", &pkcs_pad(&b"plain text".to_vec()));
    assert_eq!(open(&sealed, &key()), Err(ArchiveError::Compression));
    let empty = encrypt_blocks(b"0123456789abcdef", &[16u8; 16]);
    assert_eq!(open(&empty, &key()), Err(ArchiveError::Compression));
}

#[test]
fn sealing_always_gives_whole_blocks() {
    for len in [0usize, 1, 15, 16, 17, 1000, 4096] {
        let archive = vec![0x5a; len];
        let sealed = seal(&archive, &key()).unwrap();
        assert!(!sealed.is_empty());
        assert_eq!(sealed.len() % 16, 0);
        assert_eq!(sealed, encrypt_blocks(b"0123456789abcdef", &pkcs_pad(&compress(&archive))));
        assert_eq!(open(&sealed, &key()), Ok(archive));
    }
}

#[test]
fn answer_of_the_cipher() {
    assert_eq!(cipher_outcome(Some((vec![1, 2], true))), Ok(vec![1, 2]));
    assert_eq!(cipher_outcome(Some((vec![1, 2], false))), Err(ArchiveError::Cipher));
    assert_eq!(cipher_outcome(None), Err(ArchiveError::Cipher));
}
