//! Sealing an archive into one encrypted file, and opening it again.
//!
//! An archive is compressed as an xz stream, padded to whole blocks as PKCS
//! #7 has it, and encrypted block by block with AES-128 (ECB mode) under the
//! first sixteen bytes of the key. The compression, the block cipher and
//! the MD5 digest are the work of outside crates; what this module proves
//! of them holds over the names given here to their results. The padding is
//! this module's own.
use vstd::prelude::*;

verus! {

/// Number of key bytes the cipher uses.
pub const KEY_LEN: usize = 16;

/// Number of bytes in one block of the cipher.
pub const BLOCK_LEN: usize = 16;

/// Compression preset of sealed archives.
pub const XZ_PRESET: u32 = 0;

/// Highest compression preset there is.
pub const XZ_MAX_PRESET: u32 = 9;

/// The xz stream that compressing `data` at `preset` gives. The compressor
/// is built from the source that comes with the outside crate, so that the
/// stream does not depend on the machine.
pub uninterp spec fn xz_compressed(data: Seq<u8>, preset: u32) -> Seq<u8>;

/// What decompressing the xz stream `data` gives, where it is one.
pub uninterp spec fn xz_decompressed(data: Seq<u8>) -> Option<Seq<u8>>;

/// The AES-128 ciphertext of the whole blocks `blocks` under `key`, each
/// block encrypted by itself and nothing added.
pub uninterp spec fn aes128_ecb_encrypted(key: Seq<u8>, blocks: Seq<u8>) -> Seq<u8>;

/// The AES-128 plaintext of the whole blocks `blocks` under `key`, each
/// block decrypted by itself and nothing taken away.
pub uninterp spec fn aes128_ecb_decrypted(key: Seq<u8>, blocks: Seq<u8>) -> Seq<u8>;

/// The MD5 digest of `data`, its sixteen bytes read as one big-endian
/// number.
pub uninterp spec fn md5_digest(data: Seq<u8>) -> u128;

/// Why sealing or opening an archive failed.
#[derive(Clone, Copy, Debug, PartialEq, Eq, Structural)]
pub enum ArchiveError {
    /// The key has fewer bytes than the cipher needs.
    KeyTooShort,
    /// The archive is too large to be held in memory once padded.
    TooLarge,
    /// The sealed bytes hold no xz stream.
    Compression,
    /// The sealed bytes are no whole blocks, or their padding is out of
    /// order.
    Cipher,
}

/// Compresses `data` by reading it through `xz2::read::XzEncoder` at
/// `preset`. Reading from bytes in memory reports no error, and the bytes
/// read are the xz stream of `data`.
#[verifier::external_body]
fn xz_compress(data: &[u8], preset: u32) -> (outcome: Option<Vec<u8>>)
    requires
        preset <= XZ_MAX_PRESET,
    ensures
        outcome.is_some(),
        outcome.unwrap()@ == xz_compressed(data@, preset),
{
    let mut compressed = Vec::new();
    let mut encoder = xz2::read::XzEncoder::new(data, preset);
    match std::io::Read::read_to_end(&mut encoder, &mut compressed) {
        Ok(_) => Some(compressed),
        Err(_) => None,
    }
}

/// Decompresses `data` by reading it through `xz2::read::XzDecoder`. The
/// decoder reports an error exactly where `data` is no xz stream; else the
/// bytes read are the content of the stream. Where `data` is the stream
/// that compressing some bytes at one of the presets gave, the decoder
/// gives those bytes back: that decompression undoes compression is taken
/// on trust here.
#[verifier::external_body]
fn xz_decompress(data: &[u8]) -> (outcome: Option<Vec<u8>>)
    ensures
        outcome.is_some() == xz_decompressed(data@).is_some(),
        outcome.is_some() ==> Some(outcome.unwrap()@) == xz_decompressed(data@),
        forall|plain: Seq<u8>, preset: u32|
            preset <= XZ_MAX_PRESET && data@ == #[trigger] xz_compressed(plain, preset)
                ==> outcome.is_some() && outcome.unwrap()@ == plain,
{
    let mut plain = Vec::new();
    let mut decoder = xz2::read::XzDecoder::new(data);
    match std::io::Read::read_to_end(&mut decoder, &mut plain) {
        Ok(_) => Some(plain),
        Err(_) => None,
    }
}

/// Encrypts the whole blocks `blocks` with one call of the encryptor that
/// `crypto::aes::ecb_encryptor` makes for a 128-bit key and no padding,
/// into a buffer of `room` bytes. Hands back the bytes written and whether
/// the encryptor was done. With room for every block it is done, and has
/// written the ciphertext, which is as long as `blocks`.
#[verifier::external_body]
fn aes128_ecb_encrypt(key: &[u8], blocks: &[u8], room: usize) -> (outcome: Option<(Vec<u8>, bool)>)
    requires
        key@.len() == KEY_LEN,
        spec_whole_blocks(blocks@.len()),
        room >= blocks@.len(),
    ensures
        outcome.is_some() && outcome.unwrap().1,
        outcome.unwrap().0@ == aes128_ecb_encrypted(key@, blocks@),
        outcome.unwrap().0@.len() == blocks@.len(),
{
    let mut buffer = vec![0u8; room];
    let mut input = crypto::buffer::RefReadBuffer::new(blocks);
    let mut output = crypto::buffer::RefWriteBuffer::new(&mut buffer);
    let mut encryptor = crypto::aes::ecb_encryptor(
        crypto::aes::KeySize::KeySize128,
        key,
        crypto::blockmodes::NoPadding,
    );
    let done = match encryptor.encrypt(&mut input, &mut output, true) {
        Ok(crypto::buffer::BufferResult::BufferUnderflow) => true,
        Ok(crypto::buffer::BufferResult::BufferOverflow) => false,
        Err(_) => return None,
    };
    let mut written = crypto::buffer::WriteBuffer::take_read_buffer(&mut output);
    Some((crypto::buffer::ReadBuffer::take_remaining(&mut written).to_vec(), done))
}

/// Decrypts `blocks` with one call of the decryptor that
/// `crypto::aes::ecb_decryptor` makes for a 128-bit key and no padding,
/// into a buffer of `room` bytes. Hands back the bytes written and whether
/// the decryptor was done. With room for all of `blocks`, it is done
/// exactly where `blocks` are whole blocks, and has then written the
/// plaintext, which is as long as `blocks`. Where `blocks` is the
/// ciphertext of some whole blocks under the same key, the plaintext is
/// those blocks: that decryption undoes encryption is taken on trust here.
#[verifier::external_body]
fn aes128_ecb_decrypt(key: &[u8], blocks: &[u8], room: usize) -> (outcome: Option<(Vec<u8>, bool)>)
    requires
        key@.len() == KEY_LEN,
        room >= blocks@.len(),
    ensures
        (outcome.is_some() && outcome.unwrap().1) == (spec_whole_blocks(blocks@.len())),
        outcome.is_some() && outcome.unwrap().1 ==> outcome.unwrap().0@ == aes128_ecb_decrypted(
            key@,
            blocks@,
        ) && outcome.unwrap().0@.len() == blocks@.len(),
        forall|plain: Seq<u8>|
            spec_whole_blocks(plain.len()) && blocks@ == #[trigger] aes128_ecb_encrypted(
                key@,
                plain,
            ) ==> outcome.is_some() && outcome.unwrap().1 && outcome.unwrap().0@ == plain,
{
    let mut buffer = vec![0u8; room];
    let mut input = crypto::buffer::RefReadBuffer::new(blocks);
    let mut output = crypto::buffer::RefWriteBuffer::new(&mut buffer);
    let mut decryptor = crypto::aes::ecb_decryptor(
        crypto::aes::KeySize::KeySize128,
        key,
        crypto::blockmodes::NoPadding,
    );
    let done = match decryptor.decrypt(&mut input, &mut output, true) {
        Ok(crypto::buffer::BufferResult::BufferUnderflow) => true,
        Ok(crypto::buffer::BufferResult::BufferOverflow) => false,
        Err(_) => return None,
    };
    let mut written = crypto::buffer::WriteBuffer::take_read_buffer(&mut output);
    Some((crypto::buffer::ReadBuffer::take_remaining(&mut written).to_vec(), done))
}

/// Computes the MD5 digest of `data` with `md5::compute` and reads its
/// sixteen bytes as one big-endian number.
#[verifier::external_body]
fn md5_of(data: &[u8]) -> (digest: u128)
    ensures
        digest == md5_digest(data@),
{
    u128::from_be_bytes(md5::compute(data).0)
}

/// The part of `key` that the cipher and the digest use: its first sixteen
/// bytes.
pub open spec fn spec_cipher_key(key: Seq<u8>) -> Seq<u8> {
    key.subrange(0, KEY_LEN as int)
}

/// The digest by which a key is known: the MD5 digest of its first sixteen
/// bytes.
pub open spec fn spec_key_digest(key: Seq<u8>) -> u128 {
    md5_digest(spec_cipher_key(key))
}

/// Whether `len` bytes are whole blocks.
pub open spec fn spec_whole_blocks(len: nat) -> bool {
    len % (BLOCK_LEN as nat) == 0
}

/// Number of padding bytes that data of `len` bytes gets: as many as fill
/// the last block, and a whole block where the data ends on one.
pub open spec fn spec_pad_len(len: int) -> int {
    BLOCK_LEN as int - len % (BLOCK_LEN as int)
}

/// `data` padded to whole blocks: followed by as many bytes as fill the
/// last block, each of them holding their number.
pub open spec fn spec_pkcs_padded(data: Seq<u8>) -> Seq<u8> {
    data + Seq::new(spec_pad_len(data.len() as int) as nat, |i: int| spec_pad_len(data.len() as int) as u8)
}

/// Whether `padded` ends in padding that is in order: it is made of whole
/// blocks, at least one, and its last byte, a number from 1 to 16, says how
/// many bytes at the end hold that number.
pub open spec fn spec_padding_in_order(padded: Seq<u8>) -> bool {
    &&& padded.len() > 0
    &&& spec_whole_blocks(padded.len())
    &&& 1 <= padded.last() <= BLOCK_LEN
    &&& forall|i: int|
        padded.len() - padded.last() <= i < padded.len() ==> padded[i] == padded.last()
}

/// `padded` without its padding, where the padding is in order.
pub open spec fn spec_pkcs_stripped(padded: Seq<u8>) -> Option<Seq<u8>> {
    if spec_padding_in_order(padded) {
        Some(padded.subrange(0, padded.len() - padded.last()))
    } else {
        None
    }
}

/// What sealing `archive` under `key` gives: the archive compressed, padded
/// and encrypted.
pub open spec fn spec_sealed(archive: Seq<u8>, key: Seq<u8>) -> Seq<u8> {
    aes128_ecb_encrypted(
        spec_cipher_key(key),
        spec_pkcs_padded(xz_compressed(archive, XZ_PRESET)),
    )
}

/// The xz stream that `sealed` holds under `key`: its blocks decrypted and
/// the padding taken off. `None` where `sealed` is not made of whole blocks
/// or the padding is out of order.
pub open spec fn spec_unsealed(sealed: Seq<u8>, key: Seq<u8>) -> Option<Seq<u8>> {
    if spec_whole_blocks(sealed.len()) {
        spec_pkcs_stripped(aes128_ecb_decrypted(spec_cipher_key(key), sealed))
    } else {
        None
    }
}

/// What opening `sealed` under `key` gives: the blocks decrypted, the
/// padding taken off and the rest decompressed, where each step succeeds.
pub open spec fn spec_opened(sealed: Seq<u8>, key: Seq<u8>) -> Option<Seq<u8>> {
    match spec_unsealed(sealed, key) {
        Some(compressed) => xz_decompressed(compressed),
        None => None,
    }
}

/// Why sealing under `key` fails, where it does: the key is too short, or
/// the compressed archive leaves no room for its padding.
pub open spec fn spec_seal_failure(archive: Seq<u8>, key: Seq<u8>) -> Option<ArchiveError> {
    if key.len() < KEY_LEN {
        Some(ArchiveError::KeyTooShort)
    } else if xz_compressed(archive, XZ_PRESET).len() + BLOCK_LEN > usize::MAX {
        Some(ArchiveError::TooLarge)
    } else {
        None
    }
}

/// Why opening `sealed` under `key` fails, where it does: the key is too
/// short, the blocks or their padding are out of order, or what they hold
/// is no xz stream.
pub open spec fn spec_open_failure(sealed: Seq<u8>, key: Seq<u8>) -> Option<ArchiveError> {
    if key.len() < KEY_LEN {
        Some(ArchiveError::KeyTooShort)
    } else if spec_unsealed(sealed, key).is_none() {
        Some(ArchiveError::Cipher)
    } else if spec_opened(sealed, key).is_none() {
        Some(ArchiveError::Compression)
    } else {
        None
    }
}

/// Padding comes off again: what is padded and then stripped is what it
/// was.
pub proof fn lemma_pad_then_strip(data: Seq<u8>)
    ensures
        spec_pkcs_padded(data).len() == data.len() + spec_pad_len(data.len() as int),
        1 <= spec_pad_len(data.len() as int) <= BLOCK_LEN,
        spec_whole_blocks(spec_pkcs_padded(data).len()),
        spec_padding_in_order(spec_pkcs_padded(data)),
        spec_pkcs_stripped(spec_pkcs_padded(data)) == Some(data),
{
    let pad = spec_pad_len(data.len() as int);
    let padded = spec_pkcs_padded(data);
    assert(1 <= pad <= 16);
    assert(padded.len() == data.len() + pad);
    assert((data.len() + pad) % 16 == 0) by {
        assert(data.len() as int == 16 * (data.len() as int / 16) + data.len() as int % 16);
    }
    assert(padded.last() == pad as u8);
    assert forall|i: int| padded.len() - padded.last() <= i < padded.len() implies padded[i]
        == padded.last() by {
        assert(padded[i] == pad as u8);
    }
    assert(padded.subrange(0, padded.len() - padded.last()) =~= data);
}

/// The first sixteen bytes of `key`.
fn cipher_key(key: &Vec<u8>) -> (head: Vec<u8>)
    requires
        key@.len() >= KEY_LEN,
    ensures
        head@ == spec_cipher_key(key@),
{
    let mut head: Vec<u8> = Vec::new();
    let mut at: usize = 0;
    while at < KEY_LEN
        invariant
            at <= KEY_LEN,
            key@.len() >= KEY_LEN,
            head@ == key@.subrange(0, at as int),
        decreases KEY_LEN - at,
    {
        head.push(key[at]);
        proof {
            assert(head@ =~= key@.subrange(0, at + 1));
        }
        at = at + 1;
    }
    head
}

/// The digest by which `key` is known; `None` where the key is too short.
pub fn key_digest(key: &Vec<u8>) -> (digest: Option<u128>)
    ensures
        digest == (if key@.len() >= KEY_LEN {
            Some(spec_key_digest(key@))
        } else {
            None
        }),
{
    if key.len() < KEY_LEN {
        None
    } else {
        let head = cipher_key(key);
        Some(md5_of(head.as_slice()))
    }
}

/// What the cipher's answer comes to: the bytes it wrote, where it was
/// done; a failure where it reported an error or was not done.
pub open spec fn spec_cipher_outcome(answer: Option<(Vec<u8>, bool)>) -> Result<
    Vec<u8>,
    ArchiveError,
> {
    match answer {
        Some((bytes, true)) => Ok(bytes),
        _ => Err(ArchiveError::Cipher),
    }
}

/// Decides what the cipher's answer comes to.
pub fn cipher_outcome(answer: Option<(Vec<u8>, bool)>) -> (outcome: Result<Vec<u8>, ArchiveError>)
    ensures
        outcome == spec_cipher_outcome(answer),
{
    match answer {
        Some((bytes, done)) => {
            if done {
                Ok(bytes)
            } else {
                Err(ArchiveError::Cipher)
            }
        },
        None => Err(ArchiveError::Cipher),
    }
}

/// Pads `data` to whole blocks.
pub fn pkcs_pad(data: &Vec<u8>) -> (padded: Vec<u8>)
    requires
        data@.len() + BLOCK_LEN <= usize::MAX,
    ensures
        padded@ == spec_pkcs_padded(data@),
        spec_whole_blocks(padded@.len()),
        data@.len() < padded@.len() <= data@.len() + BLOCK_LEN,
{
    let pad: usize = BLOCK_LEN - data.len() % BLOCK_LEN;
    let mut padded = data.clone();
    let mut added: usize = 0;
    while added < pad
        invariant
            added <= pad,
            pad == spec_pad_len(data@.len() as int),
            1 <= pad <= BLOCK_LEN,
            data@.len() + BLOCK_LEN <= usize::MAX,
            padded@ == data@ + Seq::new(added as nat, |i: int| pad as u8),
        decreases pad - added,
    {
        padded.push(pad as u8);
        proof {
            assert(padded@ =~= data@ + Seq::new((added + 1) as nat, |i: int| pad as u8));
        }
        added = added + 1;
    }
    proof {
        lemma_pad_then_strip(data@);
    }
    padded
}

/// Takes the padding off `padded`; fails where the padding is out of order.
pub fn pkcs_strip(padded: Vec<u8>) -> (outcome: Result<Vec<u8>, ArchiveError>)
    ensures
        match outcome {
            Ok(data) => spec_pkcs_stripped(padded@) == Some(data@),
            Err(error) => error == ArchiveError::Cipher && spec_pkcs_stripped(padded@).is_none(),
        },
{
    let len: usize = padded.len();
    if len == 0 || len % BLOCK_LEN != 0 {
        return Err(ArchiveError::Cipher);
    }
    let last: u8 = padded[len - 1];
    if last == 0 || last as usize > BLOCK_LEN {
        return Err(ArchiveError::Cipher);
    }
    let start: usize = len - last as usize;
    let mut at: usize = start;
    while at < len
        invariant
            start <= at <= len,
            len == padded@.len(),
            start == len - last,
            last == padded@.last(),
            forall|i: int| start <= i < at ==> padded@[i] == last,
        decreases len - at,
    {
        if padded[at] != last {
            return Err(ArchiveError::Cipher);
        }
        at = at + 1;
    }
    let mut data = padded;
    data.truncate(start);
    Ok(data)
}

/// Seals `archive` under `key`: compresses it, pads the compressed bytes to
/// whole blocks, and encrypts them under the first sixteen bytes of the key.
///
/// Sealing succeeds unless the key has fewer than sixteen bytes or the
/// compressed archive, with a block of padding, would not fit in memory.
/// What is sealed is made of whole blocks, at least one.
pub fn seal(archive: &Vec<u8>, key: &Vec<u8>) -> (outcome: Result<Vec<u8>, ArchiveError>)
    ensures
        outcome.is_ok() == spec_seal_failure(archive@, key@).is_none(),
        match outcome {
            Ok(sealed) => sealed@ == spec_sealed(archive@, key@) && sealed@.len() > 0
                && spec_whole_blocks(sealed@.len()),
            Err(error) => spec_seal_failure(archive@, key@) == Some(error),
        },
{
    if key.len() < KEY_LEN {
        return Err(ArchiveError::KeyTooShort);
    }
    let head = cipher_key(key);
    let compressed = match xz_compress(archive.as_slice(), XZ_PRESET) {
        Some(bytes) => bytes,
        None => {
            return Err(ArchiveError::Compression);
        },
    };
    if compressed.len() > usize::MAX - BLOCK_LEN {
        return Err(ArchiveError::TooLarge);
    }
    let padded = pkcs_pad(&compressed);
    cipher_outcome(aes128_ecb_encrypt(head.as_slice(), padded.as_slice(), padded.len()))
}

/// Opens what [`seal`] made: decrypts the blocks of `sealed` under the first
/// sixteen bytes of `key`, takes the padding off, and decompresses.
///
/// Opening fails where the key has fewer than sixteen bytes, where `sealed`
/// is not made of whole blocks or its padding is out of order, and where
/// what it holds is no xz stream; it succeeds on everything else. What
/// sealing some archive under the same key gave always opens, to that
/// archive.
pub fn open(sealed: &Vec<u8>, key: &Vec<u8>) -> (outcome: Result<Vec<u8>, ArchiveError>)
    ensures
        outcome.is_ok() == (key@.len() >= KEY_LEN && spec_opened(sealed@, key@).is_some()),
        match outcome {
            Ok(archive) => Some(archive@) == spec_opened(sealed@, key@),
            Err(error) => spec_open_failure(sealed@, key@) == Some(error),
        },
        forall|archive: Seq<u8>|
            key@.len() >= KEY_LEN && sealed@ == #[trigger] spec_sealed(archive, key@)
                ==> outcome.is_ok() && outcome.unwrap()@ == archive,
{
    if key.len() < KEY_LEN {
        return Err(ArchiveError::KeyTooShort);
    }
    let head = cipher_key(key);
    let decrypted = aes128_ecb_decrypt(head.as_slice(), sealed.as_slice(), sealed.len());
    proof {
        assert forall|archive: Seq<u8>| sealed@ == #[trigger] spec_sealed(archive, key@) implies decrypted.is_some()
            && decrypted.unwrap().1 && decrypted.unwrap().0@ == spec_pkcs_padded(
            xz_compressed(archive, XZ_PRESET),
        ) by {
            lemma_pad_then_strip(xz_compressed(archive, XZ_PRESET));
        }
    }
    let padded = match cipher_outcome(decrypted) {
        Ok(bytes) => bytes,
        Err(error) => {
            return Err(error);
        },
    };
    let compressed = match pkcs_strip(padded) {
        Ok(bytes) => bytes,
        Err(error) => {
            return Err(error);
        },
    };
    proof {
        assert forall|archive: Seq<u8>| sealed@ == #[trigger] spec_sealed(archive, key@) implies compressed@
            == xz_compressed(archive, XZ_PRESET) by {
            lemma_pad_then_strip(xz_compressed(archive, XZ_PRESET));
        }
    }
    match xz_decompress(compressed.as_slice()) {
        Some(archive) => Ok(archive),
        None => Err(ArchiveError::Compression),
    }
}

} // verus!
