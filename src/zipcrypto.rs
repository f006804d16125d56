//! The legacy ZipCrypto stream cipher: key schedule, password check and
//! decryption.
use crate::result::{IoErrorKind, ZipError, ZipResult};
use crate::spec::copy_range;
use vstd::prelude::*;

verus! {

/// `c` after `k` rounds of the reflected CRC-32 polynomial division.
pub open spec fn crc_rounds(c: u32, k: nat) -> u32
    decreases k,
{
    if k == 0 {
        c
    } else {
        crc_rounds(if c & 1 == 1 { 0xEDB88320u32 ^ (c >> 1u32) } else { c >> 1u32 }, (k - 1) as nat)
    }
}

/// Entry `n` of the CRC-32 table.
pub open spec fn crc_table(n: u8) -> u32 {
    crc_rounds(n as u32, 8)
}

/// One byte of CRC-32 over the running value `crc`.
pub open spec fn crc_update(crc: u32, b: u8) -> u32 {
    (crc >> 8u32) ^ crc_table(((crc & 0xffu32) as u8) ^ b)
}

/// `x` reduced modulo 2^32.
pub open spec fn wrap32(x: int) -> u32 {
    (x % 0x1_0000_0000) as u32
}

/// The three keys of the cipher.
#[derive(Clone, Copy, Debug, PartialEq, Eq, Structural)]
pub struct ZipCryptoKeys {
    pub key_0: u32,
    pub key_1: u32,
    pub key_2: u32,
}

/// The keys before any byte is fed to them.
pub open spec fn initial_keys() -> ZipCryptoKeys {
    ZipCryptoKeys { key_0: 0x12345678, key_1: 0x23456789, key_2: 0x34567890 }
}

/// The keys after the plain byte `b` is fed to `k`.
pub open spec fn keys_update(k: ZipCryptoKeys, b: u8) -> ZipCryptoKeys {
    let k0 = crc_update(k.key_0, b);
    let k1 = wrap32(wrap32(wrap32(k.key_1 + (k0 & 0xffu32)) * 0x08088405) + 1);
    ZipCryptoKeys { key_0: k0, key_1: k1, key_2: crc_update(k.key_2, (k1 >> 24u32) as u8) }
}

/// The keys derived from a password.
pub open spec fn keys_from_password(pw: Seq<u8>) -> ZipCryptoKeys
    decreases pw.len(),
{
    if pw.len() == 0 {
        initial_keys()
    } else {
        keys_update(keys_from_password(pw.drop_last()), pw.last())
    }
}

/// The byte of key stream that `k` yields.
pub open spec fn stream_byte(k: ZipCryptoKeys) -> u8 {
    let temp = ((k.key_2 % 0x1_0000) as u16) | 3u16;
    let product = ((temp as nat * (temp ^ 1u16) as nat) % 0x1_0000) as u16;
    (product / 0x100) as u8
}

/// The keys after the cipher bytes `c` are decrypted from `k`.
pub open spec fn keys_after(k: ZipCryptoKeys, c: Seq<u8>) -> ZipCryptoKeys
    decreases c.len(),
{
    if c.len() == 0 {
        k
    } else {
        let before = keys_after(k, c.drop_last());
        keys_update(before, stream_byte(before) ^ c.last())
    }
}

/// The plain bytes of the cipher bytes `c` decrypted from `k`.
pub open spec fn decrypt_seq(k: ZipCryptoKeys, c: Seq<u8>) -> Seq<u8>
    decreases c.len(),
{
    if c.len() == 0 {
        Seq::empty()
    } else {
        decrypt_seq(k, c.drop_last()).push(stream_byte(keys_after(k, c.drop_last())) ^ c.last())
    }
}

/// Decryption keeps the length.
pub proof fn lemma_decrypt_len(k: ZipCryptoKeys, c: Seq<u8>)
    ensures
        decrypt_seq(k, c).len() == c.len(),
    decreases c.len(),
{
    if c.len() > 0 {
        lemma_decrypt_len(k, c.drop_last());
    }
}

/// Length of the encryption header in front of each encrypted entry.
pub const HEADER_LEN: usize = 12;

/// The password check: the last decrypted header byte must equal the
/// entry's check byte.
pub open spec fn password_matches(pw: Seq<u8>, window: Seq<u8>, check: u8) -> bool {
    decrypt_seq(keys_from_password(pw), window.subrange(0, 12))[11] == check
}

/// Computes entry `n` of the CRC-32 table.
pub fn crc_table_entry(n: u8) -> (r: u32)
    ensures
        r == crc_table(n),
{
    let mut c: u32 = n as u32;
    let mut i: usize = 0;
    while i < 8
        invariant
            i <= 8,
            crc_rounds(c, (8 - i) as nat) == crc_table(n),
        decreases 8 - i,
    {
        c = if c & 1 == 1 {
            0xEDB88320u32 ^ (c >> 1u32)
        } else {
            c >> 1u32
        };
        i = i + 1;
    }
    c
}

impl ZipCryptoKeys {
    pub fn new() -> (r: ZipCryptoKeys)
        ensures
            r == initial_keys(),
    {
        ZipCryptoKeys { key_0: 0x12345678, key_1: 0x23456789, key_2: 0x34567890 }
    }

    fn crc32(crc: u32, input: u8) -> (r: u32)
        ensures
            r == crc_update(crc, input),
    {
        (crc >> 8u32) ^ crc_table_entry(((crc & 0xffu32) as u8) ^ input)
    }

    /// Feeds the plain byte `input` to the keys.
    pub fn update(&mut self, input: u8)
        ensures
            *final(self) == keys_update(*old(self), input),
    {
        self.key_0 = ZipCryptoKeys::crc32(self.key_0, input);
        self.key_1 = self.key_1.wrapping_add(self.key_0 & 0xff).wrapping_mul(0x08088405).wrapping_add(
            1,
        );
        self.key_2 = ZipCryptoKeys::crc32(self.key_2, (self.key_1 >> 24u32) as u8);
    }

    /// The next byte of key stream.
    pub fn stream_byte(&self) -> (r: u8)
        ensures
            r == stream_byte(*self),
    {
        let temp: u16 = ((self.key_2 % 0x1_0000) as u16) | 3;
        let product: u16 = temp.wrapping_mul(temp ^ 1);
        (product / 0x100) as u8
    }

    /// Decrypts one byte and feeds the plain byte to the keys.
    pub fn decrypt_byte(&mut self, cipher_byte: u8) -> (r: u8)
        ensures
            r == stream_byte(*old(self)) ^ cipher_byte,
            *final(self) == keys_update(*old(self), r),
    {
        let plain_byte: u8 = self.stream_byte() ^ cipher_byte;
        self.update(plain_byte);
        plain_byte
    }

    /// The keys that `password` sets up.
    pub fn derive(password: &[u8]) -> (r: ZipCryptoKeys)
        ensures
            r == keys_from_password(password@),
    {
        let mut keys = ZipCryptoKeys::new();
        let mut i: usize = 0;
        while i < password.len()
            invariant
                i <= password@.len(),
                keys == keys_from_password(password@.subrange(0, i as int)),
            decreases password@.len() - i,
        {
            proof {
                assert(password@.subrange(0, i + 1).drop_last() == password@.subrange(0, i as int));
            }
            keys.update(password[i]);
            i = i + 1;
        }
        proof {
            assert(password@.subrange(0, password@.len() as int) == password@);
        }
        keys
    }
}

/// Decrypts `c` from the keys `k`; returns the plain bytes and the keys after.
pub fn decrypt_bytes(k: ZipCryptoKeys, c: &[u8]) -> (r: (Vec<u8>, ZipCryptoKeys))
    ensures
        r.0@ == decrypt_seq(k, c@),
        r.1 == keys_after(k, c@),
{
    let mut keys = k;
    let mut out: Vec<u8> = Vec::new();
    let mut i: usize = 0;
    while i < c.len()
        invariant
            i <= c@.len(),
            out@ == decrypt_seq(k, c@.subrange(0, i as int)),
            keys == keys_after(k, c@.subrange(0, i as int)),
        decreases c@.len() - i,
    {
        proof {
            assert(c@.subrange(0, i + 1).drop_last() == c@.subrange(0, i as int));
        }
        let b = keys.decrypt_byte(c[i]);
        out.push(b);
        i = i + 1;
    }
    proof {
        assert(c@.subrange(0, c@.len() as int) == c@);
    }
    (out, keys)
}

/// A reader of an encrypted entry whose keys are set up from a password but
/// whose header is not yet checked.
pub struct ZipCryptoReader {
    pub file: Vec<u8>,
    pub keys: ZipCryptoKeys,
}

/// A reader of an encrypted entry whose header passed the password check:
/// `file` holds the cipher bytes after the header.
pub struct ZipCryptoReaderValid {
    pub file: Vec<u8>,
    pub keys: ZipCryptoKeys,
}

impl ZipCryptoReader {
    /// Sets up the keys for `password` over the cipher bytes `file`.
    pub fn new(file: Vec<u8>, password: &[u8]) -> (r: ZipCryptoReader)
        ensures
            r.file@ == file@,
            r.keys == keys_from_password(password@),
    {
        ZipCryptoReader { file, keys: ZipCryptoKeys::derive(password) }
    }

    /// Decrypts the 12-byte header and checks its last byte against `check`:
    /// `Ok(None)` means a wrong password.
    pub fn validate(self, check: u8) -> (r: ZipResult<Option<ZipCryptoReaderValid>>)
        ensures
            self.file@.len() < 12 ==> r == Err::<Option<ZipCryptoReaderValid>, ZipError>(
                ZipError::Io(IoErrorKind::UnexpectedEof),
            ),
            self.file@.len() >= 12 ==> r is Ok,
            self.file@.len() >= 12 ==> (r->Ok_0 is Some <==> decrypt_seq(
                self.keys,
                self.file@.subrange(0, 12),
            )[11] == check),
            r matches Ok(Some(v)) ==> v.file@ == self.file@.subrange(12, self.file@.len() as int)
                && v.keys == keys_after(self.keys, self.file@.subrange(0, 12)),
    {
        if self.file.len() < HEADER_LEN {
            return Err(ZipError::Io(IoErrorKind::UnexpectedEof));
        }
        let header = copy_range(self.file.as_slice(), 0, HEADER_LEN);
        let (plain, keys) = decrypt_bytes(self.keys, header.as_slice());
        proof {
            lemma_decrypt_len(self.keys, header@);
        }
        if check != plain[11] {
            return Ok(None);
        }
        let rest = copy_range(self.file.as_slice(), HEADER_LEN, self.file.len());
        Ok(Some(ZipCryptoReaderValid { file: rest, keys }))
    }
}

impl ZipCryptoReaderValid {
    /// The plain bytes that remain.
    pub open spec fn plain(&self) -> Seq<u8> {
        decrypt_seq(self.keys, self.file@)
    }

    /// Decrypts all that remains.
    pub fn decrypt_all(&self) -> (r: Vec<u8>)
        ensures
            r@ == self.plain(),
    {
        decrypt_bytes(self.keys, self.file.as_slice()).0
    }

    /// Consumes this decoder, returning the cipher bytes that remain.
    pub fn into_inner(self) -> (r: Vec<u8>)
        ensures
            r@ == self.file@,
    {
        self.file
    }
}

} // verus!
