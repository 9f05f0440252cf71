//! The outside code that the library calls, with the contracts that it
//! is trusted to meet.

use vstd::prelude::*;

use crate::codec::{encode_config, encode_entries};
use vstd::arithmetic::power2::pow2;
use crate::store::entries_view;
use rand::Rng;

use bincode::ErrorKind as BincodeErrorKind;
use bincode_aes::CryptorError as AesKeyError;

verus! {

/// The error that bincode reports.
#[verifier::external_type_specification]
#[verifier::external_body]
pub struct ExBincodeError(BincodeErrorKind);

/// An error of the operating system's input and output.
#[verifier::external_type_specification]
#[verifier::external_body]
pub struct ExIoError(std::io::Error);

/// The error that bincode_aes reports for a key of the wrong size.
#[verifier::external_type_specification]
#[verifier::external_body]
pub struct ExKeySizeError(AesKeyError);

/// The AES key type of bincode_aes.
#[verifier::external_type_specification]
#[verifier::external_body]
pub struct ExKey(bincode_aes::Key);

/// A keyed encryptor of bincode_aes.
#[verifier::external_type_specification]
#[verifier::external_body]
pub struct ExBincodeCryptor(bincode_aes::BincodeCryptor);

/// The thread-local random number generator of rand.
#[verifier::external_type_specification]
#[verifier::external_body]
pub struct ExThreadRng(rand::rngs::ThreadRng);

/// What `bincode::deserialize` reads from `bytes` as a list of entries
/// ((site, user), password): `None` where it fails.
pub uninterp spec fn bincode_decode_entries(bytes: Seq<u8>) -> Option<Seq<((Seq<char>, Seq<char>), Seq<char>)>>;

/// Calls `bincode::serialize` on the entries. The contract claims that the
/// bytes, when it succeeds, are bincode's fixed-width layout (lengths as
/// little-endian `u64`), and that `bincode::deserialize` reads them back as
/// the same entries. It succeeds: the lengths are known, there is no size
/// limit and the output is a `Vec`, which takes every write.
#[verifier::external_body]
pub(crate) fn bincode_serialize_entries(entries: &Vec<((String, String), String)>) -> (r: Result<Vec<u8>, Box<BincodeErrorKind>>)
    ensures
        r is Ok,
        r matches Ok(b) ==> b@ == encode_entries(entries_view(entries@)),
        r matches Ok(b) ==> bincode_decode_entries(b@) == Some(entries_view(entries@)),
{
    bincode::serialize(entries)
}

/// Calls `bincode::deserialize` for a list of entries. The contract claims
/// that it succeeds exactly when `bincode_decode_entries` is `Some`, and
/// then gives those entries; the error value is left unsaid.
#[verifier::external_body]
pub(crate) fn bincode_deserialize_entries(bytes: &[u8]) -> (r: Result<Vec<((String, String), String)>, Box<BincodeErrorKind>>)
    ensures
        r is Ok <==> bincode_decode_entries(bytes@) is Some,
        r matches Ok(v) ==> bincode_decode_entries(bytes@) == Some(entries_view(v@)),
{
    bincode::deserialize(bytes)
}

/// An ASCII letter or digit: `0-9`, `A-Z` or `a-z`.
pub open spec fn is_alphanumeric_byte(b: u8) -> bool {
    (48 <= b <= 57) || (65 <= b <= 90) || (97 <= b <= 122)
}

/// The thread-local generator of rand, together with the bytes that it
/// has drawn so far.
pub struct Sampler {
    rng: rand::rngs::ThreadRng,
    drawn: Ghost<Seq<u8>>,
}

impl Sampler {
    /// The bytes drawn so far, in the order they were drawn.
    pub closed spec fn drawn(&self) -> Seq<u8> {
        self.drawn@
    }
}

/// Calls `rand::thread_rng`, the thread-local generator, which has drawn
/// nothing yet through this sampler.
#[verifier::external_body]
pub(crate) fn thread_rng() -> (r: Sampler)
    ensures
        r.drawn() == Seq::<u8>::empty(),
{
    Sampler { rng: rand::thread_rng(), drawn: Ghost(Seq::empty()) }
}

/// Calls `Rng::sample` with `rand::distributions::Alphanumeric`. The
/// contract claims what rand documents of every outcome, that the byte is
/// an ASCII letter or digit, and records the byte as the sampler's latest
/// draw.
#[verifier::external_body]
pub(crate) fn sample_alphanumeric(sampler: &mut Sampler) -> (b: u8)
    ensures
        is_alphanumeric_byte(b),
        final(sampler).drawn() == old(sampler).drawn().push(b),
{
    let b: u8 = sampler.rng.sample(rand::distributions::Alphanumeric);
    sampler.drawn = Ghost(sampler.drawn@.push(b));
    b
}

/// Calls `String::push`, which appends the character to the string.
#[verifier::external_body]
pub(crate) fn string_push(s: &mut String, c: char)
    ensures
        final(s)@ == old(s)@.push(c),
{
    s.push(c)
}

/// What `crypto::scrypt::scrypt` writes into an output of `len` bytes for
/// the password, the salt and the parameters `log_n`, `r`, `p`.
pub uninterp spec fn scrypt_output(password: Seq<u8>, salt: Seq<u8>, log_n: u8, r: u32, p: u32, len: usize) -> Seq<u8>;

/// Calls `crypto::scrypt::ScryptParams::new(log_n, r, p)` and then
/// `crypto::scrypt::scrypt` into a fresh output of `len` bytes. The
/// `requires` leaves out the parameters on which either panics, the
/// output lengths included whose 32-byte blocks PBKDF2 cannot count in a
/// `u32`; the
/// contract claims that the output has `len` bytes and is
/// `scrypt_output` of the arguments.
#[verifier::external_body]
pub(crate) fn scrypt(password: &[u8], salt: &[u8], log_n: u8, r: u32, p: u32, len: usize) -> (out: Vec<u8>)
    requires
        0 < log_n,
        (log_n as u32) < usize::BITS,
        0 < r,
        0 < p,
        r * 128 * pow2(log_n as nat) <= usize::MAX,
        r * 128 * p <= usize::MAX,
        log_n < r * 16,
        r * p < 0x40000000,
        0 < len,
        len <= 32 * 0xffffffff,
    ensures
        out@.len() == len,
        out@ == scrypt_output(password@, salt@, log_n, r, p, len),
{
    let params = crypto::scrypt::ScryptParams::new(log_n, r, p);
    let mut out = vec![0u8; len];
    crypto::scrypt::scrypt(password, salt, &params, &mut out);
    out
}

/// An AES key of bincode_aes together with the bytes it was made from.
pub struct AesKey {
    inner: bincode_aes::Key,
    bytes: Ghost<Seq<u8>>,
}

impl AesKey {
    /// The bytes of the key.
    pub closed spec fn bytes(&self) -> Seq<u8> {
        self.bytes@
    }
}

/// An encryptor of bincode_aes together with the bytes of its key.
pub struct Cryptor {
    inner: bincode_aes::BincodeCryptor,
    key: Ghost<Seq<u8>>,
}

impl Cryptor {
    /// The bytes of the AES key that the encryptor uses.
    pub closed spec fn key(&self) -> Seq<u8> {
        self.key@
    }

    /// The encryptor of bincode_aes.
    pub fn encryptor(&self) -> (r: &bincode_aes::BincodeCryptor) {
        &self.inner
    }
}

/// Calls `bincode_aes::create_key`, which accepts exactly the keys of 32
/// bytes (AES-256), refuses the others with `InvalidKeySize`, and keeps
/// the bytes it was given as the key.
#[verifier::external_body]
pub(crate) fn create_key(key_bytes: Vec<u8>) -> (r: Result<AesKey, bincode_aes::CryptorError>)
    ensures
        r is Ok <==> key_bytes@.len() == 32,
        r matches Ok(k) ==> k.bytes() == key_bytes@,
{
    let bytes = Ghost(key_bytes@);
    match bincode_aes::create_key(key_bytes) {
        Ok(inner) => Ok(AesKey { inner, bytes }),
        Err(e) => Err(e),
    }
}

/// Calls `bincode_aes::with_key`, which makes an encryptor that holds the
/// key it is given.
#[verifier::external_body]
pub(crate) fn with_key(key: AesKey) -> (r: Cryptor)
    ensures
        r.key() == key.bytes(),
{
    let AesKey { inner, bytes } = key;
    Cryptor { inner: bincode_aes::with_key(inner), key: bytes }
}

/// What `bincode::deserialize` reads from `bytes` as a configuration
/// file (secret key bytes, database path): `None` where it fails.
pub uninterp spec fn bincode_decode_config(bytes: Seq<u8>) -> Option<(Seq<u8>, Seq<char>)>;

/// Calls `bincode::serialize` on a configuration file (secret key bytes,
/// database path). The contract claims that the bytes, when it succeeds,
/// are bincode's fixed-width layout and that `bincode::deserialize` reads
/// them back as the same pair. It succeeds: the lengths are known, there is
/// no size limit and the output is a `Vec`, which takes every write.
#[verifier::external_body]
pub(crate) fn bincode_serialize_config(file: &(Vec<u8>, String)) -> (r: Result<Vec<u8>, Box<BincodeErrorKind>>)
    ensures
        r is Ok,
        r matches Ok(b) ==> b@ == encode_config(file.0@, file.1@),
        r matches Ok(b) ==> bincode_decode_config(b@) == Some((file.0@, file.1@)),
{
    bincode::serialize(file)
}

/// Calls `bincode::deserialize` for a configuration file. The contract
/// claims that it succeeds exactly when `bincode_decode_config` is
/// `Some`, and then gives that pair; the error value is left unsaid.
#[verifier::external_body]
pub(crate) fn bincode_deserialize_config(bytes: &[u8]) -> (r: Result<(Vec<u8>, String), Box<BincodeErrorKind>>)
    ensures
        r is Ok <==> bincode_decode_config(bytes@) is Some,
        r matches Ok(v) ==> bincode_decode_config(bytes@) == Some((v.0@, v.1@)),
{
    bincode::deserialize(bytes)
}

} // verus!
