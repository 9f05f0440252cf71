//! The configuration: where the database is kept and the key that its
//! encryptor uses.

use vstd::prelude::*;
use vstd::arithmetic::power2::lemma2_to64;
use vstd::string::StringSliceAdditionalSpecFns;

use crate::error::Error;
use crate::outside::{
    bincode_decode_config, bincode_deserialize_config, bincode_serialize_config, create_key,
    scrypt, scrypt_output, with_key, Cryptor,
};

verus! {

/// Where the database is kept unless another place is set.
pub const DEFAULT_DB_PATH: &'static str = ".passman-db";

/// The salt of the key derivation: the bytes of "salt".
pub open spec fn key_salt() -> Seq<u8> {
    seq![115u8, 97u8, 108u8, 116u8]
}

/// The 32-byte key that scrypt (log2 N = 11, r = 8, p = 2) derives from a
/// secret.
pub open spec fn derive_key(secret: Seq<u8>) -> Seq<u8> {
    scrypt_output(secret, key_salt(), 11, 8, 2, 32)
}

/// What a configuration file holds, where it is one that `from_file`
/// accepts: the key bytes (32 of them) and the database path.
pub open spec fn accepted_config(bytes: Seq<u8>) -> Option<(Seq<u8>, Seq<char>)> {
    match bincode_decode_config(bytes) {
        Some(d) => if d.0.len() == 32 { Some(d) } else { None },
        None => None,
    }
}

/// The settings of the password manager.
pub struct Config {
    /// The encryptor, which holds the key.
    pub cryptor: Cryptor,
    db_location: String,
}

/// The 32-byte key that scrypt derives from a secret, with the fixed salt
/// and parameters.
fn derive(secret: &str) -> (out: Vec<u8>)
    ensures
        out@ == scrypt_output(secret.spec_bytes(), seq!['s' as u8, 'a' as u8, 'l' as u8, 't' as u8], 11, 8, 2, 32),
        out@.len() == 32,
{
    let salt: Vec<u8> = vec![115u8, 97u8, 108u8, 116u8];
    proof {
        lemma2_to64();
        assert(salt@ =~= key_salt());
    }
    scrypt(secret.as_bytes(), salt.as_slice(), 11, 8, 2, 32)
}

impl Config {
    /// The key that the encryptor holds.
    pub closed spec fn key_bytes(&self) -> Seq<u8> {
        self.cryptor.key()
    }

    /// The encryptor.
    pub closed spec fn held_cryptor(&self) -> Cryptor {
        self.cryptor
    }

    /// The database file location.
    pub closed spec fn db(&self) -> Seq<char> {
        self.db_location@
    }

    /// Create a new config
    pub fn new(key: &str) -> (r: Result<Config, Error>)
        ensures
            r matches Ok(c) && c.key_bytes() == scrypt_output(key.spec_bytes(), seq!['s' as u8, 'a' as u8, 'l' as u8, 't' as u8], 11, 8, 2, 32) && c.db() == DEFAULT_DB_PATH@,
    {
        let key_bytes = derive(key);
        match create_key(key_bytes) {
            Ok(aes_key) => Ok(Config { cryptor: with_key(aes_key), db_location: DEFAULT_DB_PATH.to_owned() }),
            Err(e) => Err(Error::from(e)),
        }
    }

    /// Returns a Config from the contents of a config file, which must be
    /// a bincode encoding of a configuration file
    pub fn from_file(contents: &Vec<u8>) -> (r: Result<Config, Error>)
        requires
            bincode_decode_config(contents@) is Some,
        ensures
            r is Ok <==> accepted_config(contents@) is Some,
            r matches Ok(c) ==> (c.key_bytes(), c.db()) == accepted_config(contents@).unwrap(),
            r matches Err(e) ==> e.kind is CryptorError,
    {
        match bincode_deserialize_config(contents.as_slice()) {
            Ok(file) => {
                let (secret, db) = file;
                match create_key(secret) {
                    Ok(aes_key) => Ok(Config { cryptor: with_key(aes_key), db_location: db }),
                    Err(e) => Err(Error::from(e)),
                }
            },
            Err(e) => Err(Error::from(e)),
        }
    }

    /// Returns a Config from the contents of a config file, or the
    /// `Serialization` error where they are not a bincode encoding of one
    pub fn try_from_file(contents: &Vec<u8>) -> (r: Result<Config, Error>)
        ensures
            r is Ok <==> accepted_config(contents@) is Some,
            r matches Ok(c) ==> (c.key_bytes(), c.db()) == accepted_config(contents@).unwrap(),
            r matches Err(e) ==> (bincode_decode_config(contents@) is None ==> e.kind is Serialization),
            r matches Err(e) ==> (bincode_decode_config(contents@) is Some ==> e.kind is CryptorError),
    {
        match bincode_deserialize_config(contents.as_slice()) {
            Ok(_) => Config::from_file(contents),
            Err(e) => Err(Error::from(e)),
        }
    }

    /// Saves a Config: the bytes of the config file, holding the key that
    /// `secret_key` derives and the database location
    pub fn to_file(&self, secret_key: &str) -> (r: Result<Vec<u8>, Error>)
        ensures
            r is Ok,
            r matches Ok(b) ==> b@ == crate::codec::encode_config(
                scrypt_output(secret_key.spec_bytes(), seq!['s' as u8, 'a' as u8, 'l' as u8, 't' as u8], 11, 8, 2, 32),
                self.db(),
            ),
            r matches Ok(b) ==> accepted_config(b@) == Some((
                scrypt_output(secret_key.spec_bytes(), seq!['s' as u8, 'a' as u8, 'l' as u8, 't' as u8], 11, 8, 2, 32),
                self.db(),
            )),
    {
        let key_bytes = derive(secret_key);
        let file = (key_bytes, self.db_location.clone());
        match bincode_serialize_config(&file) {
            Ok(bytes) => Ok(bytes),
            Err(e) => Err(Error::from(e)),
        }
    }

    /// Set the secret key
    pub fn set_key(self, key: &str) -> (r: Result<Config, Error>)
        ensures
            r is Ok <==> key.spec_bytes().len() == 32,
            r matches Ok(c) ==> c.key_bytes() == key.spec_bytes() && c.db() == self.db(),
            r matches Err(e) ==> e.kind is CryptorError,
    {
        let bytes = vstd::slice::slice_to_vec(key.as_bytes());
        match create_key(bytes) {
            Ok(aes_key) => {
                let mut c = self;
                c.cryptor = with_key(aes_key);
                Ok(c)
            },
            Err(e) => Err(Error::from(e)),
        }
    }

    /// Set the database file location
    pub fn set_db(self, path: &str) -> (r: Config)
        ensures
            r.db() == path@,
            r.held_cryptor() == self.held_cryptor(),
            r.key_bytes() == self.key_bytes(),
    {
        let mut c = self;
        c.db_location = path.to_owned();
        c
    }

    /// Get the database file location
    pub fn db_path(&self) -> (r: &str)
        ensures
            r@ == self.db(),
    {
        self.db_location.as_str()
    }
}

/// The key of a configuration is the key that its encryptor holds.
pub proof fn lemma_key_bytes_is_cryptor_key(c: Config)
    ensures
        c.key_bytes() == c.held_cryptor().key(),
{
}

/// The key derivation uses the whole secret: `derive_key` is scrypt with
/// all bytes of the secret as the password, the bytes of "salt" as the
/// salt, log2 N = 11, r = 8, p = 2 and a 32-byte output. So two secrets
/// that differ in any byte are handed to scrypt as different passwords.
pub proof fn law_derive_key_is_scrypt_of_the_whole_secret(secret: Seq<u8>, other: Seq<u8>)
    ensures
        derive_key(secret) == scrypt_output(secret, seq!['s' as u8, 'a' as u8, 'l' as u8, 't' as u8], 11, 8, 2, 32),
        key_salt() == seq!['s' as u8, 'a' as u8, 'l' as u8, 't' as u8],
        secret != other ==> derive_key(secret) == scrypt_output(secret, seq!['s' as u8, 'a' as u8, 'l' as u8, 't' as u8], 11, 8, 2, 32)
            && derive_key(other) == scrypt_output(other, seq!['s' as u8, 'a' as u8, 'l' as u8, 't' as u8], 11, 8, 2, 32),
{
}

/// A configuration written with the secret it was made from reads back
/// with the same key and the same database path: for `c` with the key
/// that `secret` derives (as `Config::new(secret)` gives), `bytes` from
/// `c.to_file(secret)`, and `reloaded` from `Config::from_file(bytes)`.
pub proof fn law_config_reload(c: Config, secret: Seq<u8>, bytes: Seq<u8>, reloaded: Config)
    requires
        c.key_bytes() == derive_key(secret),
        accepted_config(bytes) == Some((derive_key(secret), c.db())),
        (reloaded.key_bytes(), reloaded.db()) == accepted_config(bytes).unwrap(),
    ensures
        reloaded.key_bytes() == c.key_bytes(),
        reloaded.db() == c.db(),
{
}

} // verus!
