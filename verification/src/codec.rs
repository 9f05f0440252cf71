//! The byte layout of the stored data: bincode's fixed-width encoding,
//! where every length is a little-endian `u64` followed by the items.

use vstd::prelude::*;
use vstd::utf8::encode_utf8;

verus! {

/// The `k` low bytes of `n`, least significant first.
pub open spec fn le_bytes(n: nat, k: nat) -> Seq<u8>
    decreases k,
{
    if k == 0 {
        Seq::empty()
    } else {
        seq![(n % 256) as u8] + le_bytes(n / 256, (k - 1) as nat)
    }
}

/// A length as bincode writes it: eight bytes, little-endian.
pub open spec fn encode_len(n: nat) -> Seq<u8> {
    le_bytes(n, 8)
}

/// A string: the length of its UTF-8 bytes, then the bytes.
pub open spec fn encode_str(s: Seq<char>) -> Seq<u8> {
    encode_len(encode_utf8(s).len()) + encode_utf8(s)
}

/// A byte vector: its length, then the bytes.
pub open spec fn encode_bytes(b: Seq<u8>) -> Seq<u8> {
    encode_len(b.len()) + b
}

/// One stored entry: site, user, password.
pub open spec fn encode_entry(e: ((Seq<char>, Seq<char>), Seq<char>)) -> Seq<u8> {
    encode_str(e.0.0) + encode_str(e.0.1) + encode_str(e.1)
}

/// The entries one after the other, with no length in front.
pub open spec fn encode_entry_items(s: Seq<((Seq<char>, Seq<char>), Seq<char>)>) -> Seq<u8>
    decreases s.len(),
{
    if s.len() == 0 {
        Seq::empty()
    } else {
        encode_entry_items(s.drop_last()) + encode_entry(s.last())
    }
}

/// The whole store: the number of entries, then the entries.
pub open spec fn encode_entries(s: Seq<((Seq<char>, Seq<char>), Seq<char>)>) -> Seq<u8> {
    encode_len(s.len()) + encode_entry_items(s)
}

/// A configuration file: the secret key bytes, then the database path.
pub open spec fn encode_config(key: Seq<u8>, db: Seq<char>) -> Seq<u8> {
    encode_bytes(key) + encode_str(db)
}

} // verus!
