# passman

A command-line password manager. The library keeps passwords keyed by the
site they are for and the user name, writes and reads them in bincode's
fixed-width layout, holds the configuration (database location and the
scrypt-derived encryption key), and generates random alphanumeric
passwords. The library under `src/` is verified with Verus; `app/` is the
command-line program around it (argument parsing, prompts, files).

- `src/store.rs`: the password store and its laws
- `src/config.rs`: the configuration and its file
- `src/codec.rs`: the byte layout of the stored data
- `src/password.rs`: password generation
- `src/error.rs`: the error type
- `src/outside.rs`: the calls into bincode, bincode_aes, rust-crypto, rand
  and std, with the contracts they are trusted to meet

The store keeps its entries in a `Vec` with the invariant that no (site,
user) pair occurs twice, rather than in a `HashMap`. vstd specifies
`HashMap` only for key types that satisfy its `obeys_key_model`, which it
grants to primitive integer and `bool` keys alone; a key of two `String`s
would need that fact assumed, and this crate assumes nothing. The map that
`get` and `save_or_update` are specified against is the same either way:
inserting the entries in order, a later one for a key replacing an
earlier one.
