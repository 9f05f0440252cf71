//! Random passwords made of ASCII letters and digits.

use vstd::prelude::*;

use crate::outside::{is_alphanumeric_byte, sample_alphanumeric, string_push, thread_rng, Sampler};

verus! {

/// The length of a password when none is asked for.
pub const DEFAULT_PASSWORD_LEN: usize = 12;

/// An ASCII letter or digit.
pub open spec fn is_alphanumeric_char(c: char) -> bool {
    ('0' <= c <= '9') || ('A' <= c <= 'Z') || ('a' <= c <= 'z')
}

/// The length that `genpass` gives a password.
pub open spec fn password_len(len: Option<usize>) -> nat {
    match len {
        Some(n) => n as nat,
        None => DEFAULT_PASSWORD_LEN as nat,
    }
}

/// The password spelled by the bytes, each read as the character of that
/// code.
pub fn password_from_bytes(bytes: &Vec<u8>) -> (r: String)
    ensures
        r@ == bytes@.map_values(|b: u8| b as char),
{
    let mut r = String::new();
    let mut i: usize = 0;
    while i < bytes.len()
        invariant
            i <= bytes@.len(),
            r@ == bytes@.take(i as int).map_values(|b: u8| b as char),
        decreases bytes@.len() - i,
    {
        let c = bytes[i] as char;
        string_push(&mut r, c);
        proof {
            assert(bytes@.take(i + 1).map_values(|b: u8| b as char)
                =~= bytes@.take(i as int).map_values(|b: u8| b as char).push(c));
        }
        i = i + 1;
    }
    proof {
        assert(bytes@.take(i as int) =~= bytes@);
    }
    r
}

/// The thread-local generator, with nothing drawn through it yet.
pub fn new_sampler() -> (r: Sampler)
    ensures
        r.drawn() == Seq::<u8>::empty(),
{
    thread_rng()
}

/// A password of the length if provided (12 otherwise), drawn from the
/// sampler: each character is the next byte that the Alphanumeric
/// distribution gave, in the order drawn.
pub fn genpass_with(sampler: &mut Sampler, len: Option<usize>) -> (r: String)
    ensures
        len matches Some(n) ==> r@.len() == n,
        len is None ==> r@.len() == 12,
        final(sampler).drawn().len() == old(sampler).drawn().len() + r@.len(),
        final(sampler).drawn().take(old(sampler).drawn().len() as int) == old(sampler).drawn(),
        r@ == final(sampler).drawn().skip(old(sampler).drawn().len() as int).map_values(|b: u8| b as char),
        forall|i: int| 0 <= i < r@.len() ==> is_alphanumeric_char(#[trigger] r@[i]),
{
    let n = match len {
        Some(n) => n,
        None => DEFAULT_PASSWORD_LEN,
    };
    let ghost start = sampler.drawn();
    let mut bytes: Vec<u8> = Vec::new();
    let mut i: usize = 0;
    while i < n
        invariant
            i <= n,
            bytes@.len() == i,
            sampler.drawn() == start + bytes@,
            forall|j: int| 0 <= j < i ==> is_alphanumeric_byte(#[trigger] bytes@[j]),
        decreases n - i,
    {
        let b = sample_alphanumeric(sampler);
        bytes.push(b);
        proof {
            assert(sampler.drawn() =~= start + bytes@);
        }
        i = i + 1;
    }
    let r = password_from_bytes(&bytes);
    proof {
        assert(sampler.drawn().take(start.len() as int) =~= start);
        assert(sampler.drawn().skip(start.len() as int) =~= bytes@);
        assert forall|i: int| 0 <= i < r@.len() implies is_alphanumeric_char(#[trigger] r@[i]) by {
            assert(is_alphanumeric_byte(bytes@[i]));
        }
    }
    r
}

/// Generate a random password of the length if provided
pub fn genpass(len: Option<usize>) -> (r: String)
    ensures
        len matches Some(n) ==> r@.len() == n,
        len is None ==> r@.len() == 12,
        r@.len() == password_len(len),
        forall|i: int| 0 <= i < r@.len() ==> is_alphanumeric_char(#[trigger] r@[i]),
{
    let mut sampler = new_sampler();
    genpass_with(&mut sampler, len)
}

/// The length of a password is the one asked for, and 12 where none is
/// asked for.
pub proof fn law_password_len(n: usize)
    ensures
        password_len(Some(n)) == n,
        password_len(None) == 12,
{
}

/// A password spelled by draws is those draws: it has one character per
/// draw, each character is its draw read as a character and is a letter
/// or digit, and the draw is given back by the character's code. So a
/// password whose characters differ from the draws' came from other draws.
pub proof fn law_password_is_its_draws(draws: Seq<u8>, pass: Seq<char>)
    requires
        forall|j: int| 0 <= j < draws.len() ==> is_alphanumeric_byte(#[trigger] draws[j]),
        pass == draws.map_values(|b: u8| b as char),
    ensures
        pass.len() == draws.len(),
        forall|i: int| 0 <= i < pass.len() ==> #[trigger] pass[i] == draws[i] as char,
        forall|i: int| 0 <= i < pass.len() ==> (#[trigger] pass[i]) as u8 == draws[i],
        forall|i: int| 0 <= i < pass.len() ==> is_alphanumeric_char(#[trigger] pass[i]),
{
    assert forall|i: int| 0 <= i < pass.len() implies is_alphanumeric_char(#[trigger] pass[i]) by {
        assert(is_alphanumeric_byte(draws[i]));
    }
}

} // verus!
