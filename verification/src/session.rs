//! Session ids, and what a lookup by id or name found.
//!
//! A session id is made of five random bytes, each written in base ten, one
//! after the other.

use rand::rngs::{OsRng, StdRng};
use rand::{Rng, SeedableRng};
use vstd::prelude::*;
use crate::text::to_text;
use crate::text::number::{decimal_text, push_decimal};

verus! {

/// `rand::rngs::StdRng`, the generator of random numbers. Nothing is read
/// from it.
#[verifier::external_type_specification]
#[verifier::external_body]
pub struct ExStdRng(rand::rngs::StdRng);

/// `rand::Error`, the error of seeding a generator. Nothing is read from it.
#[verifier::external_type_specification]
#[verifier::external_body]
pub struct ExRandError(rand::Error);

/// `StdRng::from_rng` with `OsRng`: a generator seeded by the operating
/// system, or the error where that gave no seed. Nothing is said of the
/// generator.
#[verifier::external_body]
fn seeded_generator() -> Result<StdRng, rand::Error> {
    StdRng::from_rng(OsRng)
}

/// `Rng::fill` on the bytes of `dest`: it writes over the bytes and leaves
/// their number as it is. Nothing is said of what it writes. With this
/// generator and with bytes it has no way to fail.
#[verifier::external_body]
fn fill_random(rng: &mut StdRng, dest: &mut Vec<u8>)
    ensures
        final(dest).len() == old(dest).len(),
{
    rng.fill(dest.as_mut_slice())
}

/// How many random bytes make a session id.
pub const SESSION_BYTES: usize = 5;

/// The text that `bytes` give: each byte written in base ten, in order.
pub open spec fn session_text(bytes: Seq<u8>) -> Seq<char>
    decreases bytes.len(),
{
    if bytes.len() == 0 {
        Seq::empty()
    } else {
        session_text(bytes.drop_last()) + decimal_text(bytes.last() as nat)
    }
}

/// `id` is a session id: the text of some five bytes.
pub open spec fn is_session_id(id: Seq<char>) -> bool {
    exists|bytes: Seq<u8>| bytes.len() == SESSION_BYTES && id == session_text(bytes)
}

/// The session id that `bytes` give.
pub fn session_id(bytes: &[u8]) -> (id: String)
    ensures
        id@ == session_text(bytes@),
{
    let mut text: Vec<char> = Vec::new();
    let mut i: usize = 0;
    while i < bytes.len()
        invariant
            i <= bytes.len(),
            text@ == session_text(bytes@.take(i as int)),
        decreases bytes.len() - i,
    {
        proof {
            assert(bytes@.take(i + 1).drop_last() == bytes@.take(i as int));
        }
        push_decimal(&mut text, bytes[i] as usize);
        i += 1;
    }
    proof {
        assert(bytes@.take(bytes.len() as int) == bytes@);
    }
    to_text(text.as_slice())
}

/// The session id made with what the seeding of a generator gave: an id
/// from five bytes of the generator where there is one, `None` where the
/// seeding failed.
pub fn session_from(seeded: Result<StdRng, rand::Error>) -> (r: Option<String>)
    ensures
        r is Some <==> seeded is Ok,
        r matches Some(id) ==> is_session_id(id@),
{
    match seeded {
        Ok(mut rng) => {
            let mut bytes: Vec<u8> = vec![0u8; SESSION_BYTES];
            fill_random(&mut rng, &mut bytes);
            Some(session_id(bytes.as_slice()))
        },
        Err(_) => None,
    }
}

/// A new session id from five random bytes; `None` where the operating
/// system gave no seed for the generator.
pub fn new_session_id() -> (r: Option<String>)
    ensures
        r matches Some(id) ==> is_session_id(id@),
{
    session_from(seeded_generator())
}

/// What a lookup found that gives at most one row: nothing for no row, the
/// id for one.
pub fn found_id(ids: &Vec<i32>) -> (r: Option<i32>)
    requires
        ids.len() <= 1,
    ensures
        r == if ids.len() == 0 {
            None
        } else {
            Some(ids[0])
        },
{
    if ids.len() == 0 {
        None
    } else {
        Some(ids[0])
    }
}

} // verus!
