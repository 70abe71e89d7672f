//! Owner tokens: a pasta's creator gets a short-lived token (the hashid of its expiry
//! time and the pasta's id) so that viewing their own pasta right away is not counted as
//! a read.

use vstd::prelude::*;
use crate::hashids::{hashid_numbers, hashid_decodable, decode_hashid, is_hashid_decodable};
use crate::pasta::Pasta;
use crate::share_code::{code_index, find_pasta_index_by_code};

verus! {

/// The expiry and the pasta id that `token` holds: it can be handed to the decoder and
/// decodes to exactly two numbers.
pub open spec fn owner_token_content(token: Seq<char>) -> Option<(u64, u64)> {
    let numbers = hashid_numbers(token);
    if hashid_decodable(token) && numbers is Some && numbers->0.len() == 2 {
        Some((numbers->0[0], numbers->0[1]))
    } else {
        None
    }
}

/// `token` is an owner token for the pasta `expected_id` that has not expired at `now`
/// (seconds since the Unix epoch): it holds an expiry later than `now` and then
/// `expected_id`.
pub open spec fn owner_token_valid(token: Seq<char>, expected_id: u64, now: u64) -> bool {
    owner_token_content(token) matches Some((expiry, id)) && id == expected_id && expiry > now
}

/// The expiry and the pasta id that `token` holds, if it is a well-formed owner token.
pub fn owner_token_parts(token: &str) -> (r: Option<(u64, u64)>)
    ensures
        r == owner_token_content(token@),
{
    if !is_hashid_decodable(token) {
        return None;
    }
    match decode_hashid(token) {
        Ok(numbers) => {
            if numbers.len() == 2 {
                Some((numbers[0], numbers[1]))
            } else {
                None
            }
        },
        Err(_) => None,
    }
}

/// Whether `token` is an unexpired owner token for the pasta `expected_id` at `now`.
pub fn verify_owner_token(token: &str, expected_id: u64, now: u64) -> (b: bool)
    ensures
        b == owner_token_valid(token@, expected_id, now),
{
    match owner_token_parts(token) {
        Some((expiry, token_id)) => token_id == expected_id && expiry > now,
        None => false,
    }
}

/// Whether a view of the pasta that `id` reaches comes from its owner and is not
/// counted: the request carries an owner token that is valid for that pasta at `now`.
pub fn owner_skips_count(pastas: &[Pasta], id: &str, owner_token: Option<&str>, now: u64, hash_ids: bool) -> (b: bool)
    ensures
        b == (owner_token matches Some(t) && code_index(pastas@, id@, hash_ids) matches Some(i)
            && owner_token_valid(t@, pastas@[i].id, now)),
{
    match owner_token {
        None => false,
        Some(token) => match find_pasta_index_by_code(pastas, id, hash_ids) {
            None => false,
            Some(i) => verify_owner_token(token, pastas[i].id, now),
        },
    }
}

} // verus!
