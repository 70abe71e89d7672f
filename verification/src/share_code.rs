//! Custom share codes: which codes a user may choose, which are reserved for the
//! service's own routes, and how a code is looked up among the stored pastas.

use vstd::prelude::*;
use crate::text::{
    trim, ascii_lowercase, ascii_uppercase, ascii_lower_char, ascii_upper_char, trim_str,
    lowercase_equals, lemma_trim_idempotent, lemma_lowercase_trim_of_map, lemma_case_maps,
    lemma_trim_of_map,
};
use crate::animals::{animal_code_value, animal_code_to_id};
use crate::hashids::{hashid_numbers, hashid_decodable, decode_hashid, is_hashid_decodable};
use crate::pasta::Pasta;

verus! {

/// The route names that no custom share code may take (compared after trimming and
/// ASCII lower-casing).
pub open spec fn reserved_codes() -> Seq<Seq<char>> {
    seq![
        "admin"@, "archive"@, "auth"@, "auth_admin"@, "auth_edit_private"@,
        "auth_file"@, "auth_raw"@, "auth_remove_private"@, "auth_url"@, "edit"@,
        "favicon.ico"@, "file"@, "guide"@, "incorrect"@, "list"@,
        "p"@, "qr"@, "raw"@, "remove"@, "robots.txt"@,
        "secure_file"@, "static"@, "success"@, "u"@, "upload"@,
        "url"@,
    ]
}

/// How many route names are reserved.
pub const RESERVED_CODE_COUNT: usize = 26;

/// The reserved route name at position `i` of `reserved_codes()`.
pub fn reserved_code(i: usize) -> (r: &'static str)
    requires
        i < RESERVED_CODE_COUNT,
    ensures
        r@ == reserved_codes()[i as int],
{
    match i {
        0 => "admin",
        1 => "archive",
        2 => "auth",
        3 => "auth_admin",
        4 => "auth_edit_private",
        5 => "auth_file",
        6 => "auth_raw",
        7 => "auth_remove_private",
        8 => "auth_url",
        9 => "edit",
        10 => "favicon.ico",
        11 => "file",
        12 => "guide",
        13 => "incorrect",
        14 => "list",
        15 => "p",
        16 => "qr",
        17 => "raw",
        18 => "remove",
        19 => "robots.txt",
        20 => "secure_file",
        21 => "static",
        22 => "success",
        23 => "u",
        24 => "upload",
        _ => "url",
    }
}

/// A code is reserved when, trimmed and ASCII-lower-cased, it is one of the route names.
pub open spec fn reserved(code: Seq<char>) -> bool {
    reserved_codes().contains(ascii_lowercase(trim(code)))
}

/// The characters a custom share code may hold: ASCII letters and digits, `-` and `_`.
pub open spec fn share_code_char(c: char) -> bool {
    ||| 'a' <= c <= 'z'
    ||| 'A' <= c <= 'Z'
    ||| '0' <= c <= '9'
    ||| c == '-'
    ||| c == '_'
}

/// A custom share code is valid when, trimmed, it has 3 to 64 characters, all of them
/// allowed share-code characters, and it is not reserved.
pub open spec fn valid_custom_share_code(code: Seq<char>) -> bool {
    let t = trim(code);
    &&& 3 <= t.len() <= 64
    &&& forall|i: int| 0 <= i < t.len() ==> share_code_char(#[trigger] t[i])
    &&& !reserved(t)
}

/// Whether a code is reserved does not depend on ASCII letter case or on surrounding
/// white space.
pub proof fn lemma_reserved_ignores_case_and_space(code: Seq<char>)
    ensures
        reserved(ascii_uppercase(code)) == reserved(code),
        reserved(ascii_lowercase(code)) == reserved(code),
        reserved(trim(code)) == reserved(code),
{
    lemma_case_maps();
    lemma_lowercase_trim_of_map(code, |c: char| ascii_upper_char(c));
    lemma_lowercase_trim_of_map(code, |c: char| ascii_lower_char(c));
    assert(ascii_uppercase(code) == code.map_values(|c: char| ascii_upper_char(c)));
    assert(ascii_lowercase(code) == code.map_values(|c: char| ascii_lower_char(c)));
    lemma_trim_idempotent(code);
}

/// Letter case does not decide validity: a code is valid exactly when its ASCII
/// upper-cased and its ASCII lower-cased forms are; so every ASCII letter of either case
/// may stand in a custom share code wherever the other case may.
pub proof fn lemma_valid_ignores_case(code: Seq<char>)
    ensures
        valid_custom_share_code(ascii_uppercase(code)) == valid_custom_share_code(code),
        valid_custom_share_code(ascii_lowercase(code)) == valid_custom_share_code(code),
{
    lemma_case_maps();
    lemma_share_code_char_case();
    let up = |c: char| ascii_upper_char(c);
    let low = |c: char| ascii_lower_char(c);
    let t = trim(code);
    lemma_trim_of_map(code, up);
    lemma_trim_of_map(code, low);
    assert(ascii_uppercase(code) == code.map_values(up));
    assert(ascii_lowercase(code) == code.map_values(low));
    lemma_reserved_ignores_case_and_space(t);
    assert(ascii_uppercase(t) == t.map_values(up));
    assert(ascii_lowercase(t) == t.map_values(low));
    let tu = trim(ascii_uppercase(code));
    let tl = trim(ascii_lowercase(code));
    assert(tu == ascii_uppercase(t));
    assert(tl == ascii_lowercase(t));
    assert forall|i: int| 0 <= i < t.len() implies share_code_char(#[trigger] tu[i]) == share_code_char(t[i]) by {
        assert(tu[i] == ascii_upper_char(t[i]));
    }
    assert forall|i: int| 0 <= i < t.len() implies share_code_char(#[trigger] tl[i]) == share_code_char(t[i]) by {
        assert(tl[i] == ascii_lower_char(t[i]));
    }
    assert(tu.len() == t.len() && tl.len() == t.len());
    if valid_custom_share_code(code) {
        assert forall|i: int| 0 <= i < tu.len() implies share_code_char(#[trigger] tu[i]) by {
            assert(share_code_char(t[i]));
        }
        assert forall|i: int| 0 <= i < tl.len() implies share_code_char(#[trigger] tl[i]) by {
            assert(share_code_char(t[i]));
        }
    }
    if valid_custom_share_code(ascii_uppercase(code)) {
        assert forall|i: int| 0 <= i < t.len() implies share_code_char(#[trigger] t[i]) by {
            assert(share_code_char(tu[i]));
        }
    }
    if valid_custom_share_code(ascii_lowercase(code)) {
        assert forall|i: int| 0 <= i < t.len() implies share_code_char(#[trigger] t[i]) by {
            assert(share_code_char(tl[i]));
        }
    }
}

/// The characters of a custom share code are exactly the ASCII alphanumerics (code
/// points 48 to 57, 65 to 90 and 97 to 122), `-` and `_`.
pub proof fn lemma_share_code_chars_are_ascii_alphanumeric(c: char)
    ensures
        share_code_char(c) <==> ({
            let u = c as u32;
            ||| 48 <= u <= 57
            ||| 65 <= u <= 90
            ||| 97 <= u <= 122
            ||| u == 45
            ||| u == 95
        }),
{
}

/// ASCII case mapping keeps share-code characters and other characters apart.
proof fn lemma_share_code_char_case()
    ensures
        forall|c: char| #[trigger] share_code_char(ascii_upper_char(c)) == share_code_char(c),
        forall|c: char| #[trigger] share_code_char(ascii_lower_char(c)) == share_code_char(c),
{
}

/// A valid custom share code is never reserved, is 3 to 64 allowed characters once
/// trimmed, and stays valid when trimmed.
pub proof fn lemma_valid_share_code(code: Seq<char>)
    requires
        valid_custom_share_code(code),
    ensures
        !reserved(code),
        3 <= trim(code).len() <= 64,
        forall|i: int| 0 <= i < trim(code).len() ==> share_code_char(#[trigger] trim(code)[i]),
        valid_custom_share_code(trim(code)),
{
    lemma_trim_idempotent(code);
}

/// Whether `code` names one of the service's own routes.
pub fn is_reserved_share_code(code: &str) -> (b: bool)
    ensures
        b == reserved(code@),
{
    let t = trim_str(code);
    let mut i: usize = 0;
    while i < RESERVED_CODE_COUNT
        invariant
            t@ == trim(code@),
            i <= RESERVED_CODE_COUNT,
            reserved_codes().len() == RESERVED_CODE_COUNT,
            forall|k: int| 0 <= k < i ==> reserved_codes()[k] != ascii_lowercase(t@),
        decreases RESERVED_CODE_COUNT - i,
    {
        if lowercase_equals(t, reserved_code(i)) {
            assert(reserved_codes()[i as int] == ascii_lowercase(t@));
            return true;
        }
        i = i + 1;
    }
    false
}

/// Whether `code` can be taken as a custom share code.
pub fn is_valid_custom_share_code(code: &str) -> (b: bool)
    ensures
        b == valid_custom_share_code(code@),
{
    let t = trim_str(code);
    let n = t.unicode_len();
    if n < 3 || n > 64 {
        return false;
    }
    let mut i: usize = 0;
    while i < n
        invariant
            n == t@.len(),
            t@ == trim(code@),
            i <= n,
            forall|k: int| 0 <= k < i ==> share_code_char(#[trigger] t@[k]),
        decreases n - i,
    {
        let c = t.get_char(i);
        let ok = ('a' <= c && c <= 'z') || ('A' <= c && c <= 'Z') || ('0' <= c && c <= '9')
            || c == '-' || c == '_';
        if !ok {
            return false;
        }
        i = i + 1;
    }
    !is_reserved_share_code(t)
}

/// The id that a generated code stands for: where hashids are in use, the first number
/// of its hashid (a code that cannot be handed to the decoder stands for none); the number
/// its animal names spell otherwise.
pub open spec fn generated_id(code: Seq<char>, hash_ids: bool) -> Option<u64> {
    if hash_ids {
        let numbers = hashid_numbers(code);
        if hashid_decodable(code) && numbers is Some && numbers->0.len() > 0 {
            Some(numbers->0[0])
        } else {
            None
        }
    } else {
        animal_code_value(code)
    }
}

/// The id that a generated share code stands for, if any.
pub fn generated_code_to_id(code: &str, hash_ids: bool) -> (r: Option<u64>)
    ensures
        r == generated_id(code@, hash_ids),
{
    if hash_ids {
        if !is_hashid_decodable(code) {
            return None;
        }
        match decode_hashid(code) {
            Ok(numbers) => {
                if numbers.len() > 0 {
                    Some(numbers[0])
                } else {
                    None
                }
            },
            Err(_) => None,
        }
    } else {
        animal_code_to_id(code)
    }
}

/// The first index at or after `i` of a pasta that `code` reaches.
pub open spec fn first_match_from(pastas: Seq<Pasta>, code: Seq<char>, hash_ids: bool, i: int) -> Option<int>
    decreases pastas.len() - i,
{
    if 0 <= i < pastas.len() {
        if pastas[i].matches_code(code, hash_ids) {
            Some(i)
        } else {
            first_match_from(pastas, code, hash_ids, i + 1)
        }
    } else {
        None
    }
}

/// The index of the first pasta that `code` reaches.
pub open spec fn code_index(pastas: Seq<Pasta>, code: Seq<char>, hash_ids: bool) -> Option<int> {
    first_match_from(pastas, code, hash_ids, 0)
}

/// Whether `code` reaches some pasta.
pub open spec fn code_taken(pastas: Seq<Pasta>, code: Seq<char>, hash_ids: bool) -> bool {
    exists|j: int| 0 <= j < pastas.len() && #[trigger] pastas[j].matches_code(code, hash_ids)
}

/// The index of the first pasta that `code` reaches, if any.
pub fn find_pasta_index_by_code(pastas: &[Pasta], code: &str, hash_ids: bool) -> (r: Option<usize>)
    ensures
        match r {
            Some(i) => code_index(pastas@, code@, hash_ids) == Some(i as int),
            None => code_index(pastas@, code@, hash_ids) is None,
        },
        r matches Some(i) ==> i < pastas@.len(),
{
    proof {
        lemma_code_index_iff_taken(pastas@, code@, hash_ids);
    }
    let mut i: usize = 0;
    while i < pastas.len()
        invariant
            i <= pastas@.len(),
            first_match_from(pastas@, code@, hash_ids, i as int) == code_index(pastas@, code@, hash_ids),
        decreases pastas@.len() - i,
    {
        if pastas[i].matches_share_code(code, hash_ids) {
            return Some(i);
        }
        i = i + 1;
    }
    None
}

/// Whether `code` reaches some pasta.
pub fn share_code_exists(pastas: &[Pasta], code: &str, hash_ids: bool) -> (b: bool)
    ensures
        b == code_taken(pastas@, code@, hash_ids),
{
    let r = find_pasta_index_by_code(pastas, code, hash_ids);
    proof {
        lemma_code_index_iff_taken(pastas@, code@, hash_ids);
    }
    r.is_some()
}

/// From index `i` on, a first match exists exactly when some pasta there matches, and
/// it matches and is preceded by no match.
pub proof fn lemma_first_match_from(pastas: Seq<Pasta>, code: Seq<char>, hash_ids: bool, i: int)
    requires
        0 <= i <= pastas.len(),
    ensures
        first_match_from(pastas, code, hash_ids, i) is Some <==> exists|j: int|
            i <= j < pastas.len() && #[trigger] pastas[j].matches_code(code, hash_ids),
        first_match_from(pastas, code, hash_ids, i) matches Some(k) ==> {
            &&& i <= k < pastas.len()
            &&& pastas[k].matches_code(code, hash_ids)
            &&& forall|j: int| i <= j < k ==> !(#[trigger] pastas[j].matches_code(code, hash_ids))
        },
    decreases pastas.len() - i,
{
    if i < pastas.len() {
        lemma_first_match_from(pastas, code, hash_ids, i + 1);
    }
}

/// A code is taken exactly when looking it up finds a pasta; what is found is the first
/// pasta that the code reaches.
pub proof fn lemma_code_index_iff_taken(pastas: Seq<Pasta>, code: Seq<char>, hash_ids: bool)
    ensures
        code_index(pastas, code, hash_ids) is Some <==> code_taken(pastas, code, hash_ids),
        code_index(pastas, code, hash_ids) matches Some(k) ==> {
            &&& 0 <= k < pastas.len()
            &&& pastas[k].matches_code(code, hash_ids)
            &&& forall|j: int| 0 <= j < k ==> !(#[trigger] pastas[j].matches_code(code, hash_ids))
        },
{
    lemma_first_match_from(pastas, code, hash_ids, 0);
}

/// Looking up a code that reaches the pasta at `i` finds a pasta that the code reaches,
/// at `i` or before it.
pub proof fn lemma_lookup_finds_reached(pastas: Seq<Pasta>, code: Seq<char>, hash_ids: bool, i: int)
    requires
        0 <= i < pastas.len(),
        pastas[i].matches_code(code, hash_ids),
    ensures
        code_index(pastas, code, hash_ids) matches Some(j) && j <= i && pastas[j].matches_code(
            code,
            hash_ids,
        ),
{
    lemma_code_index_iff_taken(pastas, code, hash_ids);
}

} // verus!
