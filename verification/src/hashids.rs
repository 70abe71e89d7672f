//! Share codes in the hashids format, made and read by the `harsh` crate.
//!
//! The service's hasher is `harsh::Harsh::builder().length(6).build()`: default alphabet,
//! default separators and an empty salt. With these settings (builder.rs) the 14
//! separators are `cfhistuCFHISTU` (all in the default alphabet; an empty salt shuffles
//! nothing), the 4 guards are the first four remaining letters `abde`, and each number is
//! written in the 44 remaining digit symbols.
//!
//! `Harsh::decode` drops everything up to the first guard and from the last guard after
//! it, takes the next character as the lottery, and reads each piece between separators
//! as a number. It checks each power and each product, but adds the digit terms with an
//! unchecked `+` (harsh.rs, `unhash`). A piece of 13 or more bytes fails at its first
//! power, and a piece of at most 11 digits stays below 44 to the power 11; only a piece of
//! exactly 12 bytes can overflow, and so panic where overflow checks are on.

use vstd::prelude::*;

verus! {

/// Declares `harsh::Error`, what a failed hashid decoding returns.
#[verifier::external_type_specification]
#[verifier::external_body]
pub struct ExHarshError(harsh::Error);

/// The minimum length of the hashids that the service hands out.
pub const HASHID_MIN_LENGTH: usize = 6;

/// The ids below this bound (44 to the power 11) are written in at most 11 digits.
pub const HASHID_SHORT_LIMIT: u64 = 1196683881290399744;

/// One of the separators of the service's hasher.
pub open spec fn hashid_separator(c: char) -> bool {
    ||| c == 'c' || c == 'f' || c == 'h' || c == 'i' || c == 's' || c == 't' || c == 'u'
    ||| c == 'C' || c == 'F' || c == 'H' || c == 'I' || c == 'S' || c == 'T' || c == 'U'
}

/// One of the guards of the service's hasher.
pub open spec fn hashid_guard(c: char) -> bool {
    c == 'a' || c == 'b' || c == 'd' || c == 'e'
}

/// The index of the first guard at or after `i` (the length when there is none).
pub open spec fn first_guard_from(code: Seq<char>, i: int) -> int
    decreases code.len() - i,
{
    if 0 <= i < code.len() && !hashid_guard(code[i]) {
        first_guard_from(code, i + 1)
    } else {
        i
    }
}

/// The index of the last guard before `j` and at or after `lo` (`lo - 1` when there is
/// none).
pub open spec fn last_guard_before(code: Seq<char>, lo: int, j: int) -> int
    decreases j - lo,
{
    if lo < j && j <= code.len() {
        if hashid_guard(code[j - 1]) {
            j - 1
        } else {
            last_guard_before(code, lo, j - 1)
        }
    } else {
        lo - 1
    }
}

/// Where the part that the decoder reads starts: just after the first guard, or at 0.
pub open spec fn hashid_body_start(code: Seq<char>) -> int {
    let g = first_guard_from(code, 0);
    if g < code.len() {
        g + 1
    } else {
        0
    }
}

/// Where the part that the decoder reads ends: at the last guard after its start, or at
/// the end.
pub open spec fn hashid_body_end(code: Seq<char>) -> int {
    let s = hashid_body_start(code);
    let g = last_guard_before(code, s, code.len() as int);
    if g >= s {
        g
    } else {
        code.len() as int
    }
}

/// How many characters just before position `k`, and at or after `lo`, are not
/// separators.
pub open spec fn run_from(code: Seq<char>, lo: int, k: int) -> int
    decreases k - lo,
{
    if lo < k && k <= code.len() && !hashid_separator(code[k - 1]) {
        run_from(code, lo, k - 1) + 1
    } else {
        0
    }
}

/// `code` can be handed to the hasher's decoder: it is ASCII (the decoder accepts no
/// other code, since the encoder writes only ASCII), and no number piece that the decoder
/// reads (between separators, after the lottery, inside the guards) is exactly 12
/// characters long.
pub open spec fn hashid_decodable(code: Seq<char>) -> bool {
    let s = hashid_body_start(code);
    let e = hashid_body_end(code);
    &&& forall|k: int| 0 <= k < code.len() ==> (#[trigger] code[k] as u32) < 128
    &&& e - s < 2 || forall|k: int|
        s + 1 <= k <= e && (k == e || hashid_separator(code[k])) ==> #[trigger] run_from(
            code,
            s + 1,
            k,
        ) != 12
}

/// The numbers that the service's hashid hasher reads from `code`, or `None` where it
/// rejects `code`.
pub uninterp spec fn hashid_numbers(code: Seq<char>) -> Option<Seq<u64>>;

/// The hashid that the service's hashid hasher writes for the single number `id`.
pub uninterp spec fn hashid_of(id: u64) -> Seq<char>;

/// Builds the service's hasher (`harsh::Harsh::builder().length(6).build()`) and calls
/// `Harsh::decode` on `code`.
/// Trusted: `Ok` holds the numbers named by `hashid_numbers(code@)`, and `Err` comes
/// exactly where that name is `None`. Building cannot fail with the default alphabet
/// (`HarshBuilder::build` only fails on a custom alphabet). The `requires` keeps away the
/// inputs on which `harsh`'s unchecked digit sum could overflow: a number piece of exactly
/// twelve bytes (see the module's documentation).
#[verifier::external_body]
pub(crate) fn decode_hashid(code: &str) -> (r: Result<Vec<u64>, harsh::Error>)
    requires
        hashid_decodable(code@),
    ensures
        match r {
            Ok(v) => hashid_numbers(code@) == Some(v@),
            Err(_) => hashid_numbers(code@) is None,
        },
{
    harsh::Harsh::builder().length(HASHID_MIN_LENGTH).build().expect(
        "the default alphabet is accepted",
    ).decode(code)
}

/// Builds the service's hasher (as `decode_hashid` does) and calls `Harsh::encode` on
/// the single number `id`.
/// Trusted: the result is `hashid_of(id)`; decoding it gives back exactly `[id]`
/// (`Harsh::decode` accepts a hashid only when encoding its numbers gives the hashid
/// again, and a hashid's guard and padding characters are stripped before its digits are
/// read); and for an id below 44 to the power 11 it can be handed to the decoder: it is
/// ASCII, and its body is the lottery character and at most 11 digits, with guards (and
/// padding outside them) only where it is shorter than 6 characters.
#[verifier::external_body]
pub(crate) fn encode_hashid(id: u64) -> (s: String)
    ensures
        s@ == hashid_of(id),
        hashid_numbers(s@) == Some(seq![id]),
        id < HASHID_SHORT_LIMIT ==> hashid_decodable(s@),
{
    harsh::Harsh::builder().length(HASHID_MIN_LENGTH).build().expect(
        "the default alphabet is accepted",
    ).encode(&[id])
}

/// Whether `c` is a separator of the service's hasher.
fn is_separator(c: char) -> (b: bool)
    ensures
        b == hashid_separator(c),
{
    c == 'c' || c == 'f' || c == 'h' || c == 'i' || c == 's' || c == 't' || c == 'u' || c == 'C'
        || c == 'F' || c == 'H' || c == 'I' || c == 'S' || c == 'T' || c == 'U'
}

/// Whether `c` is a guard of the service's hasher.
fn is_guard(c: char) -> (b: bool)
    ensures
        b == hashid_guard(c),
{
    c == 'a' || c == 'b' || c == 'd' || c == 'e'
}

/// Whether `code` can be handed to the hasher's decoder (see `hashid_decodable`).
pub fn is_hashid_decodable(code: &str) -> (b: bool)
    ensures
        b == hashid_decodable(code@),
{
    let n = code.unicode_len();
    let mut k: usize = 0;
    while k < n
        invariant
            n == code@.len(),
            k <= n,
            forall|j: int| 0 <= j < k ==> (#[trigger] code@[j] as u32) < 128,
        decreases n - k,
    {
        if (code.get_char(k) as u32) >= 128 {
            return false;
        }
        k = k + 1;
    }
    let mut i: usize = 0;
    while i < n && !is_guard(code.get_char(i))
        invariant
            n == code@.len(),
            i <= n,
            first_guard_from(code@, i as int) == first_guard_from(code@, 0),
        decreases n - i,
    {
        i = i + 1;
    }
    let s = if i < n {
        i + 1
    } else {
        0
    };
    assert(s == hashid_body_start(code@));
    let mut j: usize = n;
    while j > s && !is_guard(code.get_char(j - 1))
        invariant
            n == code@.len(),
            s <= j <= n,
            last_guard_before(code@, s as int, j as int) == last_guard_before(
                code@,
                s as int,
                n as int,
            ),
        decreases j,
    {
        j = j - 1;
    }
    let e = if j > s {
        j - 1
    } else {
        n
    };
    assert(e == hashid_body_end(code@));
    if e <= s || e - s < 2 {
        return true;
    }
    let lo = s + 1;
    let mut k: usize = lo;
    let mut run: usize = 0;
    while k < e
        invariant
            n == code@.len(),
            lo + 1 <= e <= n,
            lo == s + 1,
            s == hashid_body_start(code@),
            e == hashid_body_end(code@),
            lo <= k <= e,
            run == run_from(code@, lo as int, k as int),
            run <= k - lo,
            forall|m: int|
                lo <= m < k && hashid_separator(code@[m]) ==> #[trigger] run_from(
                    code@,
                    lo as int,
                    m,
                ) != 12,
        decreases e - k,
    {
        if is_separator(code.get_char(k)) {
            if run == 12 {
                return false;
            }
            run = 0;
        } else {
            run = run + 1;
        }
        k = k + 1;
    }
    run != 12
}

} // verus!
