//! Server-side decryption of pasta contents and keys, done by the `magic_crypt` crate.

use vstd::prelude::*;
use magic_crypt::MagicCryptTrait;

verus! {

/// Declares `magic_crypt::MagicCryptError`, what a failed decryption returns.
#[verifier::external_type_specification]
#[verifier::external_body]
pub struct ExMagicCryptError(magic_crypt::MagicCryptError);

/// The text that AES-256 decryption (key hashed with SHA-256, zero IV) of the base64
/// `text` under `key` gives, or `None` where the base64, the padding or the UTF-8 of the
/// result is not valid.
pub uninterp spec fn decrypted(text: Seq<char>, key: Seq<char>) -> Option<Seq<char>>;

/// Calls `magic_crypt::MagicCrypt256::new(key, None)` and `decrypt_base64_to_string(text)`,
/// which is what `new_magic_crypt!(key, 256)` followed by that method does.
/// Trusted: `Ok` holds `decrypted(text@, key@)`, and `Err` comes exactly where that
/// name is `None`.
#[verifier::external_body]
pub(crate) fn decrypt(text_str: &str, key_str: &str) -> (r: Result<String, magic_crypt::MagicCryptError>)
    ensures
        match r {
            Ok(s) => decrypted(text_str@, key_str@) == Some(s@),
            Err(_) => decrypted(text_str@, key_str@) is None,
        },
{
    magic_crypt::MagicCrypt256::new(key_str, None::<String>).decrypt_base64_to_string(text_str)
}

/// The decryption of `text` under `key`, or `None` where it fails.
pub fn decrypt_with(text: &str, key: &str) -> (r: Option<String>)
    ensures
        match r {
            Some(s) => decrypted(text@, key@) == Some(s@),
            None => decrypted(text@, key@) is None,
        },
{
    match decrypt(text, key) {
        Ok(s) => Some(s),
        Err(_) => None,
    }
}

} // verus!
