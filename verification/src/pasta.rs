//! A stored upload ("pasta") as far as lookup and access decisions read it, and the codes
//! under which it can be reached.

use vstd::prelude::*;
use crate::animals::{animal_code, id_to_animal_code, lemma_animal_code_roundtrip};
use crate::hashids::{hashid_of, encode_hashid, HASHID_SHORT_LIMIT};
use crate::share_code::{generated_id, generated_code_to_id};
use crate::text::slice_equals;

verus! {

/// A stored upload: text, file or link.
#[derive(Debug)]
pub struct Pasta {
    /// The number the service gave it; its generated share code is made from it.
    pub id: u64,
    /// The share code its owner chose, if any.
    pub share_code: Option<String>,
    /// The stored text (for a link: the target URL), encrypted when `encrypt_server` holds.
    pub content: String,
    /// `"url"` for a link, another kind name otherwise.
    pub pasta_type: String,
    /// The content is encrypted on the server under the owner's password.
    pub encrypt_server: bool,
    /// The content was encrypted in the browser.
    pub encrypt_client: bool,
    /// For a read-only pasta: its id, encrypted under the owner's password.
    pub encrypted_key: Option<String>,
    /// Anyone may read it, only the owner may change or remove it.
    pub readonly: bool,
    /// It may be edited.
    pub editable: bool,
    /// How many times it was read.
    pub read_count: u64,
    /// When it was last read, in seconds since the Unix epoch.
    pub last_read: i64,
}

/// The code generated from `id`: its hashid where hashids are in use, its animal code
/// otherwise.
pub open spec fn generated_code(id: u64, hash_ids: bool) -> Seq<char> {
    if hash_ids {
        hashid_of(id)
    } else {
        animal_code(id as nat)
    }
}

/// The generated code of `id` is read back as `id`: always for animal codes, and for
/// hashids when the id is below `HASHID_SHORT_LIMIT` (the hashid of a larger id has a
/// number piece of 12 digits, which is not handed to the decoder).
pub open spec fn code_readable(id: u64, hash_ids: bool) -> bool {
    !hash_ids || id < HASHID_SHORT_LIMIT
}

impl Pasta {
    /// A pasta is reached by `code` when `code` is its chosen share code or stands for
    /// its id.
    pub open spec fn matches_code(self, code: Seq<char>, hash_ids: bool) -> bool {
        ||| (self.share_code matches Some(c) && c@ == code)
        ||| generated_id(code, hash_ids) == Some(self.id)
    }

    /// Whether the pasta is a link.
    pub open spec fn is_url(self) -> bool {
        self.pasta_type@ == "url"@
    }

    /// The generated share code of this pasta (its "animal" id or its hashid).
    pub fn id_as_animals(&self, hash_ids: bool) -> (s: String)
        ensures
            s@ == generated_code(self.id, hash_ids),
            code_readable(self.id, hash_ids) ==> generated_id(s@, hash_ids) == Some(self.id),
            code_readable(self.id, hash_ids) ==> self.matches_code(s@, hash_ids),
    {
        if hash_ids {
            encode_hashid(self.id)
        } else {
            proof {
                lemma_animal_code_roundtrip(self.id);
            }
            id_to_animal_code(self.id)
        }
    }

    /// Whether `code` reaches this pasta.
    pub fn matches_share_code(&self, code: &str, hash_ids: bool) -> (b: bool)
        ensures
            b == self.matches_code(code@, hash_ids),
    {
        let chosen = match &self.share_code {
            Some(c) => slice_equals(code, 0, code.unicode_len(), c.as_str()),
            None => false,
        };
        proof {
            assert(code@.subrange(0, code@.len() as int) =~= code@);
        }
        if chosen {
            return true;
        }
        match generated_code_to_id(code, hash_ids) {
            Some(id) => id == self.id,
            None => false,
        }
    }

    /// Whether the pasta is a link.
    pub fn is_url_pasta(&self) -> (b: bool)
        ensures
            b == self.is_url(),
    {
        let n = self.pasta_type.unicode_len();
        let b = slice_equals(self.pasta_type.as_str(), 0, n, "url");
        proof {
            assert(self.pasta_type@.subrange(0, n as int) =~= self.pasta_type@);
        }
        b
    }
}


/// A pasta is reached by its own animal code.
pub proof fn lemma_reached_by_animal_code(p: Pasta)
    ensures
        p.matches_code(generated_code(p.id, false), false),
{
    lemma_animal_code_roundtrip(p.id);
}

} // verus!
