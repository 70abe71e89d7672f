//! Removing a pasta: who may remove which pasta, and what is left.

use vstd::prelude::*;
use crate::access::{AuthPath, AuthRedirect, redirects_to};
use crate::crypto::{decrypted, decrypt_with};
use crate::pasta::{Pasta, generated_code};
use crate::share_code::{code_index, find_pasta_index_by_code};
use crate::text::{decimal, equals_decimal, str_equals, plain_decimal, decimal_value, lemma_decimal_text};

verus! {

/// The answer to a removal request.
pub enum Removal {
    /// No pasta is reached by the code.
    NotFound,
    /// The client is sent to the removal password page.
    PasswordPage(AuthRedirect),
    /// The pasta was taken out of the list; its attachments and its stored record are
    /// still to be deleted.
    Removed(Pasta),
    /// The pasta needs no password to be removed, so a posted password is not checked:
    /// the client is sent to the pasta's own page under its generated code.
    PastaPage { slug: String },
}

/// Removing `p` takes a password: it is server-encrypted, read-only, or not editable
/// (then only the administrator may remove it).
pub open spec fn removal_protected(p: Pasta) -> bool {
    p.encrypt_server || p.readonly || !p.editable
}

/// `password` allows removing the protected pasta `p`: it is the administrator's
/// password; or, for a read-only pasta, it decrypts the pasta's encrypted key to the
/// pasta's id in decimal; or, for another server-encrypted pasta, it decrypts the
/// content.
pub open spec fn removal_password_ok(p: Pasta, password: Seq<char>, admin_password: Seq<char>) -> bool {
    ||| password == admin_password
    ||| (p.readonly && (p.encrypted_key matches Some(k) && decrypted(k@, password) == Some(
        decimal(p.id as nat),
    )))
    ||| (!p.readonly && p.encrypt_server && decrypted(p.content@, password) is Some)
}

/// What removing, without a password, the pasta that `id` reaches answers (`r`) and
/// leaves (`new` from `old`).
pub open spec fn removal_answer(old: Seq<Pasta>, new: Seq<Pasta>, r: Removal, id: Seq<char>, hash_ids: bool) -> bool {
    match code_index(old, id, hash_ids) {
        None => r is NotFound && new == old,
        Some(i) => {
            let p = old[i];
            if removal_protected(p) {
                &&& new == old
                &&& r matches Removal::PasswordPage(redirect)
                &&& redirects_to(redirect, AuthPath::Remove, p, hash_ids, false)
            } else {
                &&& new == old.remove(i)
                &&& r == Removal::Removed(p)
            }
        },
    }
}

/// Removes, without a password, the pasta that `id` reaches, unless it is protected:
/// then the client is sent to the removal password page and nothing changes.
pub fn remove(pastas: &mut Vec<Pasta>, id: &str, hash_ids: bool) -> (r: Removal)
    ensures
        removal_answer(old(pastas)@, final(pastas)@, r, id@, hash_ids),
{
    let i = match find_pasta_index_by_code(pastas.as_slice(), id, hash_ids) {
        None => {
            return Removal::NotFound;
        },
        Some(i) => i,
    };
    if pastas[i].encrypt_server || pastas[i].readonly || !pastas[i].editable {
        let slug = pastas[i].id_as_animals(hash_ids);
        return Removal::PasswordPage(
            AuthRedirect { path: AuthPath::Remove, slug, incorrect: false },
        );
    }
    let removed = pastas.remove(i);
    Removal::Removed(removed)
}

/// Whether `password` allows removing the protected pasta `p`.
fn removal_password_matches(p: &Pasta, password: &str, admin_password: &str) -> (b: bool)
    ensures
        b == removal_password_ok(*p, password@, admin_password@),
{
    if str_equals(password, admin_password) {
        return true;
    }
    if p.readonly {
        match &p.encrypted_key {
            Some(key) => match decrypt_with(key.as_str(), password) {
                Some(decrypted_key) => equals_decimal(decrypted_key.as_str(), p.id),
                None => false,
            },
            None => false,
        }
    } else if p.encrypt_server {
        decrypt_with(p.content.as_str(), password).is_some()
    } else {
        false
    }
}

/// What removing the pasta that `id` reaches with a posted password answers (`r`) and
/// leaves (`new` from `old`).
pub open spec fn posted_removal_answer(old: Seq<Pasta>, new: Seq<Pasta>, r: Removal, id: Seq<char>, password: Seq<char>, admin_password: Seq<char>, hash_ids: bool) -> bool {
    match code_index(old, id, hash_ids) {
        None => r is NotFound && new == old,
        Some(i) => {
            let p = old[i];
            if !removal_protected(p) {
                &&& new == old
                &&& r matches Removal::PastaPage { slug }
                &&& slug@ == generated_code(p.id, hash_ids)
            } else if password.len() > 0 && removal_password_ok(p, password, admin_password) {
                &&& new == old.remove(i)
                &&& r == Removal::Removed(p)
            } else {
                &&& new == old
                &&& r matches Removal::PasswordPage(redirect)
                &&& redirects_to(redirect, AuthPath::Remove, p, hash_ids, true)
            }
        },
    }
}

/// Removes the pasta that `id` reaches with a posted password. A protected pasta is
/// removed only when the password is non-empty and allows it (see
/// `removal_password_ok`); otherwise the client is sent back to the removal password
/// page, marked incorrect, and nothing changes. A pasta that is not protected is not
/// removed here: the client is sent to its page.
pub fn post_remove(pastas: &mut Vec<Pasta>, id: &str, password: &str, admin_password: &str, hash_ids: bool) -> (r: Removal)
    ensures
        posted_removal_answer(old(pastas)@, final(pastas)@, r, id@, password@, admin_password@, hash_ids),
{
    let i = match find_pasta_index_by_code(pastas.as_slice(), id, hash_ids) {
        None => {
            return Removal::NotFound;
        },
        Some(i) => i,
    };
    if pastas[i].readonly || pastas[i].encrypt_server || !pastas[i].editable {
        if !password.is_empty() && removal_password_matches(&pastas[i], password, admin_password) {
            let removed = pastas.remove(i);
            return Removal::Removed(removed);
        }
        let slug = pastas[i].id_as_animals(hash_ids);
        return Removal::PasswordPage(AuthRedirect { path: AuthPath::Remove, slug, incorrect: true });
    }
    let slug = pastas[i].id_as_animals(hash_ids);
    Removal::PastaPage { slug }
}

/// Where a client goes after a removal: `{public_path}/list`.
pub fn list_location(public_path: &str) -> (s: String)
    ensures
        s@ == public_path@ + "/list"@,
{
    let mut s = public_path.to_owned();
    s.append("/list");
    s
}

/// The page of the pasta with code `slug`: `{public_path}/upload/{slug}`.
pub fn pasta_page_location(public_path: &str, slug: &str) -> (s: String)
    ensures
        s@ == public_path@ + "/upload/"@ + slug@,
{
    let mut s = public_path.to_owned();
    s.append("/upload/");
    s.append(slug);
    s
}

/// Who may remove what: without a password only an unprotected pasta is removed, and a
/// protected one sends the client to its removal password page; with a posted password
/// only a protected pasta is removed, and only when the password is non-empty and opens
/// it, while a refused password sends the client back to that page marked incorrect. A
/// removal takes out one pasta; every other answer changes nothing.
pub proof fn lemma_removal_rules(
    old: Seq<Pasta>,
    new: Seq<Pasta>,
    r: Removal,
    id: Seq<char>,
    password: Seq<char>,
    admin_password: Seq<char>,
    hash_ids: bool,
)
    ensures
        removal_answer(old, new, r, id, hash_ids) ==> {
            &&& r matches Removal::Removed(p) ==> !removal_protected(p) && new.len() + 1 == old.len()
            &&& r matches Removal::PasswordPage(redirect) ==> redirect.path == AuthPath::Remove
                && !redirect.incorrect && new == old
            &&& !(r is PastaPage)
            &&& r is NotFound ==> new == old
        },
        posted_removal_answer(old, new, r, id, password, admin_password, hash_ids) ==> {
            &&& r matches Removal::Removed(p) ==> removal_protected(p) && password.len() > 0
                && removal_password_ok(p, password, admin_password) && new.len() + 1 == old.len()
            &&& r matches Removal::PasswordPage(redirect) ==> redirect.path == AuthPath::Remove
                && redirect.incorrect && new == old
            &&& r is PastaPage ==> new == old
            &&& r is NotFound ==> new == old
        },
{
    crate::share_code::lemma_code_index_iff_taken(old, id, hash_ids);
}

/// A read-only pasta's owner password (other than the administrator's) opens it exactly
/// when it decrypts the pasta's encrypted key to a run of decimal digits, without a
/// leading zero, that reads back as the pasta's id.
pub proof fn lemma_readonly_key_rule(p: Pasta, password: Seq<char>, admin_password: Seq<char>)
    requires
        p.readonly,
        password != admin_password,
    ensures
        removal_password_ok(p, password, admin_password) <==> (p.encrypted_key matches Some(k)
            && decrypted(k@, password) matches Some(t) && plain_decimal(t) && decimal_value(t)
            == p.id),
{
    if let Some(k) = p.encrypted_key {
        if let Some(t) = decrypted(k@, password) {
            lemma_decimal_text(t, p.id as nat);
        }
    }
}

} // verus!
