//! What a request for a pasta is answered: its password page, its contents, its raw text,
//! the link it forwards to, or the not-found page; and how the read changes the pasta.

use vstd::prelude::*;
use crate::crypto::{decrypted, decrypt_with};
use crate::pasta::{Pasta, generated_code, code_readable};
use crate::share_code::{
    code_index, find_pasta_index_by_code, lemma_lookup_finds_reached, lemma_code_index_iff_taken,
    reserved, reserved_codes,
};
use crate::text::{trim, ascii_lowercase};

verus! {

/// What a password page is for; it posts the password back to the matching route.
#[derive(Clone, Copy, Debug, PartialEq, Eq, Structural)]
pub enum AuthPath {
    Upload,
    Raw,
    EditPrivate,
    SecureFile,
    Remove,
    Url,
}

/// The name under which a password page posts its password back.
pub open spec fn auth_target(path: AuthPath) -> Seq<char> {
    match path {
        AuthPath::Upload => "upload"@,
        AuthPath::Raw => "raw"@,
        AuthPath::EditPrivate => "edit_private"@,
        AuthPath::SecureFile => "secure_file"@,
        AuthPath::Remove => "remove"@,
        AuthPath::Url => "url"@,
    }
}

/// The route of the password page for `path`.
pub open spec fn auth_route(path: AuthPath) -> Seq<char> {
    match path {
        AuthPath::Upload => "auth"@,
        AuthPath::Raw => "auth_raw"@,
        AuthPath::EditPrivate => "auth_edit_private"@,
        AuthPath::SecureFile => "auth_file"@,
        AuthPath::Remove => "auth_remove_private"@,
        AuthPath::Url => "auth_url"@,
    }
}

impl AuthPath {
    /// The name under which the password page posts its password back.
    pub fn target(&self) -> (s: &'static str)
        ensures
            s@ == auth_target(*self),
    {
        match self {
            AuthPath::Upload => "upload",
            AuthPath::Raw => "raw",
            AuthPath::EditPrivate => "edit_private",
            AuthPath::SecureFile => "secure_file",
            AuthPath::Remove => "remove",
            AuthPath::Url => "url",
        }
    }

    /// The route of the password page.
    pub fn route(&self) -> (s: &'static str)
        ensures
            s@ == auth_route(*self),
    {
        match self {
            AuthPath::Upload => "auth",
            AuthPath::Raw => "auth_raw",
            AuthPath::EditPrivate => "auth_edit_private",
            AuthPath::SecureFile => "auth_file",
            AuthPath::Remove => "auth_remove_private",
            AuthPath::Url => "auth_url",
        }
    }
}

/// A redirect to the password page `route(path)/slug`, with `/incorrect` after it when a
/// wrong password was given.
pub struct AuthRedirect {
    pub path: AuthPath,
    pub slug: String,
    pub incorrect: bool,
}

impl AuthRedirect {
    /// Where the redirect leads, under the public URL prefix `public_path`:
    /// `{public_path}/{route}/{slug}`, with `/incorrect` after it when a wrong password
    /// was given.
    pub fn location(&self, public_path: &str) -> (s: String)
        ensures
            s@ == public_path@ + "/"@ + auth_route(self.path) + "/"@ + self.slug@ + if self.incorrect {
                "/incorrect"@
            } else {
                Seq::<char>::empty()
            },
    {
        let mut s = public_path.to_owned();
        s.append("/");
        s.append(self.path.route());
        s.append("/");
        s.append(self.slug.as_str());
        if self.incorrect {
            s.append("/incorrect");
        } else {
            assert(s@ + Seq::<char>::empty() =~= s@);
        }
        s
    }
}

/// `r` leads to the password page `path` of `p`, under its generated code, which reaches
/// `p` again wherever it can be read back.
pub open spec fn redirects_to(r: AuthRedirect, path: AuthPath, p: Pasta, hash_ids: bool, incorrect: bool) -> bool {
    &&& r.path == path
    &&& r.slug@ == generated_code(p.id, hash_ids)
    &&& code_readable(p.id, hash_ids) ==> p.matches_code(r.slug@, hash_ids)
    &&& r.incorrect == incorrect
}

/// What the password page of a pasta shows.
pub struct AuthPage {
    /// The generated share code of the pasta.
    pub id: String,
    /// The status the request carried (such as `incorrect`), or empty.
    pub status: String,
    /// The pasta's encrypted key, or empty.
    pub encrypted_key: String,
    pub encrypt_client: bool,
    pub path: AuthPath,
}

/// The answer to a request for a pasta.
pub enum Access {
    /// No pasta is reached by the code.
    NotFound,
    /// The pasta at `index` is not a link, but a link was asked for.
    NotUrl { index: usize },
    /// The client is sent to a password page of the pasta at `index`.
    PasswordPage { index: usize, redirect: AuthRedirect },
    /// The pasta at `index` is shown with `content` (decrypted where a password was given).
    Show { index: usize, content: String },
    /// The link at `index` is followed to `target`.
    Follow { index: usize, target: String },
}

/// `p` with its read counted.
pub open spec fn counted(p: Pasta) -> Pasta {
    Pasta { read_count: (p.read_count + 1) as u64, ..p }
}

/// `p` with its read counted, unless `skip`.
pub open spec fn counted_unless(p: Pasta, skip: bool) -> Pasta {
    if skip {
        p
    } else {
        counted(p)
    }
}

/// `p` stamped as read at `now`.
pub open spec fn stamped(p: Pasta, now: i64) -> Pasta {
    Pasta { last_read: now, ..p }
}

/// The password page of the pasta that `id` reaches, if any.
pub fn auth_response(pastas: &[Pasta], id: &str, status: String, path: AuthPath, hash_ids: bool) -> (r: Option<AuthPage>)
    ensures
        match code_index(pastas@, id@, hash_ids) {
            None => r is None,
            Some(i) => r matches Some(page) && {
                let p = pastas@[i];
                &&& page.id@ == generated_code(p.id, hash_ids)
                &&& page.status == status
                &&& page.encrypted_key@ == (match p.encrypted_key {
                    Some(k) => k@,
                    None => Seq::<char>::empty(),
                })
                &&& page.encrypt_client == p.encrypt_client
                &&& page.path == path
            },
        },
{
    match find_pasta_index_by_code(pastas, id, hash_ids) {
        None => None,
        Some(i) => {
            let p = &pastas[i];
            let key = match &p.encrypted_key {
                Some(k) => k.clone(),
                None => String::new(),
            };
            Some(AuthPage { id: p.id_as_animals(hash_ids), status, encrypted_key: key, encrypt_client: p.encrypt_client, path })
        },
    }
}

/// Where opening the pasta that `id` reaches counts a read, its read count can grow.
pub open spec fn view_count_can_grow(pastas: Seq<Pasta>, id: Seq<char>, password: Seq<char>, skip_increment: bool, hash_ids: bool) -> bool {
    code_index(pastas, id, hash_ids) matches Some(i) ==> ({
        let p = pastas[i];
        !(p.encrypt_server && password.len() == 0) && !skip_increment ==> p.read_count
            < u64::MAX
    })
}

/// What opening the pasta that `id` reaches answers (`r`) and leaves (`new` from `old`).
pub open spec fn view_answer(old: Seq<Pasta>, new: Seq<Pasta>, r: Access, id: Seq<char>, password: Seq<char>, skip_increment: bool, now: i64, hash_ids: bool) -> bool {
    match code_index(old, id, hash_ids) {
        None => r is NotFound && new == old,
        Some(i) => {
            let p = old[i];
            let attempt = password.len() > 0 && p.content@.len() > 0;
            if p.encrypt_server && password.len() == 0 {
                &&& new == old
                &&& r matches Access::PasswordPage { index, redirect }
                &&& index == i
                &&& redirects_to(redirect, AuthPath::Upload, p, hash_ids, false)
            } else if attempt && decrypted(p.content@, password) is None {
                &&& new == old.update(i, counted_unless(p, skip_increment))
                &&& r matches Access::PasswordPage { index, redirect }
                &&& index == i
                &&& redirects_to(redirect, AuthPath::Upload, p, hash_ids, true)
            } else {
                &&& new == old.update(
                    i,
                    stamped(counted_unless(p, skip_increment), now),
                )
                &&& r matches Access::Show { index, content }
                &&& index == i
                &&& content@ == if attempt {
                    decrypted(p.content@, password)->0
                } else {
                    p.content@
                }
            }
        },
    }
}

/// Opens the pasta that `id` reaches: asks for the password of a server-encrypted pasta
/// when none is given; otherwise counts the read (unless `skip_increment`, for the
/// owner's own view), decrypts the content for this answer only when a password is given
/// and there is content, and stamps the read at `now`. A wrong password sends the client
/// back to the password page, marked incorrect, with the read already counted.
pub fn pastaresponse(
    pastas: &mut Vec<Pasta>,
    id: &str,
    password: &str,
    skip_increment: bool,
    now: i64,
    hash_ids: bool,
) -> (r: Access)
    requires
        view_count_can_grow(old(pastas)@, id@, password@, skip_increment, hash_ids),
    ensures
        view_answer(old(pastas)@, final(pastas)@, r, id@, password@, skip_increment, now, hash_ids),
{
    let found = find_pasta_index_by_code(pastas.as_slice(), id, hash_ids);
    let i = match found {
        None => {
            return Access::NotFound;
        },
        Some(i) => i,
    };
    let ghost p = pastas@[i as int];
    if pastas[i].encrypt_server && password.is_empty() {
        let slug = pastas[i].id_as_animals(hash_ids);
        return Access::PasswordPage {
            index: i,
            redirect: AuthRedirect { path: AuthPath::Upload, slug, incorrect: false },
        };
    }
    if !skip_increment {
        let c = pastas[i].read_count;
        pastas[i].read_count = c + 1;
    }
    assert(pastas@ == old(pastas)@.update(i as int, counted_unless(p, skip_increment)));
    let attempt = !password.is_empty() && !pastas[i].content.as_str().is_empty();
    let content = if attempt {
        match decrypt_with(pastas[i].content.as_str(), password) {
            None => {
                let slug = pastas[i].id_as_animals(hash_ids);
                return Access::PasswordPage {
                    index: i,
                    redirect: AuthRedirect { path: AuthPath::Upload, slug, incorrect: true },
                };
            },
            Some(text) => text,
        }
    } else {
        pastas[i].content.clone()
    };
    pastas[i].last_read = now;
    assert(pastas@ =~= old(pastas)@.update(i as int, stamped(counted_unless(old(pastas)@[i as int], skip_increment), now)));
    Access::Show { index: i, content }
}

/// As `pastaresponse`, where the read count can grow; answers `None`, changing nothing, where
/// the read would be counted but the count is already at its maximum.
pub fn pastaresponse_checked(pastas: &mut Vec<Pasta>, id: &str, password: &str, skip_increment: bool, now: i64, hash_ids: bool) -> (r: Option<Access>)
    ensures
        r is None <==> !view_count_can_grow(old(pastas)@, id@, password@, skip_increment, hash_ids),
        r is None ==> final(pastas)@ == old(pastas)@,
        r matches Some(a) ==> view_answer(old(pastas)@, final(pastas)@, a, id@, password@, skip_increment, now, hash_ids),
{
    if let Some(i) = find_pasta_index_by_code(pastas.as_slice(), id, hash_ids) {
        if pastas[i].read_count == u64::MAX && !(pastas[i].encrypt_server && password.is_empty()) && !skip_increment {
            return None;
        }
    }
    Some(pastaresponse(pastas, id, password, skip_increment, now, hash_ids))
}

/// Following the link `p` with `password` counts a read: no password is missing, it is a
/// link, and a given password decrypts it.
pub open spec fn link_read_counted(p: Pasta, password: Seq<char>) -> bool {
    &&& !(p.encrypt_server && password.len() == 0)
    &&& p.is_url()
    &&& password.len() == 0 || decrypted(p.content@, password) is Some
}

/// Where following the link that `id` reaches counts a read, its read count can grow.
pub open spec fn link_count_can_grow(pastas: Seq<Pasta>, id: Seq<char>, password: Seq<char>, hash_ids: bool) -> bool {
    code_index(pastas, id, hash_ids) matches Some(i) ==> (link_read_counted(pastas[i], password)
        ==> pastas[i].read_count < u64::MAX)
}

/// What following the link that `id` reaches answers (`r`) and leaves (`new` from `old`).
pub open spec fn link_answer(
    old: Seq<Pasta>,
    new: Seq<Pasta>,
    r: Access,
    id: Seq<char>,
    password: Seq<char>,
    now: i64,
    hash_ids: bool,
) -> bool {
    match code_index(old, id, hash_ids) {
        None => r is NotFound && new == old,
        Some(i) => {
            let p = old[i];
            if p.encrypt_server && password.len() == 0 {
                &&& new == old
                &&& r matches Access::PasswordPage { index, redirect }
                &&& index == i
                &&& redirects_to(redirect, AuthPath::Url, p, hash_ids, false)
            } else if !p.is_url() {
                &&& new == old
                &&& r matches Access::NotUrl { index }
                &&& index == i
            } else if password.len() > 0 && decrypted(p.content@, password) is None {
                &&& new == old
                &&& r matches Access::PasswordPage { index, redirect }
                &&& index == i
                &&& redirects_to(redirect, AuthPath::Url, p, hash_ids, true)
            } else {
                &&& new == old.update(i, stamped(counted(p), now))
                &&& r matches Access::Follow { index, target }
                &&& index == i
                &&& target@ == if password.len() > 0 {
                    decrypted(p.content@, password)->0
                } else {
                    p.content@
                }
            }
        },
    }
}

/// Follows the link that `id` reaches: asks for the password of a server-encrypted link
/// when none is given; with a password, the target is the decrypted content (a wrong
/// password sends the client back to the password page, marked incorrect, and changes
/// nothing); the read is counted and stamped at `now`. A pasta that is not a link is
/// answered `NotUrl`, and stays unchanged.
pub fn urlresponse(pastas: &mut Vec<Pasta>, id: &str, password: &str, now: i64, hash_ids: bool) -> (r: Access)
    requires
        link_count_can_grow(old(pastas)@, id@, password@, hash_ids),
    ensures
        link_answer(old(pastas)@, final(pastas)@, r, id@, password@, now, hash_ids),
{
    let i = match find_pasta_index_by_code(pastas.as_slice(), id, hash_ids) {
        None => {
            return Access::NotFound;
        },
        Some(i) => i,
    };
    if pastas[i].encrypt_server && password.is_empty() {
        let slug = pastas[i].id_as_animals(hash_ids);
        return Access::PasswordPage {
            index: i,
            redirect: AuthRedirect { path: AuthPath::Url, slug, incorrect: false },
        };
    }
    if !pastas[i].is_url_pasta() {
        return Access::NotUrl { index: i };
    }
    let target = if !password.is_empty() {
        match decrypt_with(pastas[i].content.as_str(), password) {
            None => {
                let slug = pastas[i].id_as_animals(hash_ids);
                return Access::PasswordPage {
                    index: i,
                    redirect: AuthRedirect { path: AuthPath::Url, slug, incorrect: true },
                };
            },
            Some(url) => url,
        }
    } else {
        pastas[i].content.clone()
    };
    let c = pastas[i].read_count;
    pastas[i].read_count = c + 1;
    pastas[i].last_read = now;
    assert(pastas@ =~= old(pastas)@.update(i as int, stamped(counted(old(pastas)@[i as int]), now)));
    Access::Follow { index: i, target }
}

/// Follows the link that `id` reaches, as `urlresponse` does, where its read count can
/// grow; answers `None`, changing nothing, where the read would be counted but the count
/// is already at its maximum.
pub fn urlresponse_checked(pastas: &mut Vec<Pasta>, id: &str, password: &str, now: i64, hash_ids: bool) -> (r: Option<Access>)
    ensures
        r is None <==> !link_count_can_grow(old(pastas)@, id@, password@, hash_ids),
        r is None ==> final(pastas)@ == old(pastas)@,
        r matches Some(a) ==> link_answer(old(pastas)@, final(pastas)@, a, id@, password@, now, hash_ids),
{
    if let Some(i) = find_pasta_index_by_code(pastas.as_slice(), id, hash_ids) {
        if pastas[i].read_count == u64::MAX && !(pastas[i].encrypt_server && password.is_empty())
            && pastas[i].is_url_pasta() {
            let counted = if password.is_empty() {
                true
            } else {
                decrypt_with(pastas[i].content.as_str(), password).is_some()
            };
            if counted {
                return None;
            }
        }
    }
    Some(urlresponse(pastas, id, password, now, hash_ids))
}

/// Where serving the raw text of the pasta that `id` reaches counts a read, its read
/// count can grow.
pub open spec fn raw_count_can_grow(pastas: Seq<Pasta>, id: Seq<char>, hash_ids: bool) -> bool {
    code_index(pastas, id, hash_ids) matches Some(i) ==> ({
        let p = pastas[i];
        !p.encrypt_server ==> p.read_count < u64::MAX
    })
}

/// What serving the raw text of the pasta that `id` reaches without a password answers
/// (`r`) and leaves (`new` from `old`).
pub open spec fn raw_answer(old: Seq<Pasta>, new: Seq<Pasta>, r: Access, id: Seq<char>, now: i64, hash_ids: bool) -> bool {
    match code_index(old, id, hash_ids) {
        None => r is NotFound && new == old,
        Some(i) => {
            let p = old[i];
            if p.encrypt_server {
                &&& new == old
                &&& r matches Access::PasswordPage { index, redirect }
                &&& index == i
                &&& redirects_to(redirect, AuthPath::Raw, p, hash_ids, false)
            } else {
                &&& new == old.update(i, stamped(counted(p), now))
                &&& r matches Access::Show { index, content }
                &&& index == i
                &&& content@ == p.content@
            }
        },
    }
}

/// Serves the raw text of the pasta that `id` reaches, without a password: a
/// server-encrypted pasta sends the client to its raw password page; any other pasta has
/// its read counted and stamped at `now`, and its stored content is served.
pub fn getrawpasta(pastas: &mut Vec<Pasta>, id: &str, now: i64, hash_ids: bool) -> (r: Access)
    requires
        raw_count_can_grow(old(pastas)@, id@, hash_ids),
    ensures
        raw_answer(old(pastas)@, final(pastas)@, r, id@, now, hash_ids),
{
    let i = match find_pasta_index_by_code(pastas.as_slice(), id, hash_ids) {
        None => {
            return Access::NotFound;
        },
        Some(i) => i,
    };
    if pastas[i].encrypt_server {
        let slug = pastas[i].id_as_animals(hash_ids);
        return Access::PasswordPage {
            index: i,
            redirect: AuthRedirect { path: AuthPath::Raw, slug, incorrect: false },
        };
    }
    let c = pastas[i].read_count;
    pastas[i].read_count = c + 1;
    pastas[i].last_read = now;
    let content = pastas[i].content.clone();
    assert(pastas@ =~= old(pastas)@.update(i as int, stamped(counted(old(pastas)@[i as int]), now)));
    Access::Show { index: i, content }
}

/// As `getrawpasta`, where the read count can grow; answers `None`, changing nothing, where
/// the read would be counted but the count is already at its maximum.
pub fn getrawpasta_checked(pastas: &mut Vec<Pasta>, id: &str, now: i64, hash_ids: bool) -> (r: Option<Access>)
    ensures
        r is None <==> !raw_count_can_grow(old(pastas)@, id@, hash_ids),
        r is None ==> final(pastas)@ == old(pastas)@,
        r matches Some(a) ==> raw_answer(old(pastas)@, final(pastas)@, a, id@, now, hash_ids),
{
    if let Some(i) = find_pasta_index_by_code(pastas.as_slice(), id, hash_ids) {
        if pastas[i].read_count == u64::MAX && !pastas[i].encrypt_server {
            return None;
        }
    }
    Some(getrawpasta(pastas, id, now, hash_ids))
}

/// Where serving the raw text of the pasta that `id` reaches, with a posted password,
/// counts a read, its read count can grow.
pub open spec fn posted_raw_count_can_grow(pastas: Seq<Pasta>, id: Seq<char>, password: Seq<char>, hash_ids: bool) -> bool {
    code_index(pastas, id, hash_ids) matches Some(i) ==> ({
        let p = pastas[i];
        !(p.encrypt_server && password.len() == 0) ==> p.read_count < u64::MAX
    })
}

/// What serving the raw text of the pasta that `id` reaches with a posted password
/// answers (`r`) and leaves (`new` from `old`).
pub open spec fn posted_raw_answer(old: Seq<Pasta>, new: Seq<Pasta>, r: Access, id: Seq<char>, password: Seq<char>, now: i64, hash_ids: bool) -> bool {
    match code_index(old, id, hash_ids) {
        None => r is NotFound && new == old,
        Some(i) => {
            let p = old[i];
            if p.encrypt_server && password.len() == 0 {
                &&& new == old
                &&& r matches Access::PasswordPage { index, redirect }
                &&& index == i
                &&& redirects_to(redirect, AuthPath::Upload, p, hash_ids, false)
            } else if password.len() > 0 && decrypted(p.content@, password) is None {
                &&& new == old.update(i, counted(p))
                &&& r matches Access::PasswordPage { index, redirect }
                &&& index == i
                &&& redirects_to(redirect, AuthPath::Upload, p, hash_ids, true)
            } else {
                &&& new == old.update(i, stamped(counted(p), now))
                &&& r matches Access::Show { index, content }
                &&& index == i
                &&& content@ == if password.len() > 0 {
                    decrypted(p.content@, password)->0
                } else {
                    p.content@
                }
            }
        },
    }
}

/// Serves the raw text of the pasta that `id` reaches, with the password posted for it:
/// a server-encrypted pasta without a password sends the client to the password page;
/// otherwise the read is counted, the content is decrypted for this answer only when a
/// password is given (a wrong one sends the client back to the password page, marked
/// incorrect, with the read counted), and the read is stamped at `now`.
pub fn postrawpasta(pastas: &mut Vec<Pasta>, id: &str, password: &str, now: i64, hash_ids: bool) -> (r: Access)
    requires
        posted_raw_count_can_grow(old(pastas)@, id@, password@, hash_ids),
    ensures
        posted_raw_answer(old(pastas)@, final(pastas)@, r, id@, password@, now, hash_ids),
{
    let i = match find_pasta_index_by_code(pastas.as_slice(), id, hash_ids) {
        None => {
            return Access::NotFound;
        },
        Some(i) => i,
    };
    if pastas[i].encrypt_server && password.is_empty() {
        let slug = pastas[i].id_as_animals(hash_ids);
        return Access::PasswordPage {
            index: i,
            redirect: AuthRedirect { path: AuthPath::Upload, slug, incorrect: false },
        };
    }
    let c = pastas[i].read_count;
    pastas[i].read_count = c + 1;
    let content = if !password.is_empty() {
        match decrypt_with(pastas[i].content.as_str(), password) {
            None => {
                let slug = pastas[i].id_as_animals(hash_ids);
                return Access::PasswordPage {
                    index: i,
                    redirect: AuthRedirect { path: AuthPath::Upload, slug, incorrect: true },
                };
            },
            Some(text) => text,
        }
    } else {
        pastas[i].content.clone()
    };
    pastas[i].last_read = now;
    assert(pastas@ =~= old(pastas)@.update(i as int, stamped(counted(old(pastas)@[i as int]), now)));
    Access::Show { index: i, content }
}

/// As `postrawpasta`, where the read count can grow; answers `None`, changing nothing, where
/// the read would be counted but the count is already at its maximum.
pub fn postrawpasta_checked(pastas: &mut Vec<Pasta>, id: &str, password: &str, now: i64, hash_ids: bool) -> (r: Option<Access>)
    ensures
        r is None <==> !posted_raw_count_can_grow(old(pastas)@, id@, password@, hash_ids),
        r is None ==> final(pastas)@ == old(pastas)@,
        r matches Some(a) ==> posted_raw_answer(old(pastas)@, final(pastas)@, a, id@, password@, now, hash_ids),
{
    if let Some(i) = find_pasta_index_by_code(pastas.as_slice(), id, hash_ids) {
        if pastas[i].read_count == u64::MAX && !(pastas[i].encrypt_server && password.is_empty()) {
            return None;
        }
    }
    Some(postrawpasta(pastas, id, password, now, hash_ids))
}

/// Where a bare share code sends the client.
#[derive(Clone, Copy, Debug, PartialEq, Eq, Structural)]
pub enum RootRoute {
    /// The password page of a server-encrypted link.
    AuthUrl,
    /// The password page of another server-encrypted pasta.
    Auth,
    /// The link route.
    Url,
    /// The pasta page.
    Upload,
}

/// The route name of `route`.
pub open spec fn root_route_name(route: RootRoute) -> Seq<char> {
    match route {
        RootRoute::AuthUrl => "auth_url"@,
        RootRoute::Auth => "auth"@,
        RootRoute::Url => "url"@,
        RootRoute::Upload => "upload"@,
    }
}

/// The route that a bare share code sends the client to for `p`.
pub open spec fn root_route_for(p: Pasta) -> RootRoute {
    if p.encrypt_server {
        if p.is_url() {
            RootRoute::AuthUrl
        } else {
            RootRoute::Auth
        }
    } else if p.is_url() {
        RootRoute::Url
    } else {
        RootRoute::Upload
    }
}

impl RootRoute {
    /// The route name.
    pub fn name(&self) -> (s: &'static str)
        ensures
            s@ == root_route_name(*self),
    {
        match self {
            RootRoute::AuthUrl => "auth_url",
            RootRoute::Auth => "auth",
            RootRoute::Url => "url",
            RootRoute::Upload => "upload",
        }
    }
}

/// A redirect to `route/slug`.
pub struct RootRedirect {
    pub route: RootRoute,
    pub slug: String,
}

impl RootRedirect {
    /// Where the redirect leads, under the public URL prefix `public_path`:
    /// `{public_path}/{route}/{slug}`.
    pub fn location(&self, public_path: &str) -> (s: String)
        ensures
            s@ == public_path@ + "/"@ + root_route_name(self.route) + "/"@ + self.slug@,
    {
        let mut s = public_path.to_owned();
        s.append("/");
        s.append(self.route.name());
        s.append("/");
        s.append(self.slug.as_str());
        s
    }
}

/// Where a share code typed straight after the host sends the client: the pasta it
/// reaches, under its generated code, on the route that fits whether it is a link and
/// whether it is server-encrypted.
pub fn root_lookup(pastas: &[Pasta], code: &str, hash_ids: bool) -> (r: Option<RootRedirect>)
    ensures
        match code_index(pastas@, code@, hash_ids) {
            None => r is None,
            Some(i) => r matches Some(target) && {
                &&& target.route == root_route_for(pastas@[i])
                &&& target.slug@ == generated_code(pastas@[i].id, hash_ids)
                &&& code_readable(pastas@[i].id, hash_ids) ==> (code_index(
                    pastas@,
                    target.slug@,
                    hash_ids,
                ) matches Some(j) && j <= i)
            },
        },
{
    match find_pasta_index_by_code(pastas, code, hash_ids) {
        None => None,
        Some(i) => {
            let pasta = &pastas[i];
            let slug = pasta.id_as_animals(hash_ids);
            proof {
                if code_readable(pasta.id, hash_ids) {
                    lemma_lookup_finds_reached(pastas@, slug@, hash_ids, i as int);
                }
            }
            let is_url = pasta.is_url_pasta();
            let route = if pasta.encrypt_server {
                if is_url {
                    RootRoute::AuthUrl
                } else {
                    RootRoute::Auth
                }
            } else if is_url {
                RootRoute::Url
            } else {
                RootRoute::Upload
            };
            Some(RootRedirect { route, slug })
        },
    }
}

/// Reading a pasta changes nothing but its read count (one more, unless the read is the
/// owner's own) and its last-read time; in particular its stored content stays as it
/// was, also when a password decrypted it for the answer.
pub proof fn lemma_read_changes_only_counters(p: Pasta, skip: bool, now: i64)
    requires
        p.read_count < u64::MAX,
    ensures
        ({
            let q = stamped(counted_unless(p, skip), now);
            &&& q.id == p.id
            &&& q.share_code == p.share_code
            &&& q.content == p.content
            &&& q.pasta_type == p.pasta_type
            &&& q.encrypt_server == p.encrypt_server
            &&& q.encrypt_client == p.encrypt_client
            &&& q.encrypted_key == p.encrypted_key
            &&& q.readonly == p.readonly
            &&& q.editable == p.editable
            &&& q.read_count == if skip { p.read_count as int } else { p.read_count + 1 }
            &&& q.last_read == now
        }),
{
}

/// `new` holds as many pastas as `old`, each with the same id and stored content.
pub open spec fn keeps_contents(old: Seq<Pasta>, new: Seq<Pasta>) -> bool {
    &&& new.len() == old.len()
    &&& forall|j: int| 0 <= j < old.len() ==> (#[trigger] new[j]).content == old[j].content && new[j].id
        == old[j].id
}

/// No read leaves a decrypted text, or any other change of content, in the stored
/// pastas: opening a pasta, following a link and serving raw text all keep every stored
/// content and id.
pub proof fn lemma_reads_keep_contents(
    old: Seq<Pasta>,
    new: Seq<Pasta>,
    r: Access,
    id: Seq<char>,
    password: Seq<char>,
    skip_increment: bool,
    now: i64,
    hash_ids: bool,
)
    ensures
        view_answer(old, new, r, id, password, skip_increment, now, hash_ids) ==> keeps_contents(
            old,
            new,
        ),
        link_answer(old, new, r, id, password, now, hash_ids) ==> keeps_contents(old, new),
        raw_answer(old, new, r, id, now, hash_ids) ==> keeps_contents(old, new),
        posted_raw_answer(old, new, r, id, password, now, hash_ids) ==> keeps_contents(old, new),
{
    lemma_code_index_iff_taken(old, id, hash_ids);
}

/// Every password page that following a link leads to is the link's own (`Url`, route
/// `auth_url`): for a missing password and for one that does not decrypt the link alike;
/// it is marked incorrect exactly when a password was given.
pub proof fn lemma_link_password_pages(
    old: Seq<Pasta>,
    new: Seq<Pasta>,
    r: Access,
    id: Seq<char>,
    password: Seq<char>,
    now: i64,
    hash_ids: bool,
)
    requires
        link_answer(old, new, r, id, password, now, hash_ids),
    ensures
        r matches Access::PasswordPage { index, redirect } ==> {
            &&& redirect.path == AuthPath::Url
            &&& redirect.incorrect <==> password.len() > 0
            &&& new == old
            &&& old[index as int].is_url() || old[index as int].encrypt_server
        },
{
}

/// Every password page that opening a pasta leads to is the pasta's own (`Upload`, route
/// `auth`), marked incorrect exactly when a password was given.
pub proof fn lemma_view_password_pages(
    old: Seq<Pasta>,
    new: Seq<Pasta>,
    r: Access,
    id: Seq<char>,
    password: Seq<char>,
    skip_increment: bool,
    now: i64,
    hash_ids: bool,
)
    requires
        view_answer(old, new, r, id, password, skip_increment, now, hash_ids),
    ensures
        r matches Access::PasswordPage { redirect, .. } ==> {
            &&& redirect.path == AuthPath::Upload
            &&& redirect.incorrect <==> password.len() > 0
        },
{
}

/// Raw text without a password leads only to the raw password page, never marked
/// incorrect; raw text with a posted password leads only to the pasta's password page,
/// marked incorrect exactly when a password was given.
pub proof fn lemma_raw_password_pages(
    old: Seq<Pasta>,
    new: Seq<Pasta>,
    r: Access,
    id: Seq<char>,
    password: Seq<char>,
    now: i64,
    hash_ids: bool,
)
    ensures
        raw_answer(old, new, r, id, now, hash_ids) ==> (r matches Access::PasswordPage { redirect, .. }
            ==> redirect.path == AuthPath::Raw && !redirect.incorrect),
        posted_raw_answer(old, new, r, id, password, now, hash_ids) ==> (r matches Access::PasswordPage {
            redirect,
            ..
        } ==> redirect.path == AuthPath::Upload && (redirect.incorrect <==> password.len() > 0)),
{
}

/// `s` is a reserved route name when it already is, as it stands, one of the names in
/// the reserved list and holds no white space and no upper-case letter.
proof fn lemma_listed_is_reserved(s: Seq<char>, k: int)
    requires
        0 <= k < reserved_codes().len(),
        reserved_codes()[k] == s,
        s.len() > 0,
        forall|j: int| 0 <= j < s.len() ==> ('a' <= #[trigger] s[j] <= 'z' || s[j] == '_'),
    ensures
        reserved(s),
{
    assert(!crate::text::is_white_space(s[0]));
    assert(!crate::text::is_white_space(s[s.len() - 1]));
    assert(crate::text::leading_end(s, 0) == 0);
    assert(crate::text::trailing_start(s, 0, s.len() as int) == s.len());
    assert(trim(s) =~= s);
    assert(ascii_lowercase(s) =~= s);
}

/// The route names fit together: a bare share code sends a server-encrypted pasta to the
/// same page that opening it without a password does (and a server-encrypted link to the
/// link's password page); the password pages of pastas and links post back to the routes
/// that a bare share code sends an open pasta or link to; different pages have different
/// routes; and every route name is reserved, so that no custom share code can take it.
pub proof fn lemma_route_names()
    ensures
        root_route_name(RootRoute::Auth) == auth_route(AuthPath::Upload),
        root_route_name(RootRoute::AuthUrl) == auth_route(AuthPath::Url),
        auth_target(AuthPath::Upload) == root_route_name(RootRoute::Upload),
        auth_target(AuthPath::Url) == root_route_name(RootRoute::Url),
        forall|a: AuthPath, b: AuthPath| #[trigger] auth_target(a) == #[trigger] auth_target(b) ==> a == b,
        forall|a: AuthPath, b: AuthPath| #[trigger] auth_route(a) == #[trigger] auth_route(b) ==> a == b,
        forall|a: RootRoute, b: RootRoute| #[trigger] root_route_name(a) == #[trigger] root_route_name(b) ==> a == b,
        forall|a: RootRoute| reserved(#[trigger] root_route_name(a)),
        forall|a: AuthPath| reserved(#[trigger] auth_route(a)),
        forall|a: AuthPath| a != AuthPath::EditPrivate ==> reserved(#[trigger] auth_target(a)),
{
    reveal_strlit("upload");
    reveal_strlit("raw");
    reveal_strlit("edit_private");
    reveal_strlit("secure_file");
    reveal_strlit("remove");
    reveal_strlit("url");
    reveal_strlit("auth");
    reveal_strlit("auth_raw");
    reveal_strlit("auth_edit_private");
    reveal_strlit("auth_file");
    reveal_strlit("auth_remove_private");
    reveal_strlit("auth_url");
    lemma_listed_is_reserved("auth"@, 2);
    lemma_listed_is_reserved("auth_edit_private"@, 4);
    lemma_listed_is_reserved("auth_file"@, 5);
    lemma_listed_is_reserved("auth_raw"@, 6);
    lemma_listed_is_reserved("auth_remove_private"@, 7);
    lemma_listed_is_reserved("auth_url"@, 8);
    lemma_listed_is_reserved("raw"@, 17);
    lemma_listed_is_reserved("remove"@, 18);
    lemma_listed_is_reserved("secure_file"@, 20);
    lemma_listed_is_reserved("upload"@, 24);
    lemma_listed_is_reserved("url"@, 25);
}

} // verus!
