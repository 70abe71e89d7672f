use magic_crypt::MagicCryptTrait;
use microbin::access::{
    auth_response, getrawpasta, pastaresponse, postrawpasta, root_lookup, urlresponse, Access,
    AuthPath, RootRoute,
};
use microbin::access::{getrawpasta_checked, pastaresponse_checked, postrawpasta_checked};
use microbin::pasta::Pasta;

fn encrypt(text: &str, key: &str) -> String {
    magic_crypt::MagicCrypt256::new(key, None::<String>).encrypt_str_to_base64(text)
}

fn pasta(id: u64) -> Pasta {
    Pasta {
        id,
        share_code: None,
        content: String::from("hello"),
        pasta_type: String::from("text"),
        encrypt_server: false,
        encrypt_client: false,
        encrypted_key: None,
        readonly: false,
        editable: true,
        read_count: 0,
        last_read: 0,
    }
}

fn secret(id: u64, text: &str, password: &str) -> Pasta {
    Pasta { content: encrypt(text, password), encrypt_server: true, ..pasta(id) }
}

fn link(id: u64, target: &str) -> Pasta {
    Pasta { content: target.to_string(), pasta_type: String::from("url"), ..pasta(id) }
}

#[test]
fn plain_pasta_is_shown_and_counted() {
    let mut pastas = vec![pasta(1), pasta(2)];
    match pastaresponse(&mut pastas, "mole", "", false, 77, false) {
        Access::Show { index, content } => {
            assert_eq!(index, 1);
            assert_eq!(content, "hello");
        }
        _ => panic!("expected the pasta"),
    }
    assert_eq!(pastas[1].read_count, 1);
    assert_eq!(pastas[1].last_read, 77);
    assert_eq!(pastas[0].read_count, 0);
}

#[test]
fn owner_view_is_shown_but_not_counted() {
    let mut pastas = vec![pasta(2)];
    assert!(matches!(pastaresponse(&mut pastas, "mole", "", true, 9, false), Access::Show { .. }));
    assert_eq!(pastas[0].read_count, 0);
    assert_eq!(pastas[0].last_read, 9);
}

#[test]
fn missing_pasta_is_not_found() {
    let mut pastas = vec![pasta(2)];
    assert!(matches!(pastaresponse(&mut pastas, "zebra", "", false, 9, false), Access::NotFound));
    assert!(matches!(urlresponse(&mut pastas, "zebra", "", 9, false), Access::NotFound));
    assert!(matches!(getrawpasta(&mut pastas, "zebra", 9, false), Access::NotFound));
    assert!(matches!(postrawpasta(&mut pastas, "zebra", "", 9, false), Access::NotFound));
    assert_eq!(pastas[0].read_count, 0);
}

#[test]
fn encrypted_pasta_asks_for_password() {
    let mut pastas = vec![secret(2, "top secret", "pw")];
    match pastaresponse(&mut pastas, "mole", "", false, 9, false) {
        Access::PasswordPage { index, redirect } => {
            assert_eq!(index, 0);
            assert_eq!(redirect.path, AuthPath::Upload);
            assert_eq!(redirect.path.route(), "auth");
            assert_eq!(redirect.slug, "mole");
            assert!(!redirect.incorrect);
        }
        _ => panic!("expected the password page"),
    }
    assert_eq!(pastas[0].read_count, 0);
}

#[test]
fn right_password_decrypts_for_the_answer_only() {
    let mut pastas = vec![secret(2, "top secret", "pw")];
    let stored = pastas[0].content.clone();
    match pastaresponse(&mut pastas, "mole", "pw", false, 9, false) {
        Access::Show { content, .. } => assert_eq!(content, "top secret"),
        _ => panic!("expected the pasta"),
    }
    assert_eq!(pastas[0].content, stored);
    assert_eq!(pastas[0].read_count, 1);
}

#[test]
fn wrong_password_is_counted_and_sent_back() {
    let mut pastas = vec![secret(2, "top secret", "pw")];
    match pastaresponse(&mut pastas, "mole", "nope", false, 9, false) {
        Access::PasswordPage { redirect, .. } => {
            assert!(redirect.incorrect);
            assert_eq!(redirect.path, AuthPath::Upload);
        }
        _ => panic!("expected the password page"),
    }
    assert_eq!(pastas[0].read_count, 1);
    assert_eq!(pastas[0].last_read, 0);
}

#[test]
fn empty_content_is_not_decrypted() {
    let mut pastas = vec![Pasta { content: String::new(), ..pasta(2) }];
    match pastaresponse(&mut pastas, "mole", "whatever", false, 9, false) {
        Access::Show { content, .. } => assert_eq!(content, ""),
        _ => panic!("expected the pasta"),
    }
}

#[test]
fn link_is_followed_and_counted() {
    let mut pastas = vec![link(2, "https://example.com/")];
    match urlresponse(&mut pastas, "mole", "", 5, false) {
        Access::Follow { index, target } => {
            assert_eq!(index, 0);
            assert_eq!(target, "https://example.com/");
        }
        _ => panic!("expected the link"),
    }
    assert_eq!(pastas[0].read_count, 1);
    assert_eq!(pastas[0].last_read, 5);
}

#[test]
fn encrypted_link_needs_the_right_password() {
    let mut pastas = vec![Pasta {
        content: encrypt("https://example.com/", "pw"),
        encrypt_server: true,
        ..link(2, "")
    }];
    match urlresponse(&mut pastas, "mole", "", 5, false) {
        Access::PasswordPage { redirect, .. } => {
            assert_eq!(redirect.path, AuthPath::Url);
            assert_eq!(redirect.path.route(), "auth_url");
            assert!(!redirect.incorrect);
        }
        _ => panic!("expected the password page"),
    }
    match urlresponse(&mut pastas, "mole", "bad", 5, false) {
        Access::PasswordPage { redirect, .. } => assert!(redirect.incorrect),
        _ => panic!("expected the password page"),
    }
    assert_eq!(pastas[0].read_count, 0);
    match urlresponse(&mut pastas, "mole", "pw", 5, false) {
        Access::Follow { target, .. } => assert_eq!(target, "https://example.com/"),
        _ => panic!("expected the link"),
    }
    assert_eq!(pastas[0].read_count, 1);
}

#[test]
fn text_is_not_a_link() {
    let mut pastas = vec![pasta(2)];
    assert!(matches!(urlresponse(&mut pastas, "mole", "", 5, false), Access::NotUrl { index: 0 }));
    assert_eq!(pastas[0].read_count, 0);
}

#[test]
fn raw_text_without_password() {
    let mut pastas = vec![pasta(2), secret(3, "x", "pw")];
    match getrawpasta(&mut pastas, "mole", 4, false) {
        Access::Show { content, .. } => assert_eq!(content, "hello"),
        _ => panic!("expected the text"),
    }
    assert_eq!(pastas[0].read_count, 1);
    match getrawpasta(&mut pastas, "sloth", 4, false) {
        Access::PasswordPage { redirect, .. } => {
            assert_eq!(redirect.path, AuthPath::Raw);
            assert_eq!(redirect.path.route(), "auth_raw");
        }
        _ => panic!("expected the password page"),
    }
    assert_eq!(pastas[1].read_count, 0);
}

#[test]
fn raw_text_with_password() {
    let mut pastas = vec![secret(3, "raw secret", "pw")];
    assert!(matches!(
        postrawpasta(&mut pastas, "sloth", "", 4, false),
        Access::PasswordPage { .. }
    ));
    assert_eq!(pastas[0].read_count, 0);
    match postrawpasta(&mut pastas, "sloth", "bad", 4, false) {
        Access::PasswordPage { redirect, .. } => {
            assert!(redirect.incorrect);
            assert_eq!(redirect.path, AuthPath::Upload);
        }
        _ => panic!("expected the password page"),
    }
    assert_eq!(pastas[0].read_count, 1);
    match postrawpasta(&mut pastas, "sloth", "pw", 4, false) {
        Access::Show { content, .. } => assert_eq!(content, "raw secret"),
        _ => panic!("expected the text"),
    }
    assert_eq!(pastas[0].read_count, 2);
    assert_eq!(pastas[0].last_read, 4);
}

#[test]
fn root_lookup_picks_the_route() {
    let pastas = vec![
        pasta(1),
        link(2, "https://example.com/"),
        secret(3, "x", "pw"),
        Pasta { encrypt_server: true, ..link(4, "y") },
        Pasta { share_code: Some(String::from("work-note")), ..pasta(5) },
    ];
    let route = |code: &str| root_lookup(&pastas, code, false).map(|r| (r.route, r.slug));
    assert_eq!(route("eel"), Some((RootRoute::Upload, String::from("eel"))));
    assert_eq!(route("mole"), Some((RootRoute::Url, String::from("mole"))));
    assert_eq!(route("sloth"), Some((RootRoute::Auth, String::from("sloth"))));
    assert_eq!(route("ape"), Some((RootRoute::AuthUrl, String::from("ape"))));
    assert_eq!(route("work-note"), Some((RootRoute::Upload, String::from("emu"))));
    assert_eq!(route("nothing"), None);
    assert_eq!(RootRoute::AuthUrl.name(), "auth_url");
}

#[test]
fn password_page_shows_the_pasta_key() {
    let pastas = vec![Pasta {
        encrypted_key: Some(String::from("KEY")),
        encrypt_client: true,
        ..pasta(2)
    }];
    let page = auth_response(&pastas, "mole", String::from("incorrect"), AuthPath::Remove, false)
        .unwrap();
    assert_eq!(page.id, "mole");
    assert_eq!(page.status, "incorrect");
    assert_eq!(page.encrypted_key, "KEY");
    assert!(page.encrypt_client);
    assert_eq!(page.path.target(), "remove");
    let page = auth_response(&[pasta(2)], "mole", String::new(), AuthPath::Url, false).unwrap();
    assert_eq!(page.encrypted_key, "");
    assert_eq!(page.path.target(), "url");
    assert!(auth_response(&pastas, "zebra", String::new(), AuthPath::Raw, false).is_none());
}

#[test]
fn link_at_the_count_limit_is_refused_only_where_it_counts() {
    let mut pastas = vec![Pasta { read_count: u64::MAX, ..link(2, "https://example.com/") }];
    assert!(access_checked(&mut pastas, "mole", "").is_none());
    assert_eq!(pastas[0].read_count, u64::MAX);
    let mut pastas = vec![Pasta { read_count: u64::MAX, ..pasta(2) }];
    assert!(matches!(access_checked(&mut pastas, "mole", ""), Some(Access::NotUrl { .. })));
    let mut pastas = vec![link(2, "https://example.com/")];
    assert!(matches!(access_checked(&mut pastas, "mole", ""), Some(Access::Follow { .. })));
}

fn access_checked(pastas: &mut Vec<Pasta>, id: &str, password: &str) -> Option<Access> {
    microbin::access::urlresponse_checked(pastas, id, password, 1, false)
}

#[test]
fn redirect_locations() {
    let mut pastas = vec![secret(2, "x", "pw")];
    match pastaresponse(&mut pastas, "mole", "bad", false, 1, false) {
        Access::PasswordPage { redirect, .. } => {
            assert_eq!(redirect.location("https://x.org"), "https://x.org/auth/mole/incorrect")
        }
        _ => panic!("expected the password page"),
    }
    match pastaresponse(&mut pastas, "mole", "", false, 1, false) {
        Access::PasswordPage { redirect, .. } => {
            assert_eq!(redirect.location(""), "/auth/mole")
        }
        _ => panic!("expected the password page"),
    }
    let target = root_lookup(&[link(3, "u")], "sloth", false).unwrap();
    assert_eq!(target.location("https://x.org"), "https://x.org/url/sloth");
    assert_eq!(microbin::removal::list_location("https://x.org"), "https://x.org/list");
    assert_eq!(
        microbin::removal::pasta_page_location("https://x.org", "ape"),
        "https://x.org/upload/ape"
    );
}

#[test]
fn pasta_at_the_count_limit_can_still_be_refused() {
    let mut pastas = vec![Pasta { read_count: u64::MAX, ..secret(2, "x", "pw") }];
    assert!(matches!(
        pastaresponse(&mut pastas, "mole", "", false, 1, false),
        Access::PasswordPage { .. }
    ));
    assert!(matches!(getrawpasta(&mut pastas, "mole", 1, false), Access::PasswordPage { .. }));
    let mut pastas = vec![Pasta { read_count: u64::MAX, ..pasta(2) }];
    assert!(matches!(pastaresponse(&mut pastas, "mole", "", true, 1, false), Access::Show { .. }));
    assert_eq!(pastas[0].read_count, u64::MAX);
}

#[test]
fn checked_reads_refuse_only_a_count_that_cannot_grow() {
    let mut pastas = vec![Pasta { read_count: u64::MAX, ..pasta(2) }];
    assert!(pastaresponse_checked(&mut pastas, "mole", "", false, 1, false).is_none());
    assert!(getrawpasta_checked(&mut pastas, "mole", 1, false).is_none());
    assert!(postrawpasta_checked(&mut pastas, "mole", "", 1, false).is_none());
    assert!(matches!(
        pastaresponse_checked(&mut pastas, "mole", "", true, 1, false),
        Some(Access::Show { .. })
    ));
    assert!(matches!(pastaresponse_checked(&mut pastas, "zebra", "", false, 1, false), Some(Access::NotFound)));
    let mut pastas = vec![Pasta { read_count: u64::MAX, ..secret(2, "x", "pw") }];
    assert!(matches!(getrawpasta_checked(&mut pastas, "mole", 1, false), Some(Access::PasswordPage { .. })));
    assert!(matches!(
        postrawpasta_checked(&mut pastas, "mole", "", 1, false),
        Some(Access::PasswordPage { .. })
    ));
    let mut pastas = vec![pasta(2)];
    assert!(matches!(getrawpasta_checked(&mut pastas, "mole", 1, false), Some(Access::Show { .. })));
    assert_eq!(pastas[0].read_count, 1);
}
