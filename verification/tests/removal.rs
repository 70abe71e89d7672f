use magic_crypt::MagicCryptTrait;
use microbin::access::AuthPath;
use microbin::pasta::Pasta;
use microbin::removal::{post_remove, remove, Removal};

fn encrypt(text: &str, key: &str) -> String {
    magic_crypt::MagicCrypt256::new(key, None::<String>).encrypt_str_to_base64(text)
}

fn pasta(id: u64) -> Pasta {
    Pasta {
        id,
        share_code: None,
        content: String::from("hello"),
        pasta_type: String::from("text"),
        encrypt_server: false,
        encrypt_client: false,
        encrypted_key: None,
        readonly: false,
        editable: true,
        read_count: 0,
        last_read: 0,
    }
}

#[test]
fn open_pasta_is_removed_without_password() {
    let mut pastas = vec![pasta(1), pasta(2), pasta(3)];
    match remove(&mut pastas, "mole", false) {
        Removal::Removed(p) => assert_eq!(p.id, 2),
        _ => panic!("expected removal"),
    }
    assert_eq!(pastas.iter().map(|p| p.id).collect::<Vec<_>>(), vec![1, 3]);
    assert!(matches!(remove(&mut pastas, "mole", false), Removal::NotFound));
}

#[test]
fn protected_pastas_need_a_password() {
    for p in [
        Pasta { readonly: true, ..pasta(2) },
        Pasta { encrypt_server: true, ..pasta(2) },
        Pasta { editable: false, ..pasta(2) },
    ] {
        let mut pastas = vec![p];
        match remove(&mut pastas, "mole", false) {
            Removal::PasswordPage(redirect) => {
                assert_eq!(redirect.path, AuthPath::Remove);
                assert_eq!(redirect.path.route(), "auth_remove_private");
                assert_eq!(redirect.slug, "mole");
                assert!(!redirect.incorrect);
            }
            _ => panic!("expected the password page"),
        }
        assert_eq!(pastas.len(), 1);
    }
}

#[test]
fn admin_password_removes_any_protected_pasta() {
    let mut pastas = vec![Pasta { editable: false, ..pasta(2) }];
    assert!(matches!(
        post_remove(&mut pastas, "mole", "admin-pw", "admin-pw", false),
        Removal::Removed(_)
    ));
    assert!(pastas.is_empty());
}

#[test]
fn readonly_pasta_is_removed_with_its_key_password() {
    let key = encrypt("2", "owner-pw");
    let mut pastas = vec![Pasta { readonly: true, encrypted_key: Some(key), ..pasta(2) }];
    match post_remove(&mut pastas, "mole", "other", "admin-pw", false) {
        Removal::PasswordPage(redirect) => assert!(redirect.incorrect),
        _ => panic!("expected the password page"),
    }
    assert_eq!(pastas.len(), 1);
    assert!(matches!(
        post_remove(&mut pastas, "mole", "owner-pw", "admin-pw", false),
        Removal::Removed(_)
    ));
    assert!(pastas.is_empty());
}

#[test]
fn readonly_key_must_decrypt_to_the_id() {
    let key = encrypt("3", "owner-pw");
    let mut pastas = vec![Pasta { readonly: true, encrypted_key: Some(key), ..pasta(2) }];
    assert!(matches!(
        post_remove(&mut pastas, "mole", "owner-pw", "admin-pw", false),
        Removal::PasswordPage(_)
    ));
    let mut pastas = vec![Pasta { readonly: true, ..pasta(2) }];
    assert!(matches!(
        post_remove(&mut pastas, "mole", "owner-pw", "admin-pw", false),
        Removal::PasswordPage(_)
    ));
    assert_eq!(pastas.len(), 1);
}

#[test]
fn encrypted_pasta_is_removed_with_its_password() {
    let mut pastas = vec![Pasta { encrypt_server: true, content: encrypt("x", "pw"), ..pasta(2) }];
    assert!(matches!(
        post_remove(&mut pastas, "mole", "", "admin-pw", false),
        Removal::PasswordPage(_)
    ));
    assert!(matches!(
        post_remove(&mut pastas, "mole", "bad", "admin-pw", false),
        Removal::PasswordPage(_)
    ));
    assert_eq!(pastas.len(), 1);
    assert!(matches!(
        post_remove(&mut pastas, "mole", "pw", "admin-pw", false),
        Removal::Removed(_)
    ));
}

#[test]
fn not_editable_pasta_only_yields_to_the_admin() {
    let mut pastas = vec![Pasta { editable: false, ..pasta(2) }];
    assert!(matches!(
        post_remove(&mut pastas, "mole", "anything", "admin-pw", false),
        Removal::PasswordPage(_)
    ));
    assert_eq!(pastas.len(), 1);
}

#[test]
fn posting_for_an_open_pasta_goes_to_its_page() {
    let mut pastas = vec![pasta(2)];
    match post_remove(&mut pastas, "mole", "pw", "admin-pw", false) {
        Removal::PastaPage { slug } => assert_eq!(slug, "mole"),
        _ => panic!("expected the pasta page"),
    }
    assert_eq!(pastas.len(), 1);
    assert!(matches!(post_remove(&mut pastas, "zebra", "pw", "admin-pw", false), Removal::NotFound));
}
