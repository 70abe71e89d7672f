use microbin::pasta::Pasta;
use microbin::share_code::{
    find_pasta_index_by_code, generated_code_to_id, is_reserved_share_code,
    is_valid_custom_share_code, share_code_exists,
};

fn pasta(id: u64, share_code: Option<&str>) -> Pasta {
    Pasta {
        id,
        share_code: share_code.map(|c| c.to_string()),
        content: String::from("hello"),
        pasta_type: String::from("text"),
        encrypt_server: false,
        encrypt_client: false,
        encrypted_key: None,
        readonly: false,
        editable: true,
        read_count: 0,
        last_read: 0,
    }
}

#[test]
fn validates_custom_share_codes() {
    assert!(is_valid_custom_share_code("work-note_1"));
    assert!(is_valid_custom_share_code("1234"));
    assert!(is_valid_custom_share_code("abc"));
    assert!(!is_valid_custom_share_code("ab"));
    assert!(!is_valid_custom_share_code("upload"));
    assert!(!is_valid_custom_share_code("../secret"));
    assert!(!is_valid_custom_share_code("带中文"));
    assert!(!is_valid_custom_share_code("has space"));
}

#[test]
fn valid_codes_are_trimmed_before_checking() {
    assert!(is_valid_custom_share_code("  abc\t"));
    assert!(!is_valid_custom_share_code("  ab  "));
    assert!(is_valid_custom_share_code("\u{3000}note\u{a0}"));
}

#[test]
fn share_code_length_bounds() {
    let longest = "a".repeat(64);
    let too_long = "a".repeat(65);
    assert!(is_valid_custom_share_code(&longest));
    assert!(!is_valid_custom_share_code(&too_long));
    assert!(!is_valid_custom_share_code(""));
}

#[test]
fn reserved_codes_ignore_case_and_white_space() {
    assert!(is_reserved_share_code("upload"));
    assert!(is_reserved_share_code("  Upload "));
    assert!(is_reserved_share_code("FAVICON.ICO"));
    assert!(is_reserved_share_code("auth_remove_private"));
    assert!(is_reserved_share_code("u"));
    assert!(!is_reserved_share_code("uploads"));
    assert!(!is_reserved_share_code("work-note"));
    assert!(!is_valid_custom_share_code("Admin"));
    assert!(!is_valid_custom_share_code(" list "));
}

#[test]
fn generated_animal_codes_are_read_back() {
    assert_eq!(generated_code_to_id("ant", false), Some(0));
    assert_eq!(generated_code_to_id("eel", false), Some(1));
    assert_eq!(generated_code_to_id("zebra", false), Some(63));
    assert_eq!(generated_code_to_id("eel-ant", false), Some(64));
    assert_eq!(generated_code_to_id("eel-eel", false), Some(65));
    assert_eq!(generated_code_to_id("mole-sloth-ape", false), Some(2 * 4096 + 3 * 64 + 4));
    assert_eq!(generated_code_to_id("unicorn", false), None);
    assert_eq!(generated_code_to_id("eel--eel", false), None);
    assert_eq!(generated_code_to_id("", false), None);
    assert_eq!(generated_code_to_id("Eel", false), None);
}

#[test]
fn animal_codes_beyond_u64_are_refused() {
    // 64^11 is larger than u64::MAX: eleven zeros after a one.
    let code = format!("eel{}", "-ant".repeat(11));
    assert_eq!(generated_code_to_id(&code, false), None);
    // Leading zeros are accepted.
    let code = format!("{}eel", "ant-".repeat(20));
    assert_eq!(generated_code_to_id(&code, false), Some(1));
    let max = Pasta { id: u64::MAX, ..pasta(0, None) };
    assert_eq!(generated_code_to_id(&max.id_as_animals(true), true), None);
    let slug = max.id_as_animals(false);
    assert_eq!(generated_code_to_id(&slug, false), Some(u64::MAX));
}

#[test]
fn generated_hashids_are_read_back() {
    let p = pasta(4242, None);
    let slug = p.id_as_animals(true);
    assert!(slug.len() >= 6);
    assert_eq!(generated_code_to_id(&slug, true), Some(4242));
    assert_eq!(generated_code_to_id("!!", true), None);
    assert!(p.matches_share_code(&slug, true));
}

#[test]
fn lookup_finds_first_match() {
    let pastas = vec![pasta(3, None), pasta(7, Some("work-note")), pasta(7, None)];
    assert_eq!(find_pasta_index_by_code(&pastas, "work-note", false), Some(1));
    assert_eq!(find_pasta_index_by_code(&pastas, "sloth", false), Some(0));
    assert_eq!(find_pasta_index_by_code(&pastas, "snail", false), Some(1));
    assert_eq!(find_pasta_index_by_code(&pastas, "1234", false), None);
    assert!(share_code_exists(&pastas, "work-note", false));
    assert!(share_code_exists(&pastas, "snail", false));
    assert!(!share_code_exists(&pastas, "1234", false));
    assert!(!share_code_exists(&[], "ant", false));
}

#[test]
fn pasta_is_reached_by_its_own_code() {
    for id in [0u64, 1, 63, 64, 65, 4095, 4096, 123_456_789, u64::MAX] {
        let p = pasta(id, None);
        let slug = p.id_as_animals(false);
        assert!(p.matches_share_code(&slug, false));
        assert_eq!(generated_code_to_id(&slug, false), Some(id));
    }
    assert_eq!(pasta(0, None).id_as_animals(false), "ant");
    assert_eq!(pasta(65, None).id_as_animals(false), "eel-eel");
    assert_eq!(pasta(64 * 64, None).id_as_animals(false), "eel-ant-ant");
}

#[test]
fn hashids_of_many_ids_are_read_back() {
    for id in [0u64, 1, 2, 63, 64, 1000, 65_535, 1 << 40, 27_197_360_938_418_176, 1_196_683_881_290_399_743] {
        let slug = pasta(id, None).id_as_animals(true);
        assert!(slug.len() >= 6, "{slug}");
        assert_eq!(generated_code_to_id(&slug, true), Some(id));
        assert_eq!(
            find_pasta_index_by_code(&[pasta(id, None)], &slug, true),
            Some(0)
        );
    }
}

#[test]
fn crafted_long_hashid_is_not_decoded() {
    assert_eq!(generated_code_to_id("gX11111111111", true), None);
    assert!(!share_code_exists(&[pasta(1, None)], "gX11111111111", true));
}
