use singularity_world::server::auth::{
    check_create_request, check_login_request, gender_code, login_grid_position, login_needs_spawn,
    login_stats, new_display_char, npcs_met, CreateRefusal, LoginRefusal,
};

#[test]
fn login_needs_id_then_password() {
    assert!(matches!(check_login_request("", ""), Some(LoginRefusal::NeedId)));
    assert!(matches!(check_login_request("", "pw"), Some(LoginRefusal::NeedId)));
    assert!(matches!(check_login_request("alice", ""), Some(LoginRefusal::NeedPassword)));
    assert!(check_login_request("alice", "pw").is_none());
    assert_eq!(LoginRefusal::NeedId.text_key(), "login_need_id");
    assert_eq!(LoginRefusal::NeedPassword.text_key(), "login_need_password");
}

#[test]
fn create_checks_in_order() {
    assert!(matches!(check_create_request("", "secret1"), Some(CreateRefusal::NeedId)));
    assert!(matches!(check_create_request("bob", ""), Some(CreateRefusal::NeedPassword)));
    assert!(matches!(check_create_request("bob", "12345"), Some(CreateRefusal::PasswordShort)));
    assert!(matches!(check_create_request("b", "123456"), Some(CreateRefusal::IdLen)));
    let long = "x".repeat(33);
    assert!(matches!(check_create_request(&long, "123456"), Some(CreateRefusal::IdLen)));
    assert!(check_create_request(&"x".repeat(32), "123456").is_none());
    assert!(check_create_request("bo", "123456").is_none());
    assert_eq!(CreateRefusal::IdLen.text_key(), "create_id_len");
    assert_eq!(CreateRefusal::PasswordShort.text_key(), "create_password_short");
    assert_eq!(CreateRefusal::NeedId.text_key(), "create_need_id");
    assert_eq!(CreateRefusal::NeedPassword.text_key(), "create_need_password");
}

#[test]
fn create_lengths_count_bytes() {
    // two CJK characters are six bytes: a long enough password, a valid id
    assert!(check_create_request("阿明", "密碼").is_none());
    // one CJK character is three bytes: an id long enough
    assert!(check_create_request("明", "123456").is_none());
    // eleven CJK characters are 33 bytes: too long an id
    let long = "明".repeat(11);
    assert!(matches!(check_create_request(&long, "123456"), Some(CreateRefusal::IdLen)));
    // one CJK character is too short a password
    assert!(matches!(check_create_request("bob", "密"), Some(CreateRefusal::PasswordShort)));
}

#[test]
fn display_char_defaults_and_is_cut_to_one() {
    assert_eq!(new_display_char("", "人"), "人");
    assert_eq!(new_display_char("龍虎", "人"), "龍");
    assert_eq!(new_display_char("A", "人"), "A");
    assert_eq!(new_display_char("", "默認"), "默");
}

#[test]
fn gender_is_f_only_for_female() {
    assert_eq!(gender_code("女"), "F");
    assert_eq!(gender_code("男"), "M");
    assert_eq!(gender_code(""), "M");
}

#[test]
fn login_defaults() {
    assert_eq!(login_grid_position(Some(3), Some(-2)), ((3, -2), false));
    assert_eq!(login_grid_position(Some(3), None), ((0, 0), true));
    assert!(login_needs_spawn(None, Some(1)));
    assert!(!login_needs_spawn(Some(0), Some(0)));
    assert_eq!(login_stats(None), (10, 10, 10));
    assert_eq!(login_stats(Some((5, 6, 7))), (5, 6, 7));
    let ents = vec![("npc_1".to_string(), true), ("me".to_string(), false), ("npc_2".to_string(), true), ("me".to_string(), true)];
    assert_eq!(npcs_met(&ents, "me"), vec!["npc_1".to_string(), "npc_2".to_string()]);
}
