use yewchat::profile::{
    derive_avatar, UserProfile, DEFAULT_AVATAR, MIKU_AVATAR, NERU_AVATAR, TETO_AVATAR,
};

#[test]
fn avatar_urls_are_the_known_ones() {
    assert_eq!(
        MIKU_AVATAR,
        "https://raw.githubusercontent.com/hyvos07/yewchat/refs/heads/main/YewChat/static/miku.png"
    );
    assert_eq!(
        TETO_AVATAR,
        "https://raw.githubusercontent.com/hyvos07/yewchat/refs/heads/main/YewChat/static/teto.jpg"
    );
    assert_eq!(
        NERU_AVATAR,
        "https://raw.githubusercontent.com/hyvos07/yewchat/refs/heads/main/YewChat/static/neru.jpg"
    );
    assert_eq!(DEFAULT_AVATAR, "https://api.dicebear.com/9.x/lorelei/svg");
}

#[test]
fn miku_has_her_own_avatar_in_any_case() {
    assert_eq!(derive_avatar("Miku"), MIKU_AVATAR);
    assert_eq!(derive_avatar("miku"), MIKU_AVATAR);
    assert_eq!(derive_avatar("MIKU"), MIKU_AVATAR);
    assert_eq!(derive_avatar("mIkU"), MIKU_AVATAR);
}

#[test]
fn teto_and_neru_have_their_own_avatars() {
    assert_eq!(derive_avatar("Teto"), TETO_AVATAR);
    assert_eq!(derive_avatar("teto"), TETO_AVATAR);
    assert_eq!(derive_avatar("TETO"), TETO_AVATAR);
    assert_eq!(derive_avatar("Neru"), NERU_AVATAR);
    assert_eq!(derive_avatar("neru"), NERU_AVATAR);
    assert_eq!(derive_avatar("nERu"), NERU_AVATAR);
}

#[test]
fn other_names_share_the_default_avatar() {
    assert_eq!(derive_avatar("Alice"), DEFAULT_AVATAR);
    assert_eq!(derive_avatar(""), DEFAULT_AVATAR);
    assert_eq!(derive_avatar("Mik"), DEFAULT_AVATAR);
    assert_eq!(derive_avatar("Mikus"), DEFAULT_AVATAR);
    assert_eq!(derive_avatar(" miku"), DEFAULT_AVATAR);
    assert_eq!(derive_avatar("mikü"), DEFAULT_AVATAR);
    assert_eq!(derive_avatar("tetö"), DEFAULT_AVATAR);
}

#[test]
fn only_ascii_capitals_are_folded() {
    // U+212A KELVIN SIGN lower-cases to `k` in Unicode, but it is no ASCII capital.
    assert_eq!(derive_avatar("mi\u{212A}u"), DEFAULT_AVATAR);
    assert_eq!(derive_avatar("m\u{0130}ku"), DEFAULT_AVATAR);
}

#[test]
fn a_new_profile_carries_the_derived_avatar() {
    let p = UserProfile::new("Teto".to_string(), "drill".to_string());
    assert_eq!(p.name(), "Teto");
    assert_eq!(p.avatar(), TETO_AVATAR);
    assert_eq!(p.bio(), "drill");
}

#[test]
fn a_profile_is_written_name_avatar_bio() {
    let p = UserProfile::new("Alice".to_string(), "hi \"there\"".to_string());
    assert_eq!(
        p.encode(),
        "{\"name\":\"Alice\",\"avatar\":\"https://api.dicebear.com/9.x/lorelei/svg\",\"bio\":\"hi \\\"there\\\"\"}"
    );
}

#[test]
fn a_profile_reads_back_from_its_text() {
    let p = UserProfile::new("Neru".to_string(), "\u{1F4F1}\n".to_string());
    assert_eq!(UserProfile::decode(&p.encode()), Some(p));
}

#[test]
fn a_profile_is_read_with_whatever_avatar_it_names() {
    let p = UserProfile::decode("{\"bio\":\"b\",\"name\":\"Miku\",\"avatar\":\"u\",\"age\":3}")
        .expect("a profile");
    assert_eq!(p.name(), "Miku");
    assert_eq!(p.avatar(), "u");
    assert_eq!(p.bio(), "b");
}

#[test]
fn a_profile_needs_its_three_strings() {
    for text in [
        "",
        "null",
        "[]",
        "{}",
        "{\"name\":\"n\",\"avatar\":\"a\"}",
        "{\"name\":\"n\",\"bio\":\"b\"}",
        "{\"avatar\":\"a\",\"bio\":\"b\"}",
        "{\"name\":\"n\",\"avatar\":\"a\",\"bio\":null}",
        "{\"name\":1,\"avatar\":\"a\",\"bio\":\"b\"}",
    ] {
        assert_eq!(UserProfile::decode(text), None, "{}", text);
    }
}
