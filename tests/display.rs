use oss_explorer::display::{
    format_date, get_safe_avatar_url, is_safe_image_url, is_safe_lowered_url, DEFAULT_AVATAR,
};

#[test]
fn date_part_of_timestamp() {
    assert_eq!(format_date("2020-01-15T10:20:30Z"), "2020-01-15");
    assert_eq!(format_date("2020-01-15"), "2020-01-15");
    assert_eq!(format_date(""), "");
    assert_eq!(format_date("T12"), "");
}

#[test]
fn safe_schemes() {
    assert!(is_safe_image_url("https://avatars.githubusercontent.com/u/1"));
    assert!(is_safe_image_url("http://example.com/a.png"));
    assert!(is_safe_image_url("data:image/png;base64,AAAA"));
    assert!(!is_safe_image_url("chrome-extension://abc/icon.png"));
    assert!(!is_safe_image_url("javascript:alert(1)"));
    assert!(!is_safe_image_url(""));
}

#[test]
fn scheme_case_is_ignored() {
    assert!(is_safe_image_url("HTTPS://EXAMPLE.COM/A.PNG"));
    assert!(is_safe_image_url("Data:image/png;base64,AAAA"));
    assert!(!is_safe_lowered_url("HTTPS://EXAMPLE.COM"));
}

#[test]
fn avatar_falls_back_to_placeholder() {
    assert_eq!(get_safe_avatar_url("https://x/y.png"), "https://x/y.png");
    assert_eq!(get_safe_avatar_url("file:///etc/passwd"), DEFAULT_AVATAR);
    assert!(DEFAULT_AVATAR.starts_with("data:image/svg+xml,"));
}
