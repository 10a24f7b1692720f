use preparer::text::{decimal_string, join_path, starts_with};

#[test]
fn decimal_of_single_digits() {
    assert_eq!(decimal_string(0), "0");
    assert_eq!(decimal_string(7), "7");
    assert_eq!(decimal_string(9), "9");
}

#[test]
fn decimal_of_longer_numbers() {
    assert_eq!(decimal_string(10), "10");
    assert_eq!(decimal_string(42), "42");
    assert_eq!(decimal_string(100), "100");
    assert_eq!(decimal_string(12345), "12345");
    assert_eq!(decimal_string(9_876_543_210), "9876543210");
}

#[test]
fn decimal_agrees_with_std_formatting() {
    let samples: [usize; 8] = [0, 1, 19, 20, 99, 101, 65535, usize::MAX];
    for n in samples {
        assert_eq!(decimal_string(n), format!("{}", n));
    }
}

#[test]
fn starts_with_finds_prefixes() {
    assert!(starts_with("video/x-raw", "video/"));
    assert!(starts_with("video/", "video/"));
    assert!(starts_with("anything", ""));
    assert!(starts_with("", ""));
}

#[test]
fn starts_with_rejects_non_prefixes() {
    assert!(!starts_with("video", "video/"));
    assert!(!starts_with("", "video/"));
    assert!(!starts_with("xvideo/", "video/"));
    assert!(!starts_with("Video/x-raw", "video/"));
    assert!(!starts_with("vide0/x-raw", "video/"));
}

#[test]
fn starts_with_counts_characters_not_bytes() {
    assert!(starts_with("été/été", "été/"));
    assert!(!starts_with("ete/été", "été/"));
    assert!(starts_with("日本語/字幕", "日本"));
}

#[test]
fn join_path_separates_with_one_slash() {
    assert_eq!(join_path("out", "manifest.mpd"), "out/manifest.mpd");
    assert_eq!(join_path("./output", "subtitles_0"), "./output/subtitles_0");
}

#[test]
fn join_path_keeps_a_trailing_slash() {
    assert_eq!(join_path("out/", "a"), "out/a");
    assert_eq!(join_path("/", "a"), "/a");
}

#[test]
fn join_path_with_empty_base_is_the_child() {
    assert_eq!(join_path("", "a"), "a");
}

#[test]
fn join_path_agrees_with_std_paths() {
    let bases = ["out", "out/", "", "/", "a/b", "./x"];
    for base in bases {
        let expected = std::path::Path::new(base).join("subtitles_3");
        assert_eq!(join_path(base, "subtitles_3"), expected.to_str().unwrap());
    }
}
