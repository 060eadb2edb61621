use dimport::paths::{
    extract_export_name, is_image_file, is_url, is_zip_file, make_variant_name, split_extension,
    split_path,
};
use std::path::Path;

fn v(s: &str) -> Vec<char> {
    s.chars().collect()
}

fn s(v: &Vec<char>) -> String {
    v.iter().collect()
}

#[test]
fn urls_begin_with_a_web_scheme() {
    assert!(is_url("http://example.com/a.json"));
    assert!(is_url("https://example.com/a.json"));
    assert!(is_url("http://"));
    assert!(!is_url("HTTP://example.com"));
    assert!(!is_url("ftp://example.com"));
    assert!(!is_url("exports/http://x"));
    assert!(!is_url(""));
}

#[test]
fn zip_names_end_in_zip_in_any_case() {
    assert!(is_zip_file("media.zip"));
    assert!(is_zip_file("MEDIA.ZIP"));
    assert!(is_zip_file("zip"));
    assert!(is_zip_file("notadotzip"));
    assert!(!is_zip_file("media.zip.bak"));
    assert!(!is_zip_file(""));
}

#[test]
fn image_names_end_in_an_image_extension() {
    for name in ["a.jpg", "a.JPEG", "a.Png", "a.webp", "a.gif", "a.avif", "xjpg", "gif"] {
        assert!(is_image_file(name), "{name}");
    }
    for name in ["a.txt", "a.jpg.txt", "", "a.mp4", "a.pn", "a.jp"] {
        assert!(!is_image_file(name), "{name}");
    }
}

#[test]
fn export_name_matches_std_file_stem_for_local_paths() {
    let paths = [
        "chan.json", "exports/chan.json", "/abs/exports/chan.json", "exports/chan", "chan.tar.gz",
        ".hidden", ".hidden.json", "dir/", "dir//", "dir/.", "dir/./", "a/b/..", "..", ".", "",
        "/", "a..", "..a", "a.", "x/y.z/", "./a.json", "./.", "a//b.c", "...", "a/...",
        "Guild - general [123].json",
    ];
    for p in paths {
        let expected = Path::new(p).file_stem().and_then(|x| x.to_str()).unwrap_or("");
        assert_eq!(extract_export_name(p), expected, "{p:?}");
    }
}

#[test]
fn export_name_of_a_url_is_taken_from_its_last_segment() {
    assert_eq!(extract_export_name("https://host/exports/chan.json"), "chan");
    assert_eq!(extract_export_name("http://host/chan.json/"), "");
    assert_eq!(extract_export_name("https://host"), "host");
    assert_eq!(extract_export_name("https://host/a.b.json"), "a.b");
    assert_eq!(extract_export_name("https://host/.."), "");
}

#[test]
fn split_path_matches_std_file_name() {
    let paths = [
        "media/a.png", "a.png", "/a.png", "media/sub/a.png", "media/", "media/.", "..", "a/..",
        "", "/", ".", "media//a.png",
    ];
    for p in paths {
        let expected = Path::new(p).file_name().and_then(|x| x.to_str()).map(|x| x.to_string());
        let got = split_path(&v(p)).map(|parts| s(&parts.name));
        assert_eq!(got, expected, "{p:?}");
    }
}

#[test]
fn split_path_keeps_the_directory_with_its_separator() {
    let parts = split_path(&v("media/sub/a.png")).unwrap();
    assert_eq!(s(&parts.dir), "media/sub/");
    assert_eq!(s(&parts.name), "a.png");
    let parts = split_path(&v("a.png")).unwrap();
    assert_eq!(s(&parts.dir), "");
    let parts = split_path(&v("/a.png")).unwrap();
    assert_eq!(s(&parts.dir), "/");
}

#[test]
fn split_extension_matches_std() {
    for name in ["a.png", "a", ".hidden", ".a.b", "a.", "a..", "..a", "a.tar.gz", "a.b.c.d"] {
        let stem = Path::new(name).file_stem().and_then(|x| x.to_str()).unwrap().to_string();
        let ext = Path::new(name).extension().and_then(|x| x.to_str()).map(|x| x.to_string());
        match split_extension(&v(name)) {
            Some((st, ex)) => {
                assert_eq!(s(&st), stem, "{name:?}");
                assert_eq!(Some(s(&ex)), ext, "{name:?}");
            }
            None => {
                assert_eq!(name, stem, "{name:?}");
                assert_eq!(None, ext, "{name:?}");
            }
        }
    }
}

#[test]
fn variant_names_are_padded_to_three_digits() {
    assert_eq!(s(&make_variant_name(&v("a"), &v("png"), 1)), "a_001.png");
    assert_eq!(s(&make_variant_name(&v("a"), &v("png"), 12)), "a_012.png");
    assert_eq!(s(&make_variant_name(&v("a"), &v("png"), 999)), "a_999.png");
    assert_eq!(s(&make_variant_name(&v("a"), &v("png"), 1000)), "a_1000.png");
    assert_eq!(s(&make_variant_name(&v("a.b"), &v(""), 7)), "a.b_007.");
    for i in [1u64, 9, 10, 99, 100, 999] {
        assert_eq!(s(&make_variant_name(&v("x"), &v("gif"), i)), format!("x_{i:03}.gif"));
    }
}
