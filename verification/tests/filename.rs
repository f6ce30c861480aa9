use sendfiles::filename::{can_truncate_filename, truncate_filename};
use std::path::Path;

/// The shown name by the standard library's view of the path.
fn by_path(name: &str, max_len: usize) -> String {
    if name.len() <= max_len {
        return name.to_string();
    }
    let path = Path::new(name);
    let extension = path.extension().and_then(|s| s.to_str()).unwrap_or("");
    let stem = path.file_stem().and_then(|s| s.to_str()).unwrap_or(name);
    if stem.len() <= 15 {
        return name.to_string();
    }
    let kept = &stem[..15];
    if !extension.is_empty() {
        format!("{} ... .{}", kept, extension)
    } else {
        format!("{} ...", kept)
    }
}

#[test]
fn short_names_stay() {
    assert_eq!(truncate_filename("photo.jpg", 30), "photo.jpg");
    assert_eq!(truncate_filename("", 0), "");
    let thirty = "abcdefghijklmnopqrstuvwxyz.txt";
    assert_eq!(thirty.len(), 30);
    assert_eq!(truncate_filename(thirty, 30), thirty);
}

#[test]
fn long_names_keep_their_extension() {
    assert_eq!(
        truncate_filename("abcdefghijklmnopqrstuvwxyz0.txt", 30),
        "abcdefghijklmno ... .txt"
    );
    assert_eq!(
        truncate_filename("holiday-in-the-mountains-2024.tar.gz", 30),
        "holiday-in-the- ... .gz"
    );
}

#[test]
fn long_names_without_extension_end_in_dots() {
    assert_eq!(
        truncate_filename("abcdefghijklmnopqrstuvwxyz012345", 30),
        "abcdefghijklmno ..."
    );
    assert_eq!(
        truncate_filename("abcdefghijklmnopqrstuvwxyz012345.", 30),
        "abcdefghijklmno ..."
    );
    assert_eq!(
        truncate_filename(".abcdefghijklmnopqrstuvwxyz012345", 30),
        ".abcdefghijklmn ..."
    );
}

#[test]
fn short_stems_stay_whatever_the_extension() {
    let name = "abc.a-very-long-extension-of-a-file";
    assert_eq!(truncate_filename(name, 30), name);
    let fifteen = "abcdefghijklmno.a-very-long-extension";
    assert_eq!(truncate_filename(fifteen, 30), fifteen);
}

#[test]
fn names_with_directories_lose_them_when_cut() {
    assert_eq!(
        truncate_filename("some/dir/abcdefghijklmnopqrst.txt", 30),
        "abcdefghijklmno ... .txt"
    );
    assert_eq!(
        truncate_filename("some/dir/abcdefghijklmnopqrst.txt/./", 30),
        "abcdefghijklmno ... .txt"
    );
    assert_eq!(
        truncate_filename("abcdefghijklmnopqrst/abcdefghijklmnopqrst/..", 30),
        "abcdefghijklmno ..."
    );
}

#[test]
fn lengths_are_counted_in_bytes() {
    // Eleven characters of three bytes each.
    let name = "\u{20ac}\u{20ac}\u{20ac}\u{20ac}\u{20ac}\u{20ac}\u{20ac}\u{20ac}\u{20ac}\u{20ac}\u{20ac}";
    assert!(can_truncate_filename(name, 30));
    assert_eq!(truncate_filename(name, 30), "\u{20ac}\u{20ac}\u{20ac}\u{20ac}\u{20ac} ...");
    assert_eq!(truncate_filename(name, 33), name);
}

#[test]
fn cut_within_a_character_is_refused() {
    let name = "\u{e4}\u{e4}\u{e4}\u{e4}\u{e4}\u{e4}\u{e4}\u{e4}\u{e4}\u{e4}\u{e4}\u{e4}\u{e4}\u{e4}\u{e4}\u{e4}";
    assert_eq!(name.len(), 32);
    assert!(!can_truncate_filename(name, 30));
    assert!(can_truncate_filename(name, 32));
    assert!(can_truncate_filename("\u{e4}.a-very-long-extension-of-a-file", 30));
}

#[test]
fn cut_names_have_a_fixed_length() {
    assert_eq!(truncate_filename("abcdefghijklmnopqrstuvwxyz012345", 30).len(), 19);
    assert_eq!(truncate_filename("abcdefghijklmnopqrstuvwxyz0.json", 30).len(), 21 + 4);
}

#[test]
fn shortening_twice_is_shortening_once() {
    for name in [
        "abcdefghijklmnopqrstuvwxyz012345",
        "abcdefghijklmnopqrstuvwxyz0.txt",
        "abcdefghijklmnopqrst.an-extension-of-many-letters",
        "some/dir/abcdefghijklmnopqrst.txt",
    ] {
        for max_len in [0usize, 10, 19, 30] {
            let once = truncate_filename(name, max_len);
            assert!(can_truncate_filename(&once, max_len));
            assert_eq!(truncate_filename(&once, max_len), once);
        }
    }
}

#[test]
fn slashes_of_a_path_without_file_can_be_lost_the_second_time() {
    let name = "/bbbbbbbbbbbbbbbbbbbb/..";
    let once = truncate_filename(name, 18);
    assert_eq!(once, "/bbbbbbbbbbbbbb ...");
    assert_eq!(truncate_filename(&once, 18), "bbbbbbbbbbbbbb  ...");
}

#[test]
fn names_are_taken_apart_as_paths() {
    let pieces = [
        "", "/", ".", "..", "/.", "./", "a", ".a", "a.", "x.y", "abcdefghijklmnopqrst", "//", "...",
        "abcdefghijklmnop.q", " ",
    ];
    for a in pieces {
        for b in pieces {
            for c in pieces {
                for d in pieces {
                    let name = format!("{}{}{}{}", a, b, c, d);
                    for max_len in [0usize, 16, 30] {
                        assert!(can_truncate_filename(&name, max_len));
                        assert_eq!(truncate_filename(&name, max_len), by_path(&name, max_len));
                    }
                }
            }
        }
    }
}

#[test]
fn cut_names_stay_under_every_limit() {
    for name in [
        "abcdefghijklmnopqrstuvwxyz012345",
        "abcdefghijklmnopqrstuvwxyz0.txt",
        "abcdefghijklmnopqrst.an-extension-of-many-letters",
    ] {
        let cut = truncate_filename(name, 30);
        for limit in 0..60usize {
            assert!(can_truncate_filename(&cut, limit));
            assert_eq!(truncate_filename(&cut, limit), cut);
        }
    }
}
