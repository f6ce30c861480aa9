use sendfiles::startup::{downloads_dir, host_name};
use std::path::PathBuf;

fn text(s: &str) -> Option<String> {
    Some(s.to_string())
}

#[test]
fn configured_directory_is_taken() {
    assert_eq!(downloads_dir(Some(b"/data/in\xff".to_vec()), text("/home/me")), b"/data/in\xff".to_vec());
}

#[test]
fn download_directory_is_in_the_home_directory() {
    assert_eq!(downloads_dir(None, text("/home/me")), b"/home/me/Downloads".to_vec());
    assert_eq!(downloads_dir(None, text("/home/me/")), b"/home/me/Downloads".to_vec());
    assert_eq!(downloads_dir(None, text("/")), b"/Downloads".to_vec());
}

#[test]
fn unknown_home_is_the_working_directory() {
    assert_eq!(downloads_dir(None, None), b"Downloads".to_vec());
    assert_eq!(downloads_dir(None, text("")), b"Downloads".to_vec());
}

#[test]
fn home_is_joined_as_a_path() {
    for home in ["", "/", "/home/me", "/home/me/", "me", "a b", "/h\u{e4}", "//", "./"] {
        let path = PathBuf::from(home).join("Downloads");
        assert_eq!(downloads_dir(None, text(home)), path.to_str().unwrap().as_bytes().to_vec());
    }
}

#[test]
fn host_name_is_trimmed() {
    assert_eq!(host_name(text("laptop\n"), None), "laptop");
    assert_eq!(host_name(text("\t my laptop \u{3000}\u{a0}\r\n"), text("other")), "my laptop");
    assert_eq!(host_name(text(" \n"), text("other")), "");
}

#[test]
fn host_name_falls_back() {
    assert_eq!(host_name(None, text(" box\n")), "box");
    assert_eq!(host_name(None, None), "Linux");
}

#[test]
fn every_kind_of_white_space_is_trimmed() {
    let space = [
        '\u{9}', '\u{a}', '\u{b}', '\u{c}', '\u{d}', '\u{20}', '\u{85}', '\u{a0}', '\u{1680}',
        '\u{2000}', '\u{2001}', '\u{2002}', '\u{2003}', '\u{2004}', '\u{2005}', '\u{2006}',
        '\u{2007}', '\u{2008}', '\u{2009}', '\u{200a}', '\u{2028}', '\u{2029}', '\u{202f}',
        '\u{205f}', '\u{3000}',
    ];
    let mut code = 0u32;
    while code <= 0x10_ffff {
        if let Some(c) = char::from_u32(code) {
            let name = format!("{}x{}", c, c);
            let shown = host_name(Some(name.clone()), None);
            assert_eq!(shown, name.trim());
            if space.contains(&c) {
                assert_eq!(shown, "x");
            } else {
                assert_eq!(shown, name);
            }
        }
        code += 1;
    }
}
