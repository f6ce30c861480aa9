//! What the client settles before its service starts: where received files go,
//! and the name under which other devices see it.
use vstd::prelude::*;
use vstd::string::*;
use vstd::utf8::encode_utf8;
use crate::text::{text_of, trim_text, trimmed};

verus! {

/// The download directory under the home directory `home`.
pub open spec fn downloads_under(home: Seq<char>) -> Seq<char> {
    if home.len() == 0 || home.last() == '/' {
        home + "Downloads"@
    } else {
        home + "/"@ + "Downloads"@
    }
}

/// The bytes of the directory for received files: the download directory that
/// the desktop has configured or else `Downloads` in the home directory, which
/// is the working directory where `home` is not known.
pub open spec fn downloads_bytes(configured: Option<Seq<u8>>, home: Option<Seq<char>>) -> Seq<u8> {
    match configured {
        Some(path) => path,
        None => encode_utf8(downloads_under(home.unwrap_or(Seq::empty()))),
    }
}

/// The device name: the first of the two host name files that could be read,
/// without the white space around it, or else `Linux`.
pub open spec fn host_name_of(kernel: Option<Seq<char>>, etc: Option<Seq<char>>) -> Seq<char> {
    match (kernel, etc) {
        (Some(name), _) => trimmed(name),
        (None, Some(name)) => trimmed(name),
        (None, None) => "Linux"@,
    }
}

/// The path of the directory for received files, in bytes.
pub fn downloads_dir(configured: Option<Vec<u8>>, home: Option<String>) -> (path: Vec<u8>)
    ensures
        path@ == downloads_bytes(
            match configured {
                Some(p) => Some(p@),
                None => None,
            },
            text_of(home),
        ),
{
    match configured {
        Some(path) => path,
        None => {
            let home = match home {
                Some(home) => home,
                None => String::new(),
            };
            let len: usize = home.as_str().unicode_len();
            let path = if len == 0 || home.as_str().get_char(len - 1) == '/' {
                home.concat("Downloads")
            } else {
                home.concat("/").concat("Downloads")
            };
            path.as_str().as_bytes_vec()
        },
    }
}

/// The name of this device, from what the two host name files hold, each `None`
/// where it could not be read.
pub fn host_name(kernel: Option<String>, etc: Option<String>) -> (name: String)
    ensures
        name@ == host_name_of(text_of(kernel), text_of(etc)),
{
    match kernel {
        Some(text) => trim_text(text.as_str()).to_owned(),
        None => match etc {
            Some(text) => trim_text(text.as_str()).to_owned(),
            None => "Linux".to_owned(),
        },
    }
}

} // verus!
