//! Laws of what is settled before the service starts.
use vstd::prelude::*;
use vstd::utf8::encode_utf8;
use crate::startup::{downloads_bytes, host_name_of};
use crate::text::is_white_space;

verus! {

/// A configured download directory is taken as it is, whatever the home directory.
pub proof fn configured_downloads_are_taken(path: Seq<u8>, home: Option<Seq<char>>)
    ensures
        downloads_bytes(Some(path), home) == path,
{
}

/// Without one it is `Downloads` in the home directory, one slash between the two.
pub proof fn downloads_are_in_the_home_directory(home: Seq<char>)
    requires
        home.len() == 0 || home.last() != '/',
    ensures
        home.len() > 0 ==> downloads_bytes(None, Some(home)) == encode_utf8(home + "/Downloads"@),
        downloads_bytes(None, Some(home + "/"@)) == encode_utf8(home + "/Downloads"@),
{
    reveal_strlit("/");
    reveal_strlit("Downloads");
    reveal_strlit("/Downloads");
    assert((home + "/"@).last() == '/');
    assert(home + "/Downloads"@ == home + "/"@ + "Downloads"@);
}

/// Slashes that the home directory ends in stay.
pub proof fn downloads_follow_a_final_slash(home: Seq<char>)
    requires
        home.len() > 0,
        home.last() == '/',
    ensures
        downloads_bytes(None, Some(home)) == encode_utf8(home + "Downloads"@),
{
}

/// A home directory that is empty or not known leaves `Downloads`.
pub proof fn downloads_without_home()
    ensures
        downloads_bytes(None, Some(Seq::empty())) == encode_utf8("Downloads"@),
        downloads_bytes(None, None) == encode_utf8("Downloads"@),
{
    assert(Seq::<char>::empty() + "Downloads"@ == "Downloads"@);
}

/// The device name is the kernel's host name, or else that of the other file,
/// without the white space around it, whatever the kernel's holds inside.
pub proof fn device_name_is_trimmed_host_name(
    front: Seq<char>,
    name: Seq<char>,
    back: Seq<char>,
    other: Option<Seq<char>>,
)
    requires
        forall|i: int| 0 <= i < front.len() ==> is_white_space(#[trigger] front[i]),
        forall|i: int| 0 <= i < back.len() ==> is_white_space(#[trigger] back[i]),
        name.len() > 0 ==> !is_white_space(name.first()) && !is_white_space(name.last()),
    ensures
        host_name_of(Some(front + name + back), other) == name,
        host_name_of(None, Some(front + name + back)) == name,
{
    crate::laws::text::trimming_gives_what_is_between(front, name, back);
}

/// A device without a host name is called `Linux`.
pub proof fn device_without_host_name()
    ensures
        host_name_of(None, None) == "Linux"@,
{
}

} // verus!
