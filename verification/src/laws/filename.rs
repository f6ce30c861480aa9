//! Laws of file names: what the parts of a path are, and what is shown of a name.
use vstd::prelude::*;
use vstd::utf8::encode_utf8;
use crate::filename::{
    boundary_after, byte_len, can_be_shortened, encode_concat, extension, extension_of, file_name,
    first_bytes, kept_part, last_at, last_at_is, last_segment, shortened, stem, stem_of,
};

verus! {

/// The last mark is the one after which there is no other.
pub proof fn last_mark_is_found(front: Seq<char>, mark: char, back: Seq<char>)
    requires
        !back.contains(mark),
    ensures
        last_at(back, mark) == -1,
        last_at(front + seq![mark] + back, mark) == front.len(),
{
    let text = front + seq![mark] + back;
    assert forall|i: int| 0 <= i < back.len() implies back[i] != mark by {
        assert(back.contains(back[i]));
    }
    assert forall|i: int| front.len() < i < text.len() implies text[i] != mark by {
        assert(text[i] == back[i - front.len() - 1]);
    }
    last_at_is(back, mark, -1);
    last_at_is(text, mark, front.len() as int);
}

/// The last segment of a path follows its last slash.
proof fn segment_after_last_slash(dir: Seq<char>, segment: Seq<char>)
    requires
        !segment.contains('/'),
    ensures
        last_segment(segment) == segment,
        last_at(segment, '/') == -1,
        last_segment(dir + seq!['/'] + segment) == segment,
        last_at(dir + seq!['/'] + segment, '/') == dir.len(),
        (dir + seq!['/'] + segment).take(dir.len() as int) == dir,
{
    last_mark_is_found(dir, '/', segment);
    assert(segment.skip(0) == segment);
    assert((dir + seq!['/'] + segment).skip(dir.len() as int + 1) == segment);
    assert((dir + seq!['/'] + segment).take(dir.len() as int) == dir);
}

/// The file name of a path is its last segment.
pub proof fn file_name_is_last_segment(dir: Seq<char>, file: Seq<char>)
    requires
        file.len() > 0,
        !file.contains('/'),
        file != "."@,
        file != ".."@,
    ensures
        file_name(file) == Some(file),
        file_name(dir + seq!['/'] + file) == Some(file),
{
    segment_after_last_slash(dir, file);
}

/// A trailing slash and a trailing `.` do not count.
pub proof fn file_name_passes_over_nothing(dir: Seq<char>)
    ensures
        file_name(dir + seq!['/']) == file_name(dir),
        file_name(dir + seq!['/', '.']) == file_name(dir),
{
    reveal_strlit(".");
    let nothing = Seq::<char>::empty();
    let dot = seq!['.'];
    assert(!dot.contains('/')) by {
        assert(dot[0] == '.');
    }
    segment_after_last_slash(dir, nothing);
    segment_after_last_slash(dir, dot);
    assert(dir + seq!['/'] + nothing == dir + seq!['/']);
    assert(dir + seq!['/'] + dot == dir + seq!['/', '.']);
    assert(dot == "."@);
}

/// Nothing, `.` and `..` name no file, nor does a path that ends in `..`.
pub proof fn dots_name_no_file(dir: Seq<char>)
    ensures
        file_name(Seq::empty()) is None,
        file_name(seq!['.']) is None,
        file_name(seq!['.', '.']) is None,
        file_name(dir + seq!['/', '.', '.']) is None,
{
    reveal_strlit(".");
    reveal_strlit("..");
    let nothing = Seq::<char>::empty();
    let dot = seq!['.'];
    let dots = seq!['.', '.'];
    assert(!dot.contains('/')) by {
        assert(dot[0] == '.');
    }
    assert(!dots.contains('/')) by {
        assert(dots[0] == '.' && dots[1] == '.');
    }
    segment_after_last_slash(dir, nothing);
    segment_after_last_slash(dir, dot);
    segment_after_last_slash(dir, dots);
    assert(dir + seq!['/'] + dots == dir + seq!['/', '.', '.']);
    assert(dot == "."@);
    assert(dots == ".."@);
}

/// The last dot of a file name parts its stem from its extension, unless the name
/// begins with it.
pub proof fn last_dot_parts_a_name(front: Seq<char>, back: Seq<char>)
    requires
        !back.contains('.'),
    ensures
        front.len() > 0 ==> stem(front + seq!['.'] + back) == front && extension(
            front + seq!['.'] + back,
        ) == back,
        stem(seq!['.'] + back) == seq!['.'] + back,
        extension(seq!['.'] + back) == Seq::<char>::empty(),
        stem(back) == back,
        extension(back) == Seq::<char>::empty(),
{
    let nothing = Seq::<char>::empty();
    last_mark_is_found(front, '.', back);
    last_mark_is_found(nothing, '.', back);
    assert(nothing + seq!['.'] + back == seq!['.'] + back);
    let text = front + seq!['.'] + back;
    assert(text.take(front.len() as int) == front);
    assert(text.skip(front.len() as int + 1) == back);
}

/// The stem and extension of a path are those of the file that it names; a path
/// that names none is its own stem and has no extension.
pub proof fn parts_of_a_path(path: Seq<char>)
    ensures
        file_name(path) matches Some(file) ==> stem_of(path) == stem(file) && extension_of(path)
            == extension(file),
        file_name(path) is None ==> stem_of(path) == path && extension_of(path) == Seq::<
            char,
        >::empty(),
{
}

/// The first bytes of a text that one of its beginnings takes hold that beginning.
pub proof fn first_bytes_hold_the_beginning(front: Seq<char>, back: Seq<char>)
    ensures
        byte_len(front) == encode_utf8(front).len(),
        first_bytes(front + back, encode_utf8(front).len()) == front,
{
    encode_concat(front, back);
    let n = encode_utf8(front).len() as int;
    assert(encode_utf8(front + back).subrange(0, n) == encode_utf8(front));
    vstd::utf8::encode_utf8_decode_utf8(front);
}

/// A name of up to `max_len` bytes is shown as it is, and so is one with a stem of
/// up to fifteen bytes.
pub proof fn short_names_stay(name: Seq<char>, max_len: nat)
    requires
        encode_utf8(name).len() <= max_len || encode_utf8(stem_of(name)).len() <= 15,
    ensures
        can_be_shortened(name, max_len),
        shortened(name, max_len) == name,
{
}

/// Any other name is shown by the first fifteen bytes of its stem, a gap and its
/// extension, where it has one.
pub proof fn long_names_keep_their_beginning(
    name: Seq<char>,
    max_len: nat,
    kept: Seq<char>,
    rest: Seq<char>,
)
    requires
        encode_utf8(name).len() > max_len,
        stem_of(name) == kept + rest,
        encode_utf8(kept).len() == 15,
        rest.len() > 0,
    ensures
        can_be_shortened(name, max_len),
        extension_of(name).len() > 0 ==> shortened(name, max_len) == kept + " ... ."@
            + extension_of(name),
        extension_of(name).len() == 0 ==> shortened(name, max_len) == kept + " ..."@,
{
    first_bytes_hold_the_beginning(kept, rest);
    encode_concat(kept, rest);
    boundary_after(kept, rest);
    assert(encode_utf8(rest).len() > 0);
}

/// A name that can be shown either stays as it is or has a stem of which the first
/// characters take exactly fifteen bytes.
pub proof fn shown_names_are_cut_between_characters(name: Seq<char>, max_len: nat) -> (parts: (
    Seq<char>,
    Seq<char>,
))
    requires
        can_be_shortened(name, max_len),
        encode_utf8(name).len() > max_len,
        encode_utf8(stem_of(name)).len() > 15,
    ensures
        stem_of(name) == parts.0 + parts.1,
        encode_utf8(parts.0).len() == 15,
        parts.1.len() > 0,
{
    kept_part(name, max_len);
    let whole = stem_of(name);
    let kept = first_bytes(whole, 15);
    let rest = whole.skip(kept.len() as int);
    assert(whole == kept + rest);
    if rest.len() == 0 {
        assert(whole == kept);
    }
    (kept, rest)
}

/// What is shown of a long name `kept` and `rest`, a dot and `ext`: the part of
/// fifteen bytes that it begins with, a gap, a dot and all of its extension.
pub proof fn long_file_name_is_shown_by_its_ends(
    kept: Seq<char>,
    rest: Seq<char>,
    ext: Seq<char>,
    max_len: nat,
)
    requires
        !(kept + rest).contains('/'),
        !ext.contains('/'),
        !ext.contains('.'),
        encode_utf8(kept).len() == 15,
        rest.len() > 0,
        ext.len() > 0,
        encode_utf8(kept + rest + seq!['.'] + ext).len() > max_len,
    ensures
        shortened(kept + rest + seq!['.'] + ext, max_len) == kept + " ... ."@ + ext,
{
    let front = kept + rest;
    let name = front + seq!['.'] + ext;
    reveal_strlit(".");
    reveal_strlit("..");
    assert(encode_utf8(Seq::<char>::empty()).len() == 0);
    assert(kept.len() > 0) by {
        if kept.len() == 0 {
            assert(kept == Seq::<char>::empty());
        }
    }
    assert(!name.contains('/')) by {
        assert forall|i: int| 0 <= i < name.len() implies name[i] != '/' by {
            if i < front.len() {
                assert(front.contains(front[i]));
            } else if i > front.len() {
                assert(ext.contains(ext[i - front.len() - 1]));
            }
        }
    }
    assert(name.len() > 3);
    file_name_is_last_segment(Seq::empty(), name);
    last_dot_parts_a_name(front, ext);
    long_names_keep_their_beginning(name, max_len, kept, rest);
}

} // verus!
