//! File names as shown to the user: the last component of a path, its stem and
//! extension, and the shortened form of a long name.
use vstd::prelude::*;
use vstd::string::*;
use vstd::utf8::{decode_utf8, encode_utf8, is_char_boundary};
use crate::text::same_text;

verus! {

/// A stem of at most this many bytes is never cut, and a cut stem keeps so many.
pub const STEM_BYTES: usize = 15;

/// The length of `text` in UTF-8.
pub open spec fn byte_len(text: Seq<char>) -> nat {
    encode_utf8(text).len()
}

/// The position of the last `mark` in `text`, or -1 where there is none.
pub open spec fn last_at(text: Seq<char>, mark: char) -> int
    decreases text.len(),
{
    if text.len() == 0 {
        -1
    } else if text.last() == mark {
        text.len() - 1
    } else {
        last_at(text.drop_last(), mark)
    }
}

/// What follows the last slash of `path`: all of it where there is none.
pub open spec fn last_segment(path: Seq<char>) -> Seq<char> {
    path.skip(last_at(path, '/') + 1)
}

/// The last component of a path, past trailing slashes and `.` components.
/// A path without one has no file name, nor has one that ends in `..`.
pub open spec fn file_name(path: Seq<char>) -> Option<Seq<char>>
    decreases path.len(),
{
    let slash = last_at(path, '/');
    let segment = last_segment(path);
    if segment.len() > 0 && segment != "."@ {
        if segment == ".."@ {
            None
        } else {
            Some(segment)
        }
    } else if 0 <= slash < path.len() {
        file_name(path.take(slash))
    } else {
        None
    }
}

/// A file name up to its last dot: all of it where that dot is missing or comes first.
pub open spec fn stem(file: Seq<char>) -> Seq<char> {
    let dot = last_at(file, '.');
    if dot <= 0 {
        file
    } else {
        file.take(dot)
    }
}

/// What follows the last dot of a file name: nothing where that dot is missing
/// or comes first.
pub open spec fn extension(file: Seq<char>) -> Seq<char> {
    let dot = last_at(file, '.');
    if dot <= 0 {
        Seq::empty()
    } else {
        file.skip(dot + 1)
    }
}

/// The stem of the file that `path` names, or `path` itself where it names none.
pub open spec fn stem_of(path: Seq<char>) -> Seq<char> {
    match file_name(path) {
        Some(file) => stem(file),
        None => path,
    }
}

/// The extension of the file that `path` names; nothing where there is none.
pub open spec fn extension_of(path: Seq<char>) -> Seq<char> {
    match file_name(path) {
        Some(file) => extension(file),
        None => Seq::empty(),
    }
}

/// The characters in the first `n` bytes of `text`.
pub open spec fn first_bytes(text: Seq<char>, n: nat) -> Seq<char> {
    decode_utf8(encode_utf8(text).subrange(0, n as int))
}

/// The name is longer than `max_len` bytes and its stem is long enough to be cut.
pub open spec fn is_cut(name: Seq<char>, max_len: nat) -> bool {
    byte_len(name) > max_len && byte_len(stem_of(name)) > STEM_BYTES
}

/// Cutting the name, where it is cut at all, splits no character.
pub open spec fn can_be_shortened(name: Seq<char>, max_len: nat) -> bool {
    is_cut(name, max_len) ==> is_char_boundary(encode_utf8(stem_of(name)), STEM_BYTES as int)
}

/// The shown form of a name: a cut name keeps the beginning of its stem and all
/// of its extension.
pub open spec fn shortened(name: Seq<char>, max_len: nat) -> Seq<char> {
    let kept = first_bytes(stem_of(name), STEM_BYTES as nat);
    if !is_cut(name, max_len) {
        name
    } else if extension_of(name).len() > 0 {
        kept + " ... ."@ + extension_of(name)
    } else {
        kept + " ..."@
    }
}

pub(crate) proof fn last_at_bounds(text: Seq<char>, mark: char)
    ensures
        -1 <= last_at(text, mark) < text.len(),
        last_at(text, mark) >= 0 ==> text[last_at(text, mark)] == mark,
        forall|i: int| last_at(text, mark) < i < text.len() ==> text[i] != mark,
    decreases text.len(),
{
    if text.len() > 0 && text.last() != mark {
        last_at_bounds(text.drop_last(), mark);
        let rest = text.drop_last();
        assert forall|i: int| last_at(text, mark) < i < text.len() implies text[i] != mark by {
            if i < rest.len() {
                assert(rest[i] == text[i]);
            }
        }
    }
}

pub(crate) proof fn last_at_is(text: Seq<char>, mark: char, at: int)
    requires
        -1 <= at < text.len(),
        at >= 0 ==> text[at] == mark,
        forall|i: int| at < i < text.len() ==> text[i] != mark,
    ensures
        last_at(text, mark) == at,
{
    last_at_bounds(text, mark);
    let found = last_at(text, mark);
    if found < at {
        assert(text[at] != mark);
    } else if found > at {
        assert(text[found] != mark);
    }
}

fn last_position(text: &str, mark: char) -> (at: Option<usize>)
    ensures
        match at {
            Some(i) => i == last_at(text@, mark),
            None => last_at(text@, mark) == -1,
        },
{
    let len: usize = text.unicode_len();
    let mut i: usize = len;
    while i > 0
        invariant
            len == text@.len(),
            i <= len,
            forall|j: int| i <= j < len ==> text@[j] != mark,
        decreases i,
    {
        if text.get_char(i - 1) == mark {
            proof {
                last_at_is(text@, mark, i - 1);
            }
            return Some(i - 1);
        }
        i = i - 1;
    }
    proof {
        last_at_is(text@, mark, -1);
    }
    None
}

fn name_in_path(path: &str) -> (file: Option<&str>)
    ensures
        match file {
            Some(f) => file_name(path@) == Some(f@),
            None => file_name(path@) is None,
        },
    decreases path@.len(),
{
    let len: usize = path.unicode_len();
    let slash = last_position(path, '/');
    proof {
        last_at_bounds(path@, '/');
    }
    let start: usize = match slash {
        Some(i) => i + 1,
        None => 0,
    };
    let segment = path.substring_char(start, len);
    assert(segment@ == last_segment(path@));
    if start < len && !same_text(segment, ".") {
        if same_text(segment, "..") {
            None
        } else {
            Some(segment)
        }
    } else {
        match slash {
            Some(i) => {
                let head = path.substring_char(0, i);
                assert(head@ == path@.take(i as int));
                name_in_path(head)
            },
            None => None,
        }
    }
}

fn split_name(file: &str) -> (parts: (&str, &str))
    ensures
        parts.0@ == stem(file@),
        parts.1@ == extension(file@),
{
    let len: usize = file.unicode_len();
    proof {
        last_at_bounds(file@, '.');
        reveal_strlit("");
        assert(""@ == Seq::<char>::empty());
    }
    match last_position(file, '.') {
        Some(dot) => {
            if dot == 0 {
                (file, "")
            } else {
                let before = file.substring_char(0, dot);
                let after = file.substring_char(dot + 1, len);
                assert(before@ == file@.take(dot as int));
                assert(after@ == file@.skip(dot + 1));
                (before, after)
            }
        },
        None => (file, ""),
    }
}

fn stem_and_extension(name: &str) -> (parts: (&str, &str))
    ensures
        parts.0@ == stem_of(name@),
        parts.1@ == extension_of(name@),
{
    match name_in_path(name) {
        Some(file) => split_name(file),
        None => {
            proof {
                reveal_strlit("");
                assert(""@ == Seq::<char>::empty());
            }
            (name, "")
        },
    }
}

/// True when [`truncate_filename`] can be applied: a name that is to be cut has
/// no character across the place of the cut.
pub fn can_truncate_filename(name: &str, max_len: usize) -> (can: bool)
    ensures
        can == can_be_shortened(name@, max_len as nat),
{
    let stem = stem_and_extension(name).0;
    name.as_bytes().len() <= max_len || stem.as_bytes().len() <= STEM_BYTES
        || stem.is_char_boundary(STEM_BYTES)
}

/// The shown form of a file name: names of up to `max_len` bytes and names with
/// a short stem stay as they are; other names lose the rest of their stem.
pub fn truncate_filename(name: &str, max_len: usize) -> (shown: String)
    requires
        can_be_shortened(name@, max_len as nat),
    ensures
        shown@ == shortened(name@, max_len as nat),
{
    if name.as_bytes().len() <= max_len {
        return name.to_owned();
    }
    let (stem, extension) = stem_and_extension(name);
    if stem.as_bytes().len() <= STEM_BYTES {
        return name.to_owned();
    }
    let kept = stem.split_at(STEM_BYTES).0;
    proof {
        vstd::utf8::encode_utf8_decode_utf8(kept@);
    }
    if !extension.is_empty() {
        kept.to_owned().concat(" ... .").concat(extension)
    } else {
        kept.to_owned().concat(" ...")
    }
}

pub(crate) proof fn encode_concat(a: Seq<char>, b: Seq<char>)
    ensures
        encode_utf8(a + b) == encode_utf8(a) + encode_utf8(b),
    decreases a.len(),
{
    if a.len() == 0 {
        assert(a + b == b);
        assert(encode_utf8(a) + encode_utf8(b) == encode_utf8(b));
    } else {
        assert((a + b).drop_first() == a.drop_first() + b);
        encode_concat(a.drop_first(), b);
        assert(encode_utf8(a + b) == encode_utf8(a) + encode_utf8(b));
    }
}

/// A file name holds no slash.
proof fn file_name_has_no_slash(path: Seq<char>)
    ensures
        file_name(path) matches Some(file) ==> last_at(file, '/') == -1,
    decreases path.len(),
{
    last_at_bounds(path, '/');
    let segment = last_segment(path);
    if segment.len() > 0 && segment != "."@ {
        last_at_is(segment, '/', -1);
    } else if last_at(path, '/') >= 0 {
        file_name_has_no_slash(path.take(last_at(path, '/')));
    }
}

/// What a cut keeps of the stem is its beginning, of exactly so many bytes.
pub(crate) proof fn kept_part(name: Seq<char>, max_len: nat)
    requires
        is_cut(name, max_len),
        can_be_shortened(name, max_len),
    ensures
        ({
            let kept = first_bytes(stem_of(name), STEM_BYTES as nat);
            &&& byte_len(kept) == STEM_BYTES
            &&& kept.len() <= stem_of(name).len()
            &&& kept == stem_of(name).take(kept.len() as int)
        }),
{
    let stem = stem_of(name);
    let bytes = encode_utf8(stem);
    let n = STEM_BYTES as int;
    vstd::utf8::encode_utf8_valid_utf8(stem);
    vstd::utf8::encode_utf8_decode_utf8(stem);
    vstd::utf8::valid_utf8_split(bytes, n);
    vstd::utf8::decode_utf8_split(bytes, n);
    vstd::utf8::decode_utf8_encode_utf8(bytes.subrange(0, n));
    let kept = first_bytes(stem, STEM_BYTES as nat);
    assert(stem == kept + decode_utf8(bytes.subrange(n, bytes.len() as int)));
    assert(kept == stem.take(kept.len() as int));
}

/// The last segment, stem and extension of `kept + gap + "." + ext`, where
/// neither `gap` nor `ext` holds a slash and `ext` holds no dot.
proof fn parts_of_joined(kept: Seq<char>, gap: Seq<char>, ext: Seq<char>)
    requires
        gap.len() >= 3,
        last_at(gap, '/') == -1,
        last_at(ext, '/') == -1,
        last_at(ext, '.') == -1,
    ensures
        ({
            let name = kept + gap + seq!['.'] + ext;
            &&& file_name(name) == Some(last_segment(kept) + gap + seq!['.'] + ext)
            &&& stem_of(name) == last_segment(kept) + gap
            &&& extension_of(name) == ext
        }),
{
    let name = kept + gap + seq!['.'] + ext;
    let slash = last_at(kept, '/');
    last_at_bounds(kept, '/');
    last_at_bounds(gap, '/');
    last_at_bounds(ext, '/');
    last_at_bounds(ext, '.');
    assert forall|i: int| slash < i < name.len() implies name[i] != '/' by {
        let a = kept.len();
        let b = kept.len() + gap.len();
        if i < a {
            assert(name[i] == kept[i]);
        } else if i < b {
            assert(name[i] == gap[i - a]);
        } else if i > b {
            assert(name[i] == ext[i - b - 1]);
        }
    }
    last_at_is(name, '/', slash);
    let segment = last_segment(name);
    let front = last_segment(kept) + gap;
    assert(segment == front + seq!['.'] + ext);
    reveal_strlit(".");
    reveal_strlit("..");
    assert(segment.len() > 2);
    assert(file_name(name) == Some(segment));
    assert forall|i: int| front.len() < i < segment.len() implies segment[i] != '.' by {
        assert(segment[i] == ext[i - front.len() - 1]);
    }
    last_at_is(segment, '.', front.len() as int);
    assert(segment.take(front.len() as int) == front);
    assert(segment.skip(front.len() as int + 1) == ext);
}

proof fn mark_free_gaps()
    ensures
        " ... ."@ == " ... "@ + seq!['.'],
        " ..."@ == " .."@ + seq!['.'],
        " ... "@.len() == 5,
        " .."@.len() == 3,
        last_at(" ... "@, '/') == -1,
        last_at(" .."@, '/') == -1,
        byte_len(" ... "@) == 5,
        byte_len(" .."@) == 3,
        byte_len(" ..."@) == 4,
{
    reveal_strlit(" ... .");
    reveal_strlit(" ... ");
    reveal_strlit(" ...");
    reveal_strlit(" ..");
    assert(" ... ."@ =~= " ... "@ + seq!['.']);
    assert(" ..."@ =~= " .."@ + seq!['.']);
    last_at_is(" ... "@, '/', -1);
    last_at_is(" .."@, '/', -1);
    vstd::utf8::is_ascii_chars_encode_utf8(" ... "@);
    vstd::utf8::is_ascii_chars_encode_utf8(" .."@);
    vstd::utf8::is_ascii_chars_encode_utf8(" ..."@);
}

/// An extension holds neither a slash nor a dot.
proof fn extension_has_no_mark(name: Seq<char>)
    ensures
        last_at(extension_of(name), '/') == -1,
        last_at(extension_of(name), '.') == -1,
{
    let ext = extension_of(name);
    file_name_has_no_slash(name);
    if let Some(file) = file_name(name) {
        last_at_bounds(file, '/');
        last_at_bounds(file, '.');
    }
    last_at_is(ext, '/', -1);
    last_at_is(ext, '.', -1);
}

/// How a cut name is taken apart again.
proof fn parts_of_shortened(name: Seq<char>, max_len: nat)
    requires
        is_cut(name, max_len),
    ensures
        ({
            let kept = first_bytes(stem_of(name), STEM_BYTES as nat);
            let gap = if extension_of(name).len() > 0 { " ... "@ } else { " .."@ };
            let shown = shortened(name, max_len);
            &&& shown == kept + gap + seq!['.'] + extension_of(name)
            &&& stem_of(shown) == last_segment(kept) + gap
            &&& extension_of(shown) == extension_of(name)
        }),
{
    let kept = first_bytes(stem_of(name), STEM_BYTES as nat);
    let ext = extension_of(name);
    let gap = if ext.len() > 0 { " ... "@ } else { " .."@ };
    mark_free_gaps();
    extension_has_no_mark(name);
    assert(shortened(name, max_len) == kept + gap + seq!['.'] + ext);
    parts_of_joined(kept, gap, ext);
}

/// Shortening a name keeps its extension.
pub proof fn shortening_keeps_extension(name: Seq<char>, max_len: nat)
    ensures
        extension_of(shortened(name, max_len)) == extension_of(name),
{
    if is_cut(name, max_len) {
        parts_of_shortened(name, max_len);
    }
}

/// A cut name takes 19 bytes, or 21 and those of its extension where it has one.
pub proof fn length_of_cut_name(name: Seq<char>, max_len: nat)
    requires
        is_cut(name, max_len),
        can_be_shortened(name, max_len),
    ensures
        extension_of(name).len() == 0 ==> byte_len(shortened(name, max_len)) == 19,
        extension_of(name).len() > 0 ==> byte_len(shortened(name, max_len)) == 21 + byte_len(
            extension_of(name),
        ),
{
    let kept = first_bytes(stem_of(name), STEM_BYTES as nat);
    let ext = extension_of(name);
    kept_part(name, max_len);
    mark_free_gaps();
    reveal_strlit(" ... .");
    vstd::utf8::is_ascii_chars_encode_utf8(" ... ."@);
    encode_concat(kept, " ..."@);
    encode_concat(kept, " ... ."@);
    encode_concat(kept + " ... ."@, ext);
}

/// The first slashes of a path that names no file can be all that the kept part
/// holds of its directories; shortening the cut name again, to fewer bytes than
/// it takes, would drop them.
pub open spec fn loses_slash(name: Seq<char>, limit: nat) -> bool {
    let kept = first_bytes(stem_of(name), STEM_BYTES as nat);
    &&& limit < 19
    &&& file_name(name) is None
    &&& 13 <= byte_len(last_segment(kept)) <= 14
}

/// A cut name stays as it is when it is shortened again, to whatever limit.
pub proof fn cut_name_stays(name: Seq<char>, max_len: nat, limit: nat)
    requires
        is_cut(name, max_len),
        can_be_shortened(name, max_len),
        !loses_slash(name, limit),
    ensures
        can_be_shortened(shortened(name, max_len), limit),
        shortened(shortened(name, max_len), limit) == shortened(name, max_len),
{
    let shown = shortened(name, max_len);
    if is_cut(shown, limit) {
        let kept = first_bytes(stem_of(name), STEM_BYTES as nat);
        let ext = extension_of(name);
        let gap = if ext.len() > 0 { " ... "@ } else { " .."@ };
        mark_free_gaps();
        kept_part(name, max_len);
        parts_of_shortened(name, max_len);
        length_of_cut_name(name, max_len);
        let slash = last_at(kept, '/');
        last_at_bounds(kept, '/');
        let tail = last_segment(kept);
        encode_concat(tail, gap);
        if slash >= 0 {
            let whole = stem_of(name);
            assert(whole[slash] == '/');
            file_name_has_no_slash(name);
            if let Some(file) = file_name(name) {
                last_at_bounds(file, '/');
                last_at_bounds(file, '.');
                assert(file[slash] == '/');
            }
            let head = kept.take(slash + 1);
            assert(kept == head + tail);
            encode_concat(head, tail);
            assert(encode_utf8(head).len() > 0);
            assert(false);
        }
        assert(tail == kept);
        let bytes = encode_utf8(kept + gap);
        let n = STEM_BYTES as int;
        assert(bytes.subrange(0, n) == encode_utf8(kept));
        vstd::utf8::encode_utf8_decode_utf8(kept);
        boundary_after(kept, gap);
    }
}

/// A cut name without a slash stays as it is under every limit.
pub proof fn slashless_cut_name_stays(name: Seq<char>, max_len: nat, limit: nat)
    requires
        is_cut(name, max_len),
        can_be_shortened(name, max_len),
        !shortened(name, max_len).contains('/'),
    ensures
        can_be_shortened(shortened(name, max_len), limit),
        shortened(shortened(name, max_len), limit) == shortened(name, max_len),
{
    let kept = first_bytes(stem_of(name), STEM_BYTES as nat);
    let shown = shortened(name, max_len);
    kept_part(name, max_len);
    assert forall|i: int| 0 <= i < kept.len() implies kept[i] != '/' by {
        assert(shown[i] == kept[i]);
    }
    last_at_is(kept, '/', -1);
    assert(last_segment(kept) == kept);
    cut_name_stays(name, max_len, limit);
}

/// A shown name stays as it is when it is shortened again.
pub proof fn shortening_is_idempotent(name: Seq<char>, max_len: nat)
    requires
        can_be_shortened(name, max_len),
        is_cut(name, max_len) ==> !loses_slash(name, max_len),
    ensures
        can_be_shortened(shortened(name, max_len), max_len),
        shortened(shortened(name, max_len), max_len) == shortened(name, max_len),
{
    if is_cut(name, max_len) {
        cut_name_stays(name, max_len, max_len);
    }
}

/// The place where two texts are joined is a character boundary.
pub(crate) proof fn boundary_after(a: Seq<char>, b: Seq<char>)
    ensures
        is_char_boundary(encode_utf8(a + b), byte_len(a) as int),
    decreases a.len(),
{
    encode_concat(a, b);
    vstd::utf8::encode_utf8_valid_utf8(a + b);
    let bytes = encode_utf8(a + b);
    let n = byte_len(a) as int;
    if b.len() == 0 {
        vstd::utf8::is_char_boundary_start_end_of_seq(bytes);
    } else {
        vstd::utf8::encode_utf8_valid_utf8(b);
        let tail = encode_utf8(b);
        assert(tail.len() > 0);
        vstd::utf8::is_char_boundary_start_end_of_seq(tail);
        vstd::utf8::is_char_boundary_iff_not_is_continuation_byte(tail, 0);
        vstd::utf8::is_char_boundary_iff_not_is_continuation_byte(bytes, n);
        assert(bytes[n] == tail[0]);
    }
}

} // verus!
