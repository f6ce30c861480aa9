//! Laws of a device: what is shown of it, what is ordered for it, and what its
//! announcement does to the list.
use vstd::prelude::*;
use crate::devices::{
    announced, attempt_id, change_of, first_match, first_match_bounds, first_match_is, listed,
    EndpointInfo, EndpointView, ListChange, SendInfo,
};
use crate::text::{capital, contains_text, decimal, upper_case};

verus! {

/// The contents of a device are those of its fields.
pub proof fn contents_of_a_device(device: EndpointInfo)
    ensures
        device@.id == device.id@,
        device.name matches Some(name) ==> device@.name == Some(name@),
        device.name is None ==> device@.name is None,
        device.ip matches Some(ip) ==> device@.ip == Some(ip@),
        device.ip is None ==> device@.ip is None,
        device.port matches Some(port) ==> device@.port == Some(port@),
        device.port is None ==> device@.port is None,
{
}

/// The contents of an order are those of its fields.
pub proof fn contents_of_an_order(order: SendInfo)
    ensures
        order@.id == order.id@,
        order@.name == order.name@,
        order@.addr == order.addr@,
        order@.files.len() == order.files@.len(),
        forall|i: int| 0 <= i < order.files@.len() ==> #[trigger] order@.files[i] == order.files@[i]@,
{
}

/// A device is shown under the name that it was announced with, whatever it is, and
/// as `Unknown` where it came without one.
pub proof fn label_is_the_announced_name(device: EndpointView)
    ensures
        device.name matches Some(name) ==> device.label() == name,
        device.name is None ==> device.label() == "Unknown"@,
{
}

/// Two devices that were announced with names are shown alike only if the names
/// are the same.
pub proof fn labels_tell_names_apart(a: EndpointView, b: EndpointView)
    requires
        a.name is Some,
        b.name is Some,
    ensures
        a.label() == b.label() <==> a.name == b.name,
{
}

/// The key of a device's row is its id, three colons and the announced name.
pub proof fn key_joins_id_and_name(device: EndpointView)
    ensures
        device.name matches Some(name) ==> device.row_key() == device.id + seq![':', ':', ':'] + name,
        device.name is None ==> device.row_key() == device.id + seq![':', ':', ':'] + "Unknown"@,
{
    reveal_strlit(":::");
    assert(":::"@ == seq![':', ':', ':']);
}

/// A row belongs to every device whose id stands somewhere in the row's key.
pub proof fn row_matches_ids_in_its_key(row: EndpointView, id: Seq<char>)
    ensures
        row.matches(id) <==> exists|front: Seq<char>, back: Seq<char>|
            row.row_key() == #[trigger] (front + id + back),
{
    if row.matches(id) {
        crate::laws::text::found_part_is_in_the_middle(row.row_key(), id);
    }
    if exists|front: Seq<char>, back: Seq<char>| row.row_key() == #[trigger] (front + id + back) {
        let (front, back) = choose|front: Seq<char>, back: Seq<char>|
            row.row_key() == #[trigger] (front + id + back);
        crate::laws::text::part_in_the_middle_is_found(front, id, back);
    }
}

/// A row is a placeholder if its key holds the word `Unknown`, in whichever part.
pub proof fn placeholder_has_the_word_in_its_key(row: EndpointView)
    ensures
        row.is_placeholder() <==> exists|front: Seq<char>, back: Seq<char>|
            row.row_key() == #[trigger] (front + "Unknown"@ + back),
        row.name is None ==> row.is_placeholder(),
{
    let word = "Unknown"@;
    if row.is_placeholder() {
        crate::laws::text::found_part_is_in_the_middle(row.row_key(), word);
    }
    if exists|front: Seq<char>, back: Seq<char>| row.row_key() == #[trigger] (front + word + back) {
        let (front, back) = choose|front: Seq<char>, back: Seq<char>|
            row.row_key() == #[trigger] (front + word + back);
        crate::laws::text::part_in_the_middle_is_found(front, word, back);
    }
    if row.name is None {
        let front = row.id + ":::"@;
        let none = Seq::<char>::empty();
        assert(row.row_key() == front + word + none);
        crate::laws::text::part_in_the_middle_is_found(front, word, none);
    }
}

/// A device is named if it was announced with a name other than `Unknown`.
pub proof fn named_devices_bring_a_name(device: EndpointView)
    ensures
        device.is_named() <==> device.name is Some && device.name != Some("Unknown"@),
{
}

/// The avatar shows the capital of the first letter of the announced name, a
/// question mark where that name is empty, and a `U` where there is none.
pub proof fn initials_are_of_the_announced_name(device: EndpointView)
    ensures
        forall|first: char, rest: Seq<char>|
            device.name == Some(#[trigger] (seq![first] + rest)) ==> device.initials() == capital(
                first,
            ),
        device.name == Some(Seq::<char>::empty()) ==> device.initials() == seq!['?'],
        device.name is None ==> device.initials() == seq!['U'],
{
    reveal_strlit("Unknown");
    assert forall|first: char, rest: Seq<char>|
        device.name == Some(#[trigger] (seq![first] + rest)) implies device.initials() == capital(
        first,
    ) by {
        assert((seq![first] + rest)[0] == first);
    }
}

/// The capital of a letter that the avatar shows: `A` to `Z` for `a` to `z`, other
/// ASCII characters themselves, and the mapping of Unicode for the rest.
pub proof fn initial_is_a_capital(device: EndpointView, first: char, rest: Seq<char>)
    requires
        device.name == Some(seq![first] + rest),
    ensures
        'a' <= first && first <= 'z' ==> device.initials().len() == 1 && device.initials()[0] as u32
            - 'A' as u32 == first as u32 - 'a' as u32,
        first <= '\u{7f}' && !('a' <= first && first <= 'z') ==> device.initials() == seq![first],
        first > '\u{7f}' ==> device.initials() == upper_case(first),
{
    initials_are_of_the_announced_name(device);
    crate::laws::text::capitals(first);
}

/// The address of a device is its IP address, a colon and its port, each as it was
/// announced and empty where it was not.
pub proof fn address_joins_ip_and_port(device: EndpointView, ip: Seq<char>, port: Seq<char>)
    requires
        device.ip == Some(ip) || (device.ip is None && ip.len() == 0),
        device.port == Some(port) || (device.port is None && port.len() == 0),
    ensures
        device.address() == ip + seq![':'] + port,
{
    reveal_strlit(":");
}

/// An order holds exactly one file, the chosen path itself, unchanged, whatever the
/// device and the time.
pub proof fn order_holds_the_chosen_path(device: EndpointView, path: Seq<char>, now: nat)
    ensures
        device.send_request(path, now).files.len() == 1,
        device.send_request(path, now).files[0] == path,
{
}

/// Two orders hold the same file only if the same path was chosen.
pub proof fn orders_tell_paths_apart(
    a: EndpointView,
    path_a: Seq<char>,
    now_a: nat,
    b: EndpointView,
    path_b: Seq<char>,
    now_b: nat,
)
    ensures
        a.send_request(path_a, now_a).files == b.send_request(path_b, now_b).files <==> path_a
            == path_b,
{
    assert(a.send_request(path_a, now_a).files[0] == path_a);
    assert(b.send_request(path_b, now_b).files[0] == path_b);
}

/// An order names the device as it was announced, with an empty name where it came
/// without one, and goes to the device's address.
pub proof fn order_is_for_the_device(device: EndpointView, path: Seq<char>, now: nat)
    ensures
        device.name matches Some(name) ==> device.send_request(path, now).name == name,
        device.name is None ==> device.send_request(path, now).name == Seq::<char>::empty(),
        device.send_request(path, now).addr == device.ip.unwrap_or(Seq::empty()) + seq![':']
            + device.port.unwrap_or(Seq::empty()),
{
    reveal_strlit(":");
}

/// The id of an order is that of the device, a dash and the time in milliseconds.
pub proof fn order_id_joins_device_and_time(device: EndpointView, path: Seq<char>, now: nat)
    ensures
        device.send_request(path, now).id == device.id + seq!['-'] + decimal(now),
        attempt_id(device.id, now) == device.id + seq!['-'] + decimal(now),
{
    reveal_strlit("-");
    assert("-"@ == seq!['-']);
}

/// A device that no row matches comes to the end of the list.
pub proof fn new_device_comes_last(rows: Seq<EndpointView>, found: EndpointView)
    requires
        forall|i: int| 0 <= i < rows.len() ==> !(#[trigger] rows[i]).matches(found.id),
    ensures
        listed(rows, found) == rows + seq![found],
        change_of(rows, found) == ListChange::Added,
{
    first_match_bounds(rows, found.id);
}

/// A device that some row matches changes the list only if it brings a name and
/// the first such row is a placeholder: it then takes that row's place in the
/// list, but at the end.
pub proof fn known_device_replaces_its_placeholder(
    front: Seq<EndpointView>,
    row: EndpointView,
    back: Seq<EndpointView>,
    found: EndpointView,
    at: usize,
)
    requires
        forall|i: int| 0 <= i < front.len() ==> !(#[trigger] front[i]).matches(found.id),
        row.matches(found.id),
        at == front.len(),
    ensures
        ({
            let rows = front + seq![row] + back;
            let brings_name = found.name is Some && found.name != Some("Unknown"@);
            &&& row.is_placeholder() && brings_name ==> listed(rows, found) == front + back + seq![
                found,
            ]
            &&& row.is_placeholder() && brings_name ==> change_of(rows, found)
                == ListChange::Replaced(at)
            &&& !(row.is_placeholder() && brings_name) ==> listed(rows, found) == rows
            &&& !(row.is_placeholder() && brings_name) ==> change_of(rows, found)
                == ListChange::Unchanged
        }),
{
    let rows = front + seq![row] + back;
    let n = front.len() as int;
    assert(rows[n] == row);
    assert forall|i: int| 0 <= i < n implies !(#[trigger] rows[i]).matches(found.id) by {
        assert(rows[i] == front[i]);
    }
    first_match_is(rows, found.id, n);
    assert(rows.remove(n).push(found) == front + back + seq![found]);
}

/// The first row that matches is the one before which none does.
pub proof fn first_match_is_the_first(
    front: Seq<EndpointView>,
    row: EndpointView,
    back: Seq<EndpointView>,
    id: Seq<char>,
)
    requires
        forall|i: int| 0 <= i < front.len() ==> !(#[trigger] front[i]).matches(id),
    ensures
        first_match(front, id) is None,
        row.matches(id) ==> first_match(front + seq![row] + back, id) == Some(front.len() as int),
{
    let rows = front + seq![row] + back;
    first_match_bounds(front, id);
    if row.matches(id) {
        assert forall|i: int| 0 <= i < front.len() implies !(#[trigger] rows[i]).matches(id) by {
            assert(rows[i] == front[i]);
        }
        first_match_is(rows, id, front.len() as int);
    }
}

/// The list starts out empty and takes in announcements one after the other.
pub proof fn list_takes_in_each_announcement(run: Seq<EndpointView>, found: EndpointView)
    ensures
        announced(Seq::empty()) == Seq::<EndpointView>::empty(),
        announced(run + seq![found]) == listed(announced(run), found),
{
    let more = run + seq![found];
    assert(more.drop_last() == run);
    assert(more.last() == found);
}

/// A device announced to an empty list stands in it as it was announced.
pub proof fn first_device_is_listed_as_announced(found: EndpointView)
    ensures
        listed(Seq::empty(), found) == seq![found],
{
    new_device_comes_last(Seq::empty(), found);
}

/// A device keeps its announced name in the list: the row of a device that was
/// added or took a placeholder's place is the announcement itself.
pub proof fn added_row_is_the_announcement(rows: Seq<EndpointView>, found: EndpointView)
    requires
        !(change_of(rows, found) is Unchanged),
    ensures
        listed(rows, found).len() > 0,
        listed(rows, found).last() == found,
{
    first_match_bounds(rows, found.id);
}

/// The word for a missing name stands in no key for a reason other than the id,
/// the name or its absence.
pub proof fn placeholder_word_comes_from_id_or_name(row: EndpointView)
    requires
        row.name is Some,
        row.is_placeholder(),
    ensures
        contains_text(row.id, "Unknown"@) || contains_text(row.name->0, "Unknown"@),
{
    let name = row.name->0;
    let key = row.row_key();
    let word = "Unknown"@;
    reveal_strlit("Unknown");
    key_joins_id_and_name(row);
    placeholder_has_the_word_in_its_key(row);
    let (front, back) = choose|front: Seq<char>, back: Seq<char>|
        key == #[trigger] (front + word + back);
    let a = row.id.len() as int;
    let at = front.len() as int;
    let whole = row.id + seq![':', ':', ':'] + name;
    assert(key.len() == whole.len());
    assert forall|j: int| 0 <= j < 7 implies whole[at + j] == word[j] by {
        assert((front + word + back)[at + j] == word[j]);
    }
    if at + 7 <= a {
        assert(row.id == row.id.take(at) + word + row.id.skip(at + 7));
        crate::laws::text::part_in_the_middle_is_found(row.id.take(at), word, row.id.skip(at + 7));
    } else if at >= a + 3 {
        let n = at - a - 3;
        assert forall|j: int| 0 <= j < 7 implies name[n + j] == word[j] by {
            assert(whole[at + j] == name[n + j]);
        }
        assert(name == name.take(n) + word + name.skip(n + 7));
        crate::laws::text::part_in_the_middle_is_found(name.take(n), word, name.skip(n + 7));
    } else {
        let colon = if at <= a { a } else { at };
        assert(whole[colon] == ':');
        assert(whole[at + (colon - at)] == word[colon - at]);
    }
}

} // verus!
