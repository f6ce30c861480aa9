//! The list of devices found on the network.
use vstd::prelude::*;
use vstd::string::*;
use crate::text::{
    capital, contains_text, decimal, decimal_text, occurs_at, same_text, text_contains, text_of,
    upper_case_text,
};

verus! {

/// A device as announced on the network.
#[derive(Clone, Debug)]
pub struct EndpointInfo {
    pub id: String,
    pub name: Option<String>,
    pub ip: Option<String>,
    pub port: Option<String>,
}

/// The contents of an [`EndpointInfo`].
#[verifier::ext_equal]
pub struct EndpointView {
    pub id: Seq<char>,
    pub name: Option<Seq<char>>,
    pub ip: Option<Seq<char>>,
    pub port: Option<Seq<char>>,
}

impl View for EndpointInfo {
    type V = EndpointView;

    open spec fn view(&self) -> EndpointView {
        EndpointView {
            id: self.id@,
            name: text_of(self.name),
            ip: text_of(self.ip),
            port: text_of(self.port),
        }
    }
}

impl EndpointView {
    /// The name shown for the device.
    pub open spec fn label(self) -> Seq<char> {
        self.name.unwrap_or("Unknown"@)
    }

    /// The name of the device's row, by which later announcements find it.
    pub open spec fn row_key(self) -> Seq<char> {
        self.id + ":::"@ + self.label()
    }

    /// The row belongs to the device `id`: its key holds that id.
    pub open spec fn matches(self, id: Seq<char>) -> bool {
        contains_text(self.row_key(), id)
    }

    /// The row is a placeholder: its key holds the word that stands for a missing name.
    pub open spec fn is_placeholder(self) -> bool {
        contains_text(self.row_key(), "Unknown"@)
    }

    /// The device comes with a name that is more than the placeholder.
    pub open spec fn is_named(self) -> bool {
        self.label() != "Unknown"@
    }

    /// The letters in the device's avatar.
    pub open spec fn initials(self) -> Seq<char> {
        if self.label().len() > 0 {
            capital(self.label()[0])
        } else {
            capital('?')
        }
    }

    /// The network address of the device.
    pub open spec fn address(self) -> Seq<char> {
        self.ip.unwrap_or(Seq::empty()) + ":"@ + self.port.unwrap_or(Seq::empty())
    }

    /// What asks the service to send the file `path` to the device, for an
    /// attempt made `now` milliseconds into the Unix era.
    pub open spec fn send_request(self, path: Seq<char>, now: nat) -> SendView {
        SendView {
            id: attempt_id(self.id, now),
            name: self.name.unwrap_or(Seq::empty()),
            addr: self.address(),
            files: seq![path],
        }
    }
}

/// The id of an attempt to send to the device `id` at the time `now`.
pub open spec fn attempt_id(id: Seq<char>, now: nat) -> Seq<char> {
    id + "-"@ + decimal(now)
}

/// An order to send files to a device.
#[derive(Clone, Debug)]
pub struct SendInfo {
    pub id: String,
    pub name: String,
    pub addr: String,
    pub files: Vec<String>,
}

/// The contents of a [`SendInfo`].
#[verifier::ext_equal]
pub struct SendView {
    pub id: Seq<char>,
    pub name: Seq<char>,
    pub addr: Seq<char>,
    pub files: Seq<Seq<char>>,
}

impl View for SendInfo {
    type V = SendView;

    open spec fn view(&self) -> SendView {
        SendView {
            id: self.id@,
            name: self.name@,
            addr: self.addr@,
            files: self.files@.map_values(|f: String| f@),
        }
    }
}

fn text_or(text: &Option<String>, default: &str) -> (chosen: String)
    ensures
        chosen@ == text_of(*text).unwrap_or(default@),
{
    match text {
        Some(t) => t.clone(),
        None => default.to_owned(),
    }
}

impl EndpointInfo {
    /// The name shown for the device.
    pub fn label(&self) -> (label: String)
        ensures
            label@ == self@.label(),
    {
        text_or(&self.name, "Unknown")
    }

    /// The name of the device's row.
    pub fn row_key(&self) -> (key: String)
        ensures
            key@ == self@.row_key(),
    {
        self.id.clone().concat(":::").concat(self.label().as_str())
    }

    /// The letters in the device's avatar.
    pub fn initials(&self) -> (letters: String)
        ensures
            letters@ == self@.initials(),
    {
        let label = self.label();
        if label.as_str().unicode_len() > 0 {
            upper_case_text(label.as_str().get_char(0))
        } else {
            upper_case_text('?')
        }
    }

    /// What asks the service to send the file `path` to this device.
    pub fn send_request(&self, path: &str, now: u128) -> (request: SendInfo)
        ensures
            request@ == self@.send_request(path@, now as nat),
    {
        proof {
            reveal_strlit("");
            assert(""@ == Seq::<char>::empty());
        }
        let mut files: Vec<String> = Vec::new();
        files.push(path.to_owned());
        let request = SendInfo {
            id: self.id.clone().concat("-").concat(decimal_text(now).as_str()),
            name: text_or(&self.name, ""),
            addr: text_or(&self.ip, "").concat(":").concat(text_or(&self.port, "").as_str()),
            files,
        };
        assert(request@.files == seq![path@]);
        request
    }
}

/// What an announcement changed in the list of devices.
#[derive(Clone, Copy, Debug, PartialEq, Eq, Structural)]
pub enum ListChange {
    /// The device was there already.
    Unchanged,
    /// The device was added at the end.
    Added,
    /// The row at this position was taken out and the device added at the end.
    Replaced(usize),
}

/// The devices found so far, in the order in which they are shown.
pub struct DeviceList {
    rows: Vec<EndpointInfo>,
}

impl View for DeviceList {
    type V = Seq<EndpointView>;

    closed spec fn view(&self) -> Seq<EndpointView> {
        self.rows@.map_values(|row: EndpointInfo| row@)
    }
}

/// The first row that matches the device `id`.
pub open spec fn first_match(rows: Seq<EndpointView>, id: Seq<char>) -> Option<int>
    decreases rows.len(),
{
    if rows.len() == 0 {
        None
    } else if rows[0].matches(id) {
        Some(0)
    } else {
        match first_match(rows.drop_first(), id) {
            Some(i) => Some(i + 1),
            None => None,
        }
    }
}

/// The row at `at` is the one to make way for the device.
pub open spec fn makes_way(rows: Seq<EndpointView>, found: EndpointView, at: int) -> bool {
    first_match(rows, found.id) == Some(at) && rows[at].is_placeholder() && found.is_named()
}

/// The list after a device was announced. A device that no row matches is added
/// at the end. A named device replaces the first row that matches it where that
/// row is a placeholder. Any other announcement changes nothing.
pub open spec fn listed(rows: Seq<EndpointView>, found: EndpointView) -> Seq<EndpointView> {
    match first_match(rows, found.id) {
        None => rows.push(found),
        Some(at) => if rows[at].is_placeholder() && found.is_named() {
            rows.remove(at).push(found)
        } else {
            rows
        },
    }
}

/// The change that [`listed`] makes.
pub open spec fn change_of(rows: Seq<EndpointView>, found: EndpointView) -> ListChange {
    match first_match(rows, found.id) {
        None => ListChange::Added,
        Some(at) => if rows[at].is_placeholder() && found.is_named() {
            ListChange::Replaced(at as usize)
        } else {
            ListChange::Unchanged
        },
    }
}

pub(crate) proof fn first_match_bounds(rows: Seq<EndpointView>, id: Seq<char>)
    ensures
        match first_match(rows, id) {
            Some(at) => {
                &&& 0 <= at < rows.len()
                &&& rows[at].matches(id)
                &&& forall|i: int| 0 <= i < at ==> !(#[trigger] rows[i]).matches(id)
            },
            None => forall|i: int| 0 <= i < rows.len() ==> !(#[trigger] rows[i]).matches(id),
        },
    decreases rows.len(),
{
    if rows.len() > 0 && !rows[0].matches(id) {
        let rest = rows.drop_first();
        first_match_bounds(rest, id);
        assert forall|i: int|
            0 < i < rows.len() implies #[trigger] rows[i] == rest[i - 1] by {}
    }
}

pub(crate) proof fn first_match_is(rows: Seq<EndpointView>, id: Seq<char>, at: int)
    requires
        0 <= at < rows.len(),
        rows[at].matches(id),
        forall|i: int| 0 <= i < at ==> !(#[trigger] rows[i]).matches(id),
    ensures
        first_match(rows, id) == Some(at),
{
    first_match_bounds(rows, id);
}

impl DeviceList {
    /// A list without devices.
    pub fn new() -> (list: DeviceList)
        ensures
            list@ == Seq::<EndpointView>::empty(),
    {
        let list = DeviceList { rows: Vec::new() };
        assert(list@ == Seq::<EndpointView>::empty());
        list
    }

    /// The number of devices.
    pub fn len(&self) -> (len: usize)
        ensures
            len == self@.len(),
    {
        self.rows.len()
    }

    /// The device at a position.
    pub fn get(&self, at: usize) -> (device: Option<&EndpointInfo>)
        ensures
            match device {
                Some(d) => at < self@.len() && d@ == self@[at as int],
                None => at >= self@.len(),
            },
    {
        if at < self.rows.len() {
            Some(&self.rows[at])
        } else {
            None
        }
    }

    fn find(&self, id: &String) -> (at: Option<usize>)
        ensures
            match at {
                Some(i) => i < self.rows@.len() && first_match(self@, id@) == Some(i as int),
                None => first_match(self@, id@) is None,
            },
    {
        let mut i: usize = 0;
        while i < self.rows.len()
            invariant
                i <= self.rows@.len(),
                forall|j: int| 0 <= j < i ==> !(#[trigger] self@[j]).matches(id@),
            decreases self.rows@.len() - i,
        {
            assert(self@[i as int] == self.rows@[i as int]@);
            let key = self.rows[i].row_key();
            if text_contains(key.as_str(), id.as_str()) {
                proof {
                    first_match_is(self@, id@, i as int);
                }
                return Some(i);
            }
            i = i + 1;
        }
        proof {
            first_match_bounds(self@, id@);
        }
        None
    }

    /// Takes in the announcement of a device.
    pub fn add_device(&mut self, found: EndpointInfo) -> (change: ListChange)
        ensures
            final(self)@ == listed(old(self)@, found@),
            change == change_of(old(self)@, found@),
    {
        let ghost before = self@;
        let ghost device = found@;
        match self.find(&found.id) {
            Some(at) => {
                assert(before[at as int] == self.rows@[at as int]@);
                let key = self.rows[at].row_key();
                let label = found.label();
                if text_contains(key.as_str(), "Unknown") && !same_text(label.as_str(), "Unknown") {
                    self.rows.remove(at);
                    self.rows.push(found);
                    assert(self@ == before.remove(at as int).push(device));
                    ListChange::Replaced(at)
                } else {
                    ListChange::Unchanged
                }
            },
            None => {
                self.rows.push(found);
                assert(self@ == before.push(device));
                ListChange::Added
            },
        }
    }
}

/// Once announced, a device has a row that matches it.
pub proof fn announced_device_is_listed(rows: Seq<EndpointView>, found: EndpointView)
    ensures
        exists|i: int|
            0 <= i < listed(rows, found).len() && (#[trigger] listed(rows, found)[i]).matches(
                found.id,
            ),
{
    first_match_bounds(rows, found.id);
    let after = listed(rows, found);
    match first_match(rows, found.id) {
        Some(at) if !(rows[at].is_placeholder() && found.is_named()) => {
            assert(after[at].matches(found.id));
        },
        _ => {
            assert(after.last() == found);
            matches_own_id(found);
            assert(after[after.len() - 1].matches(found.id));
        },
    }
}

/// The row of a device matches the device.
pub proof fn matches_own_id(found: EndpointView)
    ensures
        found.matches(found.id),
{
    let key = found.row_key();
    assert(key.subrange(0, found.id.len() as int) == found.id);
    assert(occurs_at(key, found.id, 0));
}

/// Rows persist: an announcement leaves every row in the list but a placeholder
/// that makes way for the announced device.
pub proof fn rows_persist(rows: Seq<EndpointView>, found: EndpointView, i: int)
    requires
        0 <= i < rows.len(),
        !makes_way(rows, found, i),
    ensures
        listed(rows, found).contains(rows[i]),
{
    first_match_bounds(rows, found.id);
    let after = listed(rows, found);
    match first_match(rows, found.id) {
        Some(at) if rows[at].is_placeholder() && found.is_named() && at < i => {
            assert(after[i - 1] == rows[i]);
        },
        _ => {
            assert(after[i] == rows[i]);
        },
    }
}

/// An announcement adds at most one row and never leaves fewer.
pub proof fn list_grows_by_at_most_one(rows: Seq<EndpointView>, found: EndpointView)
    ensures
        rows.len() <= listed(rows, found).len() <= rows.len() + 1,
{
    first_match_bounds(rows, found.id);
}

/// Announcing a device again adds no row.
pub proof fn repeated_announcement_adds_nothing(rows: Seq<EndpointView>, found: EndpointView)
    ensures
        listed(listed(rows, found), found).len() == listed(rows, found).len(),
{
    let after = listed(rows, found);
    announced_device_is_listed(rows, found);
    first_match_bounds(after, found.id);
}

/// Announcing a device again changes nothing, unless a placeholder then makes way
/// from which on the rows are not all this device's own.
pub proof fn repeated_announcement_changes_nothing(rows: Seq<EndpointView>, found: EndpointView)
    requires
        forall|at: int, i: int|
            #![trigger makes_way(listed(rows, found), found, at), listed(rows, found)[i]]
            makes_way(listed(rows, found), found, at) && at <= i < listed(rows, found).len()
                ==> listed(rows, found)[i] == found,
    ensures
        listed(listed(rows, found), found) == listed(rows, found),
{
    let after = listed(rows, found);
    announced_device_is_listed(rows, found);
    first_match_bounds(after, found.id);
    let at = first_match(after, found.id)->0;
    if makes_way(after, found, at) {
        assert forall|i: int| 0 <= i < after.len() implies after.remove(at).push(found)[i]
            == after[i] by {
            if at <= i {
                assert(after[i] == found);
                if i + 1 < after.len() {
                    assert(after[i + 1] == found);
                }
            }
        }
        assert(after.remove(at).push(found) == after);
    }
}

/// No two rows have the same id.
pub open spec fn distinct_ids(rows: Seq<EndpointView>) -> bool {
    forall|i: int, j: int|
        0 <= i < j < rows.len() ==> (#[trigger] rows[i]).id != (#[trigger] rows[j]).id
}

/// Ids stay distinct, unless a row of another device makes way although the
/// announced device has a row of its own.
pub proof fn ids_stay_distinct(rows: Seq<EndpointView>, found: EndpointView)
    requires
        distinct_ids(rows),
        forall|at: int, i: int|
            #![trigger makes_way(rows, found, at), rows[i]]
            makes_way(rows, found, at) && 0 <= i < rows.len() && rows[i].id == found.id
                ==> rows[at].id == found.id,
    ensures
        distinct_ids(listed(rows, found)),
{
    first_match_bounds(rows, found.id);
    let after = listed(rows, found);
    match first_match(rows, found.id) {
        None => {
            assert forall|i: int| 0 <= i < rows.len() implies (#[trigger] rows[i]).id != found.id by {
                if rows[i].id == found.id {
                    matches_own_id(rows[i]);
                }
            }
        },
        Some(at) if rows[at].is_placeholder() && found.is_named() => {
            assert(makes_way(rows, found, at));
            assert forall|i: int, j: int| 0 <= i < j < after.len() implies (#[trigger] after[i]).id
                != (#[trigger] after[j]).id by {
                let from = if i < at { i } else { i + 1 };
                assert(after[i] == rows[from]);
                if j == after.len() - 1 {
                    assert(after[j] == found);
                } else {
                    let to = if j < at { j } else { j + 1 };
                    assert(after[j] == rows[to]);
                }
            }
        },
        _ => {},
    }
}

/// The list after a run of announcements.
pub open spec fn announced(run: Seq<EndpointView>) -> Seq<EndpointView>
    decreases run.len(),
{
    if run.len() == 0 {
        Seq::empty()
    } else {
        listed(announced(run.drop_last()), run.last())
    }
}

/// The rows of a run tell its devices apart: no id occurs in the key of another
/// device's row, and the word for a missing name occurs in no id and in no other
/// name.
pub open spec fn tells_apart(run: Seq<EndpointView>) -> bool {
    &&& forall|i: int, j: int|
        0 <= i < run.len() && 0 <= j < run.len() && (#[trigger] run[i]).id != (#[trigger] run[j]).id
            ==> !run[i].matches(run[j].id)
    &&& forall|i: int|
        0 <= i < run.len() ==> !contains_text((#[trigger] run[i]).id, "Unknown"@)
    &&& forall|i: int|
        0 <= i < run.len() && (#[trigger] run[i]).is_named() ==> !contains_text(
            run[i].label(),
            "Unknown"@,
        )
}

/// The announcement at `k` is the first of its device that brings a name.
pub open spec fn is_first_named(run: Seq<EndpointView>, k: int) -> bool {
    &&& 0 <= k < run.len()
    &&& run[k].is_named()
    &&& forall|i: int| 0 <= i < k && (#[trigger] run[i]).id == run[k].id ==> !run[i].is_named()
}

/// The announcement at `k` is the first of a device of which none brings a name.
pub open spec fn is_first_of_nameless(run: Seq<EndpointView>, k: int) -> bool {
    &&& 0 <= k < run.len()
    &&& forall|i: int|
        0 <= i < run.len() && (#[trigger] run[i]).id == run[k].id ==> !run[i].is_named() && k <= i
}

/// The announcement at `k` is the one that stands in the list in the end.
pub open spec fn is_kept(run: Seq<EndpointView>, k: int) -> bool {
    is_first_named(run, k) || is_first_of_nameless(run, k)
}

/// The first name announced for the device `id` that is more than the placeholder,
/// and otherwise the placeholder.
pub open spec fn first_name(run: Seq<EndpointView>, id: Seq<char>) -> Seq<char>
    decreases run.len(),
{
    if run.len() == 0 {
        "Unknown"@
    } else if run[0].id == id && run[0].is_named() {
        run[0].label()
    } else {
        first_name(run.drop_first(), id)
    }
}

/// In a run that tells its devices apart, a row is a placeholder exactly while it
/// has no name.
proof fn placeholder_is_nameless(run: Seq<EndpointView>, i: int)
    requires
        tells_apart(run),
        0 <= i < run.len(),
    ensures
        run[i].is_placeholder() == !run[i].is_named(),
{
    let row = run[i];
    let key = row.row_key();
    let word = "Unknown"@;
    reveal_strlit("Unknown");
    reveal_strlit(":::");
    let a = row.id.len() as int;
    if !row.is_named() {
        assert(key.subrange(a + 3, a + 3 + word.len()) == word);
        assert(occurs_at(key, word, a + 3));
    } else if row.is_placeholder() {
        let at = choose|at: int| #[trigger] occurs_at(key, word, at);
        let found = key.subrange(at, at + word.len());
        assert forall|j: int| 0 <= j < word.len() implies key[at + j] == word[j] by {
            assert(found[j] == key[at + j]);
        }
        if at + word.len() <= a {
            assert(row.id.subrange(at, at + word.len()) == word);
            assert(occurs_at(row.id, word, at));
        } else if at >= a + 3 {
            assert(row.label().subrange(at - a - 3, at - a - 3 + word.len()) == word);
            assert(occurs_at(row.label(), word, at - a - 3));
        } else {
            let colon = if at <= a { a } else { at };
            assert(key[colon] == ':');
            assert(key[at + (colon - at)] == word[colon - at]);
        }
    }
}

/// Every announced device has an announcement that is kept.
proof fn some_announcement_is_kept(run: Seq<EndpointView>, i: int) -> (k: int)
    requires
        0 <= i < run.len(),
    ensures
        is_kept(run, k),
        run[k].id == run[i].id,
{
    let id = run[i].id;
    if exists|j: int| 0 <= j < run.len() && (#[trigger] run[j]).id == id && run[j].is_named() {
        let j = choose|j: int| 0 <= j < run.len() && (#[trigger] run[j]).id == id && run[j].is_named();
        first_named_up_to(run, j)
    } else {
        first_up_to(run, i)
    }
}

proof fn first_named_up_to(run: Seq<EndpointView>, j: int) -> (k: int)
    requires
        0 <= j < run.len(),
        run[j].is_named(),
    ensures
        is_first_named(run, k),
        run[k].id == run[j].id,
    decreases j,
{
    if is_first_named(run, j) {
        j
    } else {
        let i = choose|i: int| 0 <= i < j && (#[trigger] run[i]).id == run[j].id && run[i].is_named();
        first_named_up_to(run, i)
    }
}

proof fn first_up_to(run: Seq<EndpointView>, j: int) -> (k: int)
    requires
        0 <= j < run.len(),
        forall|i: int|
            0 <= i < run.len() && (#[trigger] run[i]).id == run[j].id ==> !run[i].is_named(),
    ensures
        is_first_of_nameless(run, k),
        run[k].id == run[j].id,
    decreases j,
{
    if is_first_of_nameless(run, j) {
        j
    } else {
        let i = choose|i: int|
            0 <= i < run.len() && (#[trigger] run[i]).id == run[j].id && i < j;
        first_up_to(run, i)
    }
}

/// No two announcements of a device are kept.
proof fn kept_announcement_is_unique(run: Seq<EndpointView>, a: int, b: int)
    requires
        is_kept(run, a),
        is_kept(run, b),
        run[a].id == run[b].id,
    ensures
        a == b,
{
}

/// `places` are the positions in `run` of the rows of its list, in their order.
pub open spec fn are_places(run: Seq<EndpointView>, places: Seq<int>) -> bool {
    &&& places.len() == announced(run).len()
    &&& forall|i: int, j: int|
        0 <= i < j < places.len() ==> #[trigger] places[i] < #[trigger] places[j]
    &&& forall|i: int|
        0 <= i < places.len() ==> is_kept(run, #[trigger] places[i]) && announced(run)[i]
            == run[places[i]]
    &&& forall|k: int| #[trigger] is_kept(run, k) ==> places.contains(k)
}

/// After a run of announcements that tells its devices apart, the list holds, in
/// the order in which they came, the first announcement with a name of each
/// device that has one, the first announcement of each other device, and nothing
/// else.
pub proof fn list_after_announcements(run: Seq<EndpointView>) -> (places: Seq<int>)
    requires
        tells_apart(run),
    ensures
        are_places(run, places),
    decreases run.len(),
{
    if run.len() == 0 {
        Seq::empty()
    } else {
        let before = run.drop_last();
        assert forall|i: int| 0 <= i < before.len() implies #[trigger] before[i] == run[i] by {}
        assert(tells_apart(before));
        let old_places = list_after_announcements(before);
        place_of_announcement(run, old_places)
    }
}

/// The places after one more announcement.
proof fn place_of_announcement(run: Seq<EndpointView>, old_places: Seq<int>) -> (places: Seq<int>)
    requires
        run.len() > 0,
        tells_apart(run),
        are_places(run.drop_last(), old_places),
    ensures
        are_places(run, places),
{
    let before = run.drop_last();
    let found = run.last();
    let n = run.len() - 1;
    let rows = announced(before);
    assert(run[n] == found);
    first_match_bounds(rows, found.id);
    match first_match(rows, found.id) {
        None => {
            assert forall|i: int| 0 <= i < n implies (#[trigger] run[i]).id != found.id by {
                if run[i].id == found.id {
                    assert(before[i] == run[i]);
                    let k = some_announcement_is_kept(before, i);
                    let at = choose|at: int| 0 <= at < old_places.len() && old_places[at] == k;
                    assert(rows[at] == before[old_places[at]]);
                    matches_own_id(rows[at]);
                }
            }
            assert forall|k: int| 0 <= k < n implies #[trigger] is_kept(run, k) == is_kept(
                before,
                k,
            ) by {
                kept_of_other_device(run, k);
            }
            assert(is_kept(run, n));
            let places = old_places.push(n);
            assert forall|k: int| #[trigger] is_kept(run, k) implies places.contains(k) by {
                if k < n {
                    let at = choose|at: int| 0 <= at < old_places.len() && old_places[at] == k;
                    assert(places[at] == k);
                } else {
                    assert(places[old_places.len() as int] == k);
                }
            }
            places
        },
        Some(at) => {
            let old = old_places[at];
            assert(is_kept(before, old));
            assert(rows[at] == before[old] && before[old] == run[old]);
            assert(run[old].id == found.id);
            placeholder_is_nameless(run, old);
            if rows[at].is_placeholder() && found.is_named() {
                let places = old_places.remove(at).push(n);
                assert forall|k: int| 0 <= k < n implies #[trigger] is_kept(run, k) == (is_kept(
                    before,
                    k,
                ) && k != old) by {
                    kept_after_name(run, old, k);
                }
                assert(is_kept(run, n)) by {
                    assert forall|i: int|
                        0 <= i < n && (#[trigger] run[i]).id == run[n].id implies !run[i].is_named() by {
                        assert(before[i] == run[i]);
                    }
                    assert(is_first_named(run, n));
                }
                assert forall|i: int| 0 <= i < places.len() implies is_kept(run, #[trigger] places[i])
                    && announced(run)[i] == run[places[i]] by {
                    if i < places.len() - 1 {
                        let from = if i < at { i } else { i + 1 };
                        assert(places[i] == old_places[from]);
                        assert(is_kept(before, old_places[from]));
                        assert(rows[from] == before[old_places[from]]);
                    }
                }
                assert forall|k: int| #[trigger] is_kept(run, k) implies places.contains(k) by {
                    if k < n {
                        let from = choose|i: int| 0 <= i < old_places.len() && old_places[i] == k;
                        let to = if from < at { from } else { from - 1 };
                        assert(places[to] == k);
                    } else {
                        assert(places[places.len() - 1] == k);
                    }
                }
                places
            } else {
                assert forall|k: int| #[trigger] is_kept(run, k) == is_kept(before, k) by {
                    kept_after_skip(run, old, k);
                }
                assert forall|i: int|
                    0 <= i < old_places.len() implies is_kept(run, #[trigger] old_places[i])
                    && announced(run)[i] == run[old_places[i]] by {
                    assert(is_kept(before, old_places[i]));
                    assert(rows[i] == before[old_places[i]]);
                }
                old_places
            }
        },
    }
}

/// The last announcement does not touch what is kept of other devices.
proof fn kept_of_other_device(run: Seq<EndpointView>, k: int)
    requires
        0 <= k < run.len() - 1,
        run[k].id != run.last().id,
    ensures
        is_kept(run, k) == is_kept(run.drop_last(), k),
{
    let before = run.drop_last();
    assert forall|i: int|
        #![trigger before[i]]
        #![trigger run[i]]
        0 <= i < before.len() implies before[i] == run[i] by {}
    if is_first_of_nameless(before, k) {
        assert(is_first_of_nameless(run, k));
    }
    if is_first_of_nameless(run, k) {
        assert(is_first_of_nameless(before, k));
    }
    if is_first_named(before, k) {
        assert(is_first_named(run, k));
    }
    if is_first_named(run, k) {
        assert(is_first_named(before, k));
    }
}

/// The first name of a device ends the stay of its nameless announcement.
proof fn kept_after_name(run: Seq<EndpointView>, old: int, k: int)
    requires
        0 <= k < run.len() - 1,
        is_kept(run.drop_last(), old),
        run[old].id == run.last().id,
        !run[old].is_named(),
        run.last().is_named(),
    ensures
        is_kept(run, k) == (is_kept(run.drop_last(), k) && k != old),
{
    let before = run.drop_last();
    let n = run.len() - 1;
    assert(before[old] == run[old] && before[k] == run[k]);
    if run[k].id != run.last().id {
        kept_of_other_device(run, k);
    } else {
        assert(is_first_of_nameless(before, old));
        assert(!run[k].is_named());
        assert(run[n].id == run[k].id && run[n].is_named());
        if is_kept(before, k) {
            kept_announcement_is_unique(before, k, old);
        }
    }
}

/// An announcement that changes nothing leaves what is kept as it is.
proof fn kept_after_skip(run: Seq<EndpointView>, old: int, k: int)
    requires
        run.len() > 0,
        is_kept(run.drop_last(), old),
        run[old].id == run.last().id,
        run[old].is_named() || !run.last().is_named(),
    ensures
        is_kept(run, k) == is_kept(run.drop_last(), k),
{
    let before = run.drop_last();
    let n = run.len() - 1;
    assert forall|i: int|
        #![trigger before[i]]
        #![trigger run[i]]
        0 <= i < before.len() implies before[i] == run[i] by {}
    if k == n {
        assert(run[old].id == run[n].id && old < n);
    } else if 0 <= k < n {
        if run[k].id != run.last().id {
            kept_of_other_device(run, k);
        } else {
            if is_first_named(before, k) {
                assert(is_first_named(run, k));
            }
            if is_first_named(run, k) {
                assert(is_first_named(before, k));
            }
            if is_first_of_nameless(run, k) {
                assert(is_first_of_nameless(before, k));
            }
            if is_first_of_nameless(before, k) {
                assert(!before[old].is_named());
                assert(is_first_of_nameless(run, k));
            }
        }
    }
}

/// The label of a kept announcement is the first name of its device.
proof fn kept_label(run: Seq<EndpointView>, k: int)
    requires
        is_kept(run, k),
    ensures
        run[k].label() == first_name(run, run[k].id),
{
    if is_first_named(run, k) {
        label_of_first_named(run, k);
    } else {
        label_of_nameless(run, run[k].id);
    }
}

proof fn label_of_first_named(run: Seq<EndpointView>, k: int)
    requires
        is_first_named(run, k),
    ensures
        run[k].label() == first_name(run, run[k].id),
    decreases run.len(),
{
    if k > 0 {
        let rest = run.drop_first();
        assert forall|i: int| 0 <= i < rest.len() implies #[trigger] rest[i] == run[i + 1] by {}
        assert(!(run[0].id == run[k].id && run[0].is_named()));
        label_of_first_named(rest, k - 1);
    }
}

proof fn label_of_nameless(run: Seq<EndpointView>, id: Seq<char>)
    requires
        forall|i: int| 0 <= i < run.len() && (#[trigger] run[i]).id == id ==> !run[i].is_named(),
    ensures
        first_name(run, id) == "Unknown"@,
    decreases run.len(),
{
    if run.len() > 0 {
        let rest = run.drop_first();
        assert forall|i: int| 0 <= i < rest.len() implies #[trigger] rest[i] == run[i + 1] by {}
        label_of_nameless(rest, id);
    }
}

/// After a run of announcements that tells its devices apart, each announced
/// device has exactly one row, each row belongs to an announced device, and its
/// label is the first name announced for that device, if there was one. The row
/// is the first announcement with a name other than the placeholder, and the first
/// announcement of all where none has such a name.
pub proof fn one_row_per_device(run: Seq<EndpointView>)
    requires
        tells_apart(run),
    ensures
        distinct_ids(announced(run)),
        forall|i: int|
            0 <= i < run.len() ==> exists|r: int|
                0 <= r < announced(run).len() && (#[trigger] announced(run)[r]).id == (
                #[trigger] run[i]).id,
        forall|r: int|
            0 <= r < announced(run).len() ==> run.contains(#[trigger] announced(run)[r])
                && announced(run)[r].label() == first_name(run, announced(run)[r].id),
        forall|r: int, k: int|
            #![trigger announced(run)[r], run[k]]
            0 <= r < announced(run).len() && 0 <= k < run.len() && run[k].id == announced(run)[r].id
                && run[k].name is Some && run[k].name != Some("Unknown"@) && (forall|i: int|
                0 <= i < k && (#[trigger] run[i]).id == run[k].id ==> run[i].name is None
                    || run[i].name == Some("Unknown"@)) ==> announced(run)[r] == run[k],
        forall|r: int, k: int|
            #![trigger announced(run)[r], run[k]]
            0 <= r < announced(run).len() && 0 <= k < run.len() && run[k].id == announced(run)[r].id
                && (forall|i: int|
                0 <= i < run.len() && (#[trigger] run[i]).id == run[k].id ==> k <= i && (run[i].name
                    is None || run[i].name == Some("Unknown"@))) ==> announced(run)[r] == run[k],
{
    rows_of_devices(run);
    rows_by_name(run);
}

proof fn rows_of_devices(run: Seq<EndpointView>)
    requires
        tells_apart(run),
    ensures
        distinct_ids(announced(run)),
        forall|i: int|
            0 <= i < run.len() ==> exists|r: int|
                0 <= r < announced(run).len() && (#[trigger] announced(run)[r]).id == (
                #[trigger] run[i]).id,
        forall|r: int|
            0 <= r < announced(run).len() ==> run.contains(#[trigger] announced(run)[r])
                && announced(run)[r].label() == first_name(run, announced(run)[r].id),
{
    let places = list_after_announcements(run);
    let rows = announced(run);
    assert forall|i: int, j: int| 0 <= i < j < rows.len() implies (#[trigger] rows[i]).id != (
    #[trigger] rows[j]).id by {
        assert(places[i] < places[j]);
        assert(rows[i] == run[places[i]] && rows[j] == run[places[j]]);
        if rows[i].id == rows[j].id {
            kept_announcement_is_unique(run, places[i], places[j]);
        }
    }
    assert forall|i: int| 0 <= i < run.len() implies exists|r: int|
        0 <= r < rows.len() && (#[trigger] rows[r]).id == (#[trigger] run[i]).id by {
        let k = some_announcement_is_kept(run, i);
        let r = choose|r: int| 0 <= r < places.len() && places[r] == k;
        assert(rows[r] == run[places[r]]);
    }
    assert forall|r: int| 0 <= r < rows.len() implies run.contains(#[trigger] rows[r])
        && rows[r].label() == first_name(run, rows[r].id) by {
        assert(rows[r] == run[places[r]]);
        assert(is_kept(run, places[r]));
        kept_label(run, places[r]);
    }
}

/// The row of a device is its kept announcement.
proof fn row_is_kept_announcement(run: Seq<EndpointView>, places: Seq<int>, r: int, k: int)
    requires
        are_places(run, places),
        0 <= r < announced(run).len(),
        is_kept(run, k),
        run[k].id == announced(run)[r].id,
    ensures
        announced(run)[r] == run[k],
{
    assert(is_kept(run, places[r]));
    kept_announcement_is_unique(run, places[r], k);
}

proof fn rows_by_name(run: Seq<EndpointView>)
    requires
        tells_apart(run),
    ensures
        forall|r: int, k: int|
            #![trigger announced(run)[r], run[k]]
            0 <= r < announced(run).len() && 0 <= k < run.len() && run[k].id == announced(run)[r].id
                && run[k].name is Some && run[k].name != Some("Unknown"@) && (forall|i: int|
                0 <= i < k && (#[trigger] run[i]).id == run[k].id ==> run[i].name is None
                    || run[i].name == Some("Unknown"@)) ==> announced(run)[r] == run[k],
        forall|r: int, k: int|
            #![trigger announced(run)[r], run[k]]
            0 <= r < announced(run).len() && 0 <= k < run.len() && run[k].id == announced(run)[r].id
                && (forall|i: int|
                0 <= i < run.len() && (#[trigger] run[i]).id == run[k].id ==> k <= i && (run[i].name
                    is None || run[i].name == Some("Unknown"@))) ==> announced(run)[r] == run[k],
{
    let places = list_after_announcements(run);
    let rows = announced(run);
    assert forall|r: int, k: int|
        #![trigger rows[r], run[k]]
        0 <= r < rows.len() && 0 <= k < run.len() && run[k].id == rows[r].id && run[k].name is Some
            && run[k].name != Some("Unknown"@) && (forall|i: int|
            0 <= i < k && (#[trigger] run[i]).id == run[k].id ==> run[i].name is None || run[i].name
                == Some("Unknown"@)) implies rows[r] == run[k] by {
        assert(is_first_named(run, k));
        row_is_kept_announcement(run, places, r, k);
    }
    assert forall|r: int, k: int|
        #![trigger rows[r], run[k]]
        0 <= r < rows.len() && 0 <= k < run.len() && run[k].id == rows[r].id && (forall|i: int|
            0 <= i < run.len() && (#[trigger] run[i]).id == run[k].id ==> k <= i && (run[i].name
                is None || run[i].name == Some("Unknown"@))) implies rows[r] == run[k] by {
        assert(is_first_of_nameless(run, k));
        row_is_kept_announcement(run, places, r, k);
    }
}

/// Two attempts have the same id only if they go to the same device at the same time.
pub proof fn attempt_ids_are_unique(id1: Seq<char>, now1: nat, id2: Seq<char>, now2: nat)
    requires
        attempt_id(id1, now1) == attempt_id(id2, now2),
    ensures
        id1 == id2,
        now1 == now2,
{
    let whole = attempt_id(id1, now1);
    dash_before_numeral(id1, now1, id2, now2);
    dash_before_numeral(id2, now2, id1, now1);
    reveal_strlit("-");
    assert(id1 == whole.take(id1.len() as int));
    assert(id2 == whole.take(id2.len() as int));
    assert(decimal(now1) == whole.skip(id1.len() as int + 1));
    assert(decimal(now2) == whole.skip(id2.len() as int + 1));
    crate::text::decimal_is_injective(now1, now2);
}

proof fn dash_before_numeral(id1: Seq<char>, now1: nat, id2: Seq<char>, now2: nat)
    requires
        attempt_id(id1, now1) == attempt_id(id2, now2),
    ensures
        id1.len() >= id2.len(),
{
    reveal_strlit("-");
    if id1.len() < id2.len() {
        let at = id2.len() as int;
        let in_numeral = at - id1.len() - 1;
        assert(attempt_id(id1, now1).len() == id1.len() + 1 + decimal(now1).len());
        assert(attempt_id(id2, now2).len() == id2.len() + 1 + decimal(now2).len());
        assert(attempt_id(id2, now2)[at] == '-');
        crate::text::decimal_is_nonempty(now2);
        assert(attempt_id(id1, now1)[at] == decimal(now1)[in_numeral]);
        crate::text::decimal_is_digits(now1, in_numeral);
    }
}

} // verus!
