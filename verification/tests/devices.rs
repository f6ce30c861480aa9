use sendfiles::devices::{DeviceList, EndpointInfo, ListChange};

fn device(id: &str, name: Option<&str>) -> EndpointInfo {
    EndpointInfo {
        id: id.to_string(),
        name: name.map(|n| n.to_string()),
        ip: Some("192.168.1.20".to_string()),
        port: Some("46000".to_string()),
    }
}

fn keys(list: &DeviceList) -> Vec<String> {
    let mut keys = Vec::new();
    for i in 0..list.len() {
        keys.push(list.get(i).unwrap().row_key());
    }
    assert!(list.get(list.len()).is_none());
    keys
}

#[test]
fn new_devices_are_added_at_the_end() {
    let mut list = DeviceList::new();
    assert_eq!(list.len(), 0);
    assert_eq!(list.add_device(device("AAAA", Some("Phone"))), ListChange::Added);
    assert_eq!(list.add_device(device("BBBB", Some("Tablet"))), ListChange::Added);
    assert_eq!(keys(&list), vec!["AAAA:::Phone", "BBBB:::Tablet"]);
}

#[test]
fn known_devices_are_skipped() {
    let mut list = DeviceList::new();
    list.add_device(device("AAAA", Some("Phone")));
    assert_eq!(list.add_device(device("AAAA", Some("Phone"))), ListChange::Unchanged);
    assert_eq!(list.add_device(device("AAAA", Some("Renamed"))), ListChange::Unchanged);
    assert_eq!(list.add_device(device("AAAA", None)), ListChange::Unchanged);
    assert_eq!(keys(&list), vec!["AAAA:::Phone"]);
}

#[test]
fn name_replaces_placeholder() {
    let mut list = DeviceList::new();
    list.add_device(device("AAAA", None));
    list.add_device(device("BBBB", Some("Tablet")));
    assert_eq!(list.add_device(device("AAAA", None)), ListChange::Unchanged);
    assert_eq!(list.add_device(device("AAAA", Some("Unknown"))), ListChange::Unchanged);
    assert_eq!(list.add_device(device("AAAA", Some("Phone"))), ListChange::Replaced(0));
    assert_eq!(keys(&list), vec!["BBBB:::Tablet", "AAAA:::Phone"]);
}

#[test]
fn ids_are_found_anywhere_in_a_row() {
    let mut list = DeviceList::new();
    list.add_device(device("AAAA", Some("Phone")));
    assert_eq!(list.add_device(device("hon", Some("Other"))), ListChange::Unchanged);
    assert_eq!(list.add_device(device("A:::P", Some("Other"))), ListChange::Unchanged);
    assert_eq!(list.add_device(device("", Some("Other"))), ListChange::Unchanged);
    assert_eq!(list.add_device(device("AAAAA", Some("Other"))), ListChange::Added);
}

#[test]
fn first_device_is_added_even_without_id() {
    let mut list = DeviceList::new();
    assert_eq!(list.add_device(device("", None)), ListChange::Added);
    assert_eq!(keys(&list), vec![":::Unknown"]);
}

#[test]
fn rows_named_like_the_placeholder_move_to_the_end() {
    let mut list = DeviceList::new();
    list.add_device(device("AAAA", Some("Unknown Phone")));
    list.add_device(device("BBBB", Some("Tablet")));
    assert_eq!(list.add_device(device("AAAA", Some("Unknown Phone"))), ListChange::Replaced(0));
    assert_eq!(list.add_device(device("AAAA", Some("Unknown Phone"))), ListChange::Replaced(1));
    assert_eq!(keys(&list), vec!["BBBB:::Tablet", "AAAA:::Unknown Phone"]);
}

#[test]
fn only_the_first_matching_row_makes_way() {
    let mut list = DeviceList::new();
    list.add_device(device("a1", None));
    list.add_device(device("b1", None));
    assert_eq!(list.add_device(device("1", Some("Phone"))), ListChange::Replaced(0));
    assert_eq!(keys(&list), vec!["b1:::Unknown", "1:::Phone"]);
    assert_eq!(list.add_device(device("1", Some("Phone"))), ListChange::Replaced(0));
    assert_eq!(keys(&list), vec!["1:::Phone", "1:::Phone"]);
}

#[test]
fn initials_are_upper_case() {
    assert_eq!(device("A", Some("phone")).initials(), "P");
    assert_eq!(device("A", Some("\u{e9}cran")).initials(), "\u{c9}");
    assert_eq!(device("A", Some("\u{df}")).initials(), "SS");
    assert_eq!(device("A", Some("7up")).initials(), "7");
    assert_eq!(device("A", Some("")).initials(), "?");
    assert_eq!(device("A", None).initials(), "U");
}

#[test]
fn labels_fall_back_to_the_placeholder() {
    assert_eq!(device("A", Some("Phone")).label(), "Phone");
    assert_eq!(device("A", None).label(), "Unknown");
    assert_eq!(device("A", None).row_key(), "A:::Unknown");
}

#[test]
fn send_request_names_device_and_file() {
    let request = device("AAAA", Some("Phone")).send_request("/home/me/a.txt", 1_700_000_000_123);
    assert_eq!(request.id, "AAAA-1700000000123");
    assert_eq!(request.name, "Phone");
    assert_eq!(request.addr, "192.168.1.20:46000");
    assert_eq!(request.files, vec!["/home/me/a.txt"]);
}

#[test]
fn missing_parts_of_a_device_are_left_empty() {
    let bare = EndpointInfo { id: "AAAA".to_string(), name: None, ip: None, port: None };
    let request = bare.send_request("a", 0);
    assert_eq!(request.id, "AAAA-0");
    assert_eq!(request.name, "");
    assert_eq!(request.addr, ":");
}

#[test]
fn attempts_at_different_times_have_different_ids() {
    let phone = device("A-1", None);
    assert_ne!(phone.send_request("a", 12).id, phone.send_request("a", 2).id);
    assert_ne!(phone.send_request("a", 2).id, device("A", None).send_request("a", 12).id);
    let last = phone.send_request("a", u128::MAX).id;
    assert_eq!(last, format!("A-1-{}", u128::MAX));
}

#[test]
fn ascii_initials_follow_the_alphabet() {
    for code in 0..128u32 {
        let c = char::from_u32(code).unwrap();
        let name = c.to_string();
        let expected = if c.is_ascii_lowercase() {
            char::from_u32(code - 32).unwrap().to_string()
        } else {
            name.clone()
        };
        assert_eq!(device("A", Some(&name)).initials(), expected);
    }
}

#[test]
fn run_of_announcements_leaves_one_row_per_device() {
    let mut list = DeviceList::new();
    for (id, name) in [
        ("AAAA", None),
        ("BBBB", Some("Tablet")),
        ("CCCC", Some("Unknown")),
        ("AAAA", Some("Phone")),
        ("BBBB", None),
        ("CCCC", None),
        ("AAAA", Some("Renamed")),
        ("DDDD", Some("Laptop")),
    ] {
        list.add_device(device(id, name));
    }
    assert_eq!(
        keys(&list),
        vec!["BBBB:::Tablet", "CCCC:::Unknown", "AAAA:::Phone", "DDDD:::Laptop"]
    );
}
