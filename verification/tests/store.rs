use ip_manager::record::IpInfo;
use ip_manager::store::{add_ip, delete_ip, edit_ip, locate, OpError};

fn text(s: &str) -> String {
    s.to_string()
}

fn device(id: usize, ip: &str, subnet: &str, gateway: &str, description: &str, port: u16) -> IpInfo {
    IpInfo {
        id,
        ip: text(ip),
        subnet: text(subnet),
        gateway: text(gateway),
        description: text(description),
        port,
    }
}

fn two_devices() -> Vec<IpInfo> {
    vec![
        device(1, "10.0.0.1", "10.0.0.0/24", "10.0.0.254", "core switch", 22),
        device(2, "10.0.0.2", "10.0.0.0/24", "10.0.0.254", "printer", 9100),
    ]
}

#[test]
fn add_appends_with_next_id() {
    let mut store = Vec::new();
    let outcome = add_ip(
        &mut store,
        text("10.0.0.1"),
        text("10.0.0.0/24"),
        text("10.0.0.254"),
        text("core switch"),
        "22",
    );
    assert_eq!(outcome, Ok(()));
    assert_eq!(store, vec![device(1, "10.0.0.1", "10.0.0.0/24", "10.0.0.254", "core switch", 22)]);
    let outcome = add_ip(
        &mut store,
        text("192.168.1.10"),
        text("192.168.1.0/25"),
        text("192.168.1.1"),
        text(""),
        "+8080",
    );
    assert_eq!(outcome, Ok(()));
    assert_eq!(store.len(), 2);
    assert_eq!(store[0], device(1, "10.0.0.1", "10.0.0.0/24", "10.0.0.254", "core switch", 22));
    assert_eq!(store[1], device(2, "192.168.1.10", "192.168.1.0/25", "192.168.1.1", "", 8080));
}

#[test]
fn add_rejects_invalid_ip() {
    let mut store = two_devices();
    let outcome = add_ip(
        &mut store,
        text("999.1.1.1"),
        text("10.0.0.0/24"),
        text("10.0.0.254"),
        text("bad"),
        "22",
    );
    assert_eq!(outcome, Err(OpError::InvalidFields));
    assert_eq!(store.len(), 2);
    assert_eq!(store, two_devices());
}

#[test]
fn add_rejects_invalid_subnet_or_gateway() {
    let mut store = two_devices();
    let outcome = add_ip(
        &mut store,
        text("10.0.0.3"),
        text("10.0.0.0/33"),
        text("10.0.0.254"),
        text("x"),
        "22",
    );
    assert_eq!(outcome, Err(OpError::InvalidFields));
    let outcome = add_ip(
        &mut store,
        text("10.0.0.3"),
        text("10.0.0.0"),
        text("10.0.0.254"),
        text("x"),
        "22",
    );
    assert_eq!(outcome, Err(OpError::InvalidFields));
    let outcome = add_ip(
        &mut store,
        text("10.0.0.3"),
        text("10.0.0.0/24"),
        text("10.0.0"),
        text("x"),
        "22",
    );
    assert_eq!(outcome, Err(OpError::InvalidFields));
    let outcome =
        add_ip(&mut store, text("10.0.0.3"), text("10.0.0.0/24"), text(""), text("x"), "22");
    assert_eq!(outcome, Err(OpError::InvalidFields));
    assert_eq!(store, two_devices());
}

#[test]
fn add_rejects_invalid_port_first() {
    let mut store = two_devices();
    for port in ["", "http", "65536", "-1", "22 ", "2.2"] {
        let outcome = add_ip(
            &mut store,
            text("10.0.0.3"),
            text("10.0.0.0/24"),
            text("10.0.0.254"),
            text("x"),
            port,
        );
        assert_eq!(outcome, Err(OpError::InvalidPort), "{:?}", port);
    }
    let outcome =
        add_ip(&mut store, text("999.1.1.1"), text("nowhere"), text(""), text("x"), "70000");
    assert_eq!(outcome, Err(OpError::InvalidPort));
    assert_eq!(store, two_devices());
}

#[test]
fn add_after_delete_reuses_an_id() {
    let mut store = two_devices();
    assert_eq!(delete_ip(&mut store, "1"), Ok(()));
    let outcome = add_ip(
        &mut store,
        text("10.0.0.3"),
        text("10.0.0.0/24"),
        text("10.0.0.254"),
        text("camera"),
        "554",
    );
    assert_eq!(outcome, Ok(()));
    assert_eq!(store.len(), 2);
    assert_eq!(store[0].id, 2);
    assert_eq!(store[1].id, 2);
    assert_eq!(store[1].ip, "10.0.0.3");
}

#[test]
fn locate_turns_an_id_into_a_position() {
    let store = two_devices();
    assert_eq!(locate(&store, "1"), Ok(0));
    assert_eq!(locate(&store, "2"), Ok(1));
    assert_eq!(locate(&store, "+2"), Ok(1));
    assert_eq!(locate(&store, "002"), Ok(1));
    assert_eq!(locate(&store, "0"), Err(OpError::OutOfRange));
    assert_eq!(locate(&store, "3"), Err(OpError::OutOfRange));
    assert_eq!(locate(&store, &usize::MAX.to_string()), Err(OpError::OutOfRange));
    assert_eq!(locate(&store, ""), Err(OpError::InvalidId));
    assert_eq!(locate(&store, "two"), Err(OpError::InvalidId));
    assert_eq!(locate(&store, "-1"), Err(OpError::InvalidId));
    assert_eq!(locate(&store, "1.0"), Err(OpError::InvalidId));
    assert_eq!(locate(&store, "99999999999999999999999999999999999999999"), Err(OpError::InvalidId));
    assert_eq!(locate(&Vec::new(), "1"), Err(OpError::OutOfRange));
}

#[test]
fn delete_removes_by_position() {
    let mut store = two_devices();
    store.push(device(3, "10.0.0.3", "10.0.0.0/24", "10.0.0.254", "camera", 554));
    assert_eq!(delete_ip(&mut store, "2"), Ok(()));
    assert_eq!(store.len(), 2);
    assert_eq!(store[0], two_devices()[0]);
    assert_eq!(store[1], device(3, "10.0.0.3", "10.0.0.0/24", "10.0.0.254", "camera", 554));
    assert_eq!(delete_ip(&mut store, "2"), Ok(()));
    assert_eq!(store, vec![two_devices()[0].clone()]);
    assert_eq!(delete_ip(&mut store, "2"), Err(OpError::OutOfRange));
    assert_eq!(delete_ip(&mut store, "1"), Ok(()));
    assert!(store.is_empty());
    assert_eq!(delete_ip(&mut store, "1"), Err(OpError::OutOfRange));
}

#[test]
fn delete_out_of_range_leaves_store_unchanged() {
    let mut store = two_devices();
    assert_eq!(delete_ip(&mut store, "5"), Err(OpError::OutOfRange));
    assert_eq!(store, two_devices());
    assert_eq!(delete_ip(&mut store, "0"), Err(OpError::OutOfRange));
    assert_eq!(store, two_devices());
    assert_eq!(delete_ip(&mut store, "3"), Err(OpError::OutOfRange));
    assert_eq!(store, two_devices());
}

#[test]
fn delete_rejects_an_id_that_is_no_number() {
    let mut store = two_devices();
    for id in ["", "first", "-1", "1 ", "1,2"] {
        assert_eq!(delete_ip(&mut store, id), Err(OpError::InvalidId), "{:?}", id);
    }
    assert_eq!(store, two_devices());
}

#[test]
fn edit_replaces_the_fields_that_were_typed() {
    let mut store = two_devices();
    let outcome = edit_ip(
        &mut store,
        "2",
        text("10.0.1.2"),
        text("10.0.1.0/24"),
        text("10.0.1.1"),
        text("laser printer"),
        "631",
    );
    assert_eq!(outcome, Ok(()));
    assert_eq!(store[0], two_devices()[0]);
    assert_eq!(store[1], device(2, "10.0.1.2", "10.0.1.0/24", "10.0.1.1", "laser printer", 631));
}

#[test]
fn edit_keeps_fields_left_empty() {
    let mut store = two_devices();
    let outcome = edit_ip(&mut store, "1", text(""), text(""), text(""), text(""), "");
    assert_eq!(outcome, Ok(()));
    assert_eq!(store, two_devices());
    let outcome = edit_ip(&mut store, "1", text(""), text(""), text(""), text("router"), "");
    assert_eq!(outcome, Ok(()));
    assert_eq!(store[0], device(1, "10.0.0.1", "10.0.0.0/24", "10.0.0.254", "router", 22));
    let outcome = edit_ip(&mut store, "1", text(""), text("10.0.0.0/16"), text(""), text(""), "");
    assert_eq!(outcome, Ok(()));
    assert_eq!(store[0], device(1, "10.0.0.1", "10.0.0.0/16", "10.0.0.254", "router", 22));
    let outcome = edit_ip(&mut store, "1", text(""), text(""), text(""), text(""), "2222");
    assert_eq!(outcome, Ok(()));
    assert_eq!(store[0], device(1, "10.0.0.1", "10.0.0.0/16", "10.0.0.254", "router", 2222));
    assert_eq!(store[1], two_devices()[1]);
}

#[test]
fn edit_with_invalid_gateway_changes_nothing() {
    let mut store = two_devices();
    let outcome = edit_ip(
        &mut store,
        "1",
        text("10.9.9.9"),
        text("10.9.9.0/24"),
        text("10.0.0.999"),
        text("renamed"),
        "80",
    );
    assert_eq!(outcome, Err(OpError::InvalidFields));
    assert_eq!(store, two_devices());
    let outcome = edit_ip(&mut store, "2", text(""), text(""), text("gw"), text(""), "");
    assert_eq!(outcome, Err(OpError::InvalidFields));
    assert_eq!(store, two_devices());
}

#[test]
fn edit_with_invalid_subnet_changes_nothing() {
    let mut store = two_devices();
    let outcome =
        edit_ip(&mut store, "1", text(""), text("10.0.0.0/40"), text(""), text("renamed"), "");
    assert_eq!(outcome, Err(OpError::InvalidFields));
    assert_eq!(store, two_devices());
}

#[test]
fn edit_with_invalid_ip_changes_nothing() {
    let mut store = two_devices();
    let outcome = edit_ip(
        &mut store,
        "1",
        text("10.0.0"),
        text("10.9.9.0/24"),
        text("10.9.9.1"),
        text("renamed"),
        "80",
    );
    assert_eq!(outcome, Err(OpError::InvalidIp));
    assert_eq!(store, two_devices());
    let outcome =
        edit_ip(&mut store, "1", text("300.0.0.1"), text("bad"), text("bad"), text(""), "bad");
    assert_eq!(outcome, Err(OpError::InvalidIp));
    assert_eq!(store, two_devices());
}

#[test]
fn edit_with_invalid_port_changes_nothing() {
    let mut store = two_devices();
    let outcome = edit_ip(
        &mut store,
        "1",
        text("10.9.9.9"),
        text("10.9.9.0/24"),
        text("10.9.9.1"),
        text("renamed"),
        "65536",
    );
    assert_eq!(outcome, Err(OpError::InvalidPort));
    assert_eq!(store, two_devices());
    let outcome = edit_ip(&mut store, "1", text(""), text("bad"), text("bad"), text(""), "ssh");
    assert_eq!(outcome, Err(OpError::InvalidPort));
    assert_eq!(store, two_devices());
}

#[test]
fn edit_revalidates_a_record_that_was_stored_malformed() {
    let mut store = vec![device(1, "not an address", "10.0.0.0", "10.0.0.254", "legacy", 22)];
    let kept = store.clone();
    let outcome = edit_ip(&mut store, "1", text(""), text(""), text(""), text("renamed"), "");
    assert_eq!(outcome, Err(OpError::InvalidFields));
    assert_eq!(store, kept);
    let outcome =
        edit_ip(&mut store, "1", text(""), text("10.0.0.0/8"), text(""), text("renamed"), "");
    assert_eq!(outcome, Ok(()));
    assert_eq!(store[0], device(1, "not an address", "10.0.0.0/8", "10.0.0.254", "renamed", 22));
}

#[test]
fn edit_rejects_unknown_ids() {
    let mut store = two_devices();
    let outcome = edit_ip(
        &mut store,
        "3",
        text("10.9.9.9"),
        text("10.9.9.0/24"),
        text("10.9.9.1"),
        text("renamed"),
        "80",
    );
    assert_eq!(outcome, Err(OpError::OutOfRange));
    let outcome = edit_ip(&mut store, "0", text(""), text(""), text(""), text(""), "");
    assert_eq!(outcome, Err(OpError::OutOfRange));
    let outcome = edit_ip(&mut store, "x", text("bad"), text("bad"), text("bad"), text(""), "bad");
    assert_eq!(outcome, Err(OpError::InvalidId));
    assert_eq!(store, two_devices());
}

#[test]
fn edit_goes_by_position_not_by_stored_id() {
    let mut store = two_devices();
    assert_eq!(delete_ip(&mut store, "1"), Ok(()));
    let outcome = edit_ip(&mut store, "1", text(""), text(""), text(""), text("moved up"), "");
    assert_eq!(outcome, Ok(()));
    assert_eq!(store, vec![device(2, "10.0.0.2", "10.0.0.0/24", "10.0.0.254", "moved up", 9100)]);
    let outcome = edit_ip(&mut store, "2", text(""), text(""), text(""), text("gone"), "");
    assert_eq!(outcome, Err(OpError::OutOfRange));
}

#[test]
fn clone_copies_every_field() {
    let source = device(7, "10.0.0.7", "10.0.0.0/24", "10.0.0.254", "caf\u{e9}", 443);
    let copy = source.clone();
    assert_eq!(copy, source);
    assert_eq!(copy.id, 7);
    assert_eq!(copy.description, "caf\u{e9}");
}

#[test]
fn add_delete_scenario() {
    let mut store: Vec<IpInfo> = Vec::new();
    let outcome = add_ip(
        &mut store,
        text("10.0.0.1"),
        text("10.0.0.0/24"),
        text("10.0.0.254"),
        text("core switch"),
        "22",
    );
    assert_eq!(outcome, Ok(()));
    assert_eq!(store.len(), 1);
    assert_eq!(store[0].id, 1);
    assert_eq!(store[0].ip, "10.0.0.1");
    assert_eq!(store[0].subnet, "10.0.0.0/24");
    assert_eq!(store[0].gateway, "10.0.0.254");
    assert_eq!(store[0].description, "core switch");
    assert_eq!(store[0].port, 22);
    assert_eq!(delete_ip(&mut store, "1"), Ok(()));
    assert_eq!(store.len(), 0);
}
