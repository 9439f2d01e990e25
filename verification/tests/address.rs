use cells_worker::address::peer_name;
use cells_worker::address::peer_url;
use cells_worker::address::PEER_PORT;

#[test]
fn peer_name_follows_the_naming_convention() {
    assert_eq!(peer_name(0, "grid"), "cell-0.cell.grid");
    assert_eq!(peer_name(7, "grid"), "cell-7.cell.grid");
    assert_eq!(peer_name(10, "grid"), "cell-10.cell.grid");
    assert_eq!(peer_name(99, "cellular-automaton"), "cell-99.cell.cellular-automaton");
    assert_eq!(peer_name(12345, "a"), "cell-12345.cell.a");
}

#[test]
fn peer_name_with_empty_namespace() {
    assert_eq!(peer_name(3, ""), "cell-3.cell.");
}

#[test]
fn peer_name_writes_every_digit() {
    assert_eq!(peer_name(1023456789, "n"), "cell-1023456789.cell.n");
    assert_eq!(peer_name(i32::MAX, "n"), "cell-2147483647.cell.n");
    assert_eq!(peer_name(100, "n"), "cell-100.cell.n");
}

#[test]
fn peer_name_of_negative_id_carries_the_sign() {
    assert_eq!(peer_name(-3, "n"), "cell--3.cell.n");
    assert_eq!(peer_name(i32::MIN, "n"), "cell--2147483648.cell.n");
}

#[test]
fn peer_name_agrees_with_std_formatting() {
    for id in [0, 1, 9, 10, 11, 19, 20, 99, 100, 101, 999, 1000, 46339, 2147395599] {
        assert_eq!(peer_name(id, "ns"), format!("cell-{}.cell.{}", id, "ns"));
    }
}

#[test]
fn peer_url_is_the_cluster_address_on_the_peer_port() {
    assert_eq!(
        peer_url(5, "cellular-automaton"),
        "http://cell-5.cell.cellular-automaton.svc.cluster.local:50051"
    );
    assert_eq!(peer_url(0, "x"), "http://cell-0.cell.x.svc.cluster.local:50051");
    assert_eq!(peer_url(42, "x"), "http://cell-42.cell.x.svc.cluster.local:50051");
}

#[test]
fn peer_url_holds_the_peer_name() {
    let url = peer_url(17, "space");
    assert!(url.contains(peer_name(17, "space").as_str()));
}

#[test]
fn peer_port_is_fixed() {
    assert_eq!(PEER_PORT, 50051);
}
