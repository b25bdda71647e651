use pso2server::master::{
    find_ship, frame_with_length, get_addr, get_addr_type, make_key_blob, register_ship,
    gate_error, reply_head, request_gate, ship_id_for_port, unregister_ship, AddrType, InterfaceAddr, KeyInfo,
    RegisterShipResult, RequestGate, ShipEntry,
};

fn lan() -> Vec<InterfaceAddr> {
    vec![
        InterfaceAddr { addr: [192, 168, 1, 10], mask: [255, 255, 255, 0] },
        InterfaceAddr { addr: [10, 0, 0, 1], mask: [255, 0, 0, 0] },
    ]
}

fn ship(id: u32) -> ShipEntry {
    ShipEntry {
        id,
        ip: [1, 2, 3, 4],
        port: 12000,
        max_players: 32,
        name: format!("Ship {id}"),
        key: KeyInfo { n: vec![], e: vec![] },
    }
}

#[test]
fn address_types() {
    let itf = lan();
    assert_eq!(get_addr_type([127, 0, 0, 1], &itf), AddrType::Loopback);
    assert_eq!(get_addr_type([192, 168, 1, 77], &itf), AddrType::Local);
    assert_eq!(get_addr_type([10, 200, 3, 4], &itf), AddrType::Local);
    assert_eq!(get_addr_type([192, 168, 2, 77], &itf), AddrType::Global);
    assert_eq!(get_addr_type([8, 8, 8, 8], &vec![]), AddrType::Global);
}

#[test]
fn address_choice() {
    let itf = lan();
    let local = [192, 168, 1, 10];
    // global ship: always as is
    assert_eq!(get_addr([8, 8, 8, 8], local, [1, 1, 1, 1], &itf), [1, 1, 1, 1]);
    // client on the same machine: ship as is
    assert_eq!(get_addr([127, 0, 0, 1], local, [127, 0, 0, 1], &itf), [127, 0, 0, 1]);
    // local client, ship on the master's machine: the master's address
    assert_eq!(get_addr([192, 168, 1, 50], local, [127, 0, 0, 1], &itf), local);
    // local client, local ship: as is
    assert_eq!(get_addr([192, 168, 1, 50], local, [10, 0, 0, 9], &itf), [10, 0, 0, 9]);
    // global client, non-global ship: the master's address
    assert_eq!(get_addr([8, 8, 8, 8], local, [10, 0, 0, 9], &itf), local);
}

#[test]
fn key_blob_layout() {
    let n = vec![1u8, 2, 3, 4, 5, 6, 7, 8];
    let e = vec![1u8, 0, 1];
    let blob = make_key_blob(&n, &e);
    assert_eq!(&blob[0..8], &[0x06, 0x02, 0, 0, 0, 0xA4, 0, 0]);
    assert_eq!(&blob[8..12], b"RSA1");
    assert_eq!(&blob[12..16], &64u32.to_le_bytes());
    assert_eq!(&blob[16..20], &[1, 0, 1, 0]);
    assert_eq!(&blob[20..], &n[..]);
    let long_e = vec![9u8, 8, 7, 6, 5];
    let blob = make_key_blob(&n, &long_e);
    assert_eq!(&blob[16..20], &[9, 8, 7, 6]);
    assert_eq!(blob.len(), 28);
}

#[test]
fn length_prefix() {
    assert_eq!(frame_with_length(&vec![7, 8]), vec![2, 0, 0, 0, 7, 8]);
    assert_eq!(frame_with_length(&vec![]), vec![0, 0, 0, 0]);
}

#[test]
fn balance_ports_map_to_ships() {
    assert_eq!(ship_id_for_port(12100), 1);
    assert_eq!(ship_id_for_port(12193), 1);
    assert_eq!(ship_id_for_port(12293), 2);
    assert_eq!(ship_id_for_port(12400), 4);
    assert_eq!(ship_id_for_port(13093), 10);
}

#[test]
fn ship_registry() {
    let mut ships = Vec::new();
    assert_eq!(register_ship(&mut ships, ship(1)), RegisterShipResult::Success);
    assert_eq!(register_ship(&mut ships, ship(2)), RegisterShipResult::Success);
    assert_eq!(register_ship(&mut ships, ship(1)), RegisterShipResult::AlreadyTaken);
    assert_eq!(ships.len(), 2);
    assert_eq!(find_ship(&ships, 2), Some(1));
    assert_eq!(find_ship(&ships, 3), None);
    register_ship(&mut ships, ship(3));
    unregister_ship(&mut ships, 1);
    let ids: Vec<u32> = ships.iter().map(|s| s.id).collect();
    assert_eq!(ids, vec![3, 2]);
    unregister_ship(&mut ships, 9);
    assert_eq!(ships.len(), 2);
}

#[test]
fn register_then_unregister_restores_registry() {
    let mut ships = vec![ship(5), ship(6)];
    register_ship(&mut ships, ship(7));
    unregister_ship(&mut ships, 7);
    let ids: Vec<u32> = ships.iter().map(|s| s.id).collect();
    assert_eq!(ids, vec![5, 6]);
}

#[test]
fn request_gating() {
    assert_eq!(request_gate(false, true, false), RequestGate::Authenticate);
    assert_eq!(request_gate(false, false, true), RequestGate::Handle);
    assert_eq!(request_gate(false, false, false), RequestGate::Unauthenticated);
    assert_eq!(request_gate(true, false, false), RequestGate::Handle);
    assert_eq!(request_gate(true, true, false), RequestGate::InvalidAction);
    assert_eq!(gate_error(RequestGate::InvalidAction), Some("Invalid action"));
    assert_eq!(gate_error(RequestGate::Unauthenticated), Some("Unauthenticated"));
    assert_eq!(gate_error(RequestGate::Handle), None);
}

use pso2server::flags::Flags;
use pso2server::master::{
    login_reply, register_reply, AccountLookup, LoginReply, ShipLink, ShipLoginDecision,
    ShipLoginResult, UserLoginResult, UserRecord,
};

#[test]
fn ship_link_pings_then_drops() {
    let mut link = ShipLink::new();
    let mut pings = 0;
    while !link.on_timeout() {
        pings += 1;
        assert!(pings <= 6);
    }
    assert_eq!(pings, 6);
    assert_eq!(link.pings, 6);
    assert_eq!(link.on_request(false, true), RequestGate::Handle);
    assert_eq!(link.pings, 0);
}

#[test]
fn ship_login_decisions() {
    let mut link = ShipLink::new();
    assert_eq!(
        link.ship_login(false, false),
        ShipLoginDecision { result: ShipLoginResult::UnknownShip, store_key: false }
    );
    assert!(!link.authed);
    assert_eq!(link.on_request(false, false), RequestGate::Unauthenticated);
    assert_eq!(
        link.ship_login(false, true),
        ShipLoginDecision { result: ShipLoginResult::Accepted, store_key: true }
    );
    assert!(link.authed);
    let mut known = ShipLink::new();
    assert_eq!(
        known.ship_login(true, false),
        ShipLoginDecision { result: ShipLoginResult::Accepted, store_key: false }
    );
    assert_eq!(known.on_request(false, false), RequestGate::Handle);
}

fn record() -> UserRecord {
    let mut flags = Flags::new();
    flags.set(3, 1);
    UserRecord { id: 42, nickname: "Nick".to_string(), account_flags: flags, isgm: true }
}

#[test]
fn login_replies() {
    match login_reply(AccountLookup::Found(record())) {
        LoginReply::Login(UserLoginResult::Success { id, nickname, accountflags, isgm }) => {
            assert_eq!((id, nickname.as_str(), isgm), (42, "Nick", true));
            assert_eq!(accountflags.get(3), 1);
        }
        _ => panic!("expected a success"),
    }
    assert!(matches!(login_reply(AccountLookup::NoUser), LoginReply::Login(UserLoginResult::NotFound)));
    assert!(matches!(
        login_reply(AccountLookup::InvalidPassword(7)),
        LoginReply::Login(UserLoginResult::InvalidPassword(7))
    ));
    match login_reply(AccountLookup::Failed("db down".to_string())) {
        LoginReply::Error(e) => assert_eq!(e, "db down"),
        _ => panic!("expected an error"),
    }
    assert!(matches!(register_reply(Ok(record())), LoginReply::Login(UserLoginResult::Success { id: 42, .. })));
    assert!(matches!(register_reply(Err("taken".to_string())), LoginReply::Error(ref e) if e == "taken"));
}

#[test]
fn replies_echo_the_request_id() {
    let h = reply_head(41, RequestGate::Unauthenticated);
    assert_eq!((h.id, h.error), (41, Some("Unauthenticated")));
    let h = reply_head(7, RequestGate::Handle);
    assert_eq!((h.id, h.error), (7, None));
}
