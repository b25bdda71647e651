use vstd::prelude::*;
use crate::error::Error;
use crate::flags::Flags;
use crate::text::{decimal, push_decimal, push_text};
use vstd::string::StringExecFns;
use crate::ice::{le32, zeros, push_u32_le, append_bytes, push_zeros};

verus! {

// ---------------------------------------------------------------------------
// Choosing the address a client is sent to
// ---------------------------------------------------------------------------

/// How an address is reached from the master ship.
#[derive(Clone, Copy, Debug, PartialEq, Eq, Structural)]
pub enum AddrType {
    /// The master ship's own machine.
    Loopback,
    /// A network the master ship has an interface in.
    Local,
    /// Anywhere else.
    Global,
}

/// An IPv4 network interface: its address and netmask.
#[derive(Clone, Copy, Debug)]
pub struct InterfaceAddr {
    pub addr: [u8; 4],
    pub mask: [u8; 4],
}

/// Whether `a` and `b` agree on the bits that `mask` keeps.
pub open spec fn same_network(a: [u8; 4], b: [u8; 4], mask: [u8; 4]) -> bool {
    forall|i: int| 0 <= i < 4 ==> (#[trigger] a[i] & mask[i]) == (b[i] & mask[i])
}

/// The kind of address `a` is: loopback addresses are 127.x.x.x, local ones
/// share the network of one of the interfaces, the rest are global.
pub open spec fn addr_type_spec(a: [u8; 4], interfaces: Seq<InterfaceAddr>) -> AddrType {
    if a[0] == 127 {
        AddrType::Loopback
    } else if exists|k: int| 0 <= k < interfaces.len() && same_network(a, (#[trigger] interfaces[k]).addr, interfaces[k].mask) {
        AddrType::Local
    } else {
        AddrType::Global
    }
}

/// Classifies address `chk_addr` against the machine's IPv4 interfaces.
pub fn get_addr_type(chk_addr: [u8; 4], interfaces: &Vec<InterfaceAddr>) -> (r: AddrType)
    ensures
        r == addr_type_spec(chk_addr, interfaces@),
{
    if chk_addr[0] == 127 {
        return AddrType::Loopback;
    }
    let mut k: usize = 0;
    while k < interfaces.len()
        invariant
            k <= interfaces@.len(),
            chk_addr[0] != 127,
            forall|j: int| 0 <= j < k ==> !same_network(chk_addr, (#[trigger] interfaces@[j]).addr, interfaces@[j].mask),
        decreases interfaces@.len() - k,
    {
        let itf = interfaces[k];
        let mut i: usize = 0;
        let mut equal = true;
        while i < 4
            invariant
                i <= 4,
                equal == forall|j: int| 0 <= j < i ==> (#[trigger] chk_addr[j] & itf.mask[j]) == (itf.addr[j] & itf.mask[j]),
            decreases 4 - i,
        {
            if (chk_addr[i] & itf.mask[i]) != (itf.addr[i] & itf.mask[i]) {
                equal = false;
            }
            i = i + 1;
        }
        if equal {
            proof {
                assert(interfaces@[k as int] == itf);
                assert forall|j: int| 0 <= j < 4 implies (#[trigger] chk_addr[j] & itf.mask[j]) == (itf.addr[j] & itf.mask[j]) by {}
                assert(same_network(chk_addr, itf.addr, itf.mask));
                assert(0 <= k < interfaces@.len() && same_network(chk_addr, (interfaces@[k as int]).addr, interfaces@[k as int].mask));
            }
            return AddrType::Local;
        }
        k = k + 1;
    }
    AddrType::Global
}

/// The address a client at `remote` should use for a ship at `ship`, given
/// the master ship's own address `local` on that connection: a globally
/// reachable ship, or any ship for a client on the same machine, is given as
/// is; a ship on the master ship's machine is given as `local` to a client in
/// the local network; a local ship is given as is to a local client; a global
/// client gets `local`.
pub open spec fn addr_choice(remote_type: AddrType, ship_type: AddrType, local: [u8; 4], ship: [u8; 4]) -> [u8; 4] {
    match (remote_type, ship_type) {
        (_, AddrType::Global) => ship,
        (AddrType::Loopback, _) => ship,
        (AddrType::Local, AddrType::Loopback) => local,
        (AddrType::Local, AddrType::Local) => ship,
        (AddrType::Global, _) => local,
    }
}

/// Chooses the address of ship `ship_ip` that a client at `remote_ip` is sent.
pub fn get_addr(remote_ip: [u8; 4], local_ip: [u8; 4], ship_ip: [u8; 4], interfaces: &Vec<InterfaceAddr>) -> (r: [u8; 4])
    ensures
        r == addr_choice(
            addr_type_spec(remote_ip, interfaces@),
            addr_type_spec(ship_ip, interfaces@),
            local_ip,
            ship_ip,
        ),
{
    let remote_addr_type = get_addr_type(remote_ip, interfaces);
    let ship_addr_type = get_addr_type(ship_ip, interfaces);
    match (remote_addr_type, ship_addr_type) {
        (_, AddrType::Global) => ship_ip,
        (AddrType::Loopback, _) => ship_ip,
        (AddrType::Local, AddrType::Loopback) => local_ip,
        (AddrType::Local, AddrType::Local) => ship_ip,
        (AddrType::Global, _) => local_ip,
    }
}

/// `a` is on the master ship's own machine (127.x.x.x).
pub open spec fn is_loopback(a: [u8; 4]) -> bool {
    a[0] == 127
}

/// `a` lies in the network of one of the interfaces.
pub open spec fn in_local_network(a: [u8; 4], interfaces: Seq<InterfaceAddr>) -> bool {
    exists|k: int| 0 <= k < interfaces.len() && same_network(a, (#[trigger] interfaces[k]).addr, interfaces[k].mask)
}

/// The address a client is sent is always one it can reach:
/// - a ship that is neither on the master's machine nor in one of its
///   networks is given as is, to everyone;
/// - a client on the master's machine gets the ship's own address;
/// - a client from elsewhere (not on the master's machine, in none of its
///   networks) gets the address it reached the master at whenever the ship is
///   on the master's machine or in one of its networks, so never a loopback
///   address;
/// - a client in one of the networks gets the master's address for a ship on
///   the master's machine, and the ship's address for a ship in a network.
pub proof fn law_addr_reachable(remote: [u8; 4], local: [u8; 4], ship: [u8; 4], interfaces: Seq<InterfaceAddr>)
    ensures
        ({
            let r = addr_choice(addr_type_spec(remote, interfaces), addr_type_spec(ship, interfaces), local, ship);
            &&& !is_loopback(ship) && !in_local_network(ship, interfaces) ==> r == ship
            &&& is_loopback(remote) ==> r == ship
            &&& !is_loopback(remote) && !in_local_network(remote, interfaces) && (is_loopback(ship)
                || in_local_network(ship, interfaces)) ==> r == local
            &&& !is_loopback(remote) && in_local_network(remote, interfaces) && is_loopback(ship) ==> r == local
            &&& !is_loopback(remote) && in_local_network(remote, interfaces) && !is_loopback(ship)
                && in_local_network(ship, interfaces) ==> r == ship
        }),
{
}

// ---------------------------------------------------------------------------
// Ship keys and block balance
// ---------------------------------------------------------------------------

/// `e` cut or zero-padded to four bytes.
pub open spec fn exponent_field(e: Seq<u8>) -> Seq<u8> {
    if e.len() >= 4 {
        e.take(4)
    } else {
        e + zeros((4 - e.len()) as nat)
    }
}

/// The public key blob of a ship: a fixed blob header, "RSA1", the modulus
/// length in bits, the exponent in four bytes and the modulus.
pub open spec fn key_blob(n: Seq<u8>, e: Seq<u8>) -> Seq<u8> {
    seq![0x06u8, 0x02u8, 0u8, 0u8, 0u8, 0xA4u8, 0u8, 0u8] + seq![0x52u8, 0x53u8, 0x41u8, 0x31u8] + le32(
        (n.len() * 8) as u32,
    ) + exponent_field(e) + n
}

/// Builds the key blob of a ship from its modulus `n` and exponent `e`, both
/// little endian.
pub fn make_key_blob(n: &Vec<u8>, e: &Vec<u8>) -> (r: Vec<u8>)
    requires
        n@.len() * 8 <= u32::MAX,
    ensures
        r@ == key_blob(n@, e@),
{
    let mut key: Vec<u8> = Vec::new();
    key.push(0x06);
    key.push(0x02);
    key.push(0x00);
    key.push(0x00);
    key.push(0x00);
    key.push(0xA4);
    key.push(0x00);
    key.push(0x00);
    key.push(0x52);
    key.push(0x53);
    key.push(0x41);
    key.push(0x31);
    push_u32_le(&mut key, n.len() as u32 * 8);
    let ghost before_e = key@;
    if e.len() >= 4 {
        key.push(e[0]);
        key.push(e[1]);
        key.push(e[2]);
        key.push(e[3]);
        proof {
            assert(key@ =~= before_e + e@.take(4));
        }
    } else {
        append_bytes(&mut key, e.as_slice());
        push_zeros(&mut key, 4 - e.len());
    }
    append_bytes(&mut key, n.as_slice());
    proof {
        assert(key@ =~= key_blob(n@, e@));
    }
    key
}

/// `data` preceded by its length as a 32-bit little-endian word.
pub open spec fn length_prefixed(data: Seq<u8>) -> Seq<u8> {
    le32(data.len() as u32) + data
}

/// Prefixes `data` with its length.
pub fn frame_with_length(data: &Vec<u8>) -> (r: Vec<u8>)
    requires
        data@.len() <= u32::MAX,
    ensures
        r@ == length_prefixed(data@),
{
    let mut out: Vec<u8> = Vec::new();
    push_u32_le(&mut out, data.len() as u32);
    append_bytes(&mut out, data.as_slice());
    out
}

/// The ship a block-balance port belongs to: ports ending a hundred with 93
/// (Vita clients) count from 12093, the others from 12000, one ship per 100.
pub open spec fn balance_ship_id(port: u16) -> u32 {
    if port % 3 == 0 {
        ((port - 12093) / 100) as u32
    } else {
        ((port - 12000) / 100) as u32
    }
}

/// The ship id served by the block-balance listener on `port`.
pub fn ship_id_for_port(port: u16) -> (r: u32)
    requires
        port % 3 == 0 ==> port >= 12093,
        port % 3 != 0 ==> port >= 12000,
    ensures
        r == balance_ship_id(port),
{
    let id = if port % 3 == 0 {
        (port - 12093) / 100
    } else {
        (port - 12000) / 100
    };
    id as u32
}

/// The ship behind a Vita balance listener is the one it was opened for:
/// listener `i` (0 to 9) opens port 12193 + 100 i, which maps back to ship
/// `i + 1`.
pub proof fn law_vita_balance_ports(i: u16)
    requires
        i < 10,
    ensures
        balance_ship_id((12193 + i * 100) as u16) == i + 1,
{
    if i == 0 {} else if i == 1 {} else if i == 2 {} else if i == 3 {} else if i == 4 {}
    else if i == 5 {} else if i == 6 {} else if i == 7 {} else if i == 8 {} else {}
}

/// The ship behind a PC balance listener is the one it was opened for:
/// listener `i` opens port 12100 + 100 i, which maps back to ship `i + 1`
/// (except when that port is a multiple of 3, which happens for i = 2, 5, 8).
pub proof fn law_pc_balance_ports(i: u16)
    requires
        i < 10,
        i % 3 != 2,
    ensures
        balance_ship_id((12100 + i * 100) as u16) == i + 1,
{
    if i == 0 {} else if i == 1 {} else if i == 3 {} else if i == 4 {}
    else if i == 6 {} else if i == 7 {} else {}
}

// ---------------------------------------------------------------------------
// Ship registry
// ---------------------------------------------------------------------------

/// The public key of a ship.
#[derive(Clone, Debug)]
pub struct KeyInfo {
    /// Modulus `n`, little endian.
    pub n: Vec<u8>,
    /// Public exponent `e`, little endian.
    pub e: Vec<u8>,
}

/// How a ship wants server data sent.
#[derive(Clone, Copy, Debug, PartialEq, Eq, Structural)]
pub enum DataTypeDef {
    Parsed,
    Binary,
}

/// What the master ship keeps of a registered ship.
#[derive(Clone, Debug)]
pub struct ShipEntry {
    pub id: u32,
    pub ip: [u8; 4],
    pub port: u16,
    pub max_players: u32,
    pub name: String,
    pub key: KeyInfo,
}

/// The answer to a ship registration.
#[derive(Clone, Copy, Debug, PartialEq, Eq, Structural)]
pub enum RegisterShipResult {
    Success,
    AlreadyTaken,
}

/// The ids of the registered ships.
pub open spec fn ship_ids(ships: Seq<ShipEntry>) -> Seq<u32> {
    ships.map_values(|s: ShipEntry| s.id)
}

/// Registers a ship: an id that is already registered is refused, otherwise
/// the ship is added at the end.
pub fn register_ship(ships: &mut Vec<ShipEntry>, ship: ShipEntry) -> (r: RegisterShipResult)
    ensures
        ship_ids(old(ships)@).contains(ship.id) ==> r == RegisterShipResult::AlreadyTaken
            && final(ships)@ == old(ships)@,
        !ship_ids(old(ships)@).contains(ship.id) ==> r == RegisterShipResult::Success
            && final(ships)@ == old(ships)@.push(ship),
{
    let mut i: usize = 0;
    while i < ships.len()
        invariant
            i <= ships@.len(),
            ships@ == old(ships)@,
            forall|j: int| 0 <= j < i ==> (#[trigger] ships@[j]).id != ship.id,
        decreases ships@.len() - i,
    {
        if ships[i].id == ship.id {
            proof {
                assert(ship_ids(ships@)[i as int] == ship.id);
            }
            return RegisterShipResult::AlreadyTaken;
        }
        i = i + 1;
    }
    proof {
        assert forall|j: int| 0 <= j < ship_ids(ships@).len() implies ship_ids(ships@)[j] != ship.id by {
            assert(ships@[j].id != ship.id);
        }
    }
    ships.push(ship);
    RegisterShipResult::Success
}

/// Unregisters ship `id`: its first entry goes, the last entry taking its
/// place; an unknown id changes nothing.
pub fn unregister_ship(ships: &mut Vec<ShipEntry>, id: u32)
    ensures
        !ship_ids(old(ships)@).contains(id) ==> final(ships)@ == old(ships)@,
        ship_ids(old(ships)@).contains(id) ==> exists|p: int|
            0 <= p < old(ships)@.len() && old(ships)@[p].id == id && (forall|j: int|
                0 <= j < p ==> (#[trigger] old(ships)@[j]).id != id) && final(ships)@ == old(ships)@.update(
                p,
                old(ships)@.last(),
            ).drop_last(),
{
    let mut i: usize = 0;
    while i < ships.len()
        invariant
            i <= ships@.len(),
            ships@ == old(ships)@,
            forall|j: int| 0 <= j < i ==> (#[trigger] ships@[j]).id != id,
        decreases ships@.len() - i,
    {
        if ships[i].id == id {
            proof {
                assert(ship_ids(old(ships)@)[i as int] == id);
            }
            ships.swap_remove(i);
            return;
        }
        i = i + 1;
    }
    proof {
        assert forall|j: int| 0 <= j < ship_ids(ships@).len() implies ship_ids(ships@)[j] != id by {
            assert(ships@[j].id != id);
        }
    }
}

/// The ship registered under `id`, if any (its first entry).
pub fn find_ship(ships: &Vec<ShipEntry>, id: u32) -> (r: Option<usize>)
    ensures
        r matches Some(p) ==> p < ships@.len() && ships@[p as int].id == id && forall|j: int|
            0 <= j < p ==> (#[trigger] ships@[j]).id != id,
        r is None ==> !ship_ids(ships@).contains(id),
{
    let mut i: usize = 0;
    while i < ships.len()
        invariant
            i <= ships@.len(),
            forall|j: int| 0 <= j < i ==> (#[trigger] ships@[j]).id != id,
        decreases ships@.len() - i,
    {
        if ships[i].id == id {
            return Some(i);
        }
        i = i + 1;
    }
    proof {
        assert forall|j: int| 0 <= j < ship_ids(ships@).len() implies ship_ids(ships@)[j] != id by {
            assert(ships@[j].id != id);
        }
    }
    None
}

/// Registering a ship and then unregistering its id gives back the registry,
/// when the id was not taken.
pub proof fn law_register_unregister(ships: Seq<ShipEntry>, ship: ShipEntry)
    requires
        !ship_ids(ships).contains(ship.id),
    ensures
        ships.push(ship).update(ships.len() as int, ships.push(ship).last()).drop_last() == ships,
        forall|j: int| 0 <= j < ships.len() ==> (#[trigger] ships.push(ship)[j]).id != ship.id,
{
    assert(ships.push(ship).update(ships.len() as int, ships.push(ship).last()).drop_last() =~= ships);
    assert forall|j: int| 0 <= j < ships.len() implies (#[trigger] ships.push(ship)[j]).id != ship.id by {
        assert(ship_ids(ships)[j] == ships[j].id);
    }
}

// ---------------------------------------------------------------------------
// Requests from ships
// ---------------------------------------------------------------------------

/// What the master ship does with a request from a ship connection.
#[derive(Clone, Copy, Debug, PartialEq, Eq, Structural)]
pub enum RequestGate {
    /// Check the ship's key (only before it is authenticated).
    Authenticate,
    /// Answer the request.
    Handle,
    /// Refuse: the ship is not authenticated.
    Unauthenticated,
    /// Refuse: an authenticated ship logs in again.
    InvalidAction,
}

/// A login request from a ship that is not yet authenticated is checked; a
/// ping is always answered; anything else from an unauthenticated ship is
/// refused; a second login of an authenticated ship is an invalid action; an
/// authenticated ship's other requests are answered.
pub open spec fn gate_spec(authed: bool, is_ship_login: bool, is_ping: bool) -> RequestGate {
    if is_ship_login && !authed {
        RequestGate::Authenticate
    } else if is_ping {
        RequestGate::Handle
    } else if !authed {
        RequestGate::Unauthenticated
    } else if is_ship_login {
        RequestGate::InvalidAction
    } else {
        RequestGate::Handle
    }
}

/// The error text a refused request is answered with.
pub open spec fn gate_error_spec(gate: RequestGate) -> Option<Seq<char>> {
    match gate {
        RequestGate::Unauthenticated => Some("Unauthenticated"@),
        RequestGate::InvalidAction => Some("Invalid action"@),
        _ => None,
    }
}

/// The error text a refused request is answered with (see [`gate_error_spec`]).
pub fn gate_error(gate: RequestGate) -> (r: Option<&'static str>)
    ensures
        match gate_error_spec(gate) {
            Some(t) => r matches Some(s) && s@ == t,
            None => r is None,
        },
{
    match gate {
        RequestGate::Unauthenticated => {
            let t = "Unauthenticated";
            proof {
                reveal_strlit("Unauthenticated");
            }
            Some(t)
        },
        RequestGate::InvalidAction => {
            let t = "Invalid action";
            proof {
                reveal_strlit("Invalid action");
            }
            Some(t)
        },
        _ => None,
    }
}

/// Decides how a request from a ship connection is treated.
pub fn request_gate(authed: bool, is_ship_login: bool, is_ping: bool) -> (r: RequestGate)
    ensures
        r == gate_spec(authed, is_ship_login, is_ping),
{
    if is_ship_login && !authed {
        RequestGate::Authenticate
    } else if is_ping {
        RequestGate::Handle
    } else if !authed {
        RequestGate::Unauthenticated
    } else if is_ship_login {
        RequestGate::InvalidAction
    } else {
        RequestGate::Handle
    }
}

/// The start of the master ship's reply to a request: the request's id,
/// echoed so the ship can match the reply, and the error a refused request
/// is answered with.
#[derive(Clone, Copy, Debug, PartialEq, Eq)]
pub struct ReplyHead {
    pub id: u32,
    pub error: Option<&'static str>,
}

/// The head of the reply to request `request_id` after it was gated:
/// the same id, and the refusal text when it was refused.
pub fn reply_head(request_id: u32, gate: RequestGate) -> (r: ReplyHead)
    ensures
        r.id == request_id,
        match gate_error_spec(gate) {
            Some(t) => r.error matches Some(s) && s@ == t,
            None => r.error is None,
        },
{
    ReplyHead { id: request_id, error: gate_error(gate) }
}

/// An unauthenticated ship gets nothing but pings and its login answered; an
/// authenticated one gets everything answered but a second login.
pub proof fn law_unauthenticated_refused(is_ship_login: bool, is_ping: bool)
    ensures
        !is_ship_login && !is_ping ==> gate_spec(false, is_ship_login, is_ping) == RequestGate::Unauthenticated,
        !is_ship_login ==> gate_spec(true, is_ship_login, is_ping) == RequestGate::Handle,
        is_ship_login && !is_ping ==> gate_spec(true, is_ship_login, is_ping) == RequestGate::InvalidAction,
{
}

// ---------------------------------------------------------------------------
// The link to a ship
// ---------------------------------------------------------------------------

/// How many pings the master ship sends to a silent ship before dropping it,
/// less one: the link is dropped when a timeout finds more than this many.
pub const MAX_SHIP_PINGS: u8 = 5;

/// The answer to a ship's login.
#[derive(Clone, Copy, Debug, PartialEq, Eq, Structural)]
pub enum ShipLoginResult {
    Accepted,
    UnknownShip,
}

/// What a ship login does: the answer, and whether the ship's key is stored
/// as a new known ship.
#[derive(Clone, Copy, Debug, PartialEq, Eq, Structural)]
pub struct ShipLoginDecision {
    pub result: ShipLoginResult,
    pub store_key: bool,
}

/// The state of the master ship's link to one ship: whether the ship proved
/// its key, and how many pings went unanswered.
#[derive(Clone, Copy, Debug, PartialEq, Eq, Structural)]
pub struct ShipLink {
    pub authed: bool,
    pub pings: u8,
}

impl ShipLink {
    /// A new link: not authenticated, no pings sent.
    pub fn new() -> (r: Self)
        ensures
            r == (ShipLink { authed: false, pings: 0 }),
    {
        ShipLink { authed: false, pings: 0 }
    }

    /// A request arrived: the unanswered pings are forgotten, and the request
    /// is gated (see [`gate_spec`]).
    pub fn on_request(&mut self, is_ship_login: bool, is_ping: bool) -> (r: RequestGate)
        ensures
            *final(self) == (ShipLink { pings: 0, ..*old(self) }),
            r == gate_spec(old(self).authed, is_ship_login, is_ping),
    {
        self.pings = 0;
        request_gate(self.authed, is_ship_login, is_ping)
    }

    /// The ship was silent for the read timeout: with more than five
    /// unanswered pings the link is dropped (`true`); otherwise another ping
    /// is sent and counted.
    pub fn on_timeout(&mut self) -> (drop: bool)
        ensures
            old(self).pings > MAX_SHIP_PINGS ==> drop && *final(self) == *old(self),
            old(self).pings <= MAX_SHIP_PINGS ==> !drop && *final(self) == (ShipLink {
                pings: (old(self).pings + 1) as u8,
                ..*old(self)
            }),
    {
        if self.pings > MAX_SHIP_PINGS {
            return true;
        }
        self.pings = self.pings + 1;
        false
    }

    /// A ship that is not yet authenticated logs in: a known key, or any key
    /// when registration is enabled (the key is then stored), authenticates
    /// it; otherwise it is an unknown ship.
    pub fn ship_login(&mut self, known: bool, registration_enabled: bool) -> (r: ShipLoginDecision)
        ensures
            known ==> r == (ShipLoginDecision { result: ShipLoginResult::Accepted, store_key: false })
                && final(self).authed,
            !known && registration_enabled ==> r == (ShipLoginDecision {
                result: ShipLoginResult::Accepted,
                store_key: true,
            }) && final(self).authed,
            !known && !registration_enabled ==> r == (ShipLoginDecision {
                result: ShipLoginResult::UnknownShip,
                store_key: false,
            }) && final(self).authed == old(self).authed,
            final(self).pings == old(self).pings,
    {
        if known {
            self.authed = true;
            ShipLoginDecision { result: ShipLoginResult::Accepted, store_key: false }
        } else if registration_enabled {
            self.authed = true;
            ShipLoginDecision { result: ShipLoginResult::Accepted, store_key: true }
        } else {
            ShipLoginDecision { result: ShipLoginResult::UnknownShip, store_key: false }
        }
    }
}

/// A silent ship is pinged at most six times before its link is dropped:
/// after a timeout the count is at most six, and a timeout that finds six or
/// more drops the link.
pub proof fn law_ship_pings_bounded(link: ShipLink)
    requires
        link.pings <= MAX_SHIP_PINGS + 1,
    ensures
        link.pings <= MAX_SHIP_PINGS ==> link.pings + 1 <= MAX_SHIP_PINGS + 1,
        link.pings > MAX_SHIP_PINGS ==> link.pings == MAX_SHIP_PINGS + 1,
{
}

// ---------------------------------------------------------------------------
// User logins
// ---------------------------------------------------------------------------

/// What the master ship tells a ship about a user login.
pub enum UserLoginResult {
    Success { id: u32, nickname: String, accountflags: Flags, isgm: bool },
    InvalidPassword(u32),
    NotFound,
}

/// A user account as the database gives it.
pub struct UserRecord {
    pub id: u32,
    pub nickname: String,
    pub account_flags: Flags,
    pub isgm: bool,
}

/// What the database answered to a login or registration.
pub enum AccountLookup {
    Found(UserRecord),
    NoUser,
    InvalidPassword(u32),
    /// Any other failure, with its message.
    Failed(String),
}

/// The master ship's reply to a login or registration request.
pub enum LoginReply {
    Login(UserLoginResult),
    Error(String),
}

/// Answers a login request from what the database said: an account is a
/// success, a missing user is "not found", a wrong password names the user,
/// and other failures are passed on as errors.
pub fn login_reply(lookup: AccountLookup) -> (r: LoginReply)
    ensures
        match lookup {
            AccountLookup::Found(u) => r matches LoginReply::Login(UserLoginResult::Success {
                id,
                nickname,
                accountflags,
                isgm,
            }) && id == u.id && nickname@ == u.nickname@ && accountflags@ == u.account_flags@ && isgm
                == u.isgm,
            AccountLookup::NoUser => r matches LoginReply::Login(UserLoginResult::NotFound),
            AccountLookup::InvalidPassword(id) => r matches LoginReply::Login(
                UserLoginResult::InvalidPassword(i),
            ) && i == id,
            AccountLookup::Failed(m) => r matches LoginReply::Error(e) && e@ == m@,
        },
{
    match lookup {
        AccountLookup::Found(u) => LoginReply::Login(
            UserLoginResult::Success {
                id: u.id,
                nickname: u.nickname,
                accountflags: u.account_flags,
                isgm: u.isgm,
            },
        ),
        AccountLookup::NoUser => LoginReply::Login(UserLoginResult::NotFound),
        AccountLookup::InvalidPassword(id) => LoginReply::Login(UserLoginResult::InvalidPassword(id)),
        AccountLookup::Failed(m) => LoginReply::Error(m),
    }
}

/// Answers a registration request: the new account, or the database's
/// error message.
pub fn register_reply(created: Result<UserRecord, String>) -> (r: LoginReply)
    ensures
        match created {
            Ok(u) => r matches LoginReply::Login(UserLoginResult::Success {
                id,
                nickname,
                accountflags,
                isgm,
            }) && id == u.id && nickname@ == u.nickname@ && accountflags@ == u.account_flags@ && isgm
                == u.isgm,
            Err(m) => r matches LoginReply::Error(e) && e@ == m@,
        },
{
    match created {
        Ok(u) => LoginReply::Login(
            UserLoginResult::Success {
                id: u.id,
                nickname: u.nickname,
                accountflags: u.account_flags,
                isgm: u.isgm,
            },
        ),
        Err(m) => LoginReply::Error(m),
    }
}

// ---------------------------------------------------------------------------
// Ship list
// ---------------------------------------------------------------------------

/// `n` in decimal, with a leading zero below 10.
pub open spec fn two_digits(n: nat) -> Seq<char> {
    if n < 10 {
        seq!['0'] + decimal(n)
    } else {
        decimal(n)
    }
}

/// How a registered ship appears in the ship list.
pub struct ShipListEntry {
    pub id: u32,
    pub name: String,
    pub order: u16,
}

/// The ship list entry of ship `id`: its id times 1000, the name `ShipNN`
/// (at least two digits) and its id (cut to 16 bits) as the order.
pub fn ship_list_entry(id: u32) -> (r: ShipListEntry)
    requires
        id * 1000 <= u32::MAX,
    ensures
        r.id == id * 1000,
        r.name@ == "Ship"@ + two_digits(id as nat),
        r.order == id as u16,
{
    let mut name = String::from_str("Ship");
    if id < 10 {
        push_text(&mut name, "0");
    }
    push_decimal(&mut name, id as u64);
    proof {
        reveal_strlit("0");
        assert(name@ =~= "Ship"@ + two_digits(id as nat));
    }
    ShipListEntry { id: id * 1000, name, order: id as u16 }
}

} // verus!
