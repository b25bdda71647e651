use vstd::prelude::*;
use crate::error::Error;
use crate::ice::{le32, push_u32_le, append_bytes};
use aes_gcm::aead::{Aead, KeyInit};

verus! {

/// The value of four bytes read as a little-endian word.
pub open spec fn le_value(b: Seq<u8>) -> int {
    b[0] + 256 * b[1] + 65536 * b[2] + 16777216 * b[3]
}

/// A message frame: its total length (four bytes of length included) as a
/// little-endian word, then the body.
pub open spec fn frame(body: Seq<u8>) -> Seq<u8> {
    le32((4 + body.len()) as u32) + body
}

/// The state of the frame reader: the bytes received and not yet consumed,
/// and the body length of the frame being read (0 before its length is read).
pub struct ReaderView {
    pub raw: Seq<u8>,
    pub length: u32,
}

/// Whether reading the next length field is safe: a length field is read only
/// when more than four bytes are waiting, and it must count at least its own
/// four bytes.
pub open spec fn length_ok(v: ReaderView) -> bool {
    v.length == 0 && v.raw.len() > 4 ==> le_value(v.raw.take(4)) >= 4
}

/// One attempt to take a frame from the received bytes: when no length is
/// known and more than four bytes wait, the length field is consumed; then,
/// when a whole body is there, it is taken. The new state and the body taken.
pub open spec fn extract_spec(v: ReaderView) -> (ReaderView, Option<Seq<u8>>) {
    let v1 = if v.length == 0 && v.raw.len() > 4 {
        ReaderView { raw: v.raw.skip(4), length: (le_value(v.raw.take(4)) - 4) as u32 }
    } else {
        v
    };
    if v1.raw.len() >= v1.length && v1.length != 0 {
        (ReaderView { raw: v1.raw.skip(v1.length as int), length: 0 }, Some(v1.raw.take(v1.length as int)))
    } else {
        (v1, None)
    }
}

/// Splits the frames of the master-ship connection out of the received bytes.
pub struct FrameReader {
    raw: Vec<u8>,
    length: u32,
}

impl View for FrameReader {
    type V = ReaderView;

    closed spec fn view(&self) -> ReaderView {
        ReaderView { raw: self.raw@, length: self.length }
    }
}

impl FrameReader {
    /// A reader with nothing received.
    pub fn new() -> (r: Self)
        ensures
            r@.raw.len() == 0,
            r@.length == 0,
    {
        FrameReader { raw: Vec::new(), length: 0 }
    }

    /// Adds received bytes.
    pub fn push_bytes(&mut self, data: &[u8])
        ensures
            final(self)@ == (ReaderView { raw: old(self)@.raw + data@, length: old(self)@.length }),
    {
        append_bytes(&mut self.raw, data);
    }

    /// Whether the waiting length field (if one is read next) is valid.
    pub fn length_ok(&self) -> (r: bool)
        ensures
            r == length_ok(self@),
    {
        if self.length == 0 && self.raw.len() > 4 {
            let value: u64 = self.raw[0] as u64 + 256 * (self.raw[1] as u64) + 65536 * (self.raw[2] as u64)
                + 16777216 * (self.raw[3] as u64);
            value >= 4
        } else {
            true
        }
    }

    /// Whether bytes are waiting.
    pub fn has_data(&self) -> (r: bool)
        ensures
            r == (self@.raw.len() > 0),
    {
        self.raw.len() > 0
    }

    /// Takes the next complete frame body, if there is one (see [`extract_spec`]).
    pub fn extract_data(&mut self) -> (r: Option<Vec<u8>>)
        requires
            length_ok(old(self)@),
        ensures
            final(self)@ == extract_spec(old(self)@).0,
            match extract_spec(old(self)@).1 {
                Some(b) => r matches Some(v) && v@ == b,
                None => r is None,
            },
    {
        if self.length == 0 && self.raw.len() > 4 {
            let value: u32 = self.raw[0] as u32 + 256 * (self.raw[1] as u32) + 65536 * (self.raw[2] as u32)
                + 16777216 * (self.raw[3] as u32);
            proof {
                assert(le_value(self.raw@.take(4)) == value);
            }
            let rest = self.raw.split_off(4);
            self.raw = rest;
            self.length = value - 4;
        }
        if self.raw.len() >= self.length as usize && self.length != 0 {
            let len = self.length as usize;
            let mut body = self.raw.split_off(len);
            std::mem::swap(&mut body, &mut self.raw);
            self.length = 0;
            Some(body)
        } else {
            None
        }
    }
}

/// What AES-256-GCM (the `aes-gcm` crate) makes of `plain` under `key` and
/// `nonce`, with no associated data.
pub uninterp spec fn aes_gcm_seal(key: Seq<u8>, nonce: Seq<u8>, plain: Seq<u8>) -> Option<Seq<u8>>;

/// What AES-256-GCM opening of `cipher` under `key` and `nonce` gives, with
/// no associated data; `None` when the tag does not match.
pub uninterp spec fn aes_gcm_open(key: Seq<u8>, nonce: Seq<u8>, cipher: Seq<u8>) -> Option<Seq<u8>>;

/// The longest plaintext that AES-GCM seals: 2^36 bytes.
pub open spec fn aes_gcm_max_plain() -> nat {
    0x10_0000_0000
}

/// Encrypts with `aes_gcm::Aes256Gcm::encrypt` (the `aead` crate's `encrypt`
/// over `encrypt_in_place_detached`). As their source shows: it fails exactly
/// when the plaintext is longer than 2^36 bytes; otherwise the ciphertext is as
/// long as the plaintext, followed by the 16-byte tag, and opening it with the
/// same key and nonce (`decrypt`, which recomputes the tag over the same
/// ciphertext and applies the same key stream) gives the plaintext back. The
/// crate's error value says no more than that sealing failed; it comes back as
/// `None`.
#[verifier::external_body]
fn aes_encrypt(key: &[u8; 32], nonce: &[u8; 12], data: &[u8]) -> (r: Option<Vec<u8>>)
    ensures
        match aes_gcm_seal(key@, nonce@, data@) {
            Some(c) => r matches Some(v) && v@ == c,
            None => r is None,
        },
        r is Some <==> data@.len() <= aes_gcm_max_plain(),
        r matches Some(v) ==> v@.len() == data@.len() + 16 && aes_gcm_open(key@, nonce@, v@) == Some(data@),
{
    let cipher = aes_gcm::Aes256Gcm::new(aes_gcm::Key::<aes_gcm::Aes256Gcm>::from_slice(key));
    cipher.encrypt(aes_gcm::Nonce::from_slice(nonce), data).ok()
}

/// Decrypts with `aes_gcm::Aes256Gcm::decrypt`; the crate's error value, which
/// says no more than that opening failed, comes back as `None`.
#[verifier::external_body]
fn aes_decrypt(key: &[u8; 32], nonce: &[u8; 12], data: &[u8]) -> (r: Option<Vec<u8>>)
    ensures
        match aes_gcm_open(key@, nonce@, data@) {
            Some(p) => r matches Some(v) && v@ == p,
            None => r is None,
        },
{
    let cipher = aes_gcm::Aes256Gcm::new(aes_gcm::Key::<aes_gcm::Aes256Gcm>::from_slice(key));
    cipher.decrypt(aes_gcm::Nonce::from_slice(nonce), data).ok()
}

/// The frame that carries `cipher`, sealed with `nonce`: the frame length,
/// the nonce and the ciphertext.
pub open spec fn sealed_frame(nonce: Seq<u8>, cipher: Seq<u8>) -> Seq<u8> {
    frame(nonce + cipher)
}

/// Encrypts a message for the master-ship connection with the shared key and
/// the given fresh nonce, and frames it (the length field keeps the low 32
/// bits of the frame length). Fails only for a message longer than 2^36
/// bytes; the frame's body (after its length) opens back to the message.
pub fn encrypt(key: &[u8; 32], nonce: &[u8; 12], data: &[u8]) -> (r: Result<Vec<u8>, Error>)
    ensures
        match aes_gcm_seal(key@, nonce@, data@) {
            Some(c) => r matches Ok(v) && v@ == sealed_frame(nonce@, c),
            None => r matches Err(Error::AEADError),
        },
        r is Ok <==> data@.len() <= aes_gcm_max_plain(),
        r matches Ok(v) ==> v@.len() > 16 && aes_gcm_open(key@, v@.skip(4).take(12), v@.skip(4).skip(12))
            == Some(data@),
{
    let cipher = match aes_encrypt(key, nonce, data) {
        Some(c) => c,
        None => {
            return Err(Error::AEADError);
        },
    };
    let n: u64 = cipher.len() as u64;
    let length: u32 = ((n % 0x1_0000_0000u64) as u32).wrapping_add(16u32);
    proof {
        assert(((n % 0x1_0000_0000u64) as u32).wrapping_add(16u32) == ((n + 16) as u32)) by (bit_vector);
    }
    let mut out: Vec<u8> = Vec::new();
    push_u32_le(&mut out, length);
    append_bytes(&mut out, nonce);
    append_bytes(&mut out, cipher.as_slice());
    proof {
        assert(out@ =~= sealed_frame(nonce@, cipher@));
        assert(out@.skip(4) =~= nonce@ + cipher@);
        assert(out@.skip(4).take(12) =~= nonce@);
        assert(out@.skip(4).skip(12) =~= cipher@);
    }
    Ok(out)
}

/// Opens a frame body: the first twelve bytes are the nonce, the rest the
/// ciphertext. Bodies of twelve bytes or fewer are refused as invalid input;
/// bodies whose tag does not match give the encryption error.
pub fn decrypt(key: &[u8; 32], data: &[u8]) -> (r: Result<Vec<u8>, Error>)
    ensures
        data@.len() <= 12 ==> (r matches Err(Error::InvalidInput(m)) && m == "decrypt"),
        data@.len() > 12 ==> match aes_gcm_open(key@, data@.take(12), data@.skip(12)) {
            Some(p) => r matches Ok(v) && v@ == p,
            None => r matches Err(Error::AEADError),
        },
{
    if data.len() <= 12 {
        return Err(Error::InvalidInput("decrypt"));
    }
    let mut nonce: [u8; 12] = [0u8; 12];
    let mut i: usize = 0;
    while i < 12
        invariant
            i <= 12,
            data@.len() > 12,
            forall|j: int| 0 <= j < i ==> nonce@[j] == data@[j],
        decreases 12 - i,
    {
        nonce[i] = data[i];
        i = i + 1;
    }
    let mut rest: Vec<u8> = Vec::new();
    let mut k: usize = 12;
    while k < data.len()
        invariant
            12 <= k <= data@.len(),
            rest@ == data@.subrange(12, k as int),
        decreases data@.len() - k,
    {
        rest.push(data[k]);
        k = k + 1;
        proof {
            assert(rest@ =~= data@.subrange(12, k as int));
        }
    }
    proof {
        assert(nonce@ =~= data@.take(12));
        assert(rest@ =~= data@.skip(12));
    }
    match aes_decrypt(key, &nonce, rest.as_slice()) {
        Some(p) => Ok(p),
        None => Err(Error::AEADError),
    }
}

proof fn lemma_le32_value(x: u32)
    ensures
        le_value(le32(x)) == x,
{
    let b0 = x as u8;
    let b1 = (x >> 8u32) as u8;
    let b2 = (x >> 16u32) as u8;
    let b3 = (x >> 24u32) as u8;
    assert(b0 + 256 * b1 + 65536 * b2 + 16777216 * b3 == x) by (bit_vector)
        requires
            b0 == x as u8,
            b1 == (x >> 8u32) as u8,
            b2 == (x >> 16u32) as u8,
            b3 == (x >> 24u32) as u8,
    ;
}

/// A frame read back: feeding the frame of a non-empty body to a reader that
/// holds nothing gives back exactly that body and leaves the reader empty.
pub proof fn law_frame_round_trip(body: Seq<u8>)
    requires
        0 < body.len(),
        4 + body.len() <= u32::MAX,
    ensures
        length_ok(ReaderView { raw: frame(body), length: 0 }),
        extract_spec(ReaderView { raw: frame(body), length: 0 }) == (
        ReaderView { raw: Seq::<u8>::empty(), length: 0 },
        Some(body),
        ),
{
    lemma_le32_value((4 + body.len()) as u32);
    let f = frame(body);
    assert(f.take(4) =~= le32((4 + body.len()) as u32));
    assert(f.skip(4) =~= body);
    assert(body.take(body.len() as int) =~= body);
    assert(body.skip(body.len() as int) =~= Seq::<u8>::empty());
}

// ---------------------------------------------------------------------------
// Requests in flight on the master-ship connection
// ---------------------------------------------------------------------------

/// Where a message from the master ship goes.
#[derive(Clone, Copy, Debug, PartialEq, Eq, Structural)]
pub enum ResponseRoute {
    /// Id 0: a notification, not an answer.
    Notification,
    /// The answer to the request that waited at this position (which is
    /// taken out of the table).
    Reply(usize),
    /// An answer to no request: the connection is closed.
    Unknown,
}

/// The requests sent to the master ship that wait for their answer, each
/// with its id and what the answer is handed to, and the id of the next
/// request. Ids start at 1; 0 marks notifications.
pub struct RequestTable<T> {
    next_id: u32,
    pending: Vec<(u32, T)>,
}

/// The state of a request table: the next id and the ids that wait.
pub struct TableView {
    pub next_id: u32,
    pub ids: Seq<u32>,
}

impl<T> View for RequestTable<T> {
    type V = TableView;

    closed spec fn view(&self) -> TableView {
        TableView { next_id: self.next_id, ids: self.pending@.map_values(|p: (u32, T)| p.0) }
    }
}

impl<T> RequestTable<T> {
    /// What the answer of each waiting request is handed to, in the order of
    /// the waiting ids.
    pub closed spec fn targets(&self) -> Seq<T> {
        self.pending@.map_values(|p: (u32, T)| p.1)
    }
}

/// Every waiting id is below the next id and at least 1, and no two are the same.
pub open spec fn table_wf(v: TableView) -> bool {
    &&& v.next_id >= 1
    &&& forall|i: int| 0 <= i < v.ids.len() ==> 1 <= #[trigger] v.ids[i] < v.next_id
    &&& forall|i: int, j: int| 0 <= i < j < v.ids.len() ==> #[trigger] v.ids[i] != #[trigger] v.ids[j]
}

impl<T> RequestTable<T> {
    /// An empty table whose first request gets id 1.
    pub fn new() -> (r: Self)
        ensures
            r@.next_id == 1,
            r@.ids.len() == 0,
            r.targets().len() == 0,
            table_wf(r@),
    {
        RequestTable { next_id: 1, pending: Vec::new() }
    }

    /// The id the next request is sent with; the next id moves on whether or
    /// not the request could be written.
    pub fn next_request_id(&mut self) -> (id: u32)
        requires
            table_wf(old(self)@),
            old(self)@.next_id < u32::MAX,
        ensures
            id == old(self)@.next_id,
            final(self)@.next_id == id + 1,
            final(self)@.ids == old(self)@.ids,
            final(self).targets() == old(self).targets(),
            table_wf(final(self)@),
    {
        let id = self.next_id;
        self.next_id = id + 1;
        proof {
            assert(self@.ids =~= old(self)@.ids);
            assert(self.targets() =~= old(self).targets());
        }
        id
    }

    /// Records that request `id` (just sent) waits for its answer, handed to
    /// `target`.
    pub fn sent(&mut self, id: u32, target: T)
        requires
            table_wf(old(self)@),
            id == old(self)@.next_id - 1,
            id >= 1,
            !old(self)@.ids.contains(id),
        ensures
            final(self)@.next_id == old(self)@.next_id,
            final(self)@.ids == old(self)@.ids.push(id),
            final(self).targets() == old(self).targets().push(target),
            table_wf(final(self)@),
    {
        self.pending.push((id, target));
        proof {
            assert(self@.ids =~= old(self)@.ids.push(id));
            assert(self.targets() =~= old(self).targets().push(target));
        }
    }

    /// Routes a message with id `id`: a notification (id 0), the answer to a
    /// waiting request, which leaves the table (the last waiting request
    /// taking its place), or an unknown answer.
    pub fn on_message(&mut self, id: u32) -> (r: (ResponseRoute, Option<T>))
        requires
            table_wf(old(self)@),
        ensures
            table_wf(final(self)@),
            final(self)@.next_id == old(self)@.next_id,
            old(self).targets().len() == old(self)@.ids.len(),
            final(self).targets().len() == final(self)@.ids.len(),
            id == 0 ==> r.0 == ResponseRoute::Notification && r.1 is None && final(self)@ == old(self)@
                && final(self).targets() == old(self).targets(),
            id != 0 && !old(self)@.ids.contains(id) ==> r.0 == ResponseRoute::Unknown && r.1 is None
                && final(self)@ == old(self)@ && final(self).targets() == old(self).targets(),
            id != 0 && old(self)@.ids.contains(id) ==> exists|p: int|
                0 <= p < old(self)@.ids.len() && old(self)@.ids[p] == id && r.0 == ResponseRoute::Reply(p as usize)
                    && r.1 == Some(old(self).targets()[p])
                    && final(self)@.ids == old(self)@.ids.update(p, old(self)@.ids.last()).drop_last()
                    && final(self).targets() == old(self).targets().update(p, old(self).targets().last()).drop_last(),
            !final(self)@.ids.contains(id),
    {
        if id == 0 {
            proof {
                assert(!old(self)@.ids.contains(0)) by {
                    if old(self)@.ids.contains(0) {
                        let k = choose|k: int| 0 <= k < old(self)@.ids.len() && old(self)@.ids[k] == 0;
                        assert(old(self)@.ids[k] >= 1);
                    }
                }
            }
            return (ResponseRoute::Notification, None);
        }
        let mut i: usize = 0;
        while i < self.pending.len()
            invariant
                i <= self.pending@.len(),
                self@ == old(self)@,
                self.targets() == old(self).targets(),
                table_wf(old(self)@),
                id != 0,
                forall|j: int| 0 <= j < i ==> (#[trigger] self.pending@[j]).0 != id,
            decreases self.pending@.len() - i,
        {
            if self.pending[i].0 == id {
                let ghost before = self@.ids;
                let ghost tbefore = self.targets();
                let (_, target) = self.pending.swap_remove(i);
                proof {
                    assert(before[i as int] == id);
                    assert(self@.ids =~= before.update(i as int, before.last()).drop_last());
                    assert(self.targets() =~= tbefore.update(i as int, tbefore.last()).drop_last());
                    assert forall|a: int, b: int| 0 <= a < b < self@.ids.len() implies #[trigger] self@.ids[a] != #[trigger] self@.ids[b] by {
                        let n = before.len() - 1;
                        let ia = if a == i { n } else { a };
                        let ib = if b == i { n } else { b };
                        assert(self@.ids[a] == before[ia]);
                        assert(self@.ids[b] == before[ib]);
                    }
                    assert(!self@.ids.contains(id)) by {
                        if self@.ids.contains(id) {
                            let k = choose|k: int| 0 <= k < self@.ids.len() && self@.ids[k] == id;
                            let n = before.len() - 1;
                            let ik = if k == i { n } else { k };
                            assert(self@.ids[k] == before[ik]);
                        }
                    }
                }
                return (ResponseRoute::Reply(i), Some(target));
            }
            i = i + 1;
        }
        proof {
            assert(!old(self)@.ids.contains(id)) by {
                if old(self)@.ids.contains(id) {
                    let k = choose|k: int| 0 <= k < old(self)@.ids.len() && old(self)@.ids[k] == id;
                    assert(self.pending@[k].0 == self@.ids[k]);
                }
            }
        }
        (ResponseRoute::Unknown, None)
    }
}

// ---------------------------------------------------------------------------
// Known master-ship keys
// ---------------------------------------------------------------------------

/// What a ship makes of the key a master ship shows.
#[derive(Clone, Copy, Debug, PartialEq, Eq, Structural)]
pub enum HostKeyCheck {
    /// The address is known with this fingerprint: trusted.
    Known,
    /// The address is known with another fingerprint: refused.
    Changed,
    /// The address is not known: the operator is asked.
    Unknown,
}

/// How the fingerprint `fingerprint` of the master ship at `ip` compares to
/// the known keys: by the first entry for that address.
pub open spec fn host_key_spec(keys: Seq<([u8; 4], Seq<char>)>, ip: [u8; 4], fingerprint: Seq<char>) -> HostKeyCheck {
    if exists|k: int| 0 <= k < keys.len() && (#[trigger] keys[k]).0 == ip {
        let k = choose|k: int| 0 <= k < keys.len() && (#[trigger] keys[k]).0 == ip && forall|j: int| 0 <= j < k ==> (#[trigger] keys[j]).0 != ip;
        if keys[k].1 == fingerprint { HostKeyCheck::Known } else { HostKeyCheck::Changed }
    } else {
        HostKeyCheck::Unknown
    }
}

/// A known master ship: its address and key fingerprint.
pub struct HostKey {
    pub ip: [u8; 4],
    pub fingerprint: String,
}

/// The view of the known keys.
pub open spec fn key_views(keys: Seq<HostKey>) -> Seq<([u8; 4], Seq<char>)> {
    keys.map_values(|k: HostKey| (k.ip, k.fingerprint@))
}

/// Checks the key of the master ship at `ip` against the known keys (see
/// [`host_key_spec`]).
pub fn check_host_key(keys: &Vec<HostKey>, ip: [u8; 4], fingerprint: &str) -> (r: HostKeyCheck)
    ensures
        r == host_key_spec(key_views(keys@), ip, fingerprint@),
{
    let ghost kv = key_views(keys@);
    let mut i: usize = 0;
    while i < keys.len()
        invariant
            i <= keys@.len(),
            kv == key_views(keys@),
            forall|j: int| 0 <= j < i ==> (#[trigger] kv[j]).0 != ip,
        decreases keys@.len() - i,
    {
        let a = keys[i].ip;
        if a[0] == ip[0] && a[1] == ip[1] && a[2] == ip[2] && a[3] == ip[3] {
            proof {
                assert(a =~= ip);
                assert(kv[i as int].0 == ip);
                let k = choose|k: int| 0 <= k < kv.len() && (#[trigger] kv[k]).0 == ip && forall|j: int| 0 <= j < k ==> (#[trigger] kv[j]).0 != ip;
                assert(0 <= i < kv.len() && kv[i as int].0 == ip && forall|j: int| 0 <= j < i ==> (#[trigger] kv[j]).0 != ip);
                if k < i {
                    assert(kv[k].0 != ip);
                } else if i < k {
                    assert(kv[i as int].0 != ip);
                }
            }
            if crate::text::same_text(keys[i].fingerprint.as_str(), fingerprint) {
                return HostKeyCheck::Known;
            }
            return HostKeyCheck::Changed;
        }
        i = i + 1;
    }
    HostKeyCheck::Unknown
}

} // verus!
