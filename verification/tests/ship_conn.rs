use pso2server::error::Error;
use pso2server::ship_conn::{decrypt, encrypt, FrameReader};

#[test]
fn frames_are_split_out() {
    let mut r = FrameReader::new();
    assert!(!r.has_data());
    r.push_bytes(&[7, 0, 0, 0, 1, 2]);
    assert!(r.length_ok());
    assert_eq!(r.extract_data(), None);
    r.push_bytes(&[3, 6, 0, 0, 0, 9, 9]);
    assert_eq!(r.extract_data(), Some(vec![1, 2, 3]));
    assert!(r.has_data());
    assert_eq!(r.extract_data(), Some(vec![9, 9]));
    assert!(!r.has_data());
    assert_eq!(r.extract_data(), None);
}

#[test]
fn short_length_field_is_flagged() {
    let mut r = FrameReader::new();
    r.push_bytes(&[2, 0, 0, 0, 1]);
    assert!(!r.length_ok());
}

#[test]
fn encryption_round_trip() {
    let key = [5u8; 32];
    let nonce = [1u8; 12];
    let msg = b"hello ship".to_vec();
    let framed = encrypt(&key, &nonce, &msg).unwrap();
    let len = u32::from_le_bytes([framed[0], framed[1], framed[2], framed[3]]) as usize;
    assert_eq!(len, framed.len());
    assert_eq!(&framed[4..16], &nonce);
    assert_ne!(&framed[16..16 + msg.len()], &msg[..]);
    assert_eq!(framed.len(), 4 + 12 + msg.len() + 16);
    let mut r = FrameReader::new();
    r.push_bytes(&framed);
    let body = r.extract_data().unwrap();
    assert_eq!(decrypt(&key, &body).unwrap(), msg);
}

#[test]
fn tampered_or_short_bodies_are_refused() {
    let key = [5u8; 32];
    let nonce = [2u8; 12];
    let framed = encrypt(&key, &nonce, b"abc").unwrap();
    let mut body = framed[4..].to_vec();
    let last = body.len() - 1;
    body[last] ^= 1;
    assert!(matches!(decrypt(&key, &body), Err(Error::AEADError)));
    assert!(matches!(decrypt(&key, &[0u8; 12]), Err(Error::InvalidInput("decrypt"))));
    let other_key = [6u8; 32];
    assert!(decrypt(&other_key, &framed[4..]).is_err());
}

use pso2server::ship_conn::{check_host_key, HostKey, HostKeyCheck, RequestTable, ResponseRoute};

#[test]
fn request_table_routes_answers() {
    let mut t: RequestTable<&str> = RequestTable::new();
    let a = t.next_request_id();
    t.sent(a, "first");
    let b = t.next_request_id();
    t.sent(b, "second");
    assert_eq!((a, b), (1, 2));
    assert_eq!(t.on_message(0), (ResponseRoute::Notification, None));
    assert_eq!(t.on_message(2), (ResponseRoute::Reply(1), Some("second")));
    assert_eq!(t.on_message(2), (ResponseRoute::Unknown, None));
    let c = t.next_request_id();
    assert_eq!(c, 3);
    assert_eq!(t.on_message(1), (ResponseRoute::Reply(0), Some("first")));
    assert_eq!(t.on_message(3), (ResponseRoute::Unknown, None));
}

#[test]
fn host_keys() {
    let keys = vec![
        HostKey { ip: [10, 0, 0, 1], fingerprint: "abc".to_string() },
        HostKey { ip: [10, 0, 0, 2], fingerprint: "def".to_string() },
        HostKey { ip: [10, 0, 0, 1], fingerprint: "zzz".to_string() },
    ];
    assert_eq!(check_host_key(&keys, [10, 0, 0, 1], "abc"), HostKeyCheck::Known);
    assert_eq!(check_host_key(&keys, [10, 0, 0, 1], "zzz"), HostKeyCheck::Changed);
    assert_eq!(check_host_key(&keys, [10, 0, 0, 2], "def"), HostKeyCheck::Known);
    assert_eq!(check_host_key(&keys, [10, 0, 0, 3], "def"), HostKeyCheck::Unknown);
}

#[test]
fn answers_go_to_their_own_waiter() {
    let mut t: RequestTable<u32> = RequestTable::new();
    for target in [100u32, 200, 300] {
        let id = t.next_request_id();
        t.sent(id, target);
    }
    assert_eq!(t.on_message(1), (ResponseRoute::Reply(0), Some(100)));
    assert_eq!(t.on_message(3), (ResponseRoute::Reply(0), Some(300)));
    assert_eq!(t.on_message(2), (ResponseRoute::Reply(0), Some(200)));
}
