use pso2server::error::Error;
use pso2server::party::{Color, PartyRoster, RemoveOutcome};

#[test]
fn members_get_colours_in_order() {
    let mut party = PartyRoster::new(9);
    assert_eq!(party.get_obj(), 9);
    let a = party.add_player(100).unwrap();
    assert_eq!(a.color, Color::Red);
    assert!(a.others.is_empty());
    assert_eq!(party.leader(), 100);
    let b = party.add_player(200).unwrap();
    assert_eq!(b.color, Color::Blue);
    assert_eq!(b.others, vec![(100, Color::Red)]);
    let c = party.add_player(300).unwrap();
    assert_eq!(c.color, Color::Green);
    let d = party.add_player(400).unwrap();
    assert_eq!(d.color, Color::Yellow);
    assert_eq!(d.others, vec![(100, Color::Red), (200, Color::Blue), (300, Color::Green)]);
    assert_eq!(party.players(), vec![100, 200, 300, 400]);
    assert_eq!(party.leader(), 100);
}

#[test]
fn full_party_refuses_a_fifth_member() {
    let mut party = PartyRoster::new(1);
    for id in 1..=4 {
        assert!(party.add_player(id).is_some());
    }
    assert!(party.add_player(5).is_none());
    assert_eq!(party.players(), vec![1, 2, 3, 4]);
}

#[test]
fn freed_colour_is_reused() {
    let mut party = PartyRoster::new(1);
    party.add_player(1);
    party.add_player(2);
    party.add_player(3);
    let out = party.remove_player(2).unwrap();
    assert_eq!(out, RemoveOutcome { leader_changed: false, leader: 1 });
    assert_eq!(party.players(), vec![1, 3]);
    assert_eq!(party.get_color(3), Color::Green);
    let again = party.add_player(4).unwrap();
    assert_eq!(again.color, Color::Blue);
    assert_eq!(party.get_color(4), Color::Blue);
}

#[test]
fn leader_leaving_passes_leadership() {
    let mut party = PartyRoster::new(1);
    party.add_player(10);
    party.add_player(20);
    party.add_player(30);
    let out = party.remove_player(10).unwrap();
    assert_eq!(party.players(), vec![30, 20]);
    assert_eq!(out, RemoveOutcome { leader_changed: true, leader: 30 });
    assert_eq!(party.leader(), 30);
}

#[test]
fn last_member_leaving_keeps_leader_id() {
    let mut party = PartyRoster::new(1);
    party.add_player(10);
    let out = party.remove_player(10).unwrap();
    assert_eq!(out, RemoveOutcome { leader_changed: false, leader: 10 });
    assert!(party.players().is_empty());
}

#[test]
fn removing_a_stranger_is_refused() {
    let mut party = PartyRoster::new(1);
    party.add_player(10);
    assert!(matches!(party.remove_player(99), Err(Error::InvalidInput("remove_player"))));
    assert!(matches!(party.kick_player(99), Err(Error::InvalidInput("kick_player"))));
    assert_eq!(party.players(), vec![10]);
}

#[test]
fn kicking_and_leader_change() {
    let mut party = PartyRoster::new(1);
    party.add_player(10);
    party.add_player(20);
    party.change_leader(20);
    assert_eq!(party.leader(), 20);
    let out = party.kick_player(20).unwrap();
    assert_eq!(out, RemoveOutcome { leader_changed: true, leader: 10 });
    assert_eq!(party.players(), vec![10]);
}

#[test]
fn add_then_remove_restores_members() {
    let mut party = PartyRoster::new(1);
    party.add_player(10);
    party.add_player(20);
    party.add_player(30);
    party.add_player(40).unwrap();
    party.remove_player(40).unwrap();
    assert_eq!(party.players(), vec![10, 20, 30]);
    assert_eq!(party.get_color(10), Color::Red);
    assert_eq!(party.get_color(40), Color::Red);
}

use pso2server::party::{paginate, Invites};

#[test]
fn invitations() {
    let mut inv = Invites::new();
    assert!(inv.offer(7, 100, false));
    assert!(!inv.offer(7, 200, false));
    assert!(!inv.offer(8, 200, true));
    assert!(inv.offer(8, 300, false));
    assert!(inv.offer(9, 400, false));
    assert_eq!(inv.requested(&vec![9, 7]), vec![(7, 100), (9, 400)]);
    assert_eq!(inv.requested(&vec![]), vec![]);
    assert!(inv.take(7));
    assert!(!inv.take(7));
    assert_eq!(inv.requested(&vec![7, 8, 9]), vec![(9, 400), (8, 300)]);
}

#[test]
fn paging() {
    let items: Vec<u32> = (0..23).collect();
    let pages = paginate(&items, 10);
    assert_eq!(pages.len(), 3);
    assert_eq!(pages[0], (0..10).collect::<Vec<u32>>());
    assert_eq!(pages[2], vec![20, 21, 22]);
    assert!(paginate(&Vec::<u32>::new(), 12).is_empty());
    assert_eq!(paginate(&items, 23).len(), 1);
    assert_eq!(paginate(&(0..24).collect::<Vec<u32>>(), 12).len(), 2);
}
