use pso2server::user_state::UserState;
use std::cmp::Ordering;

#[test]
fn test_userstate() {
    assert_eq!(
        UserState::InGame
            .partial_cmp(&UserState::CharacterSelect)
            .unwrap(),
        Ordering::Greater
    );
    assert_eq!(
        UserState::CharacterSelect
            .partial_cmp(&UserState::InGame)
            .unwrap(),
        Ordering::Less
    );
    assert!(UserState::InGame > UserState::LoggingIn);
}

#[test]
fn user_state_order_is_total() {
    let all = [
        UserState::LoggingIn,
        UserState::NewUsername,
        UserState::CharacterSelect,
        UserState::PreInGame,
        UserState::InGame,
    ];
    for (i, a) in all.iter().enumerate() {
        assert_eq!(a.rank() as usize, i);
        for (j, b) in all.iter().enumerate() {
            assert_eq!(a.partial_cmp(b), Some(i.cmp(&j)));
            assert_eq!(a.at_least(b), i >= j);
        }
    }
}

#[test]
fn user_state_descriptions() {
    assert_eq!(UserState::LoggingIn.describe(), "Logging in");
    assert_eq!(UserState::InGame.describe(), "Playing");
    assert_eq!(UserState::PreInGame.describe(), "Waiting for client to load");
}
