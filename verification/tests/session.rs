use pso2server::session::PingState;
use pso2server::session::{balance_block, route_packet, tick, PacketKind, Route, TickAction};
use pso2server::user_state::UserState;

#[test]
fn in_game_packets_need_in_game() {
    assert_eq!(route_packet(UserState::InGame, PacketKind::Movement), Route::Movement);
    assert_eq!(route_packet(UserState::CharacterSelect, PacketKind::Movement), Route::Unhandled);
    assert_eq!(route_packet(UserState::InGame, PacketKind::ChatMessage), Route::ChatMessage);
    assert_eq!(route_packet(UserState::PreInGame, PacketKind::ChatMessage), Route::Unhandled);
}

#[test]
fn login_packets_only_while_logging_in() {
    assert_eq!(route_packet(UserState::LoggingIn, PacketKind::SegaIDLogin), Route::LoginRequest);
    assert_eq!(route_packet(UserState::InGame, PacketKind::SegaIDLogin), Route::Unhandled);
}

#[test]
fn any_state_packets() {
    for s in [UserState::LoggingIn, UserState::CharacterSelect, UserState::InGame] {
        assert_eq!(route_packet(s, PacketKind::ClientPing), Route::ClientPing);
        assert_eq!(route_packet(s, PacketKind::ClientGoodbye), Route::PrepareShutdown);
        assert_eq!(route_packet(s, PacketKind::Other), Route::Unhandled);
    }
}

#[test]
fn settings_from_username_on() {
    assert_eq!(route_packet(UserState::LoggingIn, PacketKind::SettingsRequest), Route::Unhandled);
    assert_eq!(route_packet(UserState::NewUsername, PacketKind::SettingsRequest), Route::SettingsRequest);
    assert_eq!(route_packet(UserState::InGame, PacketKind::SaveSettings), Route::SaveSettings);
}

#[test]
fn ticks() {
    assert_eq!(tick(true, 0, 600), (TickAction::Disconnect, 0));
    assert_eq!(tick(true, 0, 100), (TickAction::Nothing, 0));
    assert_eq!(tick(false, 5, 0), (TickAction::Disconnect, 5));
    assert_eq!(tick(false, 4, 10000), (TickAction::Ping, 5));
    assert_eq!(tick(false, 0, 9999), (TickAction::Nothing, 0));
}

#[test]
fn pings_stay_bounded() {
    let mut failed = 0;
    let mut disconnected = false;
    for _ in 0..20 {
        let (action, next) = tick(false, failed, 20000);
        assert!(next <= 5);
        failed = next;
        if action == TickAction::Disconnect {
            disconnected = true;
            break;
        }
    }
    assert!(disconnected);
    assert_eq!(failed, 5);
}

use pso2server::session::{
    change_sa_slots, current_block_position, login_step, refusal_message, LoginCheck, LoginStep,
};

#[test]
fn login_steps() {
    assert_eq!(login_step(LoginCheck::Found { has_nickname: true }), LoginStep::LoggedIn);
    assert_eq!(login_step(LoginCheck::Found { has_nickname: false }), LoginStep::AskNickname);
    assert_eq!(login_step(LoginCheck::InvalidPassword), LoginStep::RefuseInvalidPassword);
    assert_eq!(refusal_message(LoginStep::RefuseInvalidPassword), Some("Invalid username or password"));
    assert_eq!(refusal_message(login_step(LoginCheck::EmptyCredentials)), Some("Empty username or password"));
    assert_eq!(refusal_message(LoginStep::LoggedIn), None);
}

#[test]
fn block_positions() {
    assert_eq!(current_block_position(&vec![1, 2, 3], 2), Some(1));
    assert_eq!(current_block_position(&vec![1, 2, 3], 7), None);
}

#[test]
fn symbol_art_slots() {
    let mut list: Vec<u128> = vec![0, 0, 0];
    change_sa_slots(&mut list, &vec![(5, 0), (6, 2), (7, 9), (8, 0)]);
    assert_eq!(list, vec![8, 0, 6]);
}

#[test]
fn balance_announces_the_reached_address() {
    let mut ips = vec![[0u8, 0, 0, 0], [10, 0, 0, 5]];
    let pick = balance_block(&mut ips, Some([192, 168, 1, 2]));
    assert!(pick < 2);
    assert_eq!(ips, vec![[192u8, 168, 1, 2], [10, 0, 0, 5]]);

    let mut kept = vec![[0u8, 0, 0, 0]];
    assert_eq!(balance_block(&mut kept, None), 0);
    assert_eq!(kept, vec![[0u8, 0, 0, 0]]);
}

#[test]
fn ping_state_steps() {
    let mut s = PingState::new(1000);
    assert_eq!(s.tick_at(5000), TickAction::Nothing);
    assert_eq!(s.tick_at(11000), TickAction::Ping);
    assert_eq!(s, PingState { failed_pings: 1, ready_to_shutdown: false, last_ping_ms: 11000 });
    s.on_pong();
    assert_eq!(s.failed_pings, 0);
    s.on_goodbye(12000);
    assert_eq!(s.tick_at(12400), TickAction::Nothing);
    assert_eq!(s.tick_at(12500), TickAction::Disconnect);
}
