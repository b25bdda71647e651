use pso2server::settings::create_settings_file;
use pso2server::master::RegisterShipResult;
use pso2server::settings::{
    after_register, apply_args, block_plan, first_ship_id, total_max_players, BlockSettings,
    LogLevel, MasterArgs, MasterSettings, RegisterStep, Settings,
};

#[test]
fn ship_defaults() {
    let s = Settings::default();
    assert_eq!(s.server_name, "phantasyserver");
    assert_eq!((s.min_ship_id, s.max_ship_id, s.balance_port), (1, 10, 12000));
    assert_eq!(s.blocks.len(), 1);
    assert_eq!(s.blocks[0].name, "Block 1");
    assert_eq!(s.file_log_level, LogLevel::Info);
    assert_eq!(s.console_log_level, LogLevel::Debug);
    let created = Settings::create_default();
    assert_eq!(created.blocks.len(), 2);
    assert_eq!(created.blocks[1].port, Some(13002));
    assert_eq!(created.blocks[1].name, "Block 2");
    assert_eq!(created.blocks[1].max_players, 32);
}

fn block(port: Option<u16>, max_players: u32) -> BlockSettings {
    BlockSettings { port, max_players, ..BlockSettings::default() }
}

#[test]
fn blocks_get_ids_and_ports() {
    let blocks = vec![block(None, 10), block(Some(14000), 20), block(None, 5)];
    assert_eq!(block_plan(&blocks), vec![(1, 13001), (2, 14000), (3, 13003)]);
    assert_eq!(total_max_players(&blocks), 35);
    assert_eq!(total_max_players(&vec![]), 0);
}

#[test]
fn ship_id_registration() {
    assert_eq!(first_ship_id(1, 10), Some(1));
    assert_eq!(first_ship_id(5, 4), None);
    assert_eq!(after_register(3, 10, RegisterShipResult::Success), RegisterStep::Registered(3));
    assert_eq!(after_register(3, 10, RegisterShipResult::AlreadyTaken), RegisterStep::TryNext(4));
    assert_eq!(after_register(10, 10, RegisterShipResult::AlreadyTaken), RegisterStep::NoSlots);
}

#[test]
fn master_settings_overrides() {
    let s = MasterSettings::default();
    assert_eq!(s.db_name, "master_ship.db");
    assert!(!s.registration_enabled);
    let args = MasterArgs {
        db_path: Some("other.db".to_string()),
        registration_enabled: Some(true),
        log_dir: None,
        file_log_level: Some(LogLevel::Trace),
        console_log_level: None,
        data_path: Some("data.mp".to_string()),
    };
    let s = apply_args(s, args);
    assert_eq!(s.db_name, "other.db");
    assert!(s.registration_enabled);
    assert_eq!(s.log_dir, "logs");
    assert_eq!(s.file_log_level, LogLevel::Trace);
    assert_eq!(s.console_log_level, LogLevel::Debug);
    assert_eq!(s.data_path.as_deref(), Some("data.mp"));
    let kept = apply_args(
        MasterSettings { data_path: Some("x".to_string()), ..MasterSettings::default() },
        MasterArgs {
            db_path: None,
            registration_enabled: None,
            log_dir: None,
            file_log_level: None,
            console_log_level: None,
            data_path: None,
        },
    );
    assert_eq!(kept.data_path.as_deref(), Some("x"));
}

#[test]
fn default_settings_file_is_written_unless_refused() {
    assert!(create_settings_file(false, false));
    assert!(!create_settings_file(false, true));
    assert!(!create_settings_file(true, false));
}
