use vstd::prelude::*;
use vstd::string::StringExecFns;
use crate::master::RegisterShipResult;

verus! {

/// How much is logged.
#[derive(Clone, Copy, Debug, PartialEq, Eq, Structural)]
pub enum LogLevel {
    Off,
    Error,
    Warn,
    Info,
    Debug,
    Trace,
}

/// The settings of one block of a ship.
pub struct BlockSettings {
    /// The block's port; blocks without one take the next free port from 13001.
    pub port: Option<u16>,
    pub name: String,
    pub max_players: u32,
    /// The map that players of this block start in.
    pub lobby_map: String,
}

impl Default for BlockSettings {
    /// Block 1: no fixed port, 32 players, the "lobby" map.
    fn default() -> (r: Self)
        ensures
            r.port is None,
            r.name@ == "Block 1"@,
            r.max_players == 32,
            r.lobby_map@ == "lobby"@,
    {
        BlockSettings {
            port: None,
            name: String::from_str("Block 1"),
            max_players: 32,
            lobby_map: String::from_str("lobby"),
        }
    }
}

/// The settings of a ship server.
pub struct Settings {
    pub server_name: String,
    pub db_name: String,
    pub min_ship_id: u32,
    pub max_ship_id: u32,
    pub blocks: Vec<BlockSettings>,
    pub key_file: Option<String>,
    pub balance_port: u16,
    pub master_ship: String,
    pub master_ship_psk: String,
    pub data_file: String,
    pub log_dir: String,
    pub file_log_level: LogLevel,
    pub console_log_level: LogLevel,
}

impl Default for Settings {
    /// The settings a new ship starts with: ship ids 1 to 10, one default
    /// block, balance port 12000 and a master ship on this machine.
    fn default() -> (r: Self)
        ensures
            r.server_name@ == "phantasyserver"@,
            r.db_name@ == "ship.db"@,
            r.min_ship_id == 1,
            r.max_ship_id == 10,
            r.blocks@.len() == 1,
            r.blocks@[0].port is None,
            r.blocks@[0].name@ == "Block 1"@,
            r.blocks@[0].max_players == 32,
            r.blocks@[0].lobby_map@ == "lobby"@,
            r.key_file is None,
            r.balance_port == 12000,
            r.master_ship@ == "localhost:15000"@,
            r.master_ship_psk@ == "master_ship_psk"@,
            r.data_file@ == "data/com_data.mp"@,
            r.log_dir@ == "logs"@,
            r.file_log_level == LogLevel::Info,
            r.console_log_level == LogLevel::Debug,
    {
        let mut blocks: Vec<BlockSettings> = Vec::new();
        blocks.push(BlockSettings::default());
        Settings {
            server_name: String::from_str("phantasyserver"),
            db_name: String::from_str("ship.db"),
            min_ship_id: 1,
            max_ship_id: 10,
            blocks,
            key_file: None,
            balance_port: 12000,
            master_ship: String::from_str("localhost:15000"),
            master_ship_psk: String::from_str("master_ship_psk"),
            data_file: String::from_str("data/com_data.mp"),
            log_dir: String::from_str("logs"),
            file_log_level: LogLevel::Info,
            console_log_level: LogLevel::Debug,
        }
    }
}

impl Settings {
    /// The settings written when none exist: the defaults and a second block
    /// "Block 2" on port 13002.
    pub fn create_default() -> (r: Self)
        ensures
            r.blocks@.len() == 2,
            r.blocks@[0].port is None,
            r.blocks@[0].name@ == "Block 1"@,
            r.blocks@[1].port == Some(13002u16),
            r.blocks@[1].name@ == "Block 2"@,
            r.blocks@[1].max_players == 32,
            r.blocks@[1].lobby_map@ == "lobby"@,
            r.blocks@[0].max_players == 32,
            r.blocks@[0].lobby_map@ == "lobby"@,
            r.server_name@ == "phantasyserver"@,
            r.db_name@ == "ship.db"@,
            r.min_ship_id == 1,
            r.max_ship_id == 10,
            r.key_file is None,
            r.balance_port == 12000,
            r.master_ship@ == "localhost:15000"@,
            r.master_ship_psk@ == "master_ship_psk"@,
            r.data_file@ == "data/com_data.mp"@,
            r.log_dir@ == "logs"@,
            r.file_log_level == LogLevel::Info,
            r.console_log_level == LogLevel::Debug,
    {
        let mut settings = Settings::default();
        let second = BlockSettings { port: Some(13002), name: String::from_str("Block 2"), ..BlockSettings::default() };
        settings.blocks.push(second);
        settings
    }
}

/// The sum of the player limits of `blocks`.
pub open spec fn players_sum(blocks: Seq<BlockSettings>) -> int
    decreases blocks.len(),
{
    if blocks.len() == 0 {
        0
    } else {
        players_sum(blocks.drop_last()) + blocks.last().max_players
    }
}

proof fn lemma_players_sum_grows(blocks: Seq<BlockSettings>, k: int)
    requires
        0 <= k <= blocks.len(),
    ensures
        players_sum(blocks.take(k)) <= players_sum(blocks),
    decreases blocks.len() - k,
{
    if k < blocks.len() {
        assert(blocks.take(k + 1).drop_last() =~= blocks.take(k));
        lemma_players_sum_grows(blocks, k + 1);
    } else {
        assert(blocks.take(k) =~= blocks);
    }
}

/// The number of players the ship announces: the sum over its blocks.
pub fn total_max_players(blocks: &Vec<BlockSettings>) -> (r: u32)
    requires
        players_sum(blocks@) <= u32::MAX,
    ensures
        r == players_sum(blocks@),
{
    let mut total: u32 = 0;
    let mut i: usize = 0;
    while i < blocks.len()
        invariant
            i <= blocks@.len(),
            players_sum(blocks@) <= u32::MAX,
            total == players_sum(blocks@.take(i as int)),
        decreases blocks@.len() - i,
    {
        proof {
            assert(blocks@.take(i + 1).drop_last() =~= blocks@.take(i as int));
            lemma_players_sum_grows(blocks@, i + 1);
        }
        total = total + blocks[i].max_players;
        i = i + 1;
    }
    proof {
        assert(blocks@.take(i as int) =~= blocks@);
    }
    total
}

/// The id and port of the block at position `i`: ids count from 1, and a
/// block without a port of its own gets 13001 plus its position.
pub open spec fn block_slot(blocks: Seq<BlockSettings>, i: int) -> (u32, u16) {
    (
        (i + 1) as u32,
        match blocks[i].port {
            Some(p) => p,
            None => (13001 + i) as u16,
        },
    )
}

/// The id and port of every block, in order (see [`block_slot`]).
pub fn block_plan(blocks: &Vec<BlockSettings>) -> (r: Vec<(u32, u16)>)
    requires
        13001 + blocks@.len() <= u16::MAX,
    ensures
        r@.len() == blocks@.len(),
        forall|i: int| 0 <= i < blocks@.len() ==> #[trigger] r@[i] == block_slot(blocks@, i),
{
    let mut out: Vec<(u32, u16)> = Vec::new();
    let mut next_port: u16 = 13001;
    let mut i: usize = 0;
    while i < blocks.len()
        invariant
            i <= blocks@.len(),
            13001 + blocks@.len() <= u16::MAX,
            next_port == 13001 + i,
            out@.len() == i,
            forall|j: int| 0 <= j < i ==> #[trigger] out@[j] == block_slot(blocks@, j),
        decreases blocks@.len() - i,
    {
        let port = match blocks[i].port {
            Some(p) => p,
            None => next_port,
        };
        next_port = next_port + 1;
        out.push((i as u32 + 1, port));
        i = i + 1;
    }
    out
}

/// What to do after asking the master ship for ship id `id`.
#[derive(Clone, Copy, Debug, PartialEq, Eq, Structural)]
pub enum RegisterStep {
    /// The ship now has this id.
    Registered(u32),
    /// Ask for this id next.
    TryNext(u32),
    /// Every id up to the largest allowed was taken.
    NoSlots,
}

/// The first id a ship asks for, when its id range is not empty.
pub fn first_ship_id(min_id: u32, max_id: u32) -> (r: Option<u32>)
    ensures
        r == if min_id <= max_id { Some(min_id) } else { None::<u32> },
{
    if min_id <= max_id {
        Some(min_id)
    } else {
        None
    }
}

/// The step after the master ship answered `result` for id `id`: a taken id
/// moves on to the next one until `max_id`.
pub fn after_register(id: u32, max_id: u32, result: RegisterShipResult) -> (r: RegisterStep)
    ensures
        result == RegisterShipResult::Success ==> r == RegisterStep::Registered(id),
        result == RegisterShipResult::AlreadyTaken && id < max_id ==> r == RegisterStep::TryNext((id + 1) as u32),
        result == RegisterShipResult::AlreadyTaken && id >= max_id ==> r == RegisterStep::NoSlots,
{
    match result {
        RegisterShipResult::Success => RegisterStep::Registered(id),
        RegisterShipResult::AlreadyTaken => if id < max_id {
            RegisterStep::TryNext(id + 1)
        } else {
            RegisterStep::NoSlots
        },
    }
}

/// A ship only ever asks for ids in its range, each once and in increasing
/// order: the next id asked for is one more and still within the range.
pub proof fn law_registration_in_range(min_id: u32, max_id: u32, id: u32)
    requires
        min_id <= id <= max_id,
    ensures
        id < max_id ==> min_id < id + 1 <= max_id,
{
}

// ---------------------------------------------------------------------------
// Master ship settings
// ---------------------------------------------------------------------------

/// The settings of the master ship.
pub struct MasterSettings {
    pub db_name: String,
    pub registration_enabled: bool,
    pub log_dir: String,
    pub file_log_level: LogLevel,
    pub console_log_level: LogLevel,
    pub data_path: Option<String>,
}

impl Default for MasterSettings {
    /// A "master_ship.db" database, no registration of unknown ships, logs in
    /// "logs" and no server data file.
    fn default() -> (r: Self)
        ensures
            r.db_name@ == "master_ship.db"@,
            !r.registration_enabled,
            r.log_dir@ == "logs"@,
            r.file_log_level == LogLevel::Info,
            r.console_log_level == LogLevel::Debug,
            r.data_path is None,
    {
        MasterSettings {
            db_name: String::from_str("master_ship.db"),
            registration_enabled: false,
            log_dir: String::from_str("logs"),
            file_log_level: LogLevel::Info,
            console_log_level: LogLevel::Debug,
            data_path: None,
        }
    }
}

/// Whether the master ship writes its default settings to the settings file:
/// only when the file could not be read and `--dont-create-settings` was not
/// given.
pub fn create_settings_file(file_read: bool, dont_create_settings: bool) -> (r: bool)
    ensures
        r == (!file_read && !dont_create_settings),
{
    !file_read && !dont_create_settings
}

/// The settings given on the master ship's command line; each one given
/// replaces the one from the settings file.
pub struct MasterArgs {
    pub db_path: Option<String>,
    pub registration_enabled: Option<bool>,
    pub log_dir: Option<String>,
    pub file_log_level: Option<LogLevel>,
    pub console_log_level: Option<LogLevel>,
    pub data_path: Option<String>,
}

/// The view of an optional string.
pub open spec fn opt_view(s: Option<String>) -> Option<Seq<char>> {
    match s {
        Some(x) => Some(x@),
        None => None,
    }
}

/// `arg`'s value when it is given, else `current`.
pub open spec fn given_or<T>(arg: Option<T>, current: T) -> T {
    match arg {
        Some(x) => x,
        None => current,
    }
}

/// Applies the command-line settings to the settings from the file.
pub fn apply_args(settings: MasterSettings, args: MasterArgs) -> (r: MasterSettings)
    ensures
        r.db_name@ == given_or(opt_view(args.db_path), settings.db_name@),
        r.registration_enabled == given_or(args.registration_enabled, settings.registration_enabled),
        r.log_dir@ == given_or(opt_view(args.log_dir), settings.log_dir@),
        r.file_log_level == given_or(args.file_log_level, settings.file_log_level),
        r.console_log_level == given_or(args.console_log_level, settings.console_log_level),
        opt_view(r.data_path) == match opt_view(args.data_path) {
            Some(p) => Some(p),
            None => opt_view(settings.data_path),
        },
{
    let MasterSettings { db_name, registration_enabled, log_dir, file_log_level, console_log_level, data_path } =
        settings;
    let MasterArgs {
        db_path: a_db,
        registration_enabled: a_reg,
        log_dir: a_log,
        file_log_level: a_file,
        console_log_level: a_console,
        data_path: a_data,
    } = args;
    let db_name = match a_db {
        Some(x) => x,
        None => db_name,
    };
    let registration_enabled = match a_reg {
        Some(x) => x,
        None => registration_enabled,
    };
    let log_dir = match a_log {
        Some(x) => x,
        None => log_dir,
    };
    let file_log_level = match a_file {
        Some(x) => x,
        None => file_log_level,
    };
    let console_log_level = match a_console {
        Some(x) => x,
        None => console_log_level,
    };
    let data_path = match a_data {
        Some(x) => Some(x),
        None => data_path,
    };
    MasterSettings { db_name, registration_enabled, log_dir, file_log_level, console_log_level, data_path }
}

} // verus!
