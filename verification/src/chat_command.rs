use vstd::prelude::*;
use vstd::string::StringExecFns;
use crate::command::{
    arg_number, arg_text, command_args, first_arg, int_error_message, known_command,
    missing_message, parse_outcome, parse_unsigned_spec, unknown_command_text, help_text,
    views, CmdType, CommandDef,
};

verus! {

// ---------------------------------------------------------------------------
// The ship's chat commands
// ---------------------------------------------------------------------------

/// What a command definition says: name, argument names, aliases, description,
/// who may use it, whether its arguments have defaults, and whether it is the
/// help command.
pub open spec fn def_view(d: CommandDef) -> (Seq<char>, Seq<Seq<char>>, Seq<Seq<char>>, Seq<char>, CmdType, bool, bool) {
    (
        d.name@,
        d.args@.map_values(|s: String| s@),
        d.aliases@.map_values(|s: String| s@),
        d.doc@,
        d.cmd_type,
        d.default_args,
        d.is_help,
    )
}

/// The views of some string slices.
pub open spec fn strs(v: Seq<&str>) -> Seq<Seq<char>> {
    v.map_values(|s: &str| s@)
}

/// The chat commands of the ship, in the order their positions are read by
/// [`parse_chat_command`]: every one is for all players.
pub open spec fn chat_table_spec() -> Seq<(Seq<char>, Seq<Seq<char>>, Seq<Seq<char>>, Seq<char>, CmdType, bool, bool)> {
    seq![
        ("mem_usage"@, seq![], seq!["mem"@], " Returns memory usage."@, CmdType::AllPlayer, false, false),
        ("start_concert"@, seq!["concert_id"@], seq!["start_con"@], " Starts a concert with the provided ID (only for caller)."@, CmdType::AllPlayer, false, false),
        ("start_cutscene"@, seq!["cutscene_id"@], seq!["start_cut"@], " Plays a cutscene with the provided ID."@, CmdType::AllPlayer, false, false),
        ("send_as_concert_obj"@, seq!["action"@], seq!["send_con"@], " Sends an SetTag packet from a concert object."@, CmdType::AllPlayer, false, false),
        ("get_position"@, seq![], seq!["get_pos"@], " Returns current position."@, CmdType::AllPlayer, false, false),
        ("get_close_objects"@, seq!["distance"@], seq!["get_close_obj"@], " Returns a list of objects that are `distance` units away from the player (set to 1.0 if not provided)"@, CmdType::AllPlayer, true, false),
        ("set_account_flags"@, seq!["range"@, "value"@], seq!["set_acc_flags"@], " Sets specified account flags to a specified value. Range can be in form of \"flag_start-flag_end\" or \"flag_id\"."@, CmdType::AllPlayer, false, false),
        ("set_character_flags"@, seq!["range"@, "value"@], seq!["set_char_flags"@], " Sets specified character flags to a specified value. Range can be in form of \"flag_start-flag_end\" or \"flag_id\"."@, CmdType::AllPlayer, false, false),
        ("add_item"@, seq!["item_type"@, "id"@, "subid"@], seq![], " Adds a new item to the player inventory."@, CmdType::AllPlayer, false, false),
        ("change_level"@, seq!["new_level"@], seq!["change_lvl"@, "set_lvl"@], " Sets a character level to a specified level."@, CmdType::AllPlayer, false, false),
        ("calculate_player_stats"@, seq![], seq!["calc_stats"@], " Displays the players current stats."@, CmdType::AllPlayer, false, false),
        ("force_quest"@, seq!["quest_id"@, "difficulty_id"@], seq![], " Forces a specified quest to start."@, CmdType::AllPlayer, false, false),
        ("spawn_enemy"@, seq!["enemy_name"@], seq![], " Spawns a new enemy at the players location."@, CmdType::AllPlayer, false, false),
        ("dump_lua"@, seq![], seq![], " Dumps the lua state to the 'dump.txt' file the the game root folder."@, CmdType::AllPlayer, false, false),
        ("send_lua"@, seq!["lua"@], seq![], ""@, CmdType::AllPlayer, false, false),
        ("test_em"@, seq![], seq![], " Emergency test"@, CmdType::AllPlayer, false, false),
        ("help"@, seq![], seq![], ""@, CmdType::AllPlayer, false, true),
    ]
}

fn strings(v: Vec<&str>) -> (r: Vec<String>)
    ensures
        r@.map_values(|s: String| s@) == strs(v@),
{
    let mut out: Vec<String> = Vec::new();
    let mut i: usize = 0;
    while i < v.len()
        invariant
            i <= v@.len(),
            out@.len() == i,
            forall|j: int| 0 <= j < i ==> #[trigger] out@[j]@ == v@[j]@,
        decreases v@.len() - i,
    {
        let s = v[i];
        let st = String::from_str(s);
        out.push(st);
        i = i + 1;
    }
    proof {
        assert(out@.map_values(|s: String| s@) =~= strs(v@));
    }
    out
}

fn def(name: &str, args: Vec<&str>, aliases: Vec<&str>, doc: &str, default_args: bool, is_help: bool) -> (r: CommandDef)
    ensures
        def_view(r) == (name@, strs(args@), strs(aliases@), doc@, CmdType::AllPlayer, default_args, is_help),
{
    CommandDef {
        name: String::from_str(name),
        args: strings(args),
        aliases: strings(aliases),
        doc: String::from_str(doc),
        cmd_type: CmdType::AllPlayer,
        default_args,
        is_help,
    }
}

/// The number of chat commands.
pub const CHAT_COMMANDS: usize = 17;

/// The ship's chat command table (see [`chat_table_spec`]).
pub fn chat_command_table() -> (r: Vec<CommandDef>)
    ensures
        r@.map_values(|d: CommandDef| def_view(d)) == chat_table_spec(),
        r@.len() == CHAT_COMMANDS,
{
    let mut t: Vec<CommandDef> = Vec::new();
    let ghost spec = chat_table_spec();
    t.push(def("mem_usage", vec![], vec!["mem"], " Returns memory usage.", false, false));
    assert(def_view(t@[0]) == spec[0]);
    t.push(def("start_concert", vec!["concert_id"], vec!["start_con"], " Starts a concert with the provided ID (only for caller).", false, false));
    assert(def_view(t@[1]) == spec[1]);
    t.push(def("start_cutscene", vec!["cutscene_id"], vec!["start_cut"], " Plays a cutscene with the provided ID.", false, false));
    assert(def_view(t@[2]) == spec[2]);
    t.push(def("send_as_concert_obj", vec!["action"], vec!["send_con"], " Sends an SetTag packet from a concert object.", false, false));
    assert(def_view(t@[3]) == spec[3]);
    t.push(def("get_position", vec![], vec!["get_pos"], " Returns current position.", false, false));
    assert(def_view(t@[4]) == spec[4]);
    t.push(def("get_close_objects", vec!["distance"], vec!["get_close_obj"], " Returns a list of objects that are `distance` units away from the player (set to 1.0 if not provided)", true, false));
    assert(def_view(t@[5]) == spec[5]);
    t.push(def("set_account_flags", vec!["range", "value"], vec!["set_acc_flags"], " Sets specified account flags to a specified value. Range can be in form of \"flag_start-flag_end\" or \"flag_id\".", false, false));
    assert(def_view(t@[6]) == spec[6]);
    t.push(def("set_character_flags", vec!["range", "value"], vec!["set_char_flags"], " Sets specified character flags to a specified value. Range can be in form of \"flag_start-flag_end\" or \"flag_id\".", false, false));
    assert(def_view(t@[7]) == spec[7]);
    t.push(def("add_item", vec!["item_type", "id", "subid"], vec![], " Adds a new item to the player inventory.", false, false));
    assert(def_view(t@[8]) == spec[8]);
    t.push(def("change_level", vec!["new_level"], vec!["change_lvl", "set_lvl"], " Sets a character level to a specified level.", false, false));
    assert(def_view(t@[9]) == spec[9]);
    t.push(def("calculate_player_stats", vec![], vec!["calc_stats"], " Displays the players current stats.", false, false));
    assert(def_view(t@[10]) == spec[10]);
    t.push(def("force_quest", vec!["quest_id", "difficulty_id"], vec![], " Forces a specified quest to start.", false, false));
    assert(def_view(t@[11]) == spec[11]);
    t.push(def("spawn_enemy", vec!["enemy_name"], vec![], " Spawns a new enemy at the players location.", false, false));
    assert(def_view(t@[12]) == spec[12]);
    t.push(def("dump_lua", vec![], vec![], " Dumps the lua state to the 'dump.txt' file the the game root folder.", false, false));
    assert(def_view(t@[13]) == spec[13]);
    t.push(def("send_lua", vec!["lua"], vec![], "", false, false));
    assert(def_view(t@[14]) == spec[14]);
    t.push(def("test_em", vec![], vec![], " Emergency test", false, false));
    assert(def_view(t@[15]) == spec[15]);
    t.push(def("help", vec![], vec![], "", false, true));
    assert(def_view(t@[16]) == spec[16]);
    proof {
        assert(t@.map_values(|d: CommandDef| def_view(d)) =~= spec);
    }
    t
}


// ---------------------------------------------------------------------------
// Reading a chat command
// ---------------------------------------------------------------------------

/// A chat command with its arguments. The distance of `GetCloseObjects` is the
/// text typed for it, if any; it is read as a floating-point number outside
/// this library, and unreadable text counts as no distance.
pub enum ChatCommand {
    MemUsage,
    StartConcert { concert_id: Vec<char> },
    StartCutscene { cutscene_id: Vec<char> },
    SendAsConcertObj { action: Vec<char> },
    GetPosition,
    GetCloseObjects { distance: Option<Vec<char>> },
    SetAccountFlags { range: Vec<char>, value: u8 },
    SetCharacterFlags { range: Vec<char>, value: u8 },
    AddItem { item_type: u16, id: u16, subid: u16 },
    ChangeLevel { new_level: u16 },
    CalculatePlayerStats,
    ForceQuest { quest_id: u32, difficulty_id: u16 },
    SpawnEnemy { enemy_name: Vec<char> },
    DumpLua,
    SendLua { lua: Vec<char> },
    TestEm,
    Help(String),
}

/// The view of a chat command.
pub enum CommandView {
    MemUsage,
    StartConcert(Seq<char>),
    StartCutscene(Seq<char>),
    SendAsConcertObj(Seq<char>),
    GetPosition,
    GetCloseObjects(Option<Seq<char>>),
    SetAccountFlags(Seq<char>, u8),
    SetCharacterFlags(Seq<char>, u8),
    AddItem(u16, u16, u16),
    ChangeLevel(u16),
    CalculatePlayerStats,
    ForceQuest(u32, u16),
    SpawnEnemy(Seq<char>),
    DumpLua,
    SendLua(Seq<char>),
    TestEm,
    Help(Seq<char>),
}

impl View for ChatCommand {
    type V = CommandView;

    open spec fn view(&self) -> CommandView {
        match self {
            ChatCommand::MemUsage => CommandView::MemUsage,
            ChatCommand::StartConcert { concert_id } => CommandView::StartConcert(concert_id@),
            ChatCommand::StartCutscene { cutscene_id } => CommandView::StartCutscene(cutscene_id@),
            ChatCommand::SendAsConcertObj { action } => CommandView::SendAsConcertObj(action@),
            ChatCommand::GetPosition => CommandView::GetPosition,
            ChatCommand::GetCloseObjects { distance } => CommandView::GetCloseObjects(
                match distance {
                    Some(d) => Some(d@),
                    None => None,
                },
            ),
            ChatCommand::SetAccountFlags { range, value } => CommandView::SetAccountFlags(range@, *value),
            ChatCommand::SetCharacterFlags { range, value } => CommandView::SetCharacterFlags(range@, *value),
            ChatCommand::AddItem { item_type, id, subid } => CommandView::AddItem(*item_type, *id, *subid),
            ChatCommand::ChangeLevel { new_level } => CommandView::ChangeLevel(*new_level),
            ChatCommand::CalculatePlayerStats => CommandView::CalculatePlayerStats,
            ChatCommand::ForceQuest { quest_id, difficulty_id } => CommandView::ForceQuest(*quest_id, *difficulty_id),
            ChatCommand::SpawnEnemy { enemy_name } => CommandView::SpawnEnemy(enemy_name@),
            ChatCommand::DumpLua => CommandView::DumpLua,
            ChatCommand::SendLua { lua } => CommandView::SendLua(lua@),
            ChatCommand::TestEm => CommandView::TestEm,
            ChatCommand::Help(h) => CommandView::Help(h@),
        }
    }
}

/// Argument `pos` as text, or the message that it is missing.
pub open spec fn text_arg(args: Seq<Seq<char>>, pos: int, name: Seq<char>) -> Result<Seq<char>, Seq<char>> {
    if pos < args.len() {
        Ok(args[pos])
    } else {
        Err(missing_message(name))
    }
}

/// Argument `pos` as a number no larger than `limit`, or the message that it
/// is missing or unreadable.
pub open spec fn number_arg(args: Seq<Seq<char>>, pos: int, name: Seq<char>, limit: nat) -> Result<nat, Seq<char>> {
    if pos < args.len() {
        match parse_unsigned_spec(args[pos], limit) {
            Ok(v) => Ok(v),
            Err(e) => Err(int_error_message(e)),
        }
    } else {
        Err(missing_message(name))
    }
}

/// The command at position `index` of the ship's table with the arguments
/// `args` (after its name), or the message of its first missing or unreadable
/// argument; `help` is what the help command shows.
pub open spec fn command_of(index: int, args: Seq<Seq<char>>, help: Seq<char>) -> Result<CommandView, Seq<char>> {
    if index == 0 {
        Ok(CommandView::MemUsage)
    } else if index == 1 {
        match text_arg(args, 0, "concert_id"@) {
            Ok(t) => Ok(CommandView::StartConcert(t)),
            Err(e) => Err(e),
        }
    } else if index == 2 {
        match text_arg(args, 0, "cutscene_id"@) {
            Ok(t) => Ok(CommandView::StartCutscene(t)),
            Err(e) => Err(e),
        }
    } else if index == 3 {
        match text_arg(args, 0, "action"@) {
            Ok(t) => Ok(CommandView::SendAsConcertObj(t)),
            Err(e) => Err(e),
        }
    } else if index == 4 {
        Ok(CommandView::GetPosition)
    } else if index == 5 {
        Ok(CommandView::GetCloseObjects(if args.len() > 0 { Some(args[0]) } else { None }))
    } else if index == 6 || index == 7 {
        match text_arg(args, 0, "range"@) {
            Err(e) => Err(e),
            Ok(r) => match number_arg(args, 1, "value"@, 0xFF) {
                Err(e) => Err(e),
                Ok(v) => Ok(
                    if index == 6 {
                        CommandView::SetAccountFlags(r, v as u8)
                    } else {
                        CommandView::SetCharacterFlags(r, v as u8)
                    },
                ),
            },
        }
    } else if index == 8 {
        match number_arg(args, 0, "item_type"@, 0xFFFF) {
            Err(e) => Err(e),
            Ok(t) => match number_arg(args, 1, "id"@, 0xFFFF) {
                Err(e) => Err(e),
                Ok(i) => match number_arg(args, 2, "subid"@, 0xFFFF) {
                    Err(e) => Err(e),
                    Ok(s) => Ok(CommandView::AddItem(t as u16, i as u16, s as u16)),
                },
            },
        }
    } else if index == 9 {
        match number_arg(args, 0, "new_level"@, 0xFFFF) {
            Err(e) => Err(e),
            Ok(l) => Ok(CommandView::ChangeLevel(l as u16)),
        }
    } else if index == 10 {
        Ok(CommandView::CalculatePlayerStats)
    } else if index == 11 {
        match number_arg(args, 0, "quest_id"@, 0xFFFF_FFFF) {
            Err(e) => Err(e),
            Ok(q) => match number_arg(args, 1, "difficulty_id"@, 0xFFFF) {
                Err(e) => Err(e),
                Ok(d) => Ok(CommandView::ForceQuest(q as u32, d as u16)),
            },
        }
    } else if index == 12 {
        match text_arg(args, 0, "enemy_name"@) {
            Ok(t) => Ok(CommandView::SpawnEnemy(t)),
            Err(e) => Err(e),
        }
    } else if index == 13 {
        Ok(CommandView::DumpLua)
    } else if index == 14 {
        match text_arg(args, 0, "lua"@) {
            Ok(t) => Ok(CommandView::SendLua(t)),
            Err(e) => Err(e),
        }
    } else if index == 15 {
        Ok(CommandView::TestEm)
    } else {
        Ok(CommandView::Help(help))
    }
}

/// The view of a parse result.
pub open spec fn parse_view(r: Result<ChatCommand, String>) -> Result<CommandView, Seq<char>> {
    match r {
        Ok(c) => Ok(c@),
        Err(e) => Err(e@),
    }
}

/// `index` is the first command of `table` typed as `cmd` by this player.
pub open spec fn first_match(table: Seq<CommandDef>, cmd: Seq<char>, is_gm: bool, index: int) -> bool {
    &&& 0 <= index < table.len()
    &&& crate::command::command_matches(table[index], cmd, is_gm)
    &&& forall|j: int| 0 <= j < index ==> !crate::command::command_matches(#[trigger] table[j], cmd, is_gm)
}

fn text_of(args: &Vec<Vec<char>>, pos: usize, name: &str) -> (r: Result<Vec<char>, String>)
    ensures
        match text_arg(views(args@), pos as int, name@) {
            Ok(t) => r matches Ok(v) && v@ == t,
            Err(e) => r matches Err(m) && m@ == e,
        },
{
    arg_text(args, pos, name)
}

fn number_of(args: &Vec<Vec<char>>, pos: usize, name: &str, limit: u64) -> (r: Result<u64, String>)
    ensures
        match number_arg(views(args@), pos as int, name@, limit as nat) {
            Ok(v) => r matches Ok(x) && x == v,
            Err(e) => r matches Err(m) && m@ == e,
        },
{
    arg_number(args, pos, name, limit)
}

/// Reads a command line (the text after `!`) against the ship's command table
/// (see [`chat_command_table`]): the empty line and unknown commands are
/// answered as [`parse_outcome`] answers them; a known command is read with its
/// arguments (see [`command_of`]).
pub fn parse_chat_command(table: &Vec<CommandDef>, line: &str, is_gm: bool) -> (r: Result<ChatCommand, String>)
    ensures
        line@.len() == 0 ==> (r matches Err(e) && e@ == help_text(table@, is_gm)),
        line@.len() > 0 ==> ({
            let args = command_args(line@);
            let cmd = first_arg(args);
            let rest = if args.len() > 0 { args.drop_first() } else { Seq::empty() };
            &&& !known_command(table@, cmd, is_gm) ==> (r matches Err(e) && e@ == unknown_command_text(table@, cmd, is_gm))
            &&& known_command(table@, cmd, is_gm) ==> exists|index: int| #[trigger] first_match(table@, cmd, is_gm, index)
                && parse_view(r) == command_of(index, rest, help_text(table@, is_gm))
        }),
{
    let (index, args) = match parse_outcome(table, line, is_gm) {
        Ok(found) => found,
        Err(e) => {
            return Err(e);
        },
    };
    let ghost rest = views(args@);
    let ghost help = help_text(table@, is_gm);
    let r: Result<ChatCommand, String> = if index == 0 {
        Ok(ChatCommand::MemUsage)
    } else if index == 1 {
        match text_of(&args, 0, "concert_id") {
            Ok(t) => Ok(ChatCommand::StartConcert { concert_id: t }),
            Err(e) => Err(e),
        }
    } else if index == 2 {
        match text_of(&args, 0, "cutscene_id") {
            Ok(t) => Ok(ChatCommand::StartCutscene { cutscene_id: t }),
            Err(e) => Err(e),
        }
    } else if index == 3 {
        match text_of(&args, 0, "action") {
            Ok(t) => Ok(ChatCommand::SendAsConcertObj { action: t }),
            Err(e) => Err(e),
        }
    } else if index == 4 {
        Ok(ChatCommand::GetPosition)
    } else if index == 5 {
        let distance = if args.len() > 0 {
            match text_of(&args, 0, "distance") {
                Ok(t) => Some(t),
                Err(_) => None,
            }
        } else {
            None
        };
        Ok(ChatCommand::GetCloseObjects { distance })
    } else if index == 6 || index == 7 {
        match text_of(&args, 0, "range") {
            Err(e) => Err(e),
            Ok(range) => match number_of(&args, 1, "value", 0xFF) {
                Err(e) => Err(e),
                Ok(v) => Ok(
                    if index == 6 {
                        ChatCommand::SetAccountFlags { range, value: v as u8 }
                    } else {
                        ChatCommand::SetCharacterFlags { range, value: v as u8 }
                    },
                ),
            },
        }
    } else if index == 8 {
        match number_of(&args, 0, "item_type", 0xFFFF) {
            Err(e) => Err(e),
            Ok(t) => match number_of(&args, 1, "id", 0xFFFF) {
                Err(e) => Err(e),
                Ok(i) => match number_of(&args, 2, "subid", 0xFFFF) {
                    Err(e) => Err(e),
                    Ok(s) => Ok(ChatCommand::AddItem { item_type: t as u16, id: i as u16, subid: s as u16 }),
                },
            },
        }
    } else if index == 9 {
        match number_of(&args, 0, "new_level", 0xFFFF) {
            Err(e) => Err(e),
            Ok(l) => Ok(ChatCommand::ChangeLevel { new_level: l as u16 }),
        }
    } else if index == 10 {
        Ok(ChatCommand::CalculatePlayerStats)
    } else if index == 11 {
        match number_of(&args, 0, "quest_id", 0xFFFF_FFFF) {
            Err(e) => Err(e),
            Ok(q) => match number_of(&args, 1, "difficulty_id", 0xFFFF) {
                Err(e) => Err(e),
                Ok(d) => Ok(ChatCommand::ForceQuest { quest_id: q as u32, difficulty_id: d as u16 }),
            },
        }
    } else if index == 12 {
        match text_of(&args, 0, "enemy_name") {
            Ok(t) => Ok(ChatCommand::SpawnEnemy { enemy_name: t }),
            Err(e) => Err(e),
        }
    } else if index == 13 {
        Ok(ChatCommand::DumpLua)
    } else if index == 14 {
        match text_of(&args, 0, "lua") {
            Ok(t) => Ok(ChatCommand::SendLua { lua: t }),
            Err(e) => Err(e),
        }
    } else if index == 15 {
        Ok(ChatCommand::TestEm)
    } else {
        Ok(ChatCommand::Help(crate::command::get_help(table, is_gm)))
    };
    proof {
        if line@.len() > 0 {
            let all = command_args(line@);
            let cmd = first_arg(all);
            assert(first_match(table@, cmd, is_gm, index as int));
        }
    }
    r
}


// ---------------------------------------------------------------------------
// Acting on a chat command
// ---------------------------------------------------------------------------

/// A tag set on the concert object: sent to the player, aimed at object 1,
/// with `object3` (object 1, or the player when `object3_is_player`) and the
/// attribute text.
pub struct SetTagPlan {
    pub receiver: u32,
    pub target_object: u32,
    pub object3_is_player: bool,
    pub object3_id: u32,
    pub attribute: Vec<char>,
}

/// The concert commands' tags: starting concert `id` sets `Start(id)` with
/// object 1 as third object; acting as the concert object sets the action
/// with the player as third object; other commands set no tag.
pub fn concert_tag(cmd: &ChatCommand, player_id: u32) -> (r: Option<SetTagPlan>)
    ensures
        match cmd@ {
            CommandView::StartConcert(id) => r matches Some(p) && p.receiver == player_id && p.target_object == 1
                && !p.object3_is_player && p.object3_id == 1 && p.attribute@ == "Start("@ + id + ")"@,
            CommandView::SendAsConcertObj(action) => r matches Some(p) && p.receiver == player_id && p.target_object == 1
                && p.object3_is_player && p.object3_id == player_id && p.attribute@ == action,
            _ => r is None,
        },
{
    match cmd {
        ChatCommand::StartConcert { concert_id } => {
            let mut attribute: Vec<char> = Vec::new();
            attribute.push('S');
            attribute.push('t');
            attribute.push('a');
            attribute.push('r');
            attribute.push('t');
            attribute.push('(');
            let mut i: usize = 0;
            while i < concert_id.len()
                invariant
                    i <= concert_id@.len(),
                    attribute@ == seq!['S', 't', 'a', 'r', 't', '('] + concert_id@.take(i as int),
                decreases concert_id@.len() - i,
            {
                attribute.push(concert_id[i]);
                i = i + 1;
                proof {
                    assert(attribute@ =~= seq!['S', 't', 'a', 'r', 't', '('] + concert_id@.take(i as int));
                }
            }
            attribute.push(')');
            proof {
                reveal_strlit("Start(");
                reveal_strlit(")");
                assert(concert_id@.take(i as int) =~= concert_id@);
                assert(attribute@ =~= "Start("@ + concert_id@ + ")"@);
            }
            Some(SetTagPlan { receiver: player_id, target_object: 1, object3_is_player: false, object3_id: 1, attribute })
        },
        ChatCommand::SendAsConcertObj { action } => {
            let attribute = crate::text::copy_chars(action);
            Some(SetTagPlan { receiver: player_id, target_object: 1, object3_is_player: true, object3_id: player_id, attribute })
        },
        _ => None,
    }
}

} // verus!
