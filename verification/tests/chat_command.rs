use pso2server::chat_command::{chat_command_table, concert_tag, parse_chat_command, ChatCommand};
use pso2server::command::get_help;

fn chars(s: &str) -> Vec<char> {
    s.chars().collect()
}

#[test]
fn ship_commands_by_name_and_alias() {
    let t = chat_command_table();
    assert_eq!(t.len(), 17);
    assert!(matches!(parse_chat_command(&t, "mem", false), Ok(ChatCommand::MemUsage)));
    assert!(matches!(parse_chat_command(&t, "mem_usage", true), Ok(ChatCommand::MemUsage)));
    assert!(matches!(
        parse_chat_command(&t, "get_close_obj", false),
        Ok(ChatCommand::GetCloseObjects { distance: None })
    ));
    match parse_chat_command(&t, "get_close_objects 2.5", false) {
        Ok(ChatCommand::GetCloseObjects { distance: Some(d) }) => assert_eq!(d, chars("2.5")),
        _ => panic!("expected a distance"),
    }
    match parse_chat_command(&t, "start_con 7", false) {
        Ok(ChatCommand::StartConcert { concert_id }) => assert_eq!(concert_id, chars("7")),
        _ => panic!("expected a concert"),
    }
    match parse_chat_command(&t, "set_lvl 42", true) {
        Ok(ChatCommand::ChangeLevel { new_level }) => assert_eq!(new_level, 42),
        _ => panic!("expected a level"),
    }
    match parse_chat_command(&t, "add_item 1 2 3", true) {
        Ok(ChatCommand::AddItem { item_type, id, subid }) => assert_eq!((item_type, id, subid), (1, 2, 3)),
        _ => panic!("expected an item"),
    }
}

#[test]
fn ship_command_errors() {
    let t = chat_command_table();
    assert_eq!(
        parse_chat_command(&t, "start_con", false).err().unwrap(),
        "{red}Missing argument: concert_id{def}"
    );
    assert_eq!(
        parse_chat_command(&t, "set_acc_flags 1-3 300", false).err().unwrap(),
        "number too large to fit in target type"
    );
    assert_eq!(parse_chat_command(&t, "", true).err().unwrap(), get_help(&t, true));
    assert_eq!(
        parse_chat_command(&t, "foo", false).err().unwrap(),
        format!("{{red}}Unknown command: foo{{def}}\n{}", get_help(&t, false))
    );
    match parse_chat_command(&t, "help", false) {
        Ok(ChatCommand::Help(h)) => assert_eq!(h, get_help(&t, false)),
        _ => panic!("expected help"),
    }
    assert!(get_help(&t, false).starts_with("{def}{yel}Available commands:{def}\n{yel} - mem_usage (aliases: mem){def}: Returns memory usage.\n"));
}

#[test]
fn concert_tags() {
    let t = chat_command_table();
    let start = parse_chat_command(&t, "start_con 12", false).ok().unwrap();
    let tag = concert_tag(&start, 77).unwrap();
    assert_eq!((tag.receiver, tag.target_object, tag.object3_is_player, tag.object3_id), (77, 1, false, 1));
    assert_eq!(tag.attribute, chars("Start(12)"));
    let act = parse_chat_command(&t, "send_con Dance", false).ok().unwrap();
    let tag = concert_tag(&act, 77).unwrap();
    assert_eq!((tag.object3_is_player, tag.object3_id), (true, 77));
    assert_eq!(tag.attribute, chars("Dance"));
    assert!(concert_tag(&ChatCommand::MemUsage, 77).is_none());
}
