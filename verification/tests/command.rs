use pso2server::command::{
    create_help_msg, find_command, parse_outcome, get_help, ident_to_cmd_name, resolve_command, split_command,
    CmdType, CommandDef, Resolved,
};

fn args(line: &str) -> Vec<String> {
    split_command(line).into_iter().map(|a| a.into_iter().collect()).collect()
}

/// How the server splits a command line with the standard string functions.
fn std_split(string: &str) -> Vec<String> {
    string
        .split_terminator('"')
        .filter(|x| !x.is_empty())
        .enumerate()
        .map(|(i, s)| if i % 2 == 0 { s.split_terminator(' ') } else { s.split_terminator('"') })
        .flatten()
        .map(|s| s.to_string())
        .collect()
}

#[test]
fn splitting_command_lines() {
    assert_eq!(args("set_flag 1-5 1"), vec!["set_flag", "1-5", "1"]);
    assert_eq!(args("say \"hello there\" now"), vec!["say", "hello there", "", "now"]);
    assert_eq!(args("a  b "), vec!["a", "", "b"]);
    assert_eq!(args(""), Vec::<String>::new());
    assert_eq!(args("\"\"x"), vec!["x"]);
    for line in ["x", " x", "x\"y z\"w v", "\"a\"\"b\"", "a \" b", "  ", "q \"\" r", "é ü\"ß\""] {
        assert_eq!(args(line), std_split(line), "{line:?}");
    }
}

#[test]
fn command_names_from_variants() {
    assert_eq!(ident_to_cmd_name("MemUsage"), "mem_usage");
    assert_eq!(ident_to_cmd_name("Help"), "help");
    assert_eq!(ident_to_cmd_name("TestEm"), "test_em");
    assert_eq!(ident_to_cmd_name("ABC"), "a_b_c");
    assert_eq!(ident_to_cmd_name(""), "");
}

fn def(name: &str, args: &[&str], aliases: &[&str], doc: &str, cmd_type: CmdType, default_args: bool) -> CommandDef {
    CommandDef {
        name: name.to_string(),
        args: args.iter().map(|s| s.to_string()).collect(),
        aliases: aliases.iter().map(|s| s.to_string()).collect(),
        doc: doc.to_string(),
        cmd_type,
        default_args,
        is_help: false,
    }
}

fn table() -> Vec<CommandDef> {
    let mut help = def("help", &[], &[], "", CmdType::AllPlayer, false);
    help.is_help = true;
    vec![
        def("mem_usage", &[], &[], " Memory usage", CmdType::AllPlayer, false),
        def("set_flag", &["range", "value"], &["sf"], "", CmdType::GmOnly, false),
        def("report", &["text"], &["r", "rep"], " Sends a report", CmdType::NotGmOnly, true),
        help,
    ]
}

#[test]
fn help_lines() {
    let t = table();
    assert_eq!(create_help_msg(&t[0]), "{yel} - mem_usage{def}: Memory usage\n");
    assert_eq!(create_help_msg(&t[1]), "{yel} - set_flag {range} {value} (aliases: sf){def}\n");
    assert_eq!(
        create_help_msg(&t[2]),
        "{yel} - report [text] (aliases: r, rep){def}: Sends a report\n"
    );
}

#[test]
fn help_texts() {
    let t = table();
    let header = "{def}{yel}Available commands:{def}\n";
    assert_eq!(
        get_help(&t, true),
        format!("{header}{}{}", create_help_msg(&t[0]), create_help_msg(&t[1]))
    );
    assert_eq!(
        get_help(&t, false),
        format!("{header}{}{}", create_help_msg(&t[0]), create_help_msg(&t[2]))
    );
}

#[test]
fn finding_commands() {
    let t = table();
    let c = |s: &str| s.chars().collect::<Vec<char>>();
    assert_eq!(find_command(&t, &c("mem_usage"), false), Some(0));
    assert_eq!(find_command(&t, &c("sf"), true), Some(1));
    assert_eq!(find_command(&t, &c("sf"), false), None);
    assert_eq!(find_command(&t, &c("rep"), false), Some(2));
    assert_eq!(find_command(&t, &c("rep"), true), None);
    assert_eq!(find_command(&t, &c("help"), true), Some(3));
    assert_eq!(find_command(&t, &c("nothing"), true), None);
}

#[test]
fn resolving_lines() {
    let t = table();
    assert!(matches!(resolve_command(&t, "", true), Resolved::Empty));
    match resolve_command(&t, "set_flag 1-3 \"1\"", true) {
        Resolved::Found { index, args } => {
            assert_eq!(index, 1);
            let args: Vec<String> = args.into_iter().map(|a| a.into_iter().collect()).collect();
            assert_eq!(args, vec!["1-3", "1"]);
        }
        _ => panic!("expected a command"),
    }
    match resolve_command(&t, "fly away", false) {
        Resolved::Unknown(cmd) => assert_eq!(cmd.into_iter().collect::<String>(), "fly"),
        _ => panic!("expected an unknown command"),
    }
}

use pso2server::command::{arg_number, arg_text, parse_unsigned, IntParseError};

fn kind_of(e: &std::num::ParseIntError) -> IntParseError {
    match e.kind() {
        std::num::IntErrorKind::Empty => IntParseError::Empty,
        std::num::IntErrorKind::InvalidDigit => IntParseError::InvalidDigit,
        std::num::IntErrorKind::PosOverflow => IntParseError::PosOverflow,
        other => panic!("unexpected {other:?}"),
    }
}

#[test]
fn unsigned_numbers_read_like_std() {
    for text in ["", "+", "-", "0", "+7", "-7", "255", "256", "2560x", "x1", "25a", "007", "99999999999", " 1"] {
        let chars: Vec<char> = text.chars().collect();
        let ours = parse_unsigned(&chars, u8::MAX as u64);
        let std = text.parse::<u8>();
        match (&ours, &std) {
            (Ok(a), Ok(b)) => assert_eq!(*a, *b as u64, "{text:?}"),
            (Err(a), Err(b)) => assert_eq!(*a, kind_of(b), "{text:?}"),
            _ => panic!("{text:?}: {ours:?} vs {std:?}"),
        }
        let ours32 = parse_unsigned(&chars, u32::MAX as u64);
        assert_eq!(ours32.ok(), text.parse::<u32>().ok().map(|v| v as u64), "{text:?}");
    }
}

#[test]
fn argument_messages() {
    let args = vec!["12".chars().collect::<Vec<char>>(), "x".chars().collect()];
    assert_eq!(arg_number(&args, 0, "value", 255), Ok(12));
    assert_eq!(arg_number(&args, 1, "value", 255), Err("x".parse::<u8>().unwrap_err().to_string()));
    assert_eq!(arg_number(&args, 2, "value", 255), Err("{red}Missing argument: value{def}".to_string()));
    assert_eq!(arg_text(&args, 0, "range"), Ok(vec!['1', '2']));
    assert_eq!(arg_text(&args, 5, "range"), Err("{red}Missing argument: range{def}".to_string()));
    let big = vec!["300".chars().collect::<Vec<char>>()];
    assert_eq!(arg_number(&big, 0, "value", 255), Err("300".parse::<u8>().unwrap_err().to_string()));
}

#[test]
fn parse_outcomes() {
    let t = table();
    assert_eq!(parse_outcome(&t, "", false), Err(get_help(&t, false)));
    assert_eq!(
        parse_outcome(&t, "foo", true),
        Err(format!("{{red}}Unknown command: foo{{def}}\n{}", get_help(&t, true)))
    );
    assert_eq!(
        parse_outcome(&t, "rep broken door", false),
        Ok((2, vec!["broken".chars().collect::<Vec<char>>(), "door".chars().collect()]))
    );
    assert_eq!(parse_outcome(&t, "mem_usage", true), Ok((0, vec![])));
}
