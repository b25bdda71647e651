use pso2server::chat::{
    chat_route, parse_flag_range, parse_usize, set_flag_range, ChatRoute, FlagRange,
    MessageChannel,
};
use pso2server::flags::Flags;

fn chars(s: &str) -> Vec<char> {
    s.chars().collect()
}

#[test]
fn parse_usize_values() {
    let s = chars("+42");
    assert_eq!(parse_usize(&s, 0, s.len()), Some(42));
    let s = chars("0017");
    assert_eq!(parse_usize(&s, 0, s.len()), Some(17));
    let s = chars("");
    assert_eq!(parse_usize(&s, 0, 0), None);
    let s = chars("+");
    assert_eq!(parse_usize(&s, 0, 1), None);
    let s = chars("12a");
    assert_eq!(parse_usize(&s, 0, 3), None);
    assert_eq!(parse_usize(&s, 0, 2), Some(12));
    let s = chars("-5");
    assert_eq!(parse_usize(&s, 0, 2), None);
}

#[test]
fn parse_usize_overflow() {
    let max = usize::MAX.to_string();
    let s = chars(&max);
    assert_eq!(parse_usize(&s, 0, s.len()), Some(usize::MAX));
    let over = format!("{}0", max);
    let s = chars(&over);
    assert_eq!(parse_usize(&s, 0, s.len()), None);
}

#[test]
fn parse_usize_matches_std() {
    for text in ["0", "+0", "99", "+", "++1", " 1", "1 ", "007", "18446744073709551615", "18446744073709551616"] {
        let s = chars(text);
        assert_eq!(parse_usize(&s, 0, s.len()), text.parse::<usize>().ok(), "{}", text);
    }
}

#[test]
fn flag_range_forms() {
    assert_eq!(parse_flag_range("5"), FlagRange::Single(5));
    assert_eq!(parse_flag_range("3-7"), FlagRange::Range { lower: 3, upper: 7 });
    assert_eq!(parse_flag_range("7-7"), FlagRange::Range { lower: 7, upper: 7 });
    assert_eq!(parse_flag_range("7-3"), FlagRange::InvalidRange);
    assert_eq!(parse_flag_range("a-3"), FlagRange::InvalidRange);
    assert_eq!(parse_flag_range("3-"), FlagRange::InvalidRange);
    assert_eq!(parse_flag_range("1-2-3"), FlagRange::Range { lower: 1, upper: 2 });
    assert_eq!(parse_flag_range("abc"), FlagRange::InvalidId);
    assert_eq!(parse_flag_range(""), FlagRange::InvalidId);
}

#[test]
fn set_flag_range_sets_only_the_range() {
    let mut flags = Flags::new();
    flags.set(2, 1);
    flags.set(9, 1);
    set_flag_range(&mut flags, 3, 6, 1);
    for i in 0..12 {
        let expected = if (3..=6).contains(&i) || i == 2 || i == 9 { 1 } else { 0 };
        assert_eq!(flags.get(i), expected, "flag {}", i);
    }
    set_flag_range(&mut flags, 2, 4, 0);
    assert_eq!(flags.get(2), 0);
    assert_eq!(flags.get(4), 0);
    assert_eq!(flags.get(5), 1);
}

#[test]
fn chat_routes() {
    assert_eq!(chat_route("!help", MessageChannel::Zone), ChatRoute::Command);
    assert_eq!(chat_route("!", MessageChannel::Party), ChatRoute::Command);
    assert_eq!(chat_route("hello", MessageChannel::Zone), ChatRoute::Zone);
    assert_eq!(chat_route("hello", MessageChannel::Party), ChatRoute::Party);
    assert_eq!(chat_route("hello", MessageChannel::Other), ChatRoute::Drop);
    assert_eq!(chat_route("", MessageChannel::Other), ChatRoute::Drop);
    assert_eq!(chat_route(" !x", MessageChannel::Zone), ChatRoute::Zone);
}
