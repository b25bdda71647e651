use pso2server::master::ship_list_entry;
use pso2server::text::{same_text, to_decimal};

#[test]
fn decimal_numbers() {
    assert_eq!(to_decimal(0), "0");
    assert_eq!(to_decimal(7), "7");
    assert_eq!(to_decimal(10), "10");
    assert_eq!(to_decimal(4040), "4040");
    assert_eq!(to_decimal(u64::MAX), u64::MAX.to_string());
}

#[test]
fn text_equality() {
    assert!(same_text("abc", "abc"));
    assert!(!same_text("abc", "abd"));
    assert!(!same_text("ab", "abc"));
    assert!(same_text("", ""));
}

#[test]
fn ship_list_entries() {
    let e = ship_list_entry(3);
    assert_eq!((e.id, e.name.as_str(), e.order), (3000, "Ship03", 3));
    let e = ship_list_entry(12);
    assert_eq!((e.id, e.name.as_str(), e.order), (12000, "Ship12", 12));
}
