use pso2server::flags::{set_bit, Flags};

#[test]
fn test_flags() {
    let mut flags = Flags::new();
    flags.set(10, 1);
    flags.set(20, 2);
    flags.set(30, 3);
    flags.set_param(10, 123);
    assert_eq!(flags.get(10), 1);
    assert_eq!(flags.get(20), 0);
    assert_eq!(flags.get(30), 1);
    assert_eq!(flags.get_param(10), 123);
}

#[test]
fn flag_read_after_write() {
    let mut flags = Flags::new();
    flags.set(7, 1);
    assert_eq!(flags.get(7), 1);
    flags.set(7, 0);
    assert_eq!(flags.get(7), 0);
    flags.set(8, 1);
    assert_eq!(flags.get(7), 0);
    assert_eq!(flags.get(8), 1);
}

#[test]
fn flag_write_is_idempotent() {
    let mut flags = Flags::new();
    flags.set(100, 1);
    flags.set(100, 1);
    assert_eq!(flags.get(100), 1);
    assert_eq!(flags.get(99), 0);
    assert_eq!(flags.get(101), 0);
}

#[test]
fn unset_flags_and_params_read_zero() {
    let flags = Flags::new();
    assert_eq!(flags.get(0), 0);
    assert_eq!(flags.get(123456), 0);
    assert_eq!(flags.get_param(0), 0);
    assert_eq!(flags.get_param(5000), 0);
}

#[test]
fn param_read_after_write() {
    let mut flags = Flags::new();
    flags.set_param(3, 77);
    flags.set_param(1, 5);
    assert_eq!(flags.get_param(3), 77);
    assert_eq!(flags.get_param(1), 5);
    assert_eq!(flags.get_param(2), 0);
    flags.set_param(3, 8);
    assert_eq!(flags.get_param(3), 8);
}

#[test]
fn set_bit_values() {
    assert_eq!(set_bit(0, 0, 1), 1);
    assert_eq!(set_bit(0, 7, 1), 128);
    assert_eq!(set_bit(0xFF, 3, 0), 0xF7);
    assert_eq!(set_bit(0x10, 4, 2), 0x00);
    assert_eq!(set_bit(0x10, 1, 3), 0x12);
}
