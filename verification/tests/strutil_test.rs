use crank::error::Error;
use crank::strutil::{
    concat_str, contains_str, fmt_dec, parse_dec_token, split_lines, starts_with_str, str_eq,
    trim_slice,
};

#[test]
fn fmt_dec_renders_decimals() {
    assert_eq!(fmt_dec(0), "0");
    assert_eq!(fmt_dec(7), "7");
    assert_eq!(fmt_dec(12034), "12034");
    assert_eq!(fmt_dec(u64::MAX), "18446744073709551615");
}

#[test]
fn parse_dec_token_reads_what_fmt_dec_writes() {
    for n in [0u64, 1, 9, 10, 4096, u64::MAX] {
        assert_eq!(parse_dec_token(&fmt_dec(n)), Some(n));
    }
    assert_eq!(parse_dec_token(""), None);
    assert_eq!(parse_dec_token("12a"), None);
    assert_eq!(parse_dec_token("18446744073709551616"), None);
    assert_eq!(parse_dec_token("00042"), Some(42));
}

#[test]
fn trim_slice_strips_both_ends() {
    assert_eq!(trim_slice("  a b \t"), "a b");
    assert_eq!(trim_slice(""), "");
    assert_eq!(trim_slice(" \t\r\n"), "");
}

#[test]
fn split_lines_keeps_empty_lines() {
    assert_eq!(split_lines("a\nb"), vec!["a", "b"]);
    assert_eq!(split_lines("a\n"), vec!["a", ""]);
    assert_eq!(split_lines(""), vec![""]);
}

#[test]
fn string_predicates() {
    assert!(str_eq("abc", "abc"));
    assert!(!str_eq("abc", "abd"));
    assert!(starts_with_str("usb-x", "usb-"));
    assert!(!starts_with_str("us", "usb-"));
    assert!(contains_str("/dev/ttyACM0", "tty"));
    assert!(!contains_str("/dev/sda", "tty"));
    assert_eq!(concat_str("a", "b"), "ab");
}

#[test]
fn error_messages_name_their_kind() {
    let e = Error::ToolInvocationFailure {
        command: String::from("gcc -c x.c"),
        detail: String::from("exit status: 1"),
    };
    assert_eq!(e.message(), "command failed: gcc -c x.c: exit status: 1");
    assert!(!e.is_config_error());
    let e = Error::FilesystemFailure {
        path: String::from("/p/a.png"),
        detail: String::from("not found"),
    };
    assert_eq!(e.message(), "filesystem failure at /p/a.png: not found");
    let e = Error::ConfigError { message: String::from("bad manifest") };
    assert_eq!(e.message(), "configuration error: bad manifest");
    assert!(e.is_config_error());
}
