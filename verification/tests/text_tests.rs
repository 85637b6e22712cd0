use gitprint::text::{format_size, pad_left, pad_right, parse_u64, split_char, to_lower, trim, u64_to_string};

#[test]
fn u64_to_string_values() {
    assert_eq!(u64_to_string(0), "0");
    assert_eq!(u64_to_string(7), "7");
    assert_eq!(u64_to_string(42), "42");
    assert_eq!(u64_to_string(1000), "1000");
    assert_eq!(u64_to_string(u64::MAX), "18446744073709551615");
}

#[test]
fn format_size_bytes() {
    assert_eq!(format_size(0), "0 B");
    assert_eq!(format_size(512), "512 B");
    assert_eq!(format_size(1023), "1023 B");
}

#[test]
fn format_size_kilobytes() {
    assert_eq!(format_size(1024), "1.0 KB");
    assert_eq!(format_size(1229), "1.2 KB");
    assert_eq!(format_size(1048575), "1024.0 KB");
}

#[test]
fn format_size_megabytes() {
    assert_eq!(format_size(1048576), "1.0 MB");
    assert_eq!(format_size(1258291), "1.2 MB");
}

#[test]
fn padding_helpers() {
    assert_eq!(pad_left("7", 4, ' '), "   7");
    assert_eq!(pad_left("12345", 4, ' '), "12345");
    assert_eq!(pad_left("9", 2, '0'), "09");
    assert_eq!(pad_right("Branch", 12, ' '), "Branch      ");
}

#[test]
fn parse_u64_values() {
    assert_eq!(parse_u64("0"), Some(0));
    assert_eq!(parse_u64("30"), Some(30));
    assert_eq!(parse_u64("18446744073709551615"), Some(u64::MAX));
    assert_eq!(parse_u64("18446744073709551616"), None);
    assert_eq!(parse_u64(""), None);
    assert_eq!(parse_u64("1a"), None);
    assert_eq!(parse_u64("-3"), None);
}

#[test]
fn trim_and_lower() {
    assert_eq!(trim("  hello \t\n"), "hello");
    assert_eq!(trim(""), "");
    assert_eq!(trim(" \r "), "");
    assert_eq!(to_lower("MiXeD Case 7"), "mixed case 7");
}

#[test]
fn split_char_parts() {
    let parts = split_char("a\nbb\n\nc", '\n');
    assert_eq!(parts, vec!["a", "bb", "", "c"]);
    assert_eq!(split_char("", '\n'), vec![""]);
}
