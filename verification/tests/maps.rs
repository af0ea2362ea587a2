use rrstat::maps::{find_mapping_for_address, parse_map_line};

fn lines(text: &[&str]) -> Vec<String> {
    text.iter().map(|line| line.to_string()).collect()
}

#[test]
fn parses_a_line_of_the_listing() {
    let mapping =
        parse_map_line("7f45c000-7f45e000 r-xp 00001000 08:01 123456 /path/to/file").unwrap();
    assert_eq!(mapping.start, 0x7f45c000);
    assert_eq!(mapping.end, 0x7f45e000);
    assert_eq!(mapping.perms, "r-xp");
    assert_eq!(mapping.offset, 0x1000);
    assert_eq!(mapping.pathname, "/path/to/file");
}

#[test]
fn a_line_without_pathname_is_a_mapping_without_name() {
    let mapping = parse_map_line("7f45c000-7f45e000 r-xp 00000000 00:00 0").unwrap();
    assert_eq!(mapping.start, 0x7f45c000);
    assert_eq!(mapping.end, 0x7f45e000);
    assert_eq!(mapping.perms, "r-xp");
    assert_eq!(mapping.offset, 0);
    assert_eq!(mapping.pathname, "");
    let spaced = parse_map_line("7f45c000-7f45e000 rw-p 00001000 00:00 0   ").unwrap();
    assert_eq!(spaced.offset, 0x1000);
    assert_eq!(spaced.pathname, "");
}

#[test]
fn a_line_with_fewer_than_five_fields_is_no_mapping() {
    assert!(parse_map_line("7f45c000-7f45e000 rw-p 00000000 00:00").is_none());
    assert!(parse_map_line("7f45c000-7f45e000 rw-p 00000000").is_none());
    assert!(parse_map_line("7f45c000-7f45e000").is_none());
    assert!(parse_map_line("").is_none());
    assert!(parse_map_line("   \t ").is_none());
}

#[test]
fn an_executable_mapping_without_pathname_is_found() {
    let listing = lines(&["1000-2000 r-xp 00000000 00:00 0"]);
    let found = find_mapping_for_address(&listing, 0x1500).unwrap();
    assert_eq!((found.start, found.end), (0x1000, 0x2000));
    assert_eq!(found.pathname, "");
    assert!(find_mapping_for_address(&listing, 0x2000).is_none());
}

#[test]
fn fields_are_separated_by_any_white_space() {
    let mapping = parse_map_line("  10-20\tr-xp  0\u{a0}fd:00\u{2003}7   [vdso]  \n").unwrap();
    assert_eq!(mapping.start, 0x10);
    assert_eq!(mapping.end, 0x20);
    assert_eq!(mapping.perms, "r-xp");
    assert_eq!(mapping.offset, 0);
    assert_eq!(mapping.pathname, "[vdso]");
}

#[test]
fn the_pathname_is_the_sixth_field_only() {
    let mapping = parse_map_line("1000-2000 r-xp 0 08:01 5 /tmp/a file (deleted)").unwrap();
    assert_eq!(mapping.pathname, "/tmp/a");
}

#[test]
fn numbers_are_hexadecimal_in_either_case() {
    let mapping = parse_map_line("00aBcD-FFffFFffFFffFFff r-xp +1F 08:01 5 /bin/x").unwrap();
    assert_eq!(mapping.start, 0xabcd);
    assert_eq!(mapping.end, u64::MAX);
    assert_eq!(mapping.offset, 0x1f);
    let zeros = parse_map_line("000000000000000000000001-2 r-xp 0 08:01 5 /bin/x").unwrap();
    assert_eq!(zeros.start, 1);
    let signed = parse_map_line("+a-+b r-xp 0 08:01 5 /bin/x").unwrap();
    assert_eq!((signed.start, signed.end), (10, 11));
}

#[test]
fn malformed_numbers_are_no_mapping() {
    for line in [
        "10000000000000000-2 r-xp 0 08:01 5 /bin/x",
        "1-10000000000000000 r-xp 0 08:01 5 /bin/x",
        "1-2 r-xp 10000000000000000 08:01 5 /bin/x",
        "0x1-2 r-xp 0 08:01 5 /bin/x",
        "1-2g r-xp 0 08:01 5 /bin/x",
        "1-2 r-xp zz 08:01 5 /bin/x",
        "-2 r-xp 0 08:01 5 /bin/x",
        "1- r-xp 0 08:01 5 /bin/x",
        "+-2 r-xp 0 08:01 5 /bin/x",
        "1-2 r-xp + 08:01 5 /bin/x",
        "1-2 r-xp -1 08:01 5 /bin/x",
    ] {
        assert!(parse_map_line(line).is_none(), "{:?} was taken for a mapping", line);
    }
}

#[test]
fn a_range_has_exactly_one_dash() {
    assert!(parse_map_line("12 r-xp 0 08:01 5 /bin/x").is_none());
    assert!(parse_map_line("1-2-3 r-xp 0 08:01 5 /bin/x").is_none());
    assert!(parse_map_line("1--2 r-xp 0 08:01 5 /bin/x").is_none());
    assert!(parse_map_line("- r-xp 0 08:01 5 /bin/x").is_none());
}

#[test]
fn finds_the_first_executable_mapping_that_holds_the_address() {
    let listing = lines(&[
        "1000-2000 r--p 0 08:01 5 /bin/data",
        "not a mapping at all",
        "1000-2000 r-xp 100 08:01 5 /bin/first",
        "1800-3000 r-xp 200 08:01 5 /bin/second",
    ]);
    let found = find_mapping_for_address(&listing, 0x1900).unwrap();
    assert_eq!(found.pathname, "/bin/first");
    assert_eq!(found.offset, 0x100);
    let later = find_mapping_for_address(&listing, 0x2000).unwrap();
    assert_eq!(later.pathname, "/bin/second");
}

#[test]
fn the_start_is_held_and_the_end_is_not() {
    let listing = lines(&["1000-2000 r-xp 0 08:01 5 /bin/x"]);
    assert!(find_mapping_for_address(&listing, 0x1000).is_some());
    assert!(find_mapping_for_address(&listing, 0x1fff).is_some());
    assert!(find_mapping_for_address(&listing, 0x2000).is_none());
    assert!(find_mapping_for_address(&listing, 0xfff).is_none());
}

#[test]
fn a_mapping_that_is_not_executable_is_passed_over() {
    let listing = lines(&["1000-2000 rw-p 0 08:01 5 /bin/x", "1000-2000 r--p 0 08:01 5 /bin/y"]);
    assert!(find_mapping_for_address(&listing, 0x1500).is_none());
    assert!(find_mapping_for_address(&Vec::new(), 0x1500).is_none());
}
