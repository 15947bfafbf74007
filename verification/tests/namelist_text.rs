use flexpart_gpu::namelist::{
    extract_namelist_sections, parse_assignments, strip_comments, trim_wrapping_quotes, ConfigMap,
};

fn chars(s: &str) -> Vec<char> {
    s.chars().collect()
}

fn text(v: &[char]) -> String {
    v.iter().collect()
}

#[test]
fn comments_are_cut_outside_quotes_and_lines_end_with_newline() {
    assert_eq!(text(&strip_comments(&chars("a=1 ! note\nb='x!y' # c"))), "a=1 \nb='x!y' \n");
    assert_eq!(text(&strip_comments(&chars("a\r\nb\r"))), "a\nb\r\n");
    assert_eq!(text(&strip_comments(&chars(""))), "");
    assert_eq!(text(&strip_comments(&chars("x\n\n"))), "x\n\n");
    assert_eq!(text(&strip_comments(&chars("s=\"a'#\" # z"))), "s=\"a'#\" \n");
}

#[test]
fn sections_are_found_case_insensitively_in_order() {
    let input = chars("&command a=1 /\n&RELEASE x='/' /\n&Release y=2 /");
    let sections = extract_namelist_sections(&input, "RELEASE").expect("sections");
    assert_eq!(sections.len(), 2);
    assert_eq!(text(&sections[0]), " x='/' ");
    assert_eq!(text(&sections[1]), " y=2 ");
    let none = extract_namelist_sections(&input, "OUTGRID").expect("no sections");
    assert!(none.is_empty());
    let prefix = extract_namelist_sections(&chars("&COMMANDS a=1 /"), "COMMAND").expect("ok");
    assert!(prefix.is_empty());
}

#[test]
fn unterminated_section_is_an_error() {
    let err = extract_namelist_sections(&chars("&SPECIES a='/'"), "SPECIES").expect_err("open");
    assert_eq!(err, "section `&SPECIES` is missing a terminating `/`");
}

#[test]
fn assignments_are_trimmed_lowered_and_unquoted() {
    let map = parse_assignments(&chars("  Name = 'stack' ,LON=7.25\n z1 = \"10\"  ! c\nname=x"))
        .expect("parses");
    assert_eq!(map.get("name").map(String::as_str), Some("x"));
    assert_eq!(map.get("lon").map(String::as_str), Some("7.25"));
    assert_eq!(map.get("z1").map(String::as_str), Some("10"));
    assert_eq!(map.get("Name"), None);
    assert_eq!(map.entries().len(), 3);
}

#[test]
fn malformed_assignments_are_reported() {
    assert_eq!(
        parse_assignments(&chars("key, a=1")).err(),
        Some("expected `=` after key `key`".to_string())
    );
    // Comment stripping ends every line with `\n`, so a key without `=` always
    // meets a line break first.
    assert_eq!(
        parse_assignments(&chars("  key  ")).err(),
        Some("expected `=` after key `key`".to_string())
    );
    assert_eq!(parse_assignments(&chars(" = 3")).err(), Some("empty key before `=`".to_string()));
    assert_eq!(
        parse_assignments(&chars("Key = '' ")).err(),
        Some("empty value for key `key`".to_string())
    );
    assert_eq!(
        parse_assignments(&chars("a = 1,, b=")).err(),
        Some("empty value for key `b`".to_string())
    );
}

#[test]
fn quotes_are_removed_only_when_they_wrap() {
    assert_eq!(text(&trim_wrapping_quotes(&chars("'abc'"))), "abc");
    assert_eq!(text(&trim_wrapping_quotes(&chars("\"a\""))), "a");
    assert_eq!(text(&trim_wrapping_quotes(&chars("'a\""))), "'a\"");
    assert_eq!(text(&trim_wrapping_quotes(&chars("'"))), "'");
    assert_eq!(text(&trim_wrapping_quotes(&chars("''"))), "");
}

#[test]
fn config_map_keeps_the_last_value() {
    let mut map = ConfigMap::new();
    map.insert("a".to_string(), "1".to_string());
    map.insert("b".to_string(), "2".to_string());
    map.insert("a".to_string(), "3".to_string());
    assert_eq!(map.get("a").map(String::as_str), Some("3"));
    assert_eq!(map.get("b").map(String::as_str), Some("2"));
    assert_eq!(map.get("c"), None);
    assert_eq!(map.entries().len(), 2);
}
