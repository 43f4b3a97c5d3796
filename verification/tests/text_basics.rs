use migration_runner::protocol::{script_file, skip_message, Direction};
use migration_runner::text::{char_is_space, chars_of, split_trimmed};
use migration_runner::tracker::{exists_sql, record_sql, schema_sql, unrecord_sql};

fn owned(items: &[&str]) -> Vec<String> {
    items.iter().map(|s| s.to_string()).collect()
}

#[test]
fn white_space_is_what_std_calls_white_space() {
    let mut code: u32 = 0;
    while code <= 0x10FFFF {
        if let Some(c) = char::from_u32(code) {
            assert_eq!(char_is_space(c), c.is_whitespace(), "U+{:04X}", code);
        }
        code += 1;
    }
}

#[test]
fn white_space_samples() {
    assert!(char_is_space(' '));
    assert!(char_is_space('\t'));
    assert!(char_is_space('\n'));
    assert!(char_is_space('\r'));
    assert!(char_is_space('\u{0B}'));
    assert!(char_is_space('\u{0C}'));
    assert!(char_is_space('\u{85}'));
    assert!(char_is_space('\u{A0}'));
    assert!(char_is_space('\u{1680}'));
    assert!(char_is_space('\u{2000}'));
    assert!(char_is_space('\u{200A}'));
    assert!(char_is_space('\u{2028}'));
    assert!(char_is_space('\u{2029}'));
    assert!(char_is_space('\u{202F}'));
    assert!(char_is_space('\u{205F}'));
    assert!(char_is_space('\u{3000}'));
    assert!(!char_is_space('a'));
    assert!(!char_is_space(';'));
    assert!(!char_is_space('\u{08}'));
    assert!(!char_is_space('\u{0E}'));
    assert!(!char_is_space('\u{200B}'));
    assert!(!char_is_space('\u{180E}'));
    assert!(!char_is_space('\u{FEFF}'));
}

#[test]
fn chars_of_keeps_every_character_in_order() {
    assert_eq!(chars_of(""), Vec::<char>::new());
    assert_eq!(chars_of("ab;c"), vec!['a', 'b', ';', 'c']);
    assert_eq!(chars_of("h\u{e9}llo \u{1F600}"), vec!['h', '\u{e9}', 'l', 'l', 'o', ' ', '\u{1F600}']);
}

#[test]
fn split_trimmed_has_one_piece_more_than_delimiters() {
    assert_eq!(split_trimmed("", ';'), owned(&[""]));
    assert_eq!(split_trimmed(";", ';'), owned(&["", ""]));
    assert_eq!(split_trimmed(";;", ';'), owned(&["", "", ""]));
    assert_eq!(split_trimmed("a", ';'), owned(&["a"]));
    assert_eq!(split_trimmed("a;", ';'), owned(&["a", ""]));
    assert_eq!(split_trimmed(";a", ';'), owned(&["", "a"]));
    assert_eq!(split_trimmed("a;b;c", ';'), owned(&["a", "b", "c"]));
}

#[test]
fn split_trimmed_trims_each_piece() {
    assert_eq!(split_trimmed("  a  ;\tb c\n;   ", ';'), owned(&["a", "b c", ""]));
    assert_eq!(split_trimmed(" \u{A0}x\u{3000} ,y", ','), owned(&["x", "y"]));
    assert_eq!(split_trimmed("a b", ';'), owned(&["a b"]));
    assert_eq!(split_trimmed("  inner  space  ", ';'), owned(&["inner  space"]));
}

#[test]
fn split_trimmed_counts_characters_not_bytes() {
    assert_eq!(
        split_trimmed("\u{e9}t\u{e9} ; \u{1F600}\u{1F600};z", ';'),
        owned(&["\u{e9}t\u{e9}", "\u{1F600}\u{1F600}", "z"])
    );
}

#[test]
fn split_trimmed_agrees_with_std() {
    let samples = [
        "",
        " ",
        ";",
        "a;b",
        " a ; b ;",
        ";;a;;",
        "one\ntwo\n\nthree",
        "x\r\ny\r\n",
        "\u{2003}wide\u{2003};\u{200B}zero\u{200B}",
        "CREATE TABLE t(x int); -- trailing\n",
    ];
    for d in [';', '\n', ' ', 'a'] {
        for s in samples {
            let expected: Vec<String> = s.split(d).map(|p| p.trim().to_string()).collect();
            assert_eq!(split_trimmed(s, d), expected, "{:?} at {:?}", s, d);
        }
    }
}

#[test]
fn skip_message_when_applying() {
    assert_eq!(
        skip_message(Direction::Apply, "users"),
        "migration entry for users already exists"
    );
    assert_eq!(skip_message(Direction::Apply, ""), "migration entry for  already exists");
}

#[test]
fn skip_message_when_reverting() {
    assert_eq!(skip_message(Direction::Revert, "users"), "migration users did not exist");
}

#[test]
fn script_file_by_direction() {
    assert_eq!(script_file(Direction::Apply), "up.sql");
    assert_eq!(script_file(Direction::Revert), "down.sql");
}

#[test]
fn tracker_statements() {
    assert_eq!(
        schema_sql(),
        "CREATE TABLE IF NOT EXISTS _migrations (name VARCHAR PRIMARY KEY, created_at TIMESTAMP NOT NULL DEFAULT NOW())"
    );
    assert_eq!(exists_sql(), "SELECT EXISTS (SELECT 1 FROM _migrations WHERE name = $1)");
    assert_eq!(record_sql(), "INSERT INTO _migrations (name) VALUES ($1)");
    assert_eq!(unrecord_sql(), "DELETE FROM _migrations WHERE name = $1");
}
