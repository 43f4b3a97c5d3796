use migration_runner::statements::split_statements;

fn owned(items: &[&str]) -> Vec<String> {
    items.iter().map(|s| s.to_string()).collect()
}

#[test]
fn empty_tail_after_the_last_delimiter_is_discarded() {
    assert_eq!(split_statements("CREATE TABLE t(x int);"), owned(&["CREATE TABLE t(x int)"]));
    assert_eq!(split_statements("CREATE TABLE t(x int);\n"), owned(&["CREATE TABLE t(x int)"]));
    assert_eq!(
        split_statements("CREATE TABLE t(x int);  \n\t "),
        owned(&["CREATE TABLE t(x int)"])
    );
}

#[test]
fn a_comment_after_the_delimiter_is_a_piece_like_any_other() {
    assert_eq!(
        split_statements("CREATE TABLE t(x int); -- trailing\n"),
        owned(&["CREATE TABLE t(x int)", "-- trailing"])
    );
    assert_eq!(
        split_statements("CREATE TABLE t(x int); -- trailing\n;"),
        owned(&["CREATE TABLE t(x int)", "-- trailing"])
    );
}

#[test]
fn statements_come_in_the_order_of_the_script() {
    assert_eq!(
        split_statements("CREATE TABLE a(x int);\nCREATE TABLE b(y int);\nDROP TABLE a;\n"),
        owned(&["CREATE TABLE a(x int)", "CREATE TABLE b(y int)", "DROP TABLE a"])
    );
}

#[test]
fn a_script_without_delimiter_is_one_statement() {
    assert_eq!(split_statements("SELECT 1"), owned(&["SELECT 1"]));
    assert_eq!(split_statements("  SELECT 1\n"), owned(&["SELECT 1"]));
}

#[test]
fn nothing_to_execute() {
    assert_eq!(split_statements(""), Vec::<String>::new());
    assert_eq!(split_statements("   \n\t"), Vec::<String>::new());
    assert_eq!(split_statements(";"), Vec::<String>::new());
    assert_eq!(split_statements(" ; ;\n; "), Vec::<String>::new());
}

#[test]
fn empty_pieces_between_statements_are_discarded() {
    assert_eq!(split_statements("a;;b"), owned(&["a", "b"]));
    assert_eq!(split_statements(";a; ;b;"), owned(&["a", "b"]));
}

#[test]
fn inner_white_space_and_line_breaks_stay() {
    assert_eq!(
        split_statements("CREATE TABLE t (\n  x int,\n  y int\n);\n"),
        owned(&["CREATE TABLE t (\n  x int,\n  y int\n)"])
    );
}

#[test]
fn a_delimiter_in_a_quoted_string_splits_too() {
    assert_eq!(
        split_statements("INSERT INTO t VALUES ('a;b'); SELECT 1;"),
        owned(&["INSERT INTO t VALUES ('a", "b')", "SELECT 1"])
    );
}

#[test]
fn a_delimiter_in_a_block_splits_too() {
    assert_eq!(
        split_statements("DO $$ BEGIN PERFORM 1; END $$;"),
        owned(&["DO $$ BEGIN PERFORM 1", "END $$"])
    );
}

#[test]
fn no_statement_is_empty_or_untrimmed() {
    let samples = ["", ";", "a; ;b;\n", " x ;\ty\t;;; z", "\u{A0};\u{3000}q\u{3000};"];
    for script in samples {
        for statement in split_statements(script) {
            assert!(!statement.is_empty(), "{:?}", script);
            assert_eq!(statement.trim(), statement, "{:?}", script);
        }
    }
}

#[test]
fn statements_agree_with_std() {
    let samples = [
        "",
        ";",
        "a",
        "a;",
        ";a",
        " a ; b ",
        "a;;b;;;c",
        "CREATE TABLE t(x int); -- trailing\n",
        "INSERT INTO t VALUES (';');",
        "\u{e9};\u{1F600} ;\u{2003};z",
        "line one;\r\nline two;\r\n",
    ];
    for script in samples {
        let expected: Vec<String> = script
            .split(";")
            .map(|e| e.trim())
            .filter(|e| !e.is_empty())
            .map(|e| e.to_string())
            .collect();
        assert_eq!(split_statements(script), expected, "{:?}", script);
    }
}
