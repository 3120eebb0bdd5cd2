use sql_codegen::generator::CodeGenerator;
use sql_codegen::sql_formatter::SqlFormatter;

#[test]
fn format_indents_with_four_spaces() {
    assert_eq!(
        SqlFormatter::format("SELECT count(*),Column1 FROM Table1;"),
        "SELECT\n    count(*),\n    Column1\nFROM\n    Table1;"
    );
}

#[test]
fn format_is_idempotent() {
    for sql in [
        "SELECT * FROM users;",
        "select id, name from users where age > 30 order by name",
        "SELECT count(*),Column1 FROM Table1;",
        "",
    ] {
        let once = SqlFormatter::format(sql);
        assert_eq!(SqlFormatter::format(&once), once);
    }
}

#[test]
fn format_passes_malformed_sql_through() {
    let out = SqlFormatter::format("SELECT FROM WHERE");
    assert!(out.contains("SELECT"));
    assert!(out.contains("WHERE"));
}

#[test]
fn sql_code_generator_formats_like_the_formatter() {
    let sql = "select a from b";
    assert_eq!(SqlFormatter.format(sql), SqlFormatter::format(sql));
    assert_eq!(<SqlFormatter as CodeGenerator>::name(), "Sql");
}
