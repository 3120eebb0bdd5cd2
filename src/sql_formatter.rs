//! Pretty-printing of generated SQL.
use crate::generator::CodeGenerator;
use vstd::prelude::*;

verus! {

/// Spaces per indentation level of formatted SQL.
pub const INDENT_SPACES: u8 = 4;

/// What `sqlformat::format` makes of `sql`, with no query parameters, `indent`
/// spaces per level and its default casing and line breaks.
pub uninterp spec fn sql_formatted(sql: Seq<char>, indent: u8) -> Seq<char>;

/// Relies on `sqlformat::format`: a deterministic re-indentation of the text, which
/// never fails; malformed SQL is formatted as far as it goes.
#[verifier::external_body]
fn sqlformat_with_spaces(sql: &str, indent: u8) -> (r: String)
    ensures
        r@ == sql_formatted(sql@, indent),
{
    let options = sqlformat::FormatOptions {
        indent: sqlformat::Indent::Spaces(indent),
        ..sqlformat::FormatOptions::default()
    };
    sqlformat::format(sql, &sqlformat::QueryParams::None, options)
}

/// Formats SQL for display.
pub struct SqlFormatter;

impl SqlFormatter {
    /// `sql_code` re-indented with four spaces per level.
    pub fn format(sql_code: &str) -> (r: String)
        ensures
            r@ == sql_formatted(sql_code@, INDENT_SPACES),
    {
        sqlformat_with_spaces(sql_code, INDENT_SPACES)
    }
}

impl CodeGenerator for SqlFormatter {
    fn name() -> &'static str {
        "Sql"
    }

    fn format(&self, code: &str) -> String {
        SqlFormatter::format(code)
    }
}

} // verus!
