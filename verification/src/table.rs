use vstd::prelude::*;
use comfy_table::{ColumnConstraint, Table, Width};

verus! {

/// The text that `comfy_table` draws for a table: a header, rows of cells, the
/// width of the whole table in characters and the share of it, in percent,
/// that every column takes.
pub uninterp spec fn table_text(
    header: Seq<Seq<char>>,
    rows: Seq<Seq<Seq<char>>>,
    width: u16,
    share: u16,
) -> Seq<char>;

/// Draws a table with `comfy_table`: a table from `Table::new` gets the
/// header (`set_header`), the rows (`add_rows`), the width (`set_width`) and
/// the same constraint for each of its columns (`column_count`,
/// `set_constraints`), and is written out (`to_string`). The text depends on
/// these four values alone: the width is given, so no terminal is asked for
/// one, and the cells carry no colours.
#[verifier::external_body]
pub(crate) fn render_table(header: &Vec<String>, rows: &Vec<Vec<String>>, width: u16, share: u16) -> (r:
    String)
    ensures
        r@ == table_text(header.deep_view(), rows.deep_view(), width, share),
{
    let mut table = Table::new();
    table.set_header(header).add_rows(rows).set_width(width);
    let columns = table.column_count();
    table.set_constraints(vec![ColumnConstraint::Absolute(Width::Percentage(share)); columns]);
    table.to_string()
}

} // verus!
