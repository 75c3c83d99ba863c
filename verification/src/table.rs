//! A table of text, the widths of its columns, and its aligned rendering.
//!
//! The model of a table is its header, a `Seq<Seq<char>>`, and its rows, a
//! `Seq<Seq<Seq<char>>>`. A column is as wide as the longest field in it,
//! measured in bytes of UTF-8; a field is padded with spaces up to that
//! many characters. A row may be shorter than the header, and then its
//! line ends early; what a row holds beyond the header is left out.

use vstd::prelude::*;
use vstd::utf8::encode_scalar;
use crate::error::{ErrorKind, TextError, empty_headers_message};
use crate::text::byte_len;

verus! {

/// The texts of a vector of strings.
pub open spec fn texts(v: Seq<String>) -> Seq<Seq<char>> {
    Seq::new(v.len(), |i: int| v[i]@)
}

/// The texts of a vector of rows.
pub open spec fn text_rows(v: Seq<Vec<String>>) -> Seq<Seq<Seq<char>>> {
    Seq::new(v.len(), |i: int| texts(v[i]@))
}

/// Widths as natural numbers.
pub open spec fn nats(v: Seq<usize>) -> Seq<nat> {
    Seq::new(v.len(), |i: int| v[i] as nat)
}

/// The width of column `i`: the greatest byte length among the header
/// field and the fields that the rows have at `i`. A row that ends before
/// `i` does not count.
pub open spec fn column_width(header: Seq<Seq<char>>, rows: Seq<Seq<Seq<char>>>, i: int) -> nat
    recommends
        0 <= i < header.len(),
    decreases rows.len(),
{
    if rows.len() == 0 {
        byte_len(header[i])
    } else {
        let above = column_width(header, rows.drop_last(), i);
        let row = rows.last();
        if i < row.len() && byte_len(row[i]) > above {
            byte_len(row[i])
        } else {
            above
        }
    }
}

/// One width for each column of the header.
pub open spec fn column_widths(header: Seq<Seq<char>>, rows: Seq<Seq<Seq<char>>>) -> Seq<nat> {
    Seq::new(header.len(), |i: int| column_width(header, rows, i))
}

/// `n` times the character `c`.
pub open spec fn repeated(c: char, n: nat) -> Seq<char> {
    Seq::new(n, |i: int| c)
}

/// `s`, followed by spaces up to `w` characters where it is shorter.
pub open spec fn padded(s: Seq<char>, w: nat) -> Seq<char> {
    if s.len() >= w {
        s
    } else {
        s + repeated(' ', (w - s.len()) as nat)
    }
}

/// The separator between two cells of a line.
pub open spec fn cell_separator() -> Seq<char> {
    seq![' ', '|', ' ']
}

/// The separator between two columns of the rule under the header.
pub open spec fn rule_separator() -> Seq<char> {
    seq!['-', '+', '-']
}

/// The first `n` cells of a line. Cells are separated by `" | "`; a cell
/// beyond the last column leaves nothing, not even a separator.
pub open spec fn cells_rendered(cells: Seq<Seq<char>>, widths: Seq<nat>, n: nat) -> Seq<char>
    recommends
        n <= cells.len(),
    decreases n,
{
    if n == 0 {
        Seq::empty()
    } else {
        let i = (n - 1) as nat;
        if i < widths.len() {
            cells_rendered(cells, widths, i) + (if i > 0 {
                cell_separator()
            } else {
                Seq::empty()
            }) + padded(cells[i as int], widths[i as int])
        } else {
            cells_rendered(cells, widths, i)
        }
    }
}

/// A whole line: its cells and a newline.
pub open spec fn line_rendered(cells: Seq<Seq<char>>, widths: Seq<nat>) -> Seq<char> {
    cells_rendered(cells, widths, cells.len()).push('\n')
}

/// The first `n` columns of the rule: a run of `-` for each, separated by
/// `"-+-"`.
pub open spec fn dashes_rendered(widths: Seq<nat>, n: nat) -> Seq<char>
    recommends
        n <= widths.len(),
    decreases n,
{
    if n == 0 {
        Seq::empty()
    } else {
        let i = (n - 1) as nat;
        dashes_rendered(widths, i) + (if i > 0 {
            rule_separator()
        } else {
            Seq::empty()
        }) + repeated('-', widths[i as int])
    }
}

/// The rule under the header, with its newline.
pub open spec fn rule_rendered(widths: Seq<nat>) -> Seq<char> {
    dashes_rendered(widths, widths.len()).push('\n')
}

/// The lines of the rows, in order.
pub open spec fn rows_rendered(rows: Seq<Seq<Seq<char>>>, widths: Seq<nat>) -> Seq<char>
    decreases rows.len(),
{
    if rows.len() == 0 {
        Seq::empty()
    } else {
        rows_rendered(rows.drop_last(), widths) + line_rendered(rows.last(), widths)
    }
}

/// The whole table: header line, rule, then one line for each row.
pub open spec fn table_rendered(header: Seq<Seq<char>>, rows: Seq<Seq<Seq<char>>>) -> Seq<char> {
    let widths = column_widths(header, rows);
    line_rendered(header, widths) + rule_rendered(widths) + rows_rendered(rows, widths)
}

/// A header and the rows under it. The header has at least one column;
/// a row may be shorter or longer than the header.
#[derive(Debug)]
pub struct Csv {
    headers: Vec<String>,
    records: Vec<Vec<String>>,
}

impl Csv {
    /// The header's fields.
    pub closed spec fn header(&self) -> Seq<Seq<char>> {
        texts(self.headers@)
    }

    /// The rows' fields, row by row.
    pub closed spec fn rows(&self) -> Seq<Seq<Seq<char>>> {
        text_rows(self.records@)
    }

    /// The invariant: there is a header.
    pub open spec fn wf(&self) -> bool {
        self.header().len() > 0
    }

    /// A table of the given header and rows, unless the header is empty.
    pub fn new(headers: Vec<String>, records: Vec<Vec<String>>) -> (r: Result<Csv, TextError>)
        ensures
            headers@.len() > 0 ==> r is Ok && r->Ok_0.wf() && r->Ok_0.header() == texts(headers@)
                && r->Ok_0.rows() == text_rows(records@),
            headers@.len() == 0 ==> r is Err && r->Err_0.kind == ErrorKind::Parse
                && r->Err_0.message@ == empty_headers_message(),
    {
        if headers.len() == 0 {
            return Err(TextError::empty_headers());
        }
        Ok(Csv { headers, records })
    }

    /// The header's fields.
    pub fn headers(&self) -> (h: &Vec<String>)
        ensures
            texts(h@) == self.header(),
    {
        &self.headers
    }

    /// The rows.
    pub fn records(&self) -> (r: &Vec<Vec<String>>)
        ensures
            text_rows(r@) == self.rows(),
    {
        &self.records
    }

    /// The width of each column.
    pub fn get_column_widths(&self) -> (widths: Vec<usize>)
        ensures
            widths@.len() == self.header().len(),
            nats(widths@) == column_widths(self.header(), self.rows()),
    {
        let ghost header = self.header();
        let ghost rows = self.rows();
        let n = self.headers.len();
        let mut widths: Vec<usize> = Vec::new();
        let mut i: usize = 0;
        while i < n
            invariant
                n == self.headers.len(),
                header == self.header(),
                i <= n,
                header.len() == n,
                widths@.len() == i,
                forall|k: int| 0 <= k < i ==> widths@[k] as nat == byte_len(#[trigger] header[k]),
            decreases n - i,
        {
            widths.push(self.headers[i].as_str().as_bytes().len());
            i += 1;
        }
        let m = self.records.len();
        let mut r: usize = 0;
        while r < m
            invariant
                n == self.headers.len(),
                m == self.records.len(),
                header == self.header(),
                rows == self.rows(),
                r <= m,
                widths@.len() == n,
                header.len() == n,
                forall|k: int|
                    0 <= k < n ==> #[trigger] widths@[k] as nat == column_width(
                        header,
                        rows.take(r as int),
                        k,
                    ),
            decreases m - r,
        {
            let record = &self.records[r];
            let ghost above = rows.take(r as int);
            let ghost here = rows.take(r + 1);
            assert(here.drop_last() =~= above);
            assert(here.last() == texts(record@));
            let len = if record.len() < n {
                record.len()
            } else {
                n
            };
            let mut j: usize = 0;
            while j < len
                invariant
                    j <= len,
                    len <= n,
                    len <= record@.len(),
                    len == n || len == record@.len(),
                    widths@.len() == n,
                    header.len() == n,
                    here.len() > 0,
                    here.drop_last() == above,
                    here.last() == texts(record@),
                    forall|k: int|
                        0 <= k < j ==> #[trigger] widths@[k] as nat == column_width(
                            header,
                            here,
                            k,
                        ),
                    forall|k: int|
                        j <= k < n ==> #[trigger] widths@[k] as nat == column_width(
                            header,
                            above,
                            k,
                        ),
                decreases len - j,
            {
                let field_len = record[j].as_str().as_bytes().len();
                assert(here.last()[j as int] == record@[j as int]@);
                assert(column_width(header, here, j as int) == if field_len as nat > column_width(
                    header,
                    above,
                    j as int,
                ) {
                    field_len as nat
                } else {
                    column_width(header, above, j as int)
                });
                if field_len > widths[j] {
                    widths.set(j, field_len);
                }
                j += 1;
            }
            r += 1;
        }
        assert(rows.take(m as int) =~= rows);
        assert(nats(widths@) =~= column_widths(header, rows));
        widths
    }

    /// The table as text: the header line, a rule under it, and one line
    /// for each row, each line ended by a newline.
    pub fn render(&self) -> (out: String)
        ensures
            out@ == table_rendered(self.header(), self.rows()),
    {
        let widths = self.get_column_widths();
        let mut out = String::new();
        push_line(&mut out, &self.headers, &widths);
        push_rule(&mut out, &widths);
        let ghost start = out@;
        let ghost rows = self.rows();
        let m = self.records.len();
        let mut r: usize = 0;
        while r < m
            invariant
                m == self.records.len(),
                rows == self.rows(),
                r <= m,
                out@ == start + rows_rendered(rows.take(r as int), nats(widths@)),
            decreases m - r,
        {
            proof {
                let here = rows.take(r + 1);
                assert(here.drop_last() =~= rows.take(r as int));
                assert(here.last() == texts(self.records@[r as int]@));
            }
            push_line(&mut out, &self.records[r], &widths);
            r += 1;
        }
        assert(rows.take(m as int) =~= rows);
        out
    }
}

/// A text has at least as many bytes as it has characters.
pub proof fn lemma_chars_within_bytes(s: Seq<char>)
    ensures
        s.len() <= byte_len(s),
    decreases s.len(),
{
    if s.len() > 0 {
        lemma_chars_within_bytes(s.drop_first());
        assert(encode_scalar(s[0] as u32).len() >= 1);
    }
}

/// A column is at least as wide as its header field and as every field
/// that a row has in it, and exactly as wide as one of them.
pub proof fn lemma_column_width_is_greatest(
    header: Seq<Seq<char>>,
    rows: Seq<Seq<Seq<char>>>,
    i: int,
)
    requires
        0 <= i < header.len(),
    ensures
        byte_len(header[i]) <= column_width(header, rows, i),
        forall|r: int|
            0 <= r < rows.len() && i < rows[r].len() ==> byte_len(#[trigger] rows[r][i])
                <= column_width(header, rows, i),
        column_width(header, rows, i) == byte_len(header[i]) || exists|r: int|
            0 <= r < rows.len() && i < rows[r].len() && column_width(header, rows, i) == byte_len(
                #[trigger] rows[r][i],
            ),
    decreases rows.len(),
{
    if rows.len() > 0 {
        let above = rows.drop_last();
        lemma_column_width_is_greatest(header, above, i);
        let last = rows.len() - 1;
        assert forall|r: int| 0 <= r < rows.len() && i < rows[r].len() implies byte_len(
            #[trigger] rows[r][i],
        ) <= column_width(header, rows, i) by {
            if r < last {
                assert(above[r] == rows[r]);
            }
        }
        if column_width(header, rows, i) != byte_len(header[i]) {
            if column_width(header, rows, i) == column_width(header, above, i) {
                let r = choose|r: int|
                    0 <= r < above.len() && i < above[r].len() && column_width(header, above, i)
                        == byte_len(#[trigger] above[r][i]);
                assert(above[r] == rows[r]);
                assert(i < rows[r].len() && column_width(header, rows, i) == byte_len(rows[r][i]));
            } else {
                assert(i < rows[last].len() && column_width(header, rows, i) == byte_len(
                    rows[last][i],
                ));
            }
        }
    }
}

/// Every cell of the header and of the rows that stands in a column fills
/// it: padded, it has as many characters as the column is wide, and it
/// starts with the whole field.
pub proof fn lemma_cells_fill_columns(header: Seq<Seq<char>>, rows: Seq<Seq<Seq<char>>>)
    ensures
        forall|i: int|
            0 <= i < header.len() ==> {
                let cell = padded(#[trigger] header[i], column_widths(header, rows)[i]);
                cell.len() == column_widths(header, rows)[i] && header[i].is_prefix_of(cell)
            },
        forall|r: int, i: int|
            0 <= r < rows.len() && 0 <= i < rows[r].len() && i < header.len() ==> {
                let cell = padded(#[trigger] rows[r][i], column_widths(header, rows)[i]);
                cell.len() == column_widths(header, rows)[i] && rows[r][i].is_prefix_of(cell)
            },
{
    assert forall|i: int| 0 <= i < header.len() implies {
        let cell = padded(#[trigger] header[i], column_widths(header, rows)[i]);
        cell.len() == column_widths(header, rows)[i] && header[i].is_prefix_of(cell)
    } by {
        lemma_column_width_is_greatest(header, rows, i);
        lemma_chars_within_bytes(header[i]);
        let cell = padded(header[i], column_widths(header, rows)[i]);
        assert(cell.subrange(0, header[i].len() as int) =~= header[i]);
    }
    assert forall|r: int, i: int|
        0 <= r < rows.len() && 0 <= i < rows[r].len() && i < header.len() implies {
        let cell = padded(#[trigger] rows[r][i], column_widths(header, rows)[i]);
        cell.len() == column_widths(header, rows)[i] && rows[r][i].is_prefix_of(cell)
    } by {
        lemma_column_width_is_greatest(header, rows, i);
        lemma_chars_within_bytes(rows[r][i]);
        let cell = padded(rows[r][i], column_widths(header, rows)[i]);
        assert(cell.subrange(0, rows[r][i].len() as int) =~= rows[r][i]);
    }
}

/// The cells beyond the last column add nothing to a line.
pub proof fn lemma_cells_beyond_columns(cells: Seq<Seq<char>>, widths: Seq<nat>, n: nat)
    requires
        widths.len() <= n,
    ensures
        cells_rendered(cells, widths, n) == cells_rendered(cells, widths, widths.len()),
    decreases n,
{
    if n > widths.len() {
        lemma_cells_beyond_columns(cells, widths, (n - 1) as nat);
    }
}

/// The rows' lines are nothing at all or end with a newline.
pub proof fn lemma_rows_end_with_newline(rows: Seq<Seq<Seq<char>>>, widths: Seq<nat>)
    ensures
        rows.len() == 0 ==> rows_rendered(rows, widths).len() == 0,
        rows.len() > 0 ==> rows_rendered(rows, widths).len() > 0 && rows_rendered(
            rows,
            widths,
        ).last() == '\n',
{
}

/// A rendered table is never empty and ends with a newline.
pub proof fn lemma_table_ends_with_newline(header: Seq<Seq<char>>, rows: Seq<Seq<Seq<char>>>)
    ensures
        table_rendered(header, rows).len() > 0,
        table_rendered(header, rows).last() == '\n',
{
    lemma_rows_end_with_newline(rows, column_widths(header, rows));
}

/// Appends `n` copies of the one character of `c`.
fn push_repeated(out: &mut String, c: &str, n: usize)
    requires
        c@.len() == 1,
    ensures
        final(out)@ == old(out)@ + repeated(c@[0], n as nat),
{
    let ghost start = out@;
    let mut i: usize = 0;
    while i < n
        invariant
            i <= n,
            c@.len() == 1,
            out@ == start + repeated(c@[0], i as nat),
        decreases n - i,
    {
        out.append(c);
        i += 1;
        assert(out@ =~= start + repeated(c@[0], i as nat));
    }
}

/// Appends `cell`, padded with spaces to `width` characters.
fn push_padded(out: &mut String, cell: &str, width: usize)
    ensures
        final(out)@ == old(out)@ + padded(cell@, width as nat),
{
    proof {
        reveal_strlit(" ");
    }
    out.append(cell);
    let len = cell.unicode_len();
    if len < width {
        push_repeated(out, " ", width - len);
        assert(out@ =~= old(out)@ + padded(cell@, width as nat));
    }
}

/// Appends a line of cells and its newline. Cells beyond the last column
/// are left out.
fn push_line(out: &mut String, cells: &Vec<String>, widths: &Vec<usize>)
    ensures
        final(out)@ == old(out)@ + line_rendered(texts(cells@), nats(widths@)),
{
    let ghost start = out@;
    let ghost line = texts(cells@);
    let n = if cells.len() < widths.len() {
        cells.len()
    } else {
        widths.len()
    };
    let mut i: usize = 0;
    while i < n
        invariant
            n <= cells.len(),
            n <= widths.len(),
            line == texts(cells@),
            i <= n,
            out@ == start + cells_rendered(line, nats(widths@), i as nat),
        decreases n - i,
    {
        if i > 0 {
            out.append(" | ");
            proof {
                reveal_strlit(" | ");
            }
            assert(" | "@ =~= cell_separator());
        }
        push_padded(out, cells[i].as_str(), widths[i]);
        i += 1;
        assert(out@ =~= start + cells_rendered(line, nats(widths@), i as nat));
    }
    proof {
        reveal_strlit("\n");
        if n < cells.len() {
            lemma_cells_beyond_columns(line, nats(widths@), cells.len() as nat);
        }
    }
    out.append("\n");
    assert(out@ =~= start + line_rendered(line, nats(widths@)));
}

/// Appends the rule that stands under the header, and its newline.
fn push_rule(out: &mut String, widths: &Vec<usize>)
    ensures
        final(out)@ == old(out)@ + rule_rendered(nats(widths@)),
{
    proof {
        reveal_strlit("\n");
    }
    let ghost start = out@;
    let n = widths.len();
    let mut i: usize = 0;
    while i < n
        invariant
            n == widths.len(),
            i <= n,
            out@ == start + dashes_rendered(nats(widths@), i as nat),
        decreases n - i,
    {
        proof {
            reveal_strlit("-+-");
            reveal_strlit("-");
        }
        if i > 0 {
            out.append("-+-");
            assert("-+-"@ =~= rule_separator());
        }
        push_repeated(out, "-", widths[i]);
        i += 1;
        assert(out@ =~= start + dashes_rendered(nats(widths@), i as nat));
    }
    out.append("\n");
    assert(out@ =~= start + rule_rendered(nats(widths@)));
}

} // verus!
