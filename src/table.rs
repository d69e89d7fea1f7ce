//! Lays rows out as a table of text fields under a fixed header, and encodes
//! that table as delimited text.
use vstd::prelude::*;
use vstd::utf8::{decode_utf8, valid_utf8};
use crate::model::{records_view, CommentRecord, RecordView};

verus! {

/// The column names, in column order.
pub open spec fn header_fields() -> Seq<Seq<char>> {
    seq![
        seq!['c', 'o', 'm', 'm', 'e', 'n', 't', '_', 'i', 'd'],
        seq!['p', 'a', 'r', 'e', 'n', 't', '_', 'i', 'd'],
        seq!['v', 'i', 'd', 'e', 'o', '_', 'i', 'd'],
        seq!['a', 'u', 't', 'h', 'o', 'r'],
        seq!['a', 'u', 't', 'h', 'o', 'r', '_', 'c', 'h', 'a', 'n', 'n', 'e', 'l', '_', 'i', 'd'],
        seq!['p', 'u', 'b', 'l', 'i', 's', 'h', 'e', 'd', '_', 'a', 't'],
        seq!['l', 'i', 'k', 'e', '_', 'c', 'o', 'u', 'n', 't'],
        seq!['t', 'e', 'x', 't'],
    ]
}

pub open spec fn digit_char(d: int) -> char {
    if d == 0 { '0' } else if d == 1 { '1' } else if d == 2 { '2' } else if d == 3 { '3' }
    else if d == 4 { '4' } else if d == 5 { '5' } else if d == 6 { '6' } else if d == 7 { '7' }
    else if d == 8 { '8' } else { '9' }
}

/// The decimal digits of a natural number, without leading zeros.
pub open spec fn digits(n: nat) -> Seq<char>
    decreases n,
{
    if n < 10 {
        seq![digit_char(n as int)]
    } else {
        digits(n / 10).push(digit_char((n % 10) as int))
    }
}

/// The decimal form of an integer, with `-` before a negative one.
pub open spec fn decimal(n: int) -> Seq<char> {
    if n < 0 {
        seq!['-'] + digits((-n) as nat)
    } else {
        digits(n as nat)
    }
}

/// The fields of a row, in column order.
pub open spec fn row_fields(r: RecordView) -> Seq<Seq<char>> {
    seq![r.comment_id, r.parent_id, r.video_id, r.author, r.author_channel_id, r.published_at, decimal(r.like_count), r.text]
}

pub open spec fn table_view(t: Seq<Vec<String>>) -> Seq<Seq<Seq<char>>> {
    t.map_values(|row: Vec<String>| row@.map_values(|f: String| f@))
}

/// The header followed by one line of fields per row, in order.
pub open spec fn layout(rows: Seq<RecordView>) -> Seq<Seq<Seq<char>>> {
    seq![header_fields()] + rows.map_values(|r: RecordView| row_fields(r))
}

/// A field must be quoted where it holds a delimiter, a quote or a line break.
pub open spec fn needs_quotes(f: Seq<char>) -> bool {
    exists|i: int| 0 <= i < f.len() && (f[i] == ',' || f[i] == '"' || f[i] == '\r' || f[i] == '\n')
}

/// `f` with each quote doubled.
pub open spec fn double_quotes(f: Seq<char>) -> Seq<char>
    decreases f.len(),
{
    if f.len() == 0 {
        Seq::empty()
    } else {
        double_quotes(f.drop_last()) + if f.last() == '"' {
            seq!['"', '"']
        } else {
            seq![f.last()]
        }
    }
}

/// A field as written: in quotes, with its quotes doubled, where it needs
/// them; else as it is.
pub open spec fn csv_field(f: Seq<char>) -> Seq<char> {
    if needs_quotes(f) {
        seq!['"'] + double_quotes(f) + seq!['"']
    } else {
        f
    }
}

/// The fields of a record as written, separated by commas.
pub open spec fn csv_fields(fs: Seq<Seq<char>>) -> Seq<char>
    decreases fs.len(),
{
    if fs.len() == 0 {
        Seq::empty()
    } else if fs.len() == 1 {
        csv_field(fs[0])
    } else {
        csv_fields(fs.drop_last()) + seq![','] + csv_field(fs.last())
    }
}

/// A table as delimited text: each record on a line of its own, ended by `\n`.
pub open spec fn csv_document(table: Seq<Seq<Seq<char>>>) -> Seq<char>
    decreases table.len(),
{
    if table.len() == 0 {
        Seq::empty()
    } else {
        csv_document(table.drop_last()) + csv_fields(table.last()) + seq!['\n']
    }
}

/// Every record of the table has as many fields as the first.
pub open spec fn uniform(table: Seq<Vec<String>>) -> bool {
    forall|i: int| 0 <= i < table.len() ==> #[trigger] table[i]@.len() == table[0]@.len()
}

/// Every record of the table has at least two fields.
pub open spec fn multi_field(table: Seq<Vec<String>>) -> bool {
    forall|i: int| 0 <= i < table.len() ==> #[trigger] table[i]@.len() >= 2
}

#[verifier::external_type_specification]
#[verifier::external_body]
pub struct ExCsvError(csv::Error);

/// Relies on `csv::Writer::from_writer`, `write_record` and `into_inner`
/// over an in-memory buffer to encode `table`, one record per line. With the
/// default settings the writer quotes a field only where it holds `,`, `"`,
/// `\r` or `\n`, doubles quotes inside quotes, and ends each record with
/// `\n`; it fails only on records of unequal length or a failed write, and
/// writing to a `Vec` does not fail. (A record with no bytes at all is
/// written as `""`, so the text is stated for records of two fields or more.)
#[verifier::external_body]
fn encode_csv(table: &Vec<Vec<String>>) -> (r: Result<Vec<u8>, csv::Error>)
    ensures
        uniform(table@) ==> r is Ok,
        r is Ok && multi_field(table@) ==> valid_utf8(r->Ok_0@) && decode_utf8(r->Ok_0@) == csv_document(
            table_view(table@),
        ),
{
    let mut w = csv::Writer::from_writer(Vec::new());
    for record in table {
        w.write_record(record)?;
    }
    w.into_inner().map_err(|e| csv::Error::from(e.into_error()))
}

fn digit_text(d: u64) -> (r: &'static str)
    requires
        d < 10,
    ensures
        r@ == seq![digit_char(d as int)],
{
    proof {
        reveal_strlit("0");
        reveal_strlit("1");
        reveal_strlit("2");
        reveal_strlit("3");
        reveal_strlit("4");
        reveal_strlit("5");
        reveal_strlit("6");
        reveal_strlit("7");
        reveal_strlit("8");
        reveal_strlit("9");
    }
    let r = if d == 0 { "0" } else if d == 1 { "1" } else if d == 2 { "2" } else if d == 3 { "3" }
    else if d == 4 { "4" } else if d == 5 { "5" } else if d == 6 { "6" } else if d == 7 { "7" }
    else if d == 8 { "8" } else { "9" };
    assert(r@ =~= seq![digit_char(d as int)]);
    r
}

fn append_digits(out: &mut String, n: u64)
    ensures
        final(out)@ == old(out)@ + digits(n as nat),
    decreases n,
{
    if n < 10 {
        out.append(digit_text(n));
    } else {
        append_digits(out, n / 10);
        out.append(digit_text(n % 10));
        proof {
            assert(digits(n as nat) == digits((n / 10) as nat).push(digit_char((n % 10) as int)));
            assert(old(out)@ + digits((n / 10) as nat) + seq![digit_char((n % 10) as int)]
                =~= old(out)@ + digits(n as nat));
        }
    }
}

/// The decimal form of `n`.
pub fn decimal_text(n: i64) -> (r: String)
    ensures
        r@ == decimal(n as int),
{
    let mut out = String::new();
    if n < 0 {
        proof {
            reveal_strlit("-");
        }
        out.append("-");
        let m: u64 = (0i128 - n as i128) as u64;
        append_digits(&mut out, m);
        assert(out@ =~= decimal(n as int));
    } else {
        append_digits(&mut out, n as u64);
        assert(out@ =~= decimal(n as int));
    }
    out
}

/// The column names, in column order.
pub fn header() -> (r: Vec<String>)
    ensures
        r@.map_values(|f: String| f@) == header_fields(),
{
    proof {
        reveal_strlit("comment_id");
        reveal_strlit("parent_id");
        reveal_strlit("video_id");
        reveal_strlit("author");
        reveal_strlit("author_channel_id");
        reveal_strlit("published_at");
        reveal_strlit("like_count");
        reveal_strlit("text");
    }
    let r = vec![
        String::from_str("comment_id"),
        String::from_str("parent_id"),
        String::from_str("video_id"),
        String::from_str("author"),
        String::from_str("author_channel_id"),
        String::from_str("published_at"),
        String::from_str("like_count"),
        String::from_str("text"),
    ];
    proof {
        let v = r@.map_values(|f: String| f@);
        let h = header_fields();
        assert(v[0] =~= h[0]);
        assert(v[1] =~= h[1]);
        assert(v[2] =~= h[2]);
        assert(v[3] =~= h[3]);
        assert(v[4] =~= h[4]);
        assert(v[5] =~= h[5]);
        assert(v[6] =~= h[6]);
        assert(v[7] =~= h[7]);
        assert(v =~= h);
    }
    r
}

/// The fields of one row, in column order.
pub fn record_fields(rec: &CommentRecord) -> (r: Vec<String>)
    ensures
        r@.map_values(|f: String| f@) == row_fields(rec@),
{
    let r = vec![
        rec.comment_id.clone(),
        rec.parent_id.clone(),
        rec.video_id.clone(),
        rec.author.clone(),
        rec.author_channel_id.clone(),
        rec.published_at.clone(),
        decimal_text(rec.like_count),
        rec.text.clone(),
    ];
    assert(r@.map_values(|f: String| f@) =~= row_fields(rec@));
    r
}

/// The header followed by the fields of each row, in order.
pub fn layout_rows(rows: &Vec<CommentRecord>) -> (r: Vec<Vec<String>>)
    ensures
        table_view(r@) == layout(records_view(rows@)),
{
    let mut r: Vec<Vec<String>> = Vec::new();
    r.push(header());
    let n = rows.len();
    let mut i: usize = 0;
    while i < n
        invariant
            n == rows@.len(),
            i <= n,
            table_view(r@) == layout(records_view(rows@.subrange(0, i as int))),
        decreases n - i,
    {
        let ghost before = r@;
        let f = record_fields(&rows[i]);
        r.push(f);
        proof {
            assert(records_view(rows@.subrange(0, i + 1)) =~= records_view(rows@.subrange(0, i as int)).push(rows@[i as int]@));
            assert(table_view(r@) =~= table_view(before).push(row_fields(rows@[i as int]@)));
            assert(layout(records_view(rows@.subrange(0, i + 1))) =~= layout(records_view(rows@.subrange(0, i as int))).push(row_fields(rows@[i as int]@)));
        }
        i = i + 1;
    }
    assert(rows@.subrange(0, n as int) =~= rows@);
    r
}

/// Why encoding the table failed.
pub enum TableError {
    /// The encoder reported an error.
    Encode,
}

/// The delimited text of the header and `rows`.
pub fn render_csv(rows: &Vec<CommentRecord>) -> (r: Result<Vec<u8>, TableError>)
    ensures
        r is Ok,
        valid_utf8(r->Ok_0@),
        decode_utf8(r->Ok_0@) == csv_document(layout(records_view(rows@))),
{
    let table = layout_rows(rows);
    proof {
        assert forall|i: int| 0 <= i < table@.len() implies #[trigger] table@[i]@.len() == 8 by {
            let recs = records_view(rows@);
            let tail = recs.map_values(|r: RecordView| row_fields(r));
            assert(table_view(table@)[i].len() == table@[i]@.len());
            assert(layout(recs).len() == 1 + recs.len());
            if i > 0 {
                assert(layout(recs)[i] == tail[i - 1]);
            } else {
                assert(layout(recs)[i] == header_fields());
            }
        }
    }
    match encode_csv(&table) {
        Ok(bytes) => Ok(bytes),
        Err(_) => Err(TableError::Encode),
    }
}

} // verus!
