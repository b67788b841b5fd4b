use vstd::prelude::*;

use crate::record::Record;

verus! {

/// What the `csv` crate reads from a byte buffer with its default settings (a header row,
/// comma separated, no trimming): the header row, when it reads as UTF-8, and then each further
/// row, as its fields when it reads cleanly (valid UTF-8, as many fields as the header row).
pub uninterp spec fn csv_table(bytes: Seq<u8>) -> (Option<Seq<Seq<char>>>, Seq<Option<Seq<Seq<char>>>>);

/// Reads CSV data with `csv::Reader::from_reader`: `headers()` for the header row, then
/// `records()` for the remaining rows, each turned into its fields or, on error, `None`.
/// The contract claims only that the outcome is a fixed function of the bytes (`csv_table`).
#[verifier::external_body]
fn read_csv_table(bytes: &[u8]) -> (t: (Option<Vec<String>>, Vec<Option<Vec<String>>>))
    ensures
        t.deep_view() == csv_table(bytes@),
{
    let mut reader = csv::Reader::from_reader(bytes);
    let header = reader.headers().ok().map(|h| h.iter().map(|f| f.to_string()).collect());
    let rows = reader.records().map(
        |r| r.ok().map(|rec| rec.iter().map(|f| f.to_string()).collect()),
    ).collect();
    (header, rows)
}

/// A `csv::Writer` that writes into a byte buffer; only the records written into it are
/// described (`csv_written`).
#[verifier::external_body]
pub struct CsvOut {
    writer: csv::Writer<Vec<u8>>,
}

/// The records written so far, each as its fields.
pub uninterp spec fn csv_written(w: CsvOut) -> Seq<Seq<Seq<char>>>;

/// The bytes a `csv::Writer` with its default settings (comma separated, `\n` terminated,
/// quoting as needed) gives for these records.
pub uninterp spec fn csv_encoding(records: Seq<Seq<Seq<char>>>) -> Seq<u8>;

/// A `csv::Writer` over an empty byte buffer (`Writer::from_writer`), with nothing written.
#[verifier::external_body]
fn csv_writer() -> (w: CsvOut)
    ensures
        csv_written(w) == Seq::<Seq<Seq<char>>>::empty(),
{
    CsvOut { writer: csv::Writer::from_writer(Vec::new()) }
}

/// Writes one record with `Writer::write_record`. The writer refuses a record whose number of
/// fields differs from that of the first record, and writing to a byte buffer cannot fail
/// otherwise; the `requires` leaves out the refused records.
#[verifier::external_body]
fn csv_write_record(w: &mut CsvOut, fields: &Vec<String>)
    requires
        csv_written(*old(w)).len() > 0 ==> fields@.len() == csv_written(*old(w))[0].len(),
    ensures
        csv_written(*final(w)) == csv_written(*old(w)).push(fields.deep_view()),
{
    w.writer.write_record(fields).unwrap()
}

/// The bytes written, with `Writer::into_inner`; flushing into a byte buffer cannot fail. The
/// contract claims that they are a fixed function of the records written (`csv_encoding`).
#[verifier::external_body]
fn csv_into_bytes(w: CsvOut) -> (b: Vec<u8>)
    ensures
        b@ == csv_encoding(csv_written(w)),
{
    w.writer.into_inner().unwrap()
}

/// The CSV bytes of a table: `header` as the first record, then `rows`, each of which has as
/// many fields as `header`.
pub fn write_csv_table(header: &Vec<String>, rows: &Vec<Vec<String>>) -> (b: Vec<u8>)
    requires
        forall|i: int| 0 <= i < rows@.len() ==> #[trigger] rows@[i]@.len() == header@.len(),
    ensures
        b@ == csv_encoding(seq![header.deep_view()] + rows.deep_view()),
{
    let mut w = csv_writer();
    csv_write_record(&mut w, header);
    let mut i: usize = 0;
    while i < rows.len()
        invariant
            i <= rows@.len(),
            forall|j: int| 0 <= j < rows@.len() ==> #[trigger] rows@[j]@.len() == header@.len(),
            csv_written(w) =~= seq![header.deep_view()] + rows.deep_view().take(i as int),
        decreases rows@.len() - i,
    {
        assert(csv_written(w)[0] == header.deep_view());
        csv_write_record(&mut w, &rows[i]);
        i = i + 1;
        proof {
            assert(rows.deep_view().take(i as int) =~= rows.deep_view().take(i - 1).push(rows@[i - 1].deep_view()));
        }
    }
    proof {
        assert(rows.deep_view().take(i as int) =~= rows.deep_view());
    }
    csv_into_bytes(w)
}

/// The map that a row becomes when its fields are read into a map keyed by the header row:
/// the `n` first headers name the fields at their positions, a later equal header winning.
pub open spec fn zip_map(header: Seq<Seq<char>>, row: Seq<Seq<char>>, n: nat) -> Map<
    Seq<char>,
    Seq<char>,
>
    decreases n,
{
    if n == 0 {
        Map::empty()
    } else {
        zip_map(header, row, (n - 1) as nat).insert(header[n - 1], row[n - 1])
    }
}

/// The distinct names among the `n` first headers, in the order of their first occurrence:
/// the columns of a record read under the header row.
pub open spec fn first_occurrences(header: Seq<Seq<char>>, n: nat) -> Seq<Seq<char>>
    decreases n,
{
    if n == 0 {
        Seq::empty()
    } else {
        let d = first_occurrences(header, (n - 1) as nat);
        if d.contains(header[n - 1]) {
            d
        } else {
            d.push(header[n - 1])
        }
    }
}

/// The columns of the records read under a header row.
pub open spec fn header_columns(header: Option<Seq<Seq<char>>>) -> Seq<Seq<char>> {
    match header {
        Some(h) => first_occurrences(h, h.len()),
        None => Seq::empty(),
    }
}

/// The record that a row gives under the header row: none when the header row or the row
/// could not be read, or when the row has fewer fields than there are headers.
pub open spec fn row_record(header: Option<Seq<Seq<char>>>, row: Option<Seq<Seq<char>>>) -> Option<
    Map<Seq<char>, Seq<char>>,
> {
    match (header, row) {
        (Some(h), Some(r)) => if r.len() >= h.len() {
            Some(zip_map(h, r, h.len()))
        } else {
            None
        },
        _ => None,
    }
}

/// A record seen as its map, if there is one.
pub open spec fn record_view(r: Option<Record>) -> Option<Map<Seq<char>, Seq<char>>> {
    match r {
        Some(rec) => Some(rec@),
        None => None,
    }
}

/// The records of the table: one per row after the header row, in order.
pub open spec fn table_records(
    header: Option<Seq<Seq<char>>>,
    rows: Seq<Option<Seq<Seq<char>>>>,
) -> Seq<Option<Map<Seq<char>, Seq<char>>>> {
    rows.map_values(|row: Option<Seq<Seq<char>>>| row_record(header, row))
}

impl Record {
    /// The record of `row` under `header`: each header names the field at its position, a
    /// later equal header replacing the value of an earlier one. `None` when the row is shorter
    /// than the header row.
    pub fn from_row(header: &Vec<String>, row: &Vec<String>) -> (r: Option<Record>)
        ensures
            record_view(r) == row_record(Some(header.deep_view()), Some(row.deep_view())),
            r matches Some(rec) ==> rec.columns() == header_columns(Some(header.deep_view())),
    {
        if row.len() < header.len() {
            return None;
        }
        let mut rec = Record::new();
        let mut i: usize = 0;
        while i < header.len()
            invariant
                i <= header@.len(),
                header@.len() <= row@.len(),
                rec@ == zip_map(header.deep_view(), row.deep_view(), i as nat),
                rec.columns() == first_occurrences(header.deep_view(), i as nat),
            decreases header@.len() - i,
        {
            rec.insert(header[i].clone(), row[i].clone());
            i = i + 1;
        }
        Some(rec)
    }
}

/// The records of a table read by the `csv` crate, as `table_records` describes them.
pub fn records_from_table(header: &Option<Vec<String>>, rows: &Vec<Option<Vec<String>>>) -> (rs: Vec<
    Option<Record>,
>)
    ensures
        rs@.len() == rows@.len(),
        forall|i: int|
            0 <= i < rs@.len() ==> #[trigger] record_view(rs@[i]) == table_records(
                header.deep_view(),
                rows.deep_view(),
            )[i],
        forall|i: int|
            0 <= i < rs@.len() ==> (#[trigger] rs@[i] matches Some(rec) ==> rec.columns() == header_columns(
                header.deep_view(),
            )),
{
    let mut rs: Vec<Option<Record>> = Vec::new();
    let mut i: usize = 0;
    while i < rows.len()
        invariant
            i <= rows@.len(),
            rs@.len() == i,
            forall|j: int|
                0 <= j < i ==> #[trigger] record_view(rs@[j]) == table_records(
                    header.deep_view(),
                    rows.deep_view(),
                )[j],
            forall|j: int|
                0 <= j < i ==> (#[trigger] rs@[j] matches Some(rec) ==> rec.columns() == header_columns(
                    header.deep_view(),
                )),
        decreases rows@.len() - i,
    {
        let rec = match (header, &rows[i]) {
            (Some(h), Some(row)) => Record::from_row(h, row),
            _ => None,
        };
        rs.push(rec);
        i = i + 1;
    }
    rs
}

/// Reads CSV data into records: one per row after the header row, `None` for a row that
/// could not be read into a map keyed by the header row.
pub fn parse_csv_records(bytes: &[u8]) -> (rs: Vec<Option<Record>>)
    ensures
        rs@.len() == csv_table(bytes@).1.len(),
        forall|i: int|
            0 <= i < rs@.len() ==> #[trigger] record_view(rs@[i]) == table_records(
                csv_table(bytes@).0,
                csv_table(bytes@).1,
            )[i],
        forall|i: int|
            0 <= i < rs@.len() ==> (#[trigger] rs@[i] matches Some(rec) ==> rec.columns() == header_columns(
                csv_table(bytes@).0,
            )),
{
    let (header, rows) = read_csv_table(bytes);
    records_from_table(&header, &rows)
}

proof fn lemma_zip_map(header: Seq<Seq<char>>, row: Seq<Seq<char>>, n: nat)
    requires
        n <= header.len(),
        header.len() <= row.len(),
    ensures
        zip_map(header, row, n).dom() == header.take(n as int).to_set(),
        forall|i: int|
            0 <= i < n && (forall|j: int| i < j < n ==> header[j] != header[i]) ==> #[trigger] zip_map(
                header,
                row,
                n,
            )[header[i]] == row[i],
    decreases n,
{
    if n > 0 {
        let m = (n - 1) as nat;
        lemma_zip_map(header, row, m);
        assert(header.take(n as int) =~= header.take(m as int).push(header[m as int]));
        header.take(m as int).lemma_push_to_set_commute(header[m as int]);
        assert forall|i: int|
            0 <= i < n && (forall|j: int| i < j < n ==> header[j] != header[i]) implies #[trigger] zip_map(
            header,
            row,
            n,
        )[header[i]] == row[i] by {
            if i < m {
                assert(header[m as int] != header[i]);
            }
        }
    }
}

/// A row read under a header row has exactly the header row's columns, and each column holds
/// the field at its last occurrence in the header row.
pub proof fn law_row_columns_are_headers(header: Seq<Seq<char>>, row: Seq<Seq<char>>)
    requires
        header.len() <= row.len(),
    ensures
        zip_map(header, row, header.len()).dom() == header.to_set(),
        forall|i: int|
            0 <= i < header.len() && (forall|j: int| i < j < header.len() ==> header[j] != header[i])
                ==> #[trigger] zip_map(header, row, header.len())[header[i]] == row[i],
{
    lemma_zip_map(header, row, header.len());
    assert(header.take(header.len() as int) =~= header);
}

/// A row with at least as many fields as the header row always reads as a record, whatever
/// its field values (empty ones included): the record has exactly the header row's names, and
/// each name holds the field at its last occurrence in the header row.
pub proof fn law_full_row_reads(header: Seq<Seq<char>>, row: Seq<Seq<char>>)
    requires
        header.len() <= row.len(),
    ensures
        row_record(Some(header), Some(row)) is Some,
        row_record(Some(header), Some(row))->0.dom() == header.to_set(),
        forall|i: int|
            0 <= i < header.len() && (forall|j: int| i < j < header.len() ==> header[j] != header[i])
                ==> #[trigger] row_record(Some(header), Some(row))->0[header[i]] == row[i],
{
    law_row_columns_are_headers(header, row);
}

/// Of a table read by the `csv` crate, every row that was read with at least as many fields as
/// the header row gives a record holding its fields under the header row's names.
pub proof fn law_table_rows_read(header: Seq<Seq<char>>, rows: Seq<Option<Seq<Seq<char>>>>, i: int)
    requires
        0 <= i < rows.len(),
        rows[i] is Some,
        rows[i]->0.len() >= header.len(),
    ensures
        table_records(Some(header), rows)[i] is Some,
        table_records(Some(header), rows)[i]->0.dom() == header.to_set(),
        forall|k: int|
            0 <= k < header.len() && (forall|j: int| k < j < header.len() ==> header[j] != header[k])
                ==> #[trigger] table_records(Some(header), rows)[i]->0[header[k]] == rows[i]->0[k],
{
    law_full_row_reads(header, rows[i]->0);
    assert(table_records(Some(header), rows)[i] == row_record(Some(header), rows[i]));
}

} // verus!
