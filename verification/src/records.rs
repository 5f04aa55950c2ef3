//! Tables read from CSV text: the header row and the records, and each record
//! paired field by field with the headers.
use vstd::prelude::*;
use crate::js::views;
use crate::text::string_of;

verus! {

/// The header row and the records of CSV text, as the `csv` crate's reader
/// (with its default settings) reads them; `None` when it refuses the text.
pub uninterp spec fn csv_parse(text: Seq<u8>) -> Option<(Seq<Seq<char>>, Seq<Seq<Seq<char>>>)>;

/// The fields of each record.
pub open spec fn records_view(v: Seq<Vec<String>>) -> Seq<Seq<Seq<char>>> {
    v.map_values(|r: Vec<String>| views(r@))
}

/// Why CSV text could not be read: the header row or a record was refused,
/// with the reader's message.
pub enum CsvFailure {
    Header(String),
    Record(String),
}

/// Reads CSV text with the `csv` crate's reader: the header row, then each
/// record. With the reader's default settings a record whose field count
/// differs from the header row's is an error, so every record returned has as
/// many fields as there are headers. What the reader accepts and what it reads
/// from the text is named by `csv_parse`, not spelled out.
#[verifier::external_body]
pub(crate) fn read_csv(text: &[u8]) -> (r: Result<(Vec<String>, Vec<Vec<String>>), CsvFailure>)
    ensures
        match r {
            Ok(p) => {
                &&& csv_parse(text@) == Some((views(p.0@), records_view(p.1@)))
                &&& forall|i: int| 0 <= i < p.1@.len() ==> #[trigger] p.1@[i]@.len() == p.0@.len()
            },
            Err(_) => csv_parse(text@) is None,
        },
{
    let mut reader = ::csv::ReaderBuilder::new().from_reader(text);
    let headers: Vec<String> = match reader.headers() {
        Ok(h) => h.iter().map(String::from).collect(),
        Err(e) => return Err(CsvFailure::Header(e.to_string())),
    };
    let mut records: Vec<Vec<String>> = Vec::new();
    for record in reader.records() {
        match record {
            Ok(rec) => records.push(rec.iter().map(String::from).collect()),
            Err(e) => return Err(CsvFailure::Record(e.to_string())),
        }
    }
    Ok((headers, records))
}

/// Each record paired field by field with the headers: the `j`th pair of the
/// `i`th row is the `j`th header and the `j`th field of the `i`th record.
pub fn csv_rows(headers: &Vec<String>, records: &Vec<Vec<String>>) -> (r: Vec<Vec<(String, String)>>)
    requires
        forall|i: int| 0 <= i < records@.len() ==> #[trigger] records@[i]@.len() == headers@.len(),
    ensures
        r@.len() == records@.len(),
        forall|i: int| 0 <= i < r@.len() ==> #[trigger] r@[i]@.len() == headers@.len(),
        forall|i: int, j: int|
            0 <= i < r@.len() && 0 <= j < headers@.len() ==> #[trigger] r@[i]@[j].0@ == headers@[j]@
                && r@[i]@[j].1@ == records@[i]@[j]@,
{
    let mut r: Vec<Vec<(String, String)>> = Vec::new();
    let mut i: usize = 0;
    while i < records.len()
        invariant
            i <= records.len(),
            forall|k: int| 0 <= k < records@.len() ==> #[trigger] records@[k]@.len() == headers@.len(),
            r@.len() == i,
            forall|k: int| 0 <= k < i ==> #[trigger] r@[k]@.len() == headers@.len(),
            forall|k: int, j: int|
                0 <= k < i && 0 <= j < headers@.len() ==> #[trigger] r@[k]@[j].0@ == headers@[j]@
                    && r@[k]@[j].1@ == records@[k]@[j]@,
        decreases records.len() - i,
    {
        let rec = &records[i];
        assert(rec@.len() == headers@.len());
        let mut row: Vec<(String, String)> = Vec::new();
        let mut j: usize = 0;
        while j < headers.len()
            invariant
                j <= headers.len(),
                rec@.len() == headers@.len(),
                rec@ == records@[i as int]@,
                row@.len() == j,
                forall|m: int| 0 <= m < j ==> #[trigger] row@[m].0@ == headers@[m]@ && row@[m].1@ == rec@[m]@,
            decreases headers.len() - j,
        {
            row.push((string_of(headers[j].as_str()), string_of(rec[j].as_str())));
            j = j + 1;
        }
        r.push(row);
        i = i + 1;
    }
    r
}

/// Each record of `recs` paired field by field with the headers `h`.
pub open spec fn table_of(h: Seq<Seq<char>>, recs: Seq<Seq<Seq<char>>>) -> Seq<Seq<(Seq<char>, Seq<char>)>> {
    recs.map_values(|rec: Seq<Seq<char>>| Seq::new(h.len(), |j: int| (h[j], rec[j])))
}

/// The texts of each row of pairs.
pub open spec fn pairs_view(rows: Seq<Vec<(String, String)>>) -> Seq<Seq<(Seq<char>, Seq<char>)>> {
    rows.map_values(|row: Vec<(String, String)>| row@.map_values(|p: (String, String)| (p.0@, p.1@)))
}

/// Reads CSV text into rows, each record paired field by field with the
/// header row; fails exactly when the reader refuses the text.
pub fn read_table(text: &[u8]) -> (r: Result<Vec<Vec<(String, String)>>, CsvFailure>)
    ensures
        match r {
            Ok(rows) => csv_parse(text@) matches Some((h, recs)) && pairs_view(rows@) == table_of(h, recs),
            Err(_) => csv_parse(text@) is None,
        },
{
    match read_csv(text) {
        Ok((headers, records)) => {
            let rows = csv_rows(&headers, &records);
            proof {
                let h = views(headers@);
                let recs = records_view(records@);
                assert forall|i: int| 0 <= i < rows@.len() implies #[trigger] pairs_view(rows@)[i] == table_of(h, recs)[i] by {
                    assert(records@[i]@.len() == headers@.len());
                    assert(pairs_view(rows@)[i] =~= table_of(h, recs)[i]);
                }
                assert(pairs_view(rows@) =~= table_of(h, recs));
            }
            Ok(rows)
        },
        Err(e) => Err(e),
    }
}

} // verus!
