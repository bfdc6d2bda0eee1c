//! The gene table: one tab-separated row per location, with a block of
//! columns for each nearest-gene slot.

use vstd::prelude::*;
use vstd::utf8::{decode_utf8, valid_utf8};

use crate::annotate::{ClosestGene, GeneAnnotation};
use crate::location::Location;
use crate::loctogene::{GenesError, TSSRegion};
use crate::text::{int_str, int_to_string, nat_str, nat_to_string, views};

verus! {

/// A CSV writer into memory. `csv::Writer`
/// bounds its type parameter by `std::io::Write`, which Verus does not take
/// in a type declaration, so the writer is held here, opaque, and described
/// by its field delimiter and the records it has written.
#[verifier::external_body]
pub struct TsvWriter {
    inner: csv::Writer<Vec<u8>>,
}

/// The records a writer has written, in order, each as its fields.
pub uninterp spec fn tsv_rows(w: TsvWriter) -> Seq<Seq<Seq<char>>>;

/// The field delimiter a writer was built with.
pub uninterp spec fn tsv_delimiter(w: TsvWriter) -> u8;

/// The bytes a writer with this delimiter, and csv's defaults otherwise,
/// produces for these records.
pub uninterp spec fn tsv_bytes(rows: Seq<Seq<Seq<char>>>, delimiter: u8) -> Seq<u8>;

/// The field delimiter of the gene table: a tab.
pub const TABLE_DELIMITER: u8 = 9;

impl TsvWriter {
    /// Relies on `csv::WriterBuilder::new`, `delimiter` and `from_writer`: a
    /// fresh writer over an empty `Vec` has written no record, and keeps the
    /// delimiter it was built with.
    #[verifier::external_body]
    fn new(delimiter: u8) -> (w: TsvWriter)
        ensures
            tsv_rows(w) == Seq::<Seq<Seq<char>>>::empty(),
            tsv_delimiter(w) == delimiter,
    {
        TsvWriter { inner: csv::WriterBuilder::new().delimiter(delimiter).from_writer(vec![]) }
    }

    /// Relies on `csv::Writer::write_record`: a writer that is not flexible
    /// refuses a record whose field count differs from the first record's
    /// (`check_field_count`), and that is its only failure when the inner
    /// writer is a `Vec<u8>`, which takes every write; an accepted record is
    /// appended.
    #[verifier::external_body]
    fn write_record(self, record: &Vec<String>) -> (r: Result<TsvWriter, String>)
        requires
            record@.len() > 0,
        ensures
            tsv_rows(self).len() > 0 && tsv_rows(self)[0].len() != record@.len() ==> r is Err,
            tsv_rows(self).len() == 0 || tsv_rows(self)[0].len() == record@.len() ==> r is Ok,
            r matches Ok(w) ==> tsv_rows(w) == tsv_rows(self).push(views(record@)),
            r matches Ok(w) ==> tsv_delimiter(w) == tsv_delimiter(self),
    {
        let mut w = self;
        match w.inner.write_record(record) {
            Ok(()) => Ok(w),
            Err(e) => Err(e.to_string()),
        }
    }

    /// Relies on `csv::Writer::into_inner`: it flushes and hands back the
    /// bytes written. It fails only when flushing fails, which a `Vec<u8>`
    /// never does. The bytes are the fields' own UTF-8 bytes with ASCII
    /// quotes, delimiters and newlines added, so they are valid UTF-8 when
    /// the delimiter is ASCII.
    #[verifier::external_body]
    fn into_bytes(self) -> (r: Result<Vec<u8>, String>)
        ensures
            r is Ok,
            r matches Ok(b) ==> b@ == tsv_bytes(tsv_rows(self), tsv_delimiter(self)),
            r matches Ok(b) ==> (tsv_delimiter(self) < 128 ==> valid_utf8(b@)),
    {
        self.inner.into_inner().map_err(|e| e.to_string())
    }
}

/// Relies on `String::from_utf8`: it accepts exactly the valid UTF-8 byte
/// sequences, and decodes them.
#[verifier::external_body]
fn utf8_string(b: Vec<u8>) -> (r: Result<String, String>)
    ensures
        r is Ok <==> valid_utf8(b@),
        r matches Ok(s) ==> s@ == decode_utf8(b@),
{
    String::from_utf8(b).map_err(|e| e.to_string())
}

/// An offset in whole kilobases, rounded down.
pub open spec fn kb(n: u32) -> Seq<char> {
    nat_str((n / 1000) as nat)
}

/// The promoter window as it stands in a header: `(prom=-2/+1kb)`.
pub open spec fn prom_note(ts: TSSRegion) -> Seq<char> {
    "(prom=-"@ + kb(ts.spec_offset_5p()) + "/+"@ + kb(ts.spec_offset_3p()) + "kb)"@
}

/// The headers of nearest-gene slot `i`, counting from 1.
pub open spec fn closest_headers(i: nat, ts: TSSRegion) -> Seq<Seq<char>> {
    let tag = seq!['#'] + nat_str(i);
    seq![
        tag + " Closest ID"@,
        tag + " Closest Gene Symbols"@,
        tag + " Relative To Closet Gene "@ + prom_note(ts),
        tag + " TSS Closest Distance"@,
    ]
}

/// The header row of a table with `n` nearest-gene slots.
pub open spec fn table_headers(n: nat, ts: TSSRegion) -> Seq<Seq<char>>
    decreases n,
{
    if n == 0 {
        seq![
            "Location"@,
            "ID"@,
            "Gene Symbol"@,
            "Relative To Gene "@ + prom_note(ts),
            "TSS Distance"@,
        ]
    } else {
        table_headers((n - 1) as nat, ts) + closest_headers(n, ts)
    }
}

/// The nearest-gene columns of a row: id, symbol, label and distance of each.
pub open spec fn closest_fields(cs: Seq<ClosestGene>) -> Seq<Seq<char>>
    decreases cs.len(),
{
    if cs.len() == 0 {
        Seq::empty()
    } else {
        let c = cs.last();
        closest_fields(cs.drop_last()) + seq![
            c.gene_id@,
            c.gene_symbol@,
            c.prom_label@,
            int_str(c.tss_dist as int),
        ]
    }
}

/// The row of one location.
pub open spec fn table_row(loc: Location, a: GeneAnnotation) -> Seq<Seq<char>> {
    seq![loc.spec_text(), a.gene_ids@, a.gene_symbols@, a.prom_labels@, a.tss_dists@]
        + closest_fields(a.closest_genes@)
}

/// All records of the table: the headers, then one row per location.
pub open spec fn table_records(
    locs: Seq<Location>,
    anns: Seq<GeneAnnotation>,
    n: nat,
    ts: TSSRegion,
) -> Seq<Seq<Seq<char>>> {
    seq![table_headers(n, ts)] + Seq::new(locs.len(), |i: int| table_row(locs[i], anns[i]))
}

proof fn lemma_table_headers_len(n: nat, ts: TSSRegion)
    ensures
        table_headers(n, ts).len() == 5 + 4 * n,
    decreases n,
{
    if n > 0 {
        lemma_table_headers_len((n - 1) as nat, ts);
    }
}

proof fn lemma_closest_fields_len(cs: Seq<ClosestGene>)
    ensures
        closest_fields(cs).len() == 4 * cs.len(),
    decreases cs.len(),
{
    if cs.len() > 0 {
        lemma_closest_fields_len(cs.drop_last());
    }
}

/// The header row of a table with `closest_n` nearest-gene slots.
pub fn gene_table_headers(closest_n: u16, ts: &TSSRegion) -> (r: Vec<String>)
    ensures
        views(r@) == table_headers(closest_n as nat, *ts),
{
    let k5 = nat_to_string((ts.offset_5p() / 1000) as u64);
    let k3 = nat_to_string((ts.offset_3p() / 1000) as u64);
    let note = String::from_str("(prom=-").concat(k5.as_str()).concat("/+").concat(
        k3.as_str(),
    ).concat("kb)");
    let mut headers: Vec<String> = Vec::new();
    headers.push(String::from_str("Location"));
    headers.push(String::from_str("ID"));
    headers.push(String::from_str("Gene Symbol"));
    headers.push(String::from_str("Relative To Gene ").concat(note.as_str()));
    headers.push(String::from_str("TSS Distance"));
    assert(views(headers@) =~= table_headers(0, *ts));
    let mut i: u32 = 1;
    while i <= closest_n as u32
        invariant
            1 <= i <= closest_n as u32 + 1,
            note@ == prom_note(*ts),
            views(headers@) == table_headers((i - 1) as nat, *ts),
        decreases closest_n as u32 + 1 - i,
    {
        let num = nat_to_string(i as u64);
        let tag = String::from_str("#").concat(num.as_str());
        proof {
            reveal_strlit("#");
        }
        assert(tag@ =~= seq!['#'] + nat_str(i as nat));
        let ghost before = views(headers@);
        headers.push(tag.clone().concat(" Closest ID"));
        headers.push(tag.clone().concat(" Closest Gene Symbols"));
        headers.push(tag.clone().concat(" Relative To Closet Gene ").concat(note.as_str()));
        headers.push(tag.concat(" TSS Closest Distance"));
        assert(views(headers@) =~= before + closest_headers(i as nat, *ts));
        i = i + 1;
    }
    headers
}

/// The row of one location.
pub fn gene_table_row(location: &Location, annotation: &GeneAnnotation) -> (r: Vec<String>)
    ensures
        views(r@) == table_row(*location, *annotation),
{
    let mut row: Vec<String> = Vec::new();
    row.push(location.to_string());
    row.push(annotation.gene_ids.clone());
    row.push(annotation.gene_symbols.clone());
    row.push(annotation.prom_labels.clone());
    row.push(annotation.tss_dists.clone());
    let ghost head = views(row@);
    let cs = &annotation.closest_genes;
    assert(cs@.subrange(0, 0) =~= Seq::<ClosestGene>::empty());
    let mut i: usize = 0;
    while i < cs.len()
        invariant
            i <= cs@.len(),
            cs@ == annotation.closest_genes@,
            views(row@) == head + closest_fields(cs@.subrange(0, i as int)),
        decreases cs@.len() - i,
    {
        let c = &cs[i];
        let ghost before = views(row@);
        row.push(c.gene_id.clone());
        row.push(c.gene_symbol.clone());
        row.push(c.prom_label.clone());
        row.push(int_to_string(c.tss_dist as i64));
        assert(cs@.subrange(0, i + 1).drop_last() =~= cs@.subrange(0, i as int));
        assert(cs@.subrange(0, i + 1).last() == cs@[i as int]);
        assert(views(row@) =~= before + seq![
            c.gene_id@,
            c.gene_symbol@,
            c.prom_label@,
            int_str(c.tss_dist as int),
        ]);
        assert(views(row@) =~= head + closest_fields(cs@.subrange(0, i + 1)));
        i = i + 1;
    }
    assert(cs@.subrange(0, cs@.len() as int) =~= cs@);
    assert(views(row@) =~= table_row(*location, *annotation));
    row
}

/// The gene table of the locations with their annotations, as tab-separated
/// text. A row whose nearest-gene list is not `closest_n` long does not fit
/// the header, and the table fails with a format error; otherwise the table
/// is produced.
pub fn make_gene_table(
    locations: &Vec<Location>,
    annotations: &Vec<GeneAnnotation>,
    closest_n: u16,
    ts: &TSSRegion,
) -> (r: Result<String, GenesError>)
    requires
        locations@.len() == annotations@.len(),
    ensures
        (exists|i: int|
            0 <= i < annotations@.len() && #[trigger] annotations@[i].closest_genes@.len()
                != closest_n) ==> r is Err,
        (forall|i: int|
            0 <= i < annotations@.len() ==> #[trigger] annotations@[i].closest_genes@.len()
                == closest_n) ==> r is Ok,
        r matches Ok(s) ==> s@ == decode_utf8(
            tsv_bytes(
                table_records(locations@, annotations@, closest_n as nat, *ts),
                TABLE_DELIMITER,
            ),
        ),
        r matches Err(e) ==> e is FormatError,
{
    let ghost records = table_records(locations@, annotations@, closest_n as nat, *ts);
    let headers = gene_table_headers(closest_n, ts);
    proof {
        lemma_table_headers_len(closest_n as nat, *ts);
    }
    let w = TsvWriter::new(TABLE_DELIMITER);
    let mut w = match w.write_record(&headers) {
        Ok(w) => w,
        Err(m) => {
            return Err(GenesError::FormatError(m));
        },
    };
    assert(tsv_rows(w) =~= records.subrange(0, 1));
    let mut i: usize = 0;
    while i < locations.len()
        invariant
            i <= locations@.len(),
            locations@.len() == annotations@.len(),
            records == table_records(locations@, annotations@, closest_n as nat, *ts),
            records[0].len() == 5 + 4 * (closest_n as int),
            tsv_rows(w) == records.subrange(0, i + 1),
            tsv_delimiter(w) == TABLE_DELIMITER,
            forall|j: int|
                0 <= j < i ==> #[trigger] annotations@[j].closest_genes@.len() == closest_n,
        decreases locations@.len() - i,
    {
        let row = gene_table_row(&locations[i], &annotations[i]);
        proof {
            lemma_closest_fields_len(annotations@[i as int].closest_genes@);
            assert(tsv_rows(w)[0] == records[0]);
            assert(row@.len() == views(row@).len());
            assert(row@.len() == 5 + 4 * annotations@[i as int].closest_genes@.len());
        }
        let ghost before = tsv_rows(w);
        w = match w.write_record(&row) {
            Ok(w) => w,
            Err(m) => {
                return Err(GenesError::FormatError(m));
            },
        };
        assert(tsv_rows(w) =~= records.subrange(0, i + 2));
        i = i + 1;
    }
    assert(records.subrange(0, locations@.len() + 1 as int) =~= records);
    let bytes = match w.into_bytes() {
        Ok(b) => b,
        Err(m) => {
            return Err(GenesError::FormatError(m));
        },
    };
    match utf8_string(bytes) {
        Ok(s) => Ok(s),
        Err(m) => Err(GenesError::FormatError(m)),
    }
}

} // verus!
