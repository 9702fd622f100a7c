use vstd::prelude::*;
use crate::store::table_of;

verus! {

/// The bytes of the entry `name` of a zip archive, if the archive holds it
/// and it can be read.
pub uninterp spec fn zip_entry_of(archive: Seq<u8>, name: Seq<char>) -> Option<Seq<u8>>;

/// The records (header row skipped) of a CSV text whose rows all have the
/// header's number of columns; none if it cannot be read.
pub uninterp spec fn csv_records_of(text: Seq<u8>) -> Option<Seq<Seq<Seq<char>>>>;

/// Relies on zip::ZipArchive::new and `by_name_decrypt` with an empty
/// password: the decompressed bytes of one entry of an archive held in memory.
/// An entry not marked encrypted is read as stored, one marked encrypted is
/// tried with the empty password, and one that asks for a password it cannot
/// use gives none (where `by_name` would panic).
#[verifier::external_body]
pub(crate) fn zip_entry(archive: &[u8], name: &str) -> (r: Option<Vec<u8>>)
    ensures
        match r {
            Some(b) => zip_entry_of(archive@, name@) == Some(b@),
            None => zip_entry_of(archive@, name@) is None,
        },
{
    let mut zip = match zip::ZipArchive::new(std::io::Cursor::new(archive)) {
        Ok(z) => z,
        Err(_) => return None,
    };
    let mut entry = match zip.by_name_decrypt(name, b"") {
        Ok(Ok(e)) => e,
        _ => return None,
    };
    let mut out = Vec::new();
    std::io::Read::read_to_end(&mut entry, &mut out).ok().map(|_| out)
}

/// Relies on csv::ReaderBuilder with a header row: the fields of each later
/// record; a malformed text, a non-UTF-8 field or a row of another width
/// gives none.
#[verifier::external_body]
pub(crate) fn csv_records(text: &[u8]) -> (r: Option<Vec<Vec<String>>>)
    ensures
        match r {
            Some(t) => csv_records_of(text@) == Some(table_of(t@)),
            None => csv_records_of(text@) is None,
        },
{
    let mut reader = csv::ReaderBuilder::new().has_headers(true).from_reader(text);
    let mut out = Vec::new();
    for record in reader.records() {
        match record {
            Ok(rec) => out.push(rec.iter().map(|f| f.to_string()).collect()),
            Err(_) => return None,
        }
    }
    Some(out)
}

/// The records of a signature archive: the CSV entry `main.cvd` of a zip file.
pub open spec fn archive_table(archive: Seq<u8>) -> Option<Seq<Seq<Seq<char>>>> {
    match zip_entry_of(archive, "main.cvd"@) {
        Some(text) => csv_records_of(text),
        None => None,
    }
}

} // verus!
