use vstd::prelude::*;

use crate::lines::{join_lines, views_of, NL};

verus! {

/// The entry name under which recovered text is stored in the output
/// archive.
pub const ENTRY_NAME: &'static str = "acmi.txt";

/// An archive writer over an in-memory buffer. The writer itself is
/// opaque; the contracts below speak of it only through
/// `zip_entries`. Values of this type exist only as this module's
/// wrappers produce them: deflate-family compression, the large-file
/// flag, no encryption, no extra fields.
#[verifier::external_body]
pub struct RescueWriter {
    inner: zip::write::ZipWriter<std::io::Cursor<Vec<u8>>>,
}

/// What the writer holds: for each entry started so far, in order,
/// its name and the bytes written into it.
pub uninterp spec fn zip_entries(w: RescueWriter) -> Seq<(Seq<char>, Seq<u8>)>;

/// The bytes of the finished archive that holds exactly `entries`,
/// each written with this module's fixed options (deflate-family
/// compression, the large-file flag, constant metadata), so that the
/// finished bytes are a function of the entries alone. The entry
/// names this crate uses fit the format's 16-bit name-length field.
pub uninterp spec fn sealed_archive(entries: Seq<(Seq<char>, Seq<u8>)>) -> Seq<u8>;

/// Relies on zip::write::ZipWriter::new: a fresh writer over an
/// in-memory buffer holds no entries.
#[verifier::external_body]
fn zip_new() -> (w: RescueWriter)
    ensures
        zip_entries(w) == Seq::<(Seq<char>, Seq<u8>)>::empty(),
{
    RescueWriter { inner: zip::write::ZipWriter::new(std::io::Cursor::new(Vec::new())) }
}

/// Relies on zip::write::ZipWriter::start_file, called with deflate
/// compression and the large-file flag: one fresh, empty entry of
/// this name is open at the end of the writer. Against an in-memory
/// buffer every write and seek it makes succeeds, the options are
/// within range, and the writer is never closed, so the call cannot
/// fail; the body unwraps it.
#[verifier::external_body]
fn zip_start_entry(w: &mut RescueWriter, name: &str)
    ensures
        zip_entries(*final(w)) == zip_entries(*old(w)).push((name@, Seq::<u8>::empty())),
{
    let opts = zip::write::FileOptions::default().compression_method(
        zip::CompressionMethod::Deflated,
    ).large_file(true);
    w.inner.start_file(name, opts).unwrap();
}

/// Relies on the std::io::Write impl of zip::write::ZipWriter: the
/// bytes are appended to the open (last) entry and no other entry
/// changes. With an entry started, an in-memory target and the
/// large-file flag set, no error path is reachable; the body unwraps
/// the result.
#[verifier::external_body]
fn zip_write_all(w: &mut RescueWriter, bytes: &Vec<u8>)
    requires
        zip_entries(*old(w)).len() > 0,
    ensures
        zip_entries(*final(w)) == zip_entries(*old(w)).update(
            zip_entries(*old(w)).len() - 1,
            (zip_entries(*old(w)).last().0, zip_entries(*old(w)).last().1 + bytes@),
        ),
{
    std::io::Write::write_all(&mut w.inner, bytes.as_slice()).unwrap();
}

/// Relies on zip::write::ZipWriter::finish, then
/// std::io::Cursor::into_inner: finishing writes the central
/// directory, which makes the buffer a complete, independently valid
/// archive of the writer's entries. Finalization writes only to the
/// in-memory buffer and so cannot fail; the body unwraps it.
#[verifier::external_body]
fn zip_finish(w: RescueWriter) -> (archive: Vec<u8>)
    ensures
        archive@ == sealed_archive(zip_entries(w)),
{
    let mut w = w;
    w.inner.finish().unwrap().into_inner()
}

/// Builds the output archive: one entry, named `ENTRY_NAME`, holding
/// every record followed by one newline, in the records' own order.
#[verifier::loop_isolation(false)]
pub fn build_archive(records: &Vec<Vec<u8>>) -> (archive: Vec<u8>)
    ensures
        archive@ == sealed_archive(seq![(ENTRY_NAME@, join_lines(views_of(records@)))]),
{
    let mut w = zip_new();
    zip_start_entry(&mut w, ENTRY_NAME);
    let mut i: usize = 0;
    while i < records.len()
        invariant
            i <= records@.len(),
            zip_entries(w) == seq![(ENTRY_NAME@, join_lines(views_of(records@.take(i as int))))],
        decreases records@.len() - i,
    {
        let rec = &records[i];
        let mut line: Vec<u8> = Vec::new();
        let mut j: usize = 0;
        while j < rec.len()
            invariant
                j <= rec@.len(),
                line@ == rec@.take(j as int),
            decreases rec@.len() - j,
        {
            line.push(rec[j]);
            j = j + 1;
            proof {
                assert(line@ =~= rec@.take(j as int));
            }
        }
        proof {
            assert(line@ =~= rec@);
        }
        line.push(NL);
        zip_write_all(&mut w, &line);
        i = i + 1;
        proof {
            assert(views_of(records@.take(i as int)).drop_last() =~= views_of(records@.take(
                i as int - 1)));
            assert(views_of(records@.take(i as int)).last() == rec@);
            assert(join_lines(views_of(records@.take(i as int))) =~= join_lines(views_of(
                records@.take(i as int - 1))) + rec@ + seq![NL]);
            assert(zip_entries(w).len() == 1);
            assert(zip_entries(w)[0].1 =~= join_lines(views_of(records@.take(i as int))));
            assert(zip_entries(w) =~~= seq![
                (ENTRY_NAME@, join_lines(views_of(records@.take(i as int)))),
            ]);
        }
    }
    proof {
        assert(records@.take(records@.len() as int) =~= records@);
    }
    zip_finish(w)
}

} // verus!
