use vstd::prelude::*;

use crate::archive::{build_archive, sealed_archive, ENTRY_NAME};
use crate::cursor::ByteCursor;
use crate::error::AcmiError;
use crate::header::{has_magic, header_parses, matches_header, spec_header_len, LocalFileHeader};
use crate::inflate::{inflate, inflate_of};
use crate::lines::{complete_lines, join_lines, split_complete_lines, views_of};

verus! {

/// Everything one salvage run produces: the parsed header, the
/// recovered records, and the bytes of the finished output archive.
#[derive(Debug)]
pub struct Salvage {
    pub header: LocalFileHeader,
    pub records: Vec<Vec<u8>>,
    pub archive: Vec<u8>,
}

/// The records the pipeline recovers from a capture: the complete
/// lines of the decompressed stream of the payload that follows the
/// header.
pub open spec fn recovered_records(input: Seq<u8>) -> Seq<Seq<u8>> {
    complete_lines(inflate_of(input.skip(spec_header_len(input))))
}

/// Runs the whole pipeline over the raw bytes of a capture file:
/// parses the entry header, decompresses the payload for as long as
/// the stream allows, keeps every newline-terminated record, and
/// packs those records into a fresh archive. The run succeeds
/// exactly when the header parses: a payload cut off mid-unit is the
/// expected case, not an error, and an empty payload yields an
/// archive with zero records.
pub fn salvage(input: Vec<u8>) -> (r: Result<Salvage, AcmiError>)
    ensures
        r is Ok <==> header_parses(input@),
        r matches Ok(s) ==> matches_header(s.header, input@),
        r matches Ok(s) ==> views_of(s.records@) == recovered_records(input@),
        r matches Ok(s) ==> s.archive@ == sealed_archive(
            seq![(ENTRY_NAME@, join_lines(recovered_records(input@)))],
        ),
        (r matches Err(e) && e is BadMagic) <==> (input@.len() >= 4 && !has_magic(input@)),
        (r matches Err(e) && e is TruncatedHeader) <==> (input@.len() < 4 || (has_magic(input@)
            && !header_parses(input@))),
{
    let mut cursor = ByteCursor::new(input);
    let header = match LocalFileHeader::parse_and_consume(&mut cursor) {
        Ok(h) => h,
        Err(e) => {
            return Err(e);
        },
    };
    let n = cursor.len();
    let payload = cursor.take_fixed(n);
    proof {
        assert(payload@ =~= input@.skip(spec_header_len(input@)));
    }
    let inflated = inflate(&payload);
    let records = split_complete_lines(&inflated);
    let archive = build_archive(&records);
    Ok(Salvage { header, records, archive })
}

/// Salvage is deterministic: two runs over the same decompressed
/// stream recover identical records, byte for byte.
pub proof fn lemma_rerun_identical(stream: Seq<u8>, first: Seq<Seq<u8>>, second: Seq<Seq<u8>>)
    requires
        first == complete_lines(stream),
        second == complete_lines(stream),
    ensures
        first == second,
{
}

} // verus!
