use std::io::Read;
use std::io::Write;

use acmi_rescue::error::AcmiError;
use acmi_rescue::salvage::salvage;

fn le16(v: &mut Vec<u8>, x: u16) {
    v.push((x & 0xff) as u8);
    v.push((x >> 8) as u8);
}

fn le32(v: &mut Vec<u8>, x: u32) {
    v.push((x & 0xff) as u8);
    v.push(((x >> 8) & 0xff) as u8);
    v.push(((x >> 16) & 0xff) as u8);
    v.push(((x >> 24) & 0xff) as u8);
}

/// A minimal entry header declaring deflate-family compression; the
/// declared sizes are deliberately wrong, as in a capture whose
/// header was written before its payload.
fn make_header() -> Vec<u8> {
    let mut v = vec![0x50, 0x4b, 3, 4];
    le16(&mut v, 20); // minimum extract version
    le16(&mut v, 0); // flags
    le16(&mut v, 8); // compression method: deflate
    le16(&mut v, 0); // time
    le16(&mut v, 0); // date
    le32(&mut v, 0); // crc32
    le32(&mut v, 0); // compressed size
    le32(&mut v, 0); // uncompressed size
    le16(&mut v, 8); // path length
    le16(&mut v, 0); // extra field length
    v.extend_from_slice(b"acmi.txt");
    v
}

fn deflate_bytes(data: &[u8]) -> Vec<u8> {
    let mut enc = flate2::write::DeflateEncoder::new(Vec::new(), flate2::Compression::default());
    enc.write_all(data).unwrap();
    enc.finish().unwrap()
}

fn inflate_bytes(data: &[u8]) -> Vec<u8> {
    let mut out = Vec::new();
    flate2::read::DeflateDecoder::new(data)
        .read_to_end(&mut out)
        .unwrap();
    out
}

/// One raw-deflate stored block: its five-byte header, then the data.
fn stored_block(data: &[u8], final_block: bool) -> Vec<u8> {
    let mut v = vec![if final_block { 1 } else { 0 }];
    let len = data.len() as u16;
    let nlen = !len;
    v.push((len & 0xff) as u8);
    v.push((len >> 8) as u8);
    v.push((nlen & 0xff) as u8);
    v.push((nlen >> 8) as u8);
    v.extend_from_slice(data);
    v
}

fn read_archive_entry(archive: &[u8]) -> Vec<u8> {
    let mut z = zip::ZipArchive::new(std::io::Cursor::new(archive.to_vec())).unwrap();
    let mut f = z.by_name("acmi.txt").unwrap();
    let mut out = Vec::new();
    f.read_to_end(&mut out).unwrap();
    out
}

fn input_with_payload(payload: &[u8]) -> Vec<u8> {
    let mut input = make_header();
    input.extend_from_slice(payload);
    input
}

#[test]
fn three_records() {
    let input = input_with_payload(&deflate_bytes(b"A\nB\nC\n"));
    let s = salvage(input).unwrap();
    assert_eq!(s.header.compression_method, 8);
    assert_eq!(s.header.path, b"acmi.txt".to_vec());
    assert_eq!(
        s.records,
        vec![b"A".to_vec(), b"B".to_vec(), b"C".to_vec()]
    );
    assert_eq!(read_archive_entry(&s.archive), b"A\nB\nC\n".to_vec());
}

#[test]
fn truncated_midstream_keeps_whole_records() {
    // A complete stored block holding "A\nB\n", then a final block for
    // "C" cut off after two bytes of its own header.
    let mut payload = stored_block(b"A\nB\n", false);
    payload.extend_from_slice(&[0x01, 0x02]);
    let input = input_with_payload(&payload);
    let s = salvage(input).unwrap();
    assert_eq!(s.records, vec![b"A".to_vec(), b"B".to_vec()]);
    assert_eq!(read_archive_entry(&s.archive), b"A\nB\n".to_vec());
}

#[test]
fn bad_magic_is_fatal() {
    let mut input = input_with_payload(&deflate_bytes(b"A\n"));
    input[3] = 5; // "PK\x03\x05"
    assert_eq!(salvage(input).unwrap_err(), AcmiError::BadMagic);
}

#[test]
fn empty_stream_gives_empty_archive() {
    let input = input_with_payload(&deflate_bytes(b""));
    let s = salvage(input).unwrap();
    assert_eq!(s.records.len(), 0);
    assert_eq!(read_archive_entry(&s.archive), Vec::<u8>::new());
}

#[test]
fn empty_payload_gives_empty_archive() {
    let input = input_with_payload(b"");
    let s = salvage(input).unwrap();
    assert_eq!(s.records.len(), 0);
    assert_eq!(read_archive_entry(&s.archive), Vec::<u8>::new());
}

#[test]
fn trailing_newline_end_matches_failure_one_byte_later() {
    // Clean end right after "A\nB\n" ...
    let clean = input_with_payload(&deflate_bytes(b"A\nB\n"));
    // ... versus the same decompressed bytes followed by a failure:
    // the stream goes on but its next unit is cut off at one byte.
    let mut payload = stored_block(b"A\nB\n", false);
    payload.push(0x01);
    let failing = input_with_payload(&payload);
    let a = salvage(clean).unwrap();
    let b = salvage(failing).unwrap();
    assert_eq!(a.records, b.records);
    assert_eq!(a.records, vec![b"A".to_vec(), b"B".to_vec()]);
}

#[test]
fn garbage_payload_still_yields_archive() {
    // A payload that was never a deflate stream: the decoder rejects
    // it as its benign truncation signature, so the run still
    // succeeds and seals whatever records came out.
    let input = input_with_payload(&[0xde, 0xad, 0xbe, 0xef, 0x00, 0xff, 0x13, 0x37]);
    let s = salvage(input).unwrap();
    let entry = read_archive_entry(&s.archive);
    let mut expected = Vec::new();
    for r in &s.records {
        expected.extend_from_slice(r);
        expected.push(b'\n');
    }
    assert_eq!(entry, expected);
}

#[test]
fn unterminated_fragment_is_dropped() {
    let input = input_with_payload(&deflate_bytes(b"A\nB\nC"));
    let s = salvage(input).unwrap();
    assert_eq!(s.records, vec![b"A".to_vec(), b"B".to_vec()]);
}

#[test]
fn full_recovery_matches_conventional_decompression() {
    let text = b"FileType=text/acmi/tacview\n0,ReferenceTime=2020-01-01T00:00:00Z\n#0.00\n3000102,T=5.1|6.2|1000\n";
    let payload = deflate_bytes(text);
    let s = salvage(input_with_payload(&payload)).unwrap();

    // Conventional whole-file decompression and line splitting.
    let whole = inflate_bytes(&payload);
    assert_eq!(whole, text.to_vec());
    let terminated_lines = whole.iter().filter(|b| **b == b'\n').count();
    let conventional: Vec<Vec<u8>> = whole
        .split(|b| *b == b'\n')
        .map(|part| part.to_vec())
        .take(terminated_lines)
        .collect();
    assert_eq!(s.records, conventional);
    assert_eq!(read_archive_entry(&s.archive), text.to_vec());
}

#[test]
fn rerun_is_byte_identical() {
    let mut payload = deflate_bytes(b"alpha\nbravo\ncharlie\n");
    payload.truncate(payload.len() - 3);
    let first = salvage(input_with_payload(&payload)).unwrap();
    let second = salvage(input_with_payload(&payload)).unwrap();
    assert_eq!(first.records, second.records);
    assert_eq!(first.archive, second.archive);
}

#[test]
fn longer_truncation_never_loses_records() {
    let header_len = make_header().len();
    let full = input_with_payload(&deflate_bytes(b"one\ntwo\nthree\nfour\nfive\n"));
    let mut previous: Vec<Vec<u8>> = Vec::new();
    for k in header_len..=full.len() {
        let s = salvage(full[..k].to_vec()).unwrap();
        // Every record already recovered stays, unchanged and in place.
        assert!(s.records.len() >= previous.len());
        assert_eq!(&s.records[..previous.len()], &previous[..]);
        previous = s.records;
    }
    assert_eq!(
        previous,
        vec![
            b"one".to_vec(),
            b"two".to_vec(),
            b"three".to_vec(),
            b"four".to_vec(),
            b"five".to_vec()
        ]
    );
}

#[test]
fn truncated_archives_open_independently() {
    let header_len = make_header().len();
    let full = input_with_payload(&deflate_bytes(b"one\ntwo\nthree\nfour\nfive\n"));
    for k in header_len..full.len() {
        let s = salvage(full[..k].to_vec()).unwrap();
        // The output must be a valid archive whatever the cut.
        let entry = read_archive_entry(&s.archive);
        let mut expected = Vec::new();
        for r in &s.records {
            expected.extend_from_slice(r);
            expected.push(b'\n');
        }
        assert_eq!(entry, expected);
    }
}
