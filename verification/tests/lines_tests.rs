use acmi_rescue::archive::build_archive;
use acmi_rescue::lines::split_complete_lines;

use std::io::Read;

#[test]
fn split_drops_unterminated_fragment() {
    let lines = split_complete_lines(&b"A\nBC".to_vec());
    assert_eq!(lines, vec![b"A".to_vec()]);
}

#[test]
fn split_empty_stream() {
    let lines = split_complete_lines(&Vec::new());
    assert_eq!(lines, Vec::<Vec<u8>>::new());
}

#[test]
fn split_keeps_empty_records() {
    let lines = split_complete_lines(&b"\n\nX\n".to_vec());
    assert_eq!(lines, vec![Vec::new(), Vec::new(), b"X".to_vec()]);
}

#[test]
fn split_newline_only_at_end() {
    let lines = split_complete_lines(&b"one\ntwo\n".to_vec());
    assert_eq!(lines, vec![b"one".to_vec(), b"two".to_vec()]);
}

fn entry_of(archive: &[u8], name: &str) -> Vec<u8> {
    let mut z = zip::ZipArchive::new(std::io::Cursor::new(archive.to_vec())).unwrap();
    let mut f = z.by_name(name).unwrap();
    let mut out = Vec::new();
    f.read_to_end(&mut out).unwrap();
    out
}

#[test]
fn build_archive_rejoins_records() {
    let records = vec![b"X".to_vec(), b"YZ".to_vec()];
    let archive = build_archive(&records);
    assert_eq!(entry_of(&archive, "acmi.txt"), b"X\nYZ\n".to_vec());
}

#[test]
fn build_archive_with_no_records() {
    let archive = build_archive(&Vec::new());
    assert_eq!(entry_of(&archive, "acmi.txt"), Vec::<u8>::new());
}
