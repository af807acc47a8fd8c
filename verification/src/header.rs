use vstd::prelude::*;

use crate::cursor::{le16_at, le32_at, ByteCursor};
use crate::error::AcmiError;

verus! {

/// The four signature bytes that open an entry header.
pub open spec fn has_magic(s: Seq<u8>) -> bool {
    s.len() >= 4 && s[0] == 0x50u8 && s[1] == 0x4bu8 && s[2] == 0x03u8 && s[3] == 0x04u8
}

/// The whole header's length: thirty fixed-layout bytes, then the
/// path and the extra field, whose lengths stand at offsets 26 and 28.
pub open spec fn spec_header_len(s: Seq<u8>) -> int {
    30 + le16_at(s, 26) + le16_at(s, 28)
}

/// Whether `s` opens with a well-formed entry header: the signature
/// matches and the buffer holds the header in full.
pub open spec fn header_parses(s: Seq<u8>) -> bool {
    has_magic(s) && s.len() >= 30 && s.len() >= spec_header_len(s)
}

/// The metadata block that precedes one entry's compressed data;
/// it allows streaming discovery of the payload without any
/// trailing index.
#[derive(Debug)]
pub struct LocalFileHeader {
    pub minimum_extract_version: u16,
    pub flags: u16,
    pub compression_method: u16,
    pub last_modified_time: u16,
    pub last_modified_date: u16,
    pub crc32: u32,
    pub compressed_size: u32,
    pub uncompressed_size: u32,
    pub path: Vec<u8>,
    pub extra_field: Vec<u8>,
}

/// Every field of `h` holds exactly what the header bytes at the
/// front of `s` declare.
pub open spec fn matches_header(h: LocalFileHeader, s: Seq<u8>) -> bool {
    &&& h.minimum_extract_version == le16_at(s, 4)
    &&& h.flags == le16_at(s, 6)
    &&& h.compression_method == le16_at(s, 8)
    &&& h.last_modified_time == le16_at(s, 10)
    &&& h.last_modified_date == le16_at(s, 12)
    &&& h.crc32 == le32_at(s, 14)
    &&& h.compressed_size == le32_at(s, 18)
    &&& h.uncompressed_size == le32_at(s, 22)
    &&& h.path@ == s.subrange(30, 30 + le16_at(s, 26))
    &&& h.extra_field@ == s.subrange(30 + le16_at(s, 26), spec_header_len(s))
}

impl LocalFileHeader {
    /// Parses the header at the front of the cursor. On success the
    /// cursor stands exactly at the first byte of the compressed
    /// payload; everything that follows depends on that.
    pub fn parse_and_consume(cursor: &mut ByteCursor) -> (r: Result<LocalFileHeader, AcmiError>)
        requires
            old(cursor).wf(),
        ensures
            final(cursor).wf(),
            r matches Ok(h) ==> header_parses(old(cursor).remaining()),
            r matches Ok(h) ==> matches_header(h, old(cursor).remaining()),
            r matches Ok(h) ==> final(cursor).remaining() == old(cursor).remaining().skip(
                spec_header_len(old(cursor).remaining())),
            (r matches Err(e) && e is BadMagic) <==> (old(cursor).remaining().len() >= 4
                && !has_magic(old(cursor).remaining())),
            (r matches Err(e) && e is TruncatedHeader) <==> (old(cursor).remaining().len() < 4
                || (has_magic(old(cursor).remaining()) && !header_parses(old(cursor).remaining()))),
            r is Ok <==> header_parses(old(cursor).remaining()),
    {
        let ghost s = old(cursor).remaining();
        if cursor.len() < 4 {
            return Err(AcmiError::TruncatedHeader);
        }
        let m0 = cursor.take_byte();
        let m1 = cursor.take_byte();
        let m2 = cursor.take_byte();
        let m3 = cursor.take_byte();
        if !(m0 == 0x50 && m1 == 0x4b && m2 == 0x03 && m3 == 0x04) {
            return Err(AcmiError::BadMagic);
        }
        if cursor.len() < 26 {
            return Err(AcmiError::TruncatedHeader);
        }
        proof {
            assert(cursor.remaining() =~= s.skip(4));
        }
        let minimum_extract_version = cursor.read_u16();
        let flags = cursor.read_u16();
        let compression_method = cursor.read_u16();
        let last_modified_time = cursor.read_u16();
        let last_modified_date = cursor.read_u16();
        let crc32 = cursor.read_u32();
        let compressed_size = cursor.read_u32();
        let uncompressed_size = cursor.read_u32();
        let path_length = cursor.read_u16();
        let extra_field_length = cursor.read_u16();
        proof {
            assert(cursor.remaining() =~= s.skip(30));
            assert(path_length == le16_at(s, 26));
            assert(extra_field_length == le16_at(s, 28));
        }
        let want = path_length as usize + extra_field_length as usize;
        if cursor.len() < want {
            return Err(AcmiError::TruncatedHeader);
        }
        let path = cursor.take_fixed(path_length as usize);
        let extra_field = cursor.take_fixed(extra_field_length as usize);
        proof {
            assert(path@ =~= s.subrange(30, 30 + le16_at(s, 26)));
            assert(extra_field@ =~= s.subrange(30 + le16_at(s, 26), spec_header_len(s)));
            assert(cursor.remaining() =~= s.skip(spec_header_len(s)));
        }
        Ok(LocalFileHeader {
            minimum_extract_version,
            flags,
            compression_method,
            last_modified_time,
            last_modified_date,
            crc32,
            compressed_size,
            uncompressed_size,
            path,
            extra_field,
        })
    }
}

} // verus!
