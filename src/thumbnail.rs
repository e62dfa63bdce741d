//! The thumbnail container: a checksum, a length prefix, the image payload
//! and zero padding up to a fixed size.
use vstd::prelude::*;

use crate::bytes::{be32, get_be32, lemma_be32_read, push_be32, push_zeros, read_be32, zeros};
use crate::checksum::{crc32_from, crc32_of};
use crate::Error;

verus! {

/// Size in bytes of an encoded thumbnail.
pub const THUMBNAIL_SIZE: usize = 0xC800;

/// Largest payload that fits in a thumbnail.
pub const MAX_JPEG_SIZE: usize = 0xC7F8;

/// A length-prefixed image payload, treated as opaque bytes.
#[derive(Debug, Clone, PartialEq, Eq)]
pub struct Thumbnail {
    pub jpeg_data: Vec<u8>,
}

/// What the checksum covers: the length prefix, the payload and the padding.
pub open spec fn thumbnail_content(jpeg: Seq<u8>) -> Seq<u8> {
    be32(jpeg.len() as u32) + jpeg + zeros((THUMBNAIL_SIZE - 8 - jpeg.len()) as nat)
}

/// The wire form of a payload of at most `MAX_JPEG_SIZE` bytes.
pub open spec fn thumbnail_image(jpeg: Seq<u8>) -> Seq<u8> {
    be32(crc32_of(thumbnail_content(jpeg))) + thumbnail_content(jpeg)
}

/// The payload length that a container declares.
pub open spec fn declared_length(b: Seq<u8>) -> int {
    read_be32(b, 4) as int
}

/// A buffer decodes when it holds the length prefix and as many payload
/// bytes as the prefix declares.
pub open spec fn thumbnail_decodable(b: Seq<u8>) -> bool {
    8 <= b.len() && 8 + declared_length(b) <= b.len()
}

/// The payload of a decodable buffer.
pub open spec fn thumbnail_payload(b: Seq<u8>) -> Seq<u8> {
    b.subrange(8, 8 + declared_length(b))
}

/// Decoding the wire form of a payload that fits gives the payload back,
/// and the stored checksum is the CRC-32 of everything after it.
pub proof fn lemma_thumbnail_round_trip(jpeg: Seq<u8>)
    requires
        jpeg.len() <= MAX_JPEG_SIZE,
    ensures
        thumbnail_image(jpeg).len() == THUMBNAIL_SIZE,
        thumbnail_decodable(thumbnail_image(jpeg)),
        thumbnail_payload(thumbnail_image(jpeg)) == jpeg,
        read_be32(thumbnail_image(jpeg), 0) == crc32_of(
            thumbnail_image(jpeg).subrange(4, THUMBNAIL_SIZE as int),
        ),
{
    let c = thumbnail_content(jpeg);
    let b = thumbnail_image(jpeg);
    let crc = crc32_of(c);
    assert(b.subrange(4, 8) =~= be32(jpeg.len() as u32));
    lemma_be32_read(b, 4, jpeg.len() as u32);
    assert(b.subrange(0, 4) =~= be32(crc));
    lemma_be32_read(b, 0, crc);
    assert(b.subrange(8, 8 + jpeg.len() as int) =~= jpeg);
    assert(b.subrange(4, THUMBNAIL_SIZE as int) =~= c);
}

impl Thumbnail {
    pub fn new(jpeg_data: Vec<u8>) -> (r: Thumbnail)
        ensures
            r.jpeg_data@ == jpeg_data@,
    {
        Thumbnail { jpeg_data }
    }

    /// Reads the payload whose length the prefix at offset 4 declares. The
    /// checksum and the padding are not looked at.
    pub fn from_bytes(bytes: &[u8]) -> (r: Result<Thumbnail, Error>)
        ensures
            r is Ok <==> thumbnail_decodable(bytes@),
            r matches Ok(t) ==> t.jpeg_data@ == thumbnail_payload(bytes@),
            !thumbnail_decodable(bytes@) ==> r == Err::<Thumbnail, Error>(Error::InvalidData),
    {
        let len = bytes.len();
        if len < 8 {
            return Err(Error::InvalidData);
        }
        let jpeg_length = get_be32(bytes, 4) as usize;
        if jpeg_length > len - 8 {
            return Err(Error::InvalidData);
        }
        let payload = vstd::slice::slice_subrange(bytes, 8, 8 + jpeg_length);
        Ok(Thumbnail { jpeg_data: vstd::slice::slice_to_vec(payload) })
    }

    /// The fixed-size wire form; a payload over `MAX_JPEG_SIZE` bytes is
    /// refused.
    pub fn to_bytes(&self) -> (r: Result<Vec<u8>, Error>)
        ensures
            r is Ok <==> self.jpeg_data@.len() <= MAX_JPEG_SIZE,
            r matches Ok(b) ==> b@ == thumbnail_image(self.jpeg_data@),
            self.jpeg_data@.len() > MAX_JPEG_SIZE ==> r == Err::<Vec<u8>, Error>(
                Error::FileTooLarge,
            ),
    {
        let n = self.jpeg_data.len();
        if n > MAX_JPEG_SIZE {
            return Err(Error::FileTooLarge);
        }
        let mut content: Vec<u8> = Vec::new();
        push_be32(&mut content, n as u32);
        content.extend_from_slice(self.jpeg_data.as_slice());
        push_zeros(&mut content, THUMBNAIL_SIZE - 8 - n);
        assert(content@ =~= thumbnail_content(self.jpeg_data@));
        let checksum = crc32_from(content.as_slice(), 0);
        assert(content@.subrange(0, content@.len() as int) =~= content@);
        let mut bytes: Vec<u8> = Vec::new();
        push_be32(&mut bytes, checksum);
        bytes.append(&mut content);
        Ok(bytes)
    }

    /// Whether the checksum stored in the first four bytes is the CRC-32 of
    /// the rest of the buffer.
    pub fn checksum_matches(bytes: &[u8]) -> (r: bool)
        ensures
            r == (4 <= bytes@.len() && read_be32(bytes@, 0) == crc32_of(
                bytes@.subrange(4, bytes@.len() as int),
            )),
    {
        if bytes.len() < 4 {
            return false;
        }
        get_be32(bytes, 0) == crc32_from(bytes, 4)
    }
}

} // verus!
