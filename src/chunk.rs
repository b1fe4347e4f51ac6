//! The chunk stream: signature and header validation, and the
//! length-prefixed, checksummed chunks that follow.
use vstd::prelude::*;

use crate::decode_error::{DecodeError, ErrorKind};
use crate::png::ImageMetadata;

verus! {

/// The smallest file that can be a PNG: the signature, a header chunk with
/// 13 bytes of data, an empty data chunk and a terminal chunk.
pub const MIN_FILE_LEN: usize = 57;

/// The offset of the first chunk after the header chunk.
pub const FIRST_CHUNK: usize = 33;

/// The eight bytes every PNG starts with.
pub open spec fn png_signature() -> Seq<u8> {
    seq![137u8, 80u8, 78u8, 71u8, 13u8, 10u8, 26u8, 10u8]
}

/// The header chunk's length field: 13, big-endian.
pub open spec fn header_length_field() -> Seq<u8> {
    seq![0u8, 0u8, 0u8, 13u8]
}

/// Type tag `IHDR`: the header chunk.
pub open spec fn header_tag() -> Seq<u8> {
    seq![73u8, 72u8, 68u8, 82u8]
}

/// Type tag `PLTE`: the palette chunk.
pub open spec fn palette_tag() -> Seq<u8> {
    seq![80u8, 76u8, 84u8, 69u8]
}

/// Type tag `IDAT`: an image-data chunk.
pub open spec fn data_tag() -> Seq<u8> {
    seq![73u8, 68u8, 65u8, 84u8]
}

/// Type tag `IEND`: the terminal chunk.
pub open spec fn end_tag() -> Seq<u8> {
    seq![73u8, 69u8, 78u8, 68u8]
}

/// The big-endian unsigned integer in the four bytes of `b` from `i`.
pub open spec fn be_u32(b: Seq<u8>, i: int) -> u32 {
    (b[i] * 16777216 + b[i + 1] * 65536 + b[i + 2] * 256 + b[i + 3]) as u32
}

/// The CRC-32 (standard polynomial) of `data`.
pub uninterp spec fn crc32_of(data: Seq<u8>) -> u32;

/// Relies on `crc32fast::hash`: the standard CRC-32 of the whole slice,
/// which depends on its bytes alone.
#[verifier::external_body]
fn crc32(data: &[u8]) -> (r: u32)
    ensures
        r == crc32_of(data@),
{
    crc32fast::hash(data)
}

/// The outcome of the checks made before any chunk is read.
pub open spec fn validate_spec(bytes: Seq<u8>) -> Result<(), ErrorKind> {
    if bytes.len() < MIN_FILE_LEN {
        Err(ErrorKind::InvalidStructure)
    } else if bytes.subrange(0, 8) != png_signature() {
        Err(ErrorKind::InvalidSignature)
    } else if bytes.subrange(8, 12) != header_length_field() || bytes.subrange(12, 16)
        != header_tag() {
        Err(ErrorKind::InvalidHeader)
    } else {
        Ok(())
    }
}

/// A chunk as values: its length field, type tag, payload and CRC field.
pub struct ChunkView {
    pub length: u32,
    pub chunk_type: Seq<u8>,
    pub chunk_data: Seq<u8>,
    pub crc: u32,
}

/// A chunk is made of 4 constituent parts. It begins with an unsigned 4 byte
/// length (the length of the data section, not the entire chunk's length),
/// then the chunk's type, the chunk data, and a CRC.
pub struct Chunk {
    pub length: u32,
    pub chunk_type: [u8; 4],
    pub chunk_data: Vec<u8>,
    pub crc: u32,
}

impl View for Chunk {
    type V = ChunkView;

    open spec fn view(&self) -> ChunkView {
        ChunkView {
            length: self.length,
            chunk_type: self.chunk_type@,
            chunk_data: self.chunk_data@,
            crc: self.crc,
        }
    }
}

/// The CRC field matches the CRC-32 of the type tag and payload.
pub open spec fn checksum_ok(c: ChunkView) -> bool {
    crc32_of(c.chunk_type + c.chunk_data) == c.crc
}

/// The whole chunk starting at `pos` lies within `bytes`.
pub open spec fn chunk_fits(bytes: Seq<u8>, pos: int) -> bool {
    pos + 12 <= bytes.len() && pos + 12 + be_u32(bytes, pos) <= bytes.len()
}

/// The offset just past the chunk starting at `pos`.
pub open spec fn chunk_end(bytes: Seq<u8>, pos: int) -> int {
    pos + 12 + be_u32(bytes, pos)
}

/// The chunk starting at `pos`.
pub open spec fn chunk_at(bytes: Seq<u8>, pos: int) -> ChunkView {
    let n = be_u32(bytes, pos);
    ChunkView {
        length: n,
        chunk_type: bytes.subrange(pos + 4, pos + 8),
        chunk_data: bytes.subrange(pos + 8, pos + 8 + n),
        crc: be_u32(bytes, pos + 8 + n),
    }
}

/// The chunks from `pos` to the end of `bytes`, in order and without
/// terminal chunks, or the first reason to stop: a chunk running past the
/// end, a palette chunk, or a checksum mismatch.
pub open spec fn parse_chunks(bytes: Seq<u8>, pos: int) -> Result<Seq<ChunkView>, ErrorKind>
    decreases bytes.len() - pos,
{
    if pos >= bytes.len() {
        Ok(seq![])
    } else if !chunk_fits(bytes, pos) {
        Err(ErrorKind::InvalidStructure)
    } else {
        let c = chunk_at(bytes, pos);
        if c.chunk_type == palette_tag() {
            Err(ErrorKind::UnsupportedFeature)
        } else if !checksum_ok(c) {
            Err(ErrorKind::FailedChecksum)
        } else {
            match parse_chunks(bytes, chunk_end(bytes, pos)) {
                Err(e) => Err(e),
                Ok(rest) => Ok(
                    if c.chunk_type == end_tag() {
                        rest
                    } else {
                        seq![c] + rest
                    },
                ),
            }
        }
    }
}

/// The chunks from `from` up to `to` all fit, are not palette chunks and
/// pass their checksums, and the last of them ends exactly at `to`: the
/// parser reaches `to` as a chunk boundary.
pub open spec fn chunks_pass(bytes: Seq<u8>, from: int, to: int) -> bool
    decreases to - from,
{
    if from >= to {
        from == to
    } else {
        &&& chunk_fits(bytes, from)
        &&& chunk_at(bytes, from).chunk_type != palette_tag()
        &&& checksum_ok(chunk_at(bytes, from))
        &&& chunk_end(bytes, from) <= to
        &&& chunks_pass(bytes, chunk_end(bytes, from), to)
    }
}

/// A parse that fails from a reachable chunk boundary fails the same way
/// from any earlier one.
pub proof fn lemma_parse_error_propagates(bytes: Seq<u8>, from: int, to: int)
    requires
        chunks_pass(bytes, from, to),
        parse_chunks(bytes, to) is Err,
    ensures
        parse_chunks(bytes, from) == parse_chunks(bytes, to),
    decreases to - from,
{
    if from < to {
        lemma_parse_error_propagates(bytes, chunk_end(bytes, from), to);
    }
}

/// The views of a sequence of chunks.
pub open spec fn views(chunks: Seq<Chunk>) -> Seq<ChunkView> {
    chunks.map_values(|c: Chunk| c@)
}

impl Chunk {
    /// Whether the CRC field matches the CRC-32 of the type tag and payload
    /// (the length field is not covered).
    pub fn crc_is_valid(&self) -> (r: bool)
        ensures
            r == checksum_ok(self@),
    {
        let mut covered: Vec<u8> = Vec::new();
        let mut i: usize = 0;
        while i < 4
            invariant
                i <= 4,
                covered@ == self.chunk_type@.subrange(0, i as int),
            decreases 4 - i,
        {
            covered.push(self.chunk_type[i]);
            i += 1;
            assert(covered@ =~= self.chunk_type@.subrange(0, i as int));
        }
        let mut j: usize = 0;
        while j < self.chunk_data.len()
            invariant
                j <= self.chunk_data@.len(),
                covered@ == self.chunk_type@ + self.chunk_data@.subrange(0, j as int),
            decreases self.chunk_data@.len() - j,
        {
            covered.push(self.chunk_data[j]);
            j += 1;
            assert(covered@ =~= self.chunk_type@ + self.chunk_data@.subrange(0, j as int));
        }
        assert(self.chunk_data@.subrange(0, self.chunk_data@.len() as int) =~= self.chunk_data@);
        let checksum = crc32(covered.as_slice());
        checksum == self.crc
    }

    /// Whether this chunk's type tag is `tag`.
    pub fn has_type(&self, tag: &[u8; 4]) -> (r: bool)
        ensures
            r == (self.chunk_type@ == tag@),
    {
        let t = self.chunk_type;
        let same = t[0] == tag[0] && t[1] == tag[1] && t[2] == tag[2] && t[3] == tag[3];
        assert(same ==> self.chunk_type@ =~= tag@);
        same
    }
}

/// The metadata that the header chunk's payload (offsets 16 to 28) gives,
/// or the unsupported feature it names.
pub open spec fn metadata_spec(bytes: Seq<u8>) -> Result<ImageMetadata, ErrorKind> {
    let bit_depth = bytes[24];
    let compression_method = bytes[26];
    let filter_method = bytes[27];
    let interlace_method = bytes[28];
    if bit_depth != 8 {
        Err(ErrorKind::UnsupportedFeature)
    } else if filter_method != 0 || compression_method != 0 {
        Err(ErrorKind::UnsupportedFeature)
    } else if interlace_method != 0 {
        Err(ErrorKind::UnsupportedFeature)
    } else {
        Ok(
            ImageMetadata {
                width: be_u32(bytes, 16),
                height: be_u32(bytes, 20),
                bit_depth,
                color_type: bytes[25],
                compression_method,
                filter_method,
                interlace_method,
            },
        )
    }
}

/// The chunks before `r`'s, then `r`'s chunks; or `r`'s error.
pub open spec fn after(done: Seq<ChunkView>, r: Result<Seq<ChunkView>, ErrorKind>) -> Result<
    Seq<ChunkView>,
    ErrorKind,
> {
    match r {
        Ok(rest) => Ok(done + rest),
        Err(e) => Err(e),
    }
}

/// A cursor over the bytes of a file that passed validation.
pub struct ChunkReader {
    position: usize,
    bytes: Vec<u8>,
}

impl ChunkReader {
    /// The file's bytes.
    pub closed spec fn spec_bytes(&self) -> Seq<u8> {
        self.bytes@
    }

    /// The offset of the next chunk.
    pub closed spec fn spec_position(&self) -> int {
        self.position as int
    }

    /// The bytes passed validation and the cursor lies within them.
    pub closed spec fn wf(&self) -> bool {
        &&& validate_spec(self.bytes@) is Ok
        &&& FIRST_CHUNK <= self.position <= self.bytes@.len()
    }

    fn validate_file(bytes: &Vec<u8>) -> (r: Result<(), DecodeError>)
        ensures
            r is Ok <==> validate_spec(bytes@) is Ok,
            r is Err ==> validate_spec(bytes@) == Err::<(), ErrorKind>(r->Err_0.spec_kind()),
    {
        // A valid PNG is a minimum of 57 bytes: the 8-byte signature, the
        // 25-byte header chunk, and two chunks of at least 12 bytes each.
        if bytes.len() < MIN_FILE_LEN {
            return Err(DecodeError::InvalidStructure());
        }
        let signature: [u8; 8] = [137, 80, 78, 71, 13, 10, 26, 10];
        let mut i: usize = 0;
        while i < 8
            invariant
                i <= 8,
                bytes@.len() >= MIN_FILE_LEN,
                signature@ == png_signature(),
                forall|k: int| 0 <= k < i ==> bytes@[k] == png_signature()[k],
            decreases 8 - i,
        {
            if bytes[i] != signature[i] {
                assert(bytes@.subrange(0, 8)[i as int] != png_signature()[i as int]);
                return Err(DecodeError::InvalidSignature());
            }
            i += 1;
        }
        assert(bytes@.subrange(0, 8) =~= png_signature());
        // The header must declare 13 bytes of data and the type `IHDR`.
        let length_ok = bytes[8] == 0 && bytes[9] == 0 && bytes[10] == 0 && bytes[11] == 13;
        let tag_ok = bytes[12] == 73 && bytes[13] == 72 && bytes[14] == 68 && bytes[15] == 82;
        if !length_ok || !tag_ok {
            proof {
                if !length_ok {
                    assert(bytes@.subrange(8, 12) != header_length_field()) by {
                        if bytes@.subrange(8, 12) == header_length_field() {
                            assert(bytes@.subrange(8, 12)[0] == bytes@[8]);
                            assert(bytes@.subrange(8, 12)[1] == bytes@[9]);
                            assert(bytes@.subrange(8, 12)[2] == bytes@[10]);
                            assert(bytes@.subrange(8, 12)[3] == bytes@[11]);
                        }
                    }
                } else {
                    assert(bytes@.subrange(12, 16) != header_tag()) by {
                        if bytes@.subrange(12, 16) == header_tag() {
                            assert(bytes@.subrange(12, 16)[0] == bytes@[12]);
                            assert(bytes@.subrange(12, 16)[1] == bytes@[13]);
                            assert(bytes@.subrange(12, 16)[2] == bytes@[14]);
                            assert(bytes@.subrange(12, 16)[3] == bytes@[15]);
                        }
                    }
                }
            }
            return Err(DecodeError::InvalidHeader());
        }
        assert(bytes@.subrange(8, 12) =~= header_length_field());
        assert(bytes@.subrange(12, 16) =~= header_tag());
        Ok(())
    }

    /// Validates `bytes` as the start of a PNG file and places the cursor
    /// just past the header chunk.
    pub fn new(bytes: Vec<u8>) -> (r: Result<Self, DecodeError>)
        ensures
            r is Ok <==> validate_spec(bytes@) is Ok,
            r is Err ==> validate_spec(bytes@) == Err::<(), ErrorKind>(r->Err_0.spec_kind()),
            r is Ok ==> {
                &&& r->Ok_0.wf()
                &&& r->Ok_0.spec_bytes() == bytes@
                &&& r->Ok_0.spec_position() == FIRST_CHUNK
            },
    {
        match Self::validate_file(&bytes) {
            Err(e) => Err(e),
            Ok(()) => Ok(ChunkReader { position: FIRST_CHUNK, bytes }),
        }
    }

    fn read_four_bytes_into_u32(&mut self) -> (r: u32)
        requires
            old(self).position + 4 <= old(self).bytes@.len(),
        ensures
            r == be_u32(old(self).bytes@, old(self).position as int),
            final(self).bytes == old(self).bytes,
            final(self).position == old(self).position + 4,
    {
        let arr = self.read_four_bytes_into_array();
        // PNG integers are big-endian (network order).
        arr[0] as u32 * 16777216 + arr[1] as u32 * 65536 + arr[2] as u32 * 256 + arr[3] as u32
    }

    fn read_four_bytes_into_array(&mut self) -> (r: [u8; 4])
        requires
            old(self).position + 4 <= old(self).bytes@.len(),
        ensures
            r@ == old(self).bytes@.subrange(old(self).position as int, old(self).position + 4),
            final(self).bytes == old(self).bytes,
            final(self).position == old(self).position + 4,
    {
        let p = self.position;
        let len = self.bytes.len();
        assert(p + 4 <= len);
        let buf: [u8; 4] = [self.bytes[p], self.bytes[p + 1], self.bytes[p + 2], self.bytes[p + 3]];
        self.position = p + 4;
        assert(buf@ =~= self.bytes@.subrange(p as int, p + 4));
        buf
    }

    fn read_chunk_data(&mut self, bytes_to_read: u32) -> (r: Vec<u8>)
        requires
            old(self).position + bytes_to_read <= old(self).bytes@.len(),
        ensures
            r@ == old(self).bytes@.subrange(
                old(self).position as int,
                old(self).position + bytes_to_read,
            ),
            final(self).bytes == old(self).bytes,
            final(self).position == old(self).position + bytes_to_read,
    {
        let n = bytes_to_read as usize;
        let start = self.position;
        let len = self.bytes.len();
        let mut res: Vec<u8> = Vec::new();
        let mut b: usize = 0;
        while b < n
            invariant
                b <= n,
                n == bytes_to_read,
                start == self.position,
                start + n <= self.bytes@.len(),
                len == self.bytes@.len(),
                res@ == self.bytes@.subrange(start as int, start + b),
            decreases n - b,
        {
            res.push(self.bytes[start + b]);
            b += 1;
            assert(res@ =~= self.bytes@.subrange(start as int, start + b));
        }
        self.position = start + n;
        res
    }

    /// Reads every chunk from the cursor to the end of the file, appending
    /// all but terminal chunks to `chunks` in file order. Stops at the first
    /// chunk that runs past the end (invalid structure), is a palette chunk
    /// (unsupported feature) or fails its checksum.
    pub fn read_into_vec(&mut self, chunks: &mut Vec<Chunk>) -> (r: Result<(), DecodeError>)
        requires
            old(self).wf(),
        ensures
            final(self).wf(),
            final(self).spec_bytes() == old(self).spec_bytes(),
            old(chunks)@.is_prefix_of(final(chunks)@),
            r is Ok ==> final(self).spec_position() == final(self).spec_bytes().len(),
            r is Ok <==> parse_chunks(old(self).spec_bytes(), old(self).spec_position()) is Ok,
            r is Ok ==> after(
                views(old(chunks)@),
                parse_chunks(old(self).spec_bytes(), old(self).spec_position()),
            ) == Ok::<Seq<ChunkView>, ErrorKind>(views(final(chunks)@)),
            r is Err ==> parse_chunks(old(self).spec_bytes(), old(self).spec_position()) == Err::<
                Seq<ChunkView>,
                ErrorKind,
            >(r->Err_0.spec_kind()),
    {
        let ghost b0 = self.bytes@;
        let ghost whole = after(views(chunks@), parse_chunks(b0, self.position as int));
        let palette: [u8; 4] = [80, 76, 84, 69];
        let end: [u8; 4] = [73, 69, 78, 68];
        assert(palette@ =~= palette_tag());
        assert(end@ =~= end_tag());
        while self.position < self.bytes.len()
            invariant
                self.wf(),
                self.bytes@ == b0,
                b0 == old(self).bytes@,
                whole == after(views(old(chunks)@), parse_chunks(b0, old(self).position as int)),
                palette@ == palette_tag(),
                end@ == end_tag(),
                whole == after(views(chunks@), parse_chunks(b0, self.position as int)),
                old(chunks)@.is_prefix_of(chunks@),
            decreases b0.len() - self.position,
        {
            let pos = self.position;
            let len = self.bytes.len();
            if len - pos < 12 {
                return Err(DecodeError::InvalidStructure());
            }
            let length = self.read_four_bytes_into_u32();
            if ((len - pos - 12) as u64) < length as u64 {
                return Err(DecodeError::InvalidStructure());
            }
            let chunk_type = self.read_four_bytes_into_array();
            let chunk_data = self.read_chunk_data(length);
            let crc = self.read_four_bytes_into_u32();
            let chunk = Chunk { length, chunk_type, chunk_data, crc };
            let ghost c = chunk@;
            assert(c == chunk_at(b0, pos as int));
            assert(self.position == chunk_end(b0, pos as int));
            if chunk.has_type(&palette) {
                return Err(
                    DecodeError::UnsupportedFeature("PLTE chunks are not yet supported".to_owned()),
                );
            }
            if !chunk.crc_is_valid() {
                return Err(DecodeError::FailedChecksum());
            }
            let ghost before = views(chunks@);
            if !chunk.has_type(&end) {
                let ghost prev = chunks@;
                chunks.push(chunk);
                proof {
                    assert(old(chunks)@.is_prefix_of(chunks@)) by {
                        assert(chunks@.subrange(0, prev.len() as int) =~= prev);
                    }
                    assert(views(chunks@) =~= before.push(c));
                    match parse_chunks(b0, self.position as int) {
                        Ok(rest) => {
                            assert(before + (seq![c] + rest) =~= before.push(c) + rest);
                        },
                        Err(_) => {},
                    }
                }
            }
        }
        assert(views(chunks@) + seq![] =~= views(chunks@));
        Ok(())
    }

    /// Reads the header chunk's payload: width and height (big-endian), bit
    /// depth, color type, and the compression, filter and interlace methods.
    /// Fails with an unsupported feature unless the bit depth is 8 and the
    /// three methods are 0.
    pub fn read_metadata(&self) -> (r: Result<ImageMetadata, DecodeError>)
        requires
            self.wf(),
        ensures
            r is Ok <==> metadata_spec(self.spec_bytes()) is Ok,
            r is Ok ==> metadata_spec(self.spec_bytes()) == Ok::<ImageMetadata, ErrorKind>(
                r->Ok_0,
            ),
            r is Err ==> metadata_spec(self.spec_bytes()) == Err::<ImageMetadata, ErrorKind>(
                r->Err_0.spec_kind(),
            ),
    {
        // The header chunk spans offsets 8 to 32; its payload 16 to 28.
        let b = &self.bytes;
        let width = b[16] as u32 * 16777216 + b[17] as u32 * 65536 + b[18] as u32 * 256
            + b[19] as u32;
        let height = b[20] as u32 * 16777216 + b[21] as u32 * 65536 + b[22] as u32 * 256
            + b[23] as u32;
        let bit_depth = b[24];
        if bit_depth != 8 {
            return Err(
                DecodeError::UnsupportedFeature(
                    "A bit depth of 8 is the only supported bit depth right now".to_owned(),
                ),
            );
        }
        let compression_method = b[26];
        let filter_method = b[27];
        let interlace_method = b[28];
        if filter_method != 0 || compression_method != 0 {
            return Err(
                DecodeError::UnsupportedFeature(
                    "Filter and compression methods only support 0 for each".to_owned(),
                ),
            );
        }
        if interlace_method != 0 {
            return Err(
                DecodeError::UnsupportedFeature("Interlacing is not yet supported".to_owned()),
            );
        }
        Ok(
            ImageMetadata {
                width,
                height,
                bit_depth,
                color_type: b[25],
                compression_method,
                filter_method,
                interlace_method,
            },
        )
    }
}

} // verus!
