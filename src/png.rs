//! Image assembly: metadata, the parsed file, and the decode pipeline that
//! joins the image-data payloads, inflates them, and defilters the result.
use vstd::prelude::*;

use crate::chunk::{
    checksum_ok, chunk_at, chunk_fits, chunks_pass, data_tag, lemma_parse_error_propagates,
    metadata_spec, palette_tag, parse_chunks, png_signature, validate_spec, views, Chunk,
    ChunkReader, ChunkView, FIRST_CHUNK, MIN_FILE_LEN,
};
use crate::color::{
    canonical_pixels, channel_count, channels_of, lemma_canonical_pixels_len, to_canonical,
};
use crate::decode_error::{agrees, DecodeError, ErrorKind};
use crate::filter::{filters_valid, lemma_raw_rows_len, raw_rows, unfilter_scanlines};

verus! {

/// What the header chunk says of the image.
#[derive(Debug, Clone, Copy, PartialEq, Eq, Structural)]
pub struct ImageMetadata {
    pub width: u32,
    pub height: u32,
    pub bit_depth: u8,
    pub color_type: u8,
    pub compression_method: u8,
    pub filter_method: u8,
    pub interlace_method: u8,
}

/// The result of decompressing `data` as a zlib stream, or `None` where it
/// is not one.
pub uninterp spec fn zlib_inflate(data: Seq<u8>) -> Option<Seq<u8>>;

#[verifier::external_type_specification]
#[verifier::external_body]
pub struct ExDecompressError(miniz_oxide::inflate::DecompressError);

/// Relies on `miniz_oxide::inflate::decompress_to_vec_zlib`: it inflates a
/// whole zlib stream with no size limit, and its outcome depends on the
/// input bytes alone.
#[verifier::external_body]
fn inflate_zlib(data: &[u8]) -> (r: Result<Vec<u8>, miniz_oxide::inflate::DecompressError>)
    ensures
        r is Ok <==> zlib_inflate(data@) is Some,
        r is Ok ==> zlib_inflate(data@) == Some(r->Ok_0@),
{
    miniz_oxide::inflate::decompress_to_vec_zlib(data)
}

/// The payloads of the image-data chunks among `chunks`, joined in order.
pub open spec fn payload_of(chunks: Seq<ChunkView>) -> Seq<u8>
    decreases chunks.len(),
{
    if chunks.len() == 0 {
        seq![]
    } else {
        let last = chunks.last();
        payload_of(chunks.drop_last()) + if last.chunk_type == data_tag() {
            last.chunk_data
        } else {
            seq![]
        }
    }
}

/// The canonical pixels of an image with metadata `m` whose inflated,
/// filtered scanlines are `data`, or why there are none.
pub open spec fn defilter_spec(m: ImageMetadata, data: Seq<u8>) -> Result<Seq<u8>, ErrorKind> {
    match channels_of(m.color_type, m.bit_depth) {
        Err(e) => Err(e),
        Ok(ch) => {
            let bpp = ch as nat;
            let row_len = (m.width * bpp) as nat;
            if m.bit_depth != 8 {
                Err(ErrorKind::UnsupportedFeature)
            } else if data.len() < m.height * (row_len + 1) {
                Err(ErrorKind::InvalidStructure)
            } else if !filters_valid(data, row_len, m.height as nat) {
                Err(ErrorKind::InvalidScanlineFilter)
            } else {
                Ok(
                    canonical_pixels(
                        raw_rows(data, row_len, bpp, m.height as nat),
                        m.color_type,
                        bpp,
                        (m.width * m.height) as nat,
                    ),
                )
            }
        },
    }
}

/// The canonical pixels of an image with metadata `m` and chunks `chunks`.
pub open spec fn pixels_spec(m: ImageMetadata, chunks: Seq<ChunkView>) -> Result<Seq<u8>, ErrorKind> {
    match zlib_inflate(payload_of(chunks)) {
        None => Err(ErrorKind::FailedDecoding),
        Some(data) => defilter_spec(m, data),
    }
}

/// The chunks and metadata of a file, or the first reason it is refused.
pub open spec fn parse_png(bytes: Seq<u8>) -> Result<(Seq<ChunkView>, ImageMetadata), ErrorKind> {
    match validate_spec(bytes) {
        Err(e) => Err(e),
        Ok(_) => match parse_chunks(bytes, FIRST_CHUNK as int) {
            Err(e) => Err(e),
            Ok(chunks) => match metadata_spec(bytes) {
                Err(e) => Err(e),
                Ok(m) => Ok((chunks, m)),
            },
        },
    }
}

/// The metadata and canonical pixels of a file, or the first reason it
/// cannot be decoded.
pub open spec fn decode_spec(bytes: Seq<u8>) -> Result<(ImageMetadata, Seq<u8>), ErrorKind> {
    match parse_png(bytes) {
        Err(e) => Err(e),
        Ok((chunks, m)) => match pixels_spec(m, chunks) {
            Err(e) => Err(e),
            Ok(px) => Ok((m, px)),
        },
    }
}

/// Reconstructs the canonical pixel buffer of an image with metadata
/// `metadata` from its inflated scanlines `data`: `height` rows, each a
/// filter-type byte and `width * bytes_per_pixel` filtered bytes. The result
/// has four bytes per pixel, row-major.
pub fn defilter_image(metadata: &ImageMetadata, data: &[u8]) -> (r: Result<Vec<u8>, DecodeError>)
    ensures
        agrees(r, defilter_spec(*metadata, data@)),
{
    let channels = match channel_count(metadata.color_type, metadata.bit_depth) {
        Ok(c) => c,
        Err(e) => return Err(e),
    };
    if metadata.bit_depth != 8 {
        return Err(
            DecodeError::UnsupportedFeature(
                "A bit depth of 8 is the only supported bit depth right now".to_owned(),
            ),
        );
    }
    let bpp = channels as usize;
    let ghost row_len_spec: nat = (metadata.width * bpp) as nat;
    let width = metadata.width;
    let height = metadata.height;
    assert(1 <= bpp <= 4);
    assert(width * bpp <= 4 * 0xffff_ffffint) by (nonlinear_arith)
        requires bpp <= 4, width <= 0xffff_ffffint, bpp >= 0, width >= 0;
    let wide_row: u128 = width as u128 * bpp as u128;
    assert(height * (wide_row + 1) <= 0xffff_ffffint * (4 * 0xffff_ffffint + 1)) by (nonlinear_arith)
        requires wide_row <= 4 * 0xffff_ffffint, height <= 0xffff_ffffint, height >= 0, wide_row >= 0;
    let needed: u128 = height as u128 * (wide_row + 1);
    let len = data.len();
    if (len as u128) < needed {
        return Err(DecodeError::InvalidStructure());
    }
    if height == 0 {
        proof {
            assert(metadata.width * metadata.height == 0) by (nonlinear_arith)
                requires metadata.height == 0;
        }
        assert(Seq::<u8>::empty() == canonical_pixels(
            raw_rows(data@, row_len_spec, bpp as nat, 0),
            metadata.color_type,
            bpp as nat,
            0,
        ));
        return Ok(Vec::new());
    }
    proof {
        assert(wide_row + 1 <= needed) by (nonlinear_arith)
            requires needed == height * (wide_row + 1), height >= 1;
        assert(height <= needed) by (nonlinear_arith)
            requires needed == height * (wide_row + 1), wide_row >= 0;
    }
    let row_len = wide_row as usize;
    let rows = height as usize;
    let raw = match unfilter_scanlines(data, row_len, rows, bpp) {
        Ok(raw) => raw,
        Err(e) => return Err(e),
    };
    let ghost pixel_count: int = metadata.width * metadata.height;
    proof {
        lemma_raw_rows_len(data@, row_len as nat, bpp as nat, rows as nat);
        assert(pixel_count * bpp == rows * row_len) by (nonlinear_arith)
            requires pixel_count == width * height, row_len == width * bpp, rows == height;
        assert(pixel_count <= pixel_count * bpp) by (nonlinear_arith)
            requires bpp >= 1, pixel_count >= 0;
        assert(rows * row_len <= needed) by (nonlinear_arith)
            requires needed == rows * (row_len + 1), rows >= 0;
    }
    let count = width as usize * height as usize;
    Ok(to_canonical(raw.as_slice(), metadata.color_type, bpp, count))
}

/// The joined payloads of the image-data chunks among `chunks`.
fn join_image_data(chunks: &Vec<Chunk>) -> (r: Vec<u8>)
    ensures
        r@ == payload_of(views(chunks@)),
{
    let mut data: Vec<u8> = Vec::new();
    let image_data: [u8; 4] = [73, 68, 65, 84];
    assert(image_data@ =~= data_tag());
    let mut i: usize = 0;
    while i < chunks.len()
        invariant
            i <= chunks@.len(),
            image_data@ == data_tag(),
            data@ == payload_of(views(chunks@).subrange(0, i as int)),
        decreases chunks@.len() - i,
    {
        let chunk = &chunks[i];
        let ghost before = data@;
        if chunk.has_type(&image_data) {
            let mut j: usize = 0;
            while j < chunk.chunk_data.len()
                invariant
                    j <= chunk.chunk_data@.len(),
                    data@ == before + chunk.chunk_data@.subrange(0, j as int),
                decreases chunk.chunk_data@.len() - j,
            {
                data.push(chunk.chunk_data[j]);
                j += 1;
                assert(data@ =~= before + chunk.chunk_data@.subrange(0, j as int));
            }
            assert(chunk.chunk_data@.subrange(0, chunk.chunk_data@.len() as int)
                =~= chunk.chunk_data@);
        } else {
            assert(data@ =~= before + Seq::<u8>::empty());
        }
        proof {
            let s = views(chunks@).subrange(0, i + 1);
            assert(s.drop_last() =~= views(chunks@).subrange(0, i as int));
            assert(s.last() == chunks@[i as int]@);
        }
        i += 1;
    }
    assert(views(chunks@).subrange(0, chunks@.len() as int) =~= views(chunks@));
    data
}

/// Joins, inflates and defilters the image data of `chunks`.
fn decode_chunks(chunks: &Vec<Chunk>, metadata: &ImageMetadata) -> (r: Result<Vec<u8>, DecodeError>)
    ensures
        agrees(r, pixels_spec(*metadata, views(chunks@))),
{
    let data = join_image_data(chunks);
    match inflate_zlib(data.as_slice()) {
        Err(_) => Err(DecodeError::FailedDecoding()),
        Ok(inflated) => defilter_image(metadata, inflated.as_slice()),
    }
}

/// A decoded image: its metadata and its pixels, four bytes per pixel
/// (blue, green, red, alpha), row-major.
pub struct DecodedImage {
    pub metadata: ImageMetadata,
    pub pixels: Vec<u8>,
}

/// Decodes a whole PNG file held in `bytes`, failing on the first error of
/// any stage.
pub fn decode_png(bytes: Vec<u8>) -> (r: Result<DecodedImage, DecodeError>)
    ensures
        r is Ok <==> decode_spec(bytes@) is Ok,
        r is Ok ==> decode_spec(bytes@) == Ok::<(ImageMetadata, Seq<u8>), ErrorKind>(
            (r->Ok_0.metadata, r->Ok_0.pixels@),
        ),
        r is Err ==> decode_spec(bytes@) == Err::<(ImageMetadata, Seq<u8>), ErrorKind>(
            r->Err_0.spec_kind(),
        ),
{
    let png = match PNG::from_bytes(bytes, String::new()) {
        Ok(png) => png,
        Err(e) => return Err(e),
    };
    match png.decode() {
        Ok(image) => Ok(image),
        Err(e) => Err(e),
    }
}

/// A parsed PNG file: its chunks (terminal chunks left out), its metadata
/// and a display name.
pub struct PNG {
    chunks: Vec<Chunk>,
    metadata: ImageMetadata,
    name: String,
}

impl PNG {
    pub closed spec fn spec_chunks(&self) -> Seq<ChunkView> {
        views(self.chunks@)
    }

    pub closed spec fn spec_metadata(&self) -> ImageMetadata {
        self.metadata
    }

    pub closed spec fn spec_name(&self) -> Seq<char> {
        self.name@
    }

    /// Parses the file `bytes`: validation, the chunk stream, then the
    /// header's metadata. `name` is kept for display.
    pub fn from_bytes(bytes: Vec<u8>, name: String) -> (r: Result<Self, DecodeError>)
        ensures
            r is Ok <==> parse_png(bytes@) is Ok,
            r is Ok ==> parse_png(bytes@) == Ok::<(Seq<ChunkView>, ImageMetadata), ErrorKind>(
                (r->Ok_0.spec_chunks(), r->Ok_0.spec_metadata()),
            ),
            r is Ok ==> r->Ok_0.spec_name() == name@,
            r is Err ==> parse_png(bytes@) == Err::<(Seq<ChunkView>, ImageMetadata), ErrorKind>(
                r->Err_0.spec_kind(),
            ),
    {
        let mut reader = match ChunkReader::new(bytes) {
            Ok(reader) => reader,
            Err(e) => return Err(e),
        };
        let mut chunks: Vec<Chunk> = Vec::new();
        match reader.read_into_vec(&mut chunks) {
            Ok(()) => {},
            Err(e) => return Err(e),
        }
        proof {
            assert(views(Seq::<Chunk>::empty()) =~= Seq::<ChunkView>::empty());
            let parsed = parse_chunks(bytes@, FIRST_CHUNK as int);
            assert(Seq::<ChunkView>::empty() + parsed->Ok_0 =~= parsed->Ok_0);
        }
        let metadata = match reader.read_metadata() {
            Ok(m) => m,
            Err(e) => return Err(e),
        };
        Ok(PNG { chunks, metadata, name })
    }

    /// The header's metadata.
    pub fn metadata(&self) -> (r: ImageMetadata)
        ensures
            r == self.spec_metadata(),
    {
        self.metadata
    }

    /// The display name given at parsing.
    pub fn name(&self) -> (r: &String)
        ensures
            r@ == self.spec_name(),
    {
        &self.name
    }

    /// The number of chunks kept.
    pub fn chunk_count(&self) -> (r: usize)
        ensures
            r == self.spec_chunks().len(),
    {
        self.chunks.len()
    }

    /// The channel count of the image's color type: its bytes per pixel.
    pub fn get_number_of_channels(&self) -> (r: Result<u32, DecodeError>)
        ensures
            r is Ok <==> channels_of(self.spec_metadata().color_type, self.spec_metadata().bit_depth) is Ok,
            r is Ok ==> channels_of(self.spec_metadata().color_type, self.spec_metadata().bit_depth)
                == Ok::<u32, ErrorKind>(r->Ok_0),
            r is Err ==> channels_of(self.spec_metadata().color_type, self.spec_metadata().bit_depth)
                == Err::<u32, ErrorKind>(r->Err_0.spec_kind()),
    {
        channel_count(self.metadata.color_type, self.metadata.bit_depth)
    }

    /// The payloads of the image-data chunks, joined in file order: the
    /// compressed image stream.
    pub fn compressed_data(&self) -> (r: Vec<u8>)
        ensures
            r@ == payload_of(self.spec_chunks()),
    {
        join_image_data(&self.chunks)
    }

    /// Defilters the inflated scanlines `unfiltered` of this image into its
    /// canonical pixel buffer.
    pub fn filter_decoded_data(&self, unfiltered: Vec<u8>) -> (r: Result<Vec<u8>, DecodeError>)
        ensures
            agrees(r, defilter_spec(self.spec_metadata(), unfiltered@)),
    {
        defilter_image(&self.metadata, unfiltered.as_slice())
    }

    /// Joins, inflates and defilters the image data: the canonical pixel
    /// buffer.
    pub fn get_decoded_chunk_data(&self) -> (r: Result<Vec<u8>, DecodeError>)
        ensures
            agrees(r, pixels_spec(self.spec_metadata(), self.spec_chunks())),
    {
        decode_chunks(&self.chunks, &self.metadata)
    }

    /// Decodes the image: its metadata with its canonical pixels.
    pub fn decode(&self) -> (r: Result<DecodedImage, DecodeError>)
        ensures
            r is Ok <==> pixels_spec(self.spec_metadata(), self.spec_chunks()) is Ok,
            r is Ok ==> r->Ok_0.metadata == self.spec_metadata(),
            r is Ok ==> pixels_spec(self.spec_metadata(), self.spec_chunks()) == Ok::<
                Seq<u8>,
                ErrorKind,
            >(r->Ok_0.pixels@),
            r is Err ==> pixels_spec(self.spec_metadata(), self.spec_chunks()) == Err::<
                Seq<u8>,
                ErrorKind,
            >(r->Err_0.spec_kind()),
    {
        match decode_chunks(&self.chunks, &self.metadata) {
            Ok(pixels) => Ok(DecodedImage { metadata: self.metadata, pixels }),
            Err(e) => Err(e),
        }
    }
}

/// A file that parses, declares a color type with no palette, and whose
/// image data inflates to at least `height` scanlines, each with a known
/// filter type.
pub open spec fn is_supported_png(bytes: Seq<u8>) -> bool {
    match parse_png(bytes) {
        Err(_) => false,
        Ok((chunks, m)) => {
            &&& channels_of(m.color_type, m.bit_depth) is Ok
            &&& match zlib_inflate(payload_of(chunks)) {
                None => false,
                Some(data) => {
                    let row_len = (m.width * channels_of(m.color_type, m.bit_depth)->Ok_0) as nat;
                    &&& data.len() >= m.height * (row_len + 1)
                    &&& filters_valid(data, row_len, m.height as nat)
                },
            }
        },
    }
}

/// Every supported file decodes, to exactly `width * height * 4` bytes.
pub proof fn lemma_supported_png_decodes(bytes: Seq<u8>)
    requires
        is_supported_png(bytes),
    ensures
        decode_spec(bytes) is Ok,
        decode_spec(bytes)->Ok_0.1.len() == decode_spec(bytes)->Ok_0.0.width * decode_spec(
            bytes,
        )->Ok_0.0.height * 4,
{
    let (chunks, m) = parse_png(bytes)->Ok_0;
    let bpp = channels_of(m.color_type, m.bit_depth)->Ok_0 as nat;
    let data = zlib_inflate(payload_of(chunks))->Some_0;
    let row_len = (m.width * bpp) as nat;
    lemma_canonical_pixels_len(
        raw_rows(data, row_len, bpp, m.height as nat),
        m.color_type,
        bpp,
        (m.width * m.height) as nat,
    );
    assert(4 * (m.width * m.height) == m.width * m.height * 4) by (nonlinear_arith);
}

/// A buffer of at least the minimum length whose first eight bytes are not
/// the PNG signature fails with an invalid signature, whatever follows.
pub proof fn lemma_bad_signature_rejected(bytes: Seq<u8>, i: int)
    requires
        bytes.len() >= MIN_FILE_LEN,
        0 <= i < 8,
        bytes[i] != png_signature()[i],
    ensures
        decode_spec(bytes) == Err::<(ImageMetadata, Seq<u8>), ErrorKind>(
            ErrorKind::InvalidSignature,
        ),
{
    assert(bytes.subrange(0, 8)[i] != png_signature()[i]);
}

/// A buffer shorter than the minimum fails with an invalid structure,
/// before any signature or chunk check.
pub proof fn lemma_short_buffer_rejected(bytes: Seq<u8>)
    requires
        bytes.len() < MIN_FILE_LEN,
    ensures
        decode_spec(bytes) == Err::<(ImageMetadata, Seq<u8>), ErrorKind>(
            ErrorKind::InvalidStructure,
        ),
{
}

/// A chunk that the parser reaches, and whose CRC field does not match the
/// CRC-32 of its type tag and payload, fails the decode with a checksum
/// error (unless its tag is the palette's, which is refused first).
pub proof fn lemma_checksum_mismatch_rejected(bytes: Seq<u8>, pos: int)
    requires
        validate_spec(bytes) is Ok,
        chunks_pass(bytes, FIRST_CHUNK as int, pos),
        chunk_fits(bytes, pos),
        chunk_at(bytes, pos).chunk_type != palette_tag(),
        !checksum_ok(chunk_at(bytes, pos)),
    ensures
        decode_spec(bytes) == Err::<(ImageMetadata, Seq<u8>), ErrorKind>(
            ErrorKind::FailedChecksum,
        ),
{
    lemma_parse_error_propagates(bytes, FIRST_CHUNK as int, pos);
}

/// A palette chunk that the parser reaches fails the decode with an
/// unsupported feature, before any decompression.
pub proof fn lemma_palette_chunk_rejected(bytes: Seq<u8>, pos: int)
    requires
        validate_spec(bytes) is Ok,
        chunks_pass(bytes, FIRST_CHUNK as int, pos),
        chunk_fits(bytes, pos),
        chunk_at(bytes, pos).chunk_type == palette_tag(),
    ensures
        decode_spec(bytes) == Err::<(ImageMetadata, Seq<u8>), ErrorKind>(
            ErrorKind::UnsupportedFeature,
        ),
{
    lemma_parse_error_propagates(bytes, FIRST_CHUNK as int, pos);
}

/// A file whose chunks parse but whose header declares a bit depth other
/// than 8, an interlace method, or a compression or filter method other
/// than 0 fails with an unsupported feature, before any decompression.
pub proof fn lemma_unsupported_header_rejected(bytes: Seq<u8>)
    requires
        validate_spec(bytes) is Ok,
        parse_chunks(bytes, FIRST_CHUNK as int) is Ok,
        bytes[24] != 8 || bytes[26] != 0 || bytes[27] != 0 || bytes[28] != 0,
    ensures
        decode_spec(bytes) == Err::<(ImageMetadata, Seq<u8>), ErrorKind>(
            ErrorKind::UnsupportedFeature,
        ),
{
}

} // verus!
