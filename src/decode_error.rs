//! The result vocabulary shared by every stage of the decoder.
use vstd::prelude::*;

verus! {

/// Every way a decode can fail. All of them are terminal.
#[derive(Debug)]
pub enum DecodeError {
    /// The path given does not name an existing file.
    BadFilePath(String),
    /// The file exists but could not be opened.
    FailedToOpenFile(String),
    /// The file was opened but could not be read.
    FailedToReadFile(String),
    /// The first eight bytes are not the PNG signature.
    InvalidSignature(),
    /// The buffer is too short, or a chunk runs past its end.
    InvalidStructure(),
    /// The file is valid PNG but uses something this decoder does not handle.
    UnsupportedFeature(String),
    /// A chunk's CRC-32 does not match its declared value.
    FailedChecksum(),
    /// The compressed image data could not be inflated.
    FailedDecoding(),
    /// The header chunk has the wrong length or type tag.
    InvalidHeader(),
    /// A scanline's filter-type byte is not one of 0 to 4.
    InvalidScanlineFilter(),
}

/// The kind of a [`DecodeError`], without its payload.
#[derive(Debug, Clone, Copy, PartialEq, Eq, Structural)]
pub enum ErrorKind {
    BadFilePath,
    FailedToOpenFile,
    FailedToReadFile,
    InvalidSignature,
    InvalidStructure,
    UnsupportedFeature,
    FailedChecksum,
    FailedDecoding,
    InvalidHeader,
    InvalidScanlineFilter,
}

impl DecodeError {
    pub open spec fn spec_kind(&self) -> ErrorKind {
        match self {
            DecodeError::BadFilePath(_) => ErrorKind::BadFilePath,
            DecodeError::FailedToOpenFile(_) => ErrorKind::FailedToOpenFile,
            DecodeError::FailedToReadFile(_) => ErrorKind::FailedToReadFile,
            DecodeError::InvalidSignature() => ErrorKind::InvalidSignature,
            DecodeError::InvalidStructure() => ErrorKind::InvalidStructure,
            DecodeError::UnsupportedFeature(_) => ErrorKind::UnsupportedFeature,
            DecodeError::FailedChecksum() => ErrorKind::FailedChecksum,
            DecodeError::FailedDecoding() => ErrorKind::FailedDecoding,
            DecodeError::InvalidHeader() => ErrorKind::InvalidHeader,
            DecodeError::InvalidScanlineFilter() => ErrorKind::InvalidScanlineFilter,
        }
    }

    /// The kind of this error.
    #[verifier::when_used_as_spec(spec_kind)]
    pub fn kind(&self) -> (k: ErrorKind)
        ensures
            k == self.spec_kind(),
    {
        match self {
            DecodeError::BadFilePath(_) => ErrorKind::BadFilePath,
            DecodeError::FailedToOpenFile(_) => ErrorKind::FailedToOpenFile,
            DecodeError::FailedToReadFile(_) => ErrorKind::FailedToReadFile,
            DecodeError::InvalidSignature() => ErrorKind::InvalidSignature,
            DecodeError::InvalidStructure() => ErrorKind::InvalidStructure,
            DecodeError::UnsupportedFeature(_) => ErrorKind::UnsupportedFeature,
            DecodeError::FailedChecksum() => ErrorKind::FailedChecksum,
            DecodeError::FailedDecoding() => ErrorKind::FailedDecoding,
            DecodeError::InvalidHeader() => ErrorKind::InvalidHeader,
            DecodeError::InvalidScanlineFilter() => ErrorKind::InvalidScanlineFilter,
        }
    }
}

/// The result `r` is what `s` describes: the same bytes, or an error of
/// the same kind.
pub open spec fn agrees(r: Result<Vec<u8>, DecodeError>, s: Result<Seq<u8>, ErrorKind>) -> bool {
    match r {
        Ok(v) => s == Ok::<Seq<u8>, ErrorKind>(v@),
        Err(e) => s == Err::<Seq<u8>, ErrorKind>(e.spec_kind()),
    }
}

} // verus!
