//! Native status codes and the error kinds they stand for.

use libc::c_int;
use vstd::prelude::*;

verus! {

/// Generic "no result" sentinel of the native library.
pub const OV_FALSE: c_int = -1;

/// A gap in the data: missing or corrupt pages were skipped.
pub const OV_HOLE: c_int = -3;

/// The source failed while compressed data was read.
pub const OV_EREAD: c_int = -128;

/// Internal inconsistency in the native decode state.
pub const OV_EFAULT: c_int = -129;

/// The requested feature is not implemented.
pub const OV_EIMPL: c_int = -130;

/// An argument was invalid.
pub const OV_EINVAL: c_int = -131;

/// The data is not recognised as Ogg Vorbis.
pub const OV_ENOTVORBIS: c_int = -132;

/// The Vorbis header is corrupt or cannot be read.
pub const OV_EBADHEADER: c_int = -133;

/// The bitstream format revision is not supported.
pub const OV_EVERSION: c_int = -134;

/// The packet does not carry audio.
pub const OV_ENOTAUDIO: c_int = -135;

/// The packet is corrupt.
pub const OV_EBADPACKET: c_int = -136;

/// The link exists but is corrupt.
pub const OV_EBADLINK: c_int = -137;

/// The stream cannot seek.
pub const OV_ENOSEEK: c_int = -138;

/// `OVError` or `T`.
pub type OVResult<T> = Result<T, OVError>;

/// Decode error.
#[derive(Debug, Clone, Copy, PartialEq, Eq, Structural)]
pub enum OVError {
    /// Reached end of file.
    EndOfStream,
    /// Encountered missing or corrupt data.
    ///
    /// Recovery from this error is usually automatic and is returned for
    /// informational purposes only.
    StreamInterrupted,
    /// I/O error while reading compressed data to decode.
    ReadError,
    /// Internal inconsistency in encode or decode state. Recovery impossible.
    InternalFault,
    /// Feature not implemented.
    NotImplemented,
    /// User passed an invalid argument to a function.
    InvalidArgument,
    /// Provided data is not recognized as Ogg Vorbis.
    NotVorbis,
    /// Provided data appears to be Ogg Vorbis but has a corrupt or
    /// indecipherable header.
    InvalidHeader,
    /// Bitstream format revision is not supported.
    UnsupportedVersion,
    /// The specified Vorbis link exists but is corrupt.
    CorruptLink,
    /// The stream is not seekable.
    NotSeekable,
    /// The native library reported a status that stands for none of the
    /// kinds above.
    UnknownNativeStatus,
}

impl OVError {
    /// The kind that a native status stands for. Ten codes have a kind of
    /// their own; every other integer, the success value and the codes that
    /// the decoder never hands out among them, is `UnknownNativeStatus`.
    pub open spec fn kind_of(code: int) -> OVError {
        if code == -3 {
            OVError::StreamInterrupted
        } else if code == -128 {
            OVError::ReadError
        } else if code == -129 {
            OVError::InternalFault
        } else if code == -130 {
            OVError::NotImplemented
        } else if code == -131 {
            OVError::InvalidArgument
        } else if code == -132 {
            OVError::NotVorbis
        } else if code == -133 {
            OVError::InvalidHeader
        } else if code == -134 {
            OVError::UnsupportedVersion
        } else if code == -137 {
            OVError::CorruptLink
        } else if code == -138 {
            OVError::NotSeekable
        } else {
            OVError::UnknownNativeStatus
        }
    }

    /// The text that describes each kind.
    pub open spec fn text(self) -> Seq<char> {
        match self {
            OVError::EndOfStream => "End of stream"@,
            OVError::StreamInterrupted => "Stream interrupted"@,
            OVError::ReadError => "Read error"@,
            OVError::InternalFault => "Internal library fault"@,
            OVError::NotImplemented => "Feature not implemented"@,
            OVError::InvalidArgument => "Invalid argument"@,
            OVError::NotVorbis => "Not a Vorbis stream"@,
            OVError::InvalidHeader => "Invalid Vorbis header"@,
            OVError::UnsupportedVersion => "Bitstream format revision not supported"@,
            OVError::CorruptLink => "Vorbis link is corrupt"@,
            OVError::NotSeekable => "Not seekable"@,
            OVError::UnknownNativeStatus => "Unknown native status"@,
        }
    }

    /// Maps a native status to its kind. Total: a code outside the known set
    /// comes back as `UnknownNativeStatus`.
    pub fn from_native(code: c_int) -> (kind: OVError)
        ensures
            kind == Self::kind_of(code as int),
            kind != OVError::EndOfStream,
    {
        if code == OV_HOLE {
            OVError::StreamInterrupted
        } else if code == OV_EREAD {
            OVError::ReadError
        } else if code == OV_EFAULT {
            OVError::InternalFault
        } else if code == OV_EIMPL {
            OVError::NotImplemented
        } else if code == OV_EINVAL {
            OVError::InvalidArgument
        } else if code == OV_ENOTVORBIS {
            OVError::NotVorbis
        } else if code == OV_EBADHEADER {
            OVError::InvalidHeader
        } else if code == OV_EVERSION {
            OVError::UnsupportedVersion
        } else if code == OV_EBADLINK {
            OVError::CorruptLink
        } else if code == OV_ENOSEEK {
            OVError::NotSeekable
        } else {
            OVError::UnknownNativeStatus
        }
    }

    /// A short description of the error.
    pub fn description(&self) -> (text: &'static str)
        ensures
            text@ == self.text(),
    {
        match *self {
            OVError::EndOfStream => "End of stream",
            OVError::StreamInterrupted => "Stream interrupted",
            OVError::ReadError => "Read error",
            OVError::InternalFault => "Internal library fault",
            OVError::NotImplemented => "Feature not implemented",
            OVError::InvalidArgument => "Invalid argument",
            OVError::NotVorbis => "Not a Vorbis stream",
            OVError::InvalidHeader => "Invalid Vorbis header",
            OVError::UnsupportedVersion => "Bitstream format revision not supported",
            OVError::CorruptLink => "Vorbis link is corrupt",
            OVError::NotSeekable => "Not seekable",
            OVError::UnknownNativeStatus => "Unknown native status",
        }
    }
}

/// Two statuses with distinct kinds of their own never share a kind: on the
/// ten mapped codes the mapping is one to one.
pub proof fn lemma_mapped_codes_distinct(a: int, b: int)
    requires
        OVError::kind_of(a) != OVError::UnknownNativeStatus,
        OVError::kind_of(a) == OVError::kind_of(b),
    ensures
        a == b,
{
}

/// No native status maps to `EndOfStream`: that kind comes from a sample count
/// of zero alone.
pub proof fn lemma_end_of_stream_is_no_status(code: int)
    ensures
        OVError::kind_of(code) != OVError::EndOfStream,
{
}

} // verus!
