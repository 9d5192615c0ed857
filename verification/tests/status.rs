use vorbisfile::status::{
    OVError, OV_EBADHEADER, OV_EBADLINK, OV_EBADPACKET, OV_EFAULT, OV_EIMPL, OV_EINVAL,
    OV_ENOSEEK, OV_ENOTAUDIO, OV_ENOTVORBIS, OV_EREAD, OV_EVERSION, OV_FALSE, OV_HOLE,
};

#[test]
fn native_codes_have_their_values() {
    assert_eq!(OV_FALSE, -1);
    assert_eq!(OV_HOLE, -3);
    assert_eq!(OV_EREAD, -128);
    assert_eq!(OV_EFAULT, -129);
    assert_eq!(OV_EIMPL, -130);
    assert_eq!(OV_EINVAL, -131);
    assert_eq!(OV_ENOTVORBIS, -132);
    assert_eq!(OV_EBADHEADER, -133);
    assert_eq!(OV_EVERSION, -134);
    assert_eq!(OV_ENOTAUDIO, -135);
    assert_eq!(OV_EBADPACKET, -136);
    assert_eq!(OV_EBADLINK, -137);
    assert_eq!(OV_ENOSEEK, -138);
}

#[test]
fn each_mapped_code_gives_its_kind() {
    assert_eq!(OVError::from_native(-3), OVError::StreamInterrupted);
    assert_eq!(OVError::from_native(-128), OVError::ReadError);
    assert_eq!(OVError::from_native(-129), OVError::InternalFault);
    assert_eq!(OVError::from_native(-130), OVError::NotImplemented);
    assert_eq!(OVError::from_native(-131), OVError::InvalidArgument);
    assert_eq!(OVError::from_native(-132), OVError::NotVorbis);
    assert_eq!(OVError::from_native(-133), OVError::InvalidHeader);
    assert_eq!(OVError::from_native(-134), OVError::UnsupportedVersion);
    assert_eq!(OVError::from_native(-137), OVError::CorruptLink);
    assert_eq!(OVError::from_native(-138), OVError::NotSeekable);
}

#[test]
fn named_constants_map_like_their_values() {
    assert_eq!(OVError::from_native(OV_HOLE), OVError::StreamInterrupted);
    assert_eq!(OVError::from_native(OV_EREAD), OVError::ReadError);
    assert_eq!(OVError::from_native(OV_EFAULT), OVError::InternalFault);
    assert_eq!(OVError::from_native(OV_EIMPL), OVError::NotImplemented);
    assert_eq!(OVError::from_native(OV_EINVAL), OVError::InvalidArgument);
    assert_eq!(OVError::from_native(OV_ENOTVORBIS), OVError::NotVorbis);
    assert_eq!(OVError::from_native(OV_EBADHEADER), OVError::InvalidHeader);
    assert_eq!(OVError::from_native(OV_EVERSION), OVError::UnsupportedVersion);
    assert_eq!(OVError::from_native(OV_EBADLINK), OVError::CorruptLink);
    assert_eq!(OVError::from_native(OV_ENOSEEK), OVError::NotSeekable);
}

#[test]
fn unknown_codes_are_a_value_not_a_crash() {
    for code in [0, 1, 4096, -2, -4, -127, -139, i32::MIN, i32::MAX] {
        assert_eq!(OVError::from_native(code), OVError::UnknownNativeStatus);
    }
}

#[test]
fn codes_without_a_kind_of_their_own_are_unknown() {
    assert_eq!(OVError::from_native(OV_FALSE), OVError::UnknownNativeStatus);
    assert_eq!(OVError::from_native(OV_ENOTAUDIO), OVError::UnknownNativeStatus);
    assert_eq!(OVError::from_native(OV_EBADPACKET), OVError::UnknownNativeStatus);
}

#[test]
fn no_code_maps_to_end_of_stream() {
    for code in -200..200 {
        assert_ne!(OVError::from_native(code), OVError::EndOfStream);
    }
}

#[test]
fn mapped_codes_do_not_share_a_kind() {
    let codes = [-3, -128, -129, -130, -131, -132, -133, -134, -137, -138];
    for a in codes {
        for b in codes {
            if a != b {
                assert_ne!(OVError::from_native(a), OVError::from_native(b));
            }
        }
    }
}

#[test]
fn descriptions_are_exact() {
    assert_eq!(OVError::EndOfStream.description(), "End of stream");
    assert_eq!(OVError::StreamInterrupted.description(), "Stream interrupted");
    assert_eq!(OVError::ReadError.description(), "Read error");
    assert_eq!(OVError::InternalFault.description(), "Internal library fault");
    assert_eq!(OVError::NotImplemented.description(), "Feature not implemented");
    assert_eq!(OVError::InvalidArgument.description(), "Invalid argument");
    assert_eq!(OVError::NotVorbis.description(), "Not a Vorbis stream");
    assert_eq!(OVError::InvalidHeader.description(), "Invalid Vorbis header");
    assert_eq!(
        OVError::UnsupportedVersion.description(),
        "Bitstream format revision not supported"
    );
    assert_eq!(OVError::CorruptLink.description(), "Vorbis link is corrupt");
    assert_eq!(OVError::NotSeekable.description(), "Not seekable");
    assert_eq!(OVError::UnknownNativeStatus.description(), "Unknown native status");
}

#[test]
fn errors_copy_and_compare() {
    let e = OVError::ReadError;
    let f = e;
    assert_eq!(e, f);
    assert_eq!(format!("{:?}", e), "ReadError");
}
