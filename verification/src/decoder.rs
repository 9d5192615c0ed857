//! The decoder's lifecycle and what each decode call exposes.
//!
//! The host makes the native calls; this type decides what their results
//! mean. `new` judges the status of the native open, `decode` judges what a
//! native read produced and rebuilds the channel descriptors, and `close`
//! says whether native cleanup is owed.

use crate::comments::{
    entry_texts, extracted, lemma_text_is_decoded, text_of, Comments, NativeComments,
    INVALID_VENDOR,
};
use crate::status::{OVError, OVResult};
use libc::{c_int, c_long};
use vstd::prelude::*;

verus! {

/// The number of samples per channel that one decode call asks the native
/// library for.
pub const MAX_SAMPLES: c_int = 4096;

/// One channel of a decoded block: which row of the native output it is, and
/// how many samples the row holds. The samples belong to the native decoder
/// and stay valid until the next decode call or the decoder's end.
#[derive(Debug, Clone, Copy, PartialEq, Eq, Structural)]
pub struct ChannelBuffer {
    /// Index of the channel in the native output.
    pub channel: usize,
    /// Samples in the channel.
    pub len: usize,
}

/// The channels of a block of `samples` samples on `channels` channels: one
/// descriptor for each channel, in order, all of the same length. A channel
/// count below one gives no descriptor.
pub open spec fn block(channels: int, samples: int) -> Seq<ChannelBuffer> {
    Seq::new(
        if channels > 0 {
            channels as nat
        } else {
            0
        },
        |i: int| (ChannelBuffer { channel: i as usize, len: samples as usize }),
    )
}

/// What one decode call yields for the sample count `samples` that the
/// native read returned, on a stream of `channels` channels: zero is the end
/// of the stream, a negative count is a status, and a positive count is a
/// block. A negative count that is no status with a kind of its own, however
/// large, is `UnknownNativeStatus`.
pub open spec fn decoded(samples: int, channels: int) -> OVResult<Seq<ChannelBuffer>> {
    if samples == 0 {
        Err(OVError::EndOfStream)
    } else if samples < 0 {
        Err(OVError::kind_of(samples))
    } else {
        Ok(block(channels, samples))
    }
}

/// The mathematical state of a decoder.
pub struct DecoderView {
    /// Whether the native handle is open.
    pub open: bool,
    /// The channels that the last successful decode call exposed.
    pub channels: Seq<ChannelBuffer>,
}

/// Ogg Vorbis file decoder.
#[derive(Debug)]
pub struct VorbisFile {
    open: bool,
    channels: Vec<ChannelBuffer>,
}

impl View for VorbisFile {
    type V = DecoderView;

    closed spec fn view(&self) -> DecoderView {
        DecoderView { open: self.open, channels: self.channels@ }
    }
}

impl VorbisFile {
    /// Judges the status that the native open returned. Zero gives an open
    /// decoder that exposes no channel yet. Any other status gives its error
    /// and no decoder: the native state was never initialised, and with no
    /// decoder there is nothing that could later ask for its cleanup.
    pub fn new(status: c_int) -> (opened: OVResult<VorbisFile>)
        ensures
            status == 0 ==> (opened matches Ok(vf) && vf@ == (DecoderView {
                open: true,
                channels: Seq::empty(),
            })),
            status != 0 ==> (opened matches Err(e) && e == OVError::kind_of(status as int)),
    {
        if status == 0 {
            Ok(VorbisFile { open: true, channels: Vec::new() })
        } else {
            Err(OVError::from_native(status))
        }
    }

    /// Whether the native handle is open.
    pub fn is_open(&self) -> (open: bool)
        ensures
            open == self@.open,
    {
        self.open
    }

    /// The channels that the last successful decode call exposed.
    pub fn channels(&self) -> (channels: &Vec<ChannelBuffer>)
        ensures
            channels@ == self@.channels,
    {
        &self.channels
    }

    /// The link index as the native library takes it: the low 32 bits of
    /// `link`, so that -1 stays the sentinel for the current bitstream.
    pub fn link_index(link: isize) -> (index: c_int)
        ensures
            index == link as c_int,
            c_int::MIN <= link <= c_int::MAX ==> index == link,
    {
        #[verifier::truncate]
        (link as c_int)
    }

    /// Judges the sample count that the native read returned when asked for
    /// up to `MAX_SAMPLES` samples, before the channel count is known: `Ok`
    /// with the count where a block was produced, else the error that
    /// `decode` returns. A negative count that does not fit a native status
    /// is no known status.
    pub fn samples_read(samples: c_long) -> (count: OVResult<usize>)
        requires
            samples <= MAX_SAMPLES,
        ensures
            samples > 0 ==> (count matches Ok(n) && n == samples),
            samples <= 0 ==> (count matches Err(e) && decoded(samples as int, 0) == Err::<
                Seq<ChannelBuffer>,
                OVError,
            >(e)),
    {
        if samples == 0 {
            Err(OVError::EndOfStream)
        } else if samples < c_int::MIN as c_long {
            Err(OVError::UnknownNativeStatus)
        } else if samples < 0 {
            Err(OVError::from_native(samples as c_int))
        } else {
            Ok(samples as usize)
        }
    }

    /// Decode a block of samples.
    ///
    /// `samples` is what the native read returned when asked for up to
    /// `MAX_SAMPLES` samples, and `channels` the channel count of the
    /// sub-stream that it read from, which is looked at only where `samples`
    /// is positive. A block replaces the channels that the call before
    /// exposed: one descriptor for each channel, each `samples` long, so that
    /// every length is above zero and at most `MAX_SAMPLES`. An error leaves
    /// them as they were.
    pub fn decode(&mut self, samples: c_long, channels: c_int) -> (exposed: OVResult<
        &[ChannelBuffer],
    >)
        requires
            old(self)@.open,
            samples <= MAX_SAMPLES,
        ensures
            final(self)@.open,
            decoded(samples as int, channels as int) matches Ok(b) ==> (exposed matches Ok(s)
                && s@ == b) && final(self)@.channels == b,
            decoded(samples as int, channels as int) matches Err(e) ==> (exposed matches Err(x)
                && x == e) && final(self)@ == old(self)@,
            exposed matches Ok(s) ==> forall|i: int|
                0 <= i < s@.len() ==> (#[trigger] s@[i]).channel == i && s@[i].len == samples
                    && 0 < s@[i].len <= MAX_SAMPLES,
    {
        let len = match Self::samples_read(samples) {
            Ok(len) => len,
            Err(e) => {
                return Err(e);
            },
        };
        self.channels.truncate(0);
        let mut i: c_int = 0;
        while i < channels
            invariant
                0 <= i,
                channels > 0 ==> i <= channels,
                channels <= 0 ==> i == 0,
                self.open,
                len == samples,
                0 < samples <= MAX_SAMPLES,
                self.channels@ =~= block(i as int, samples as int),
            decreases channels - i,
        {
            self.channels.push(ChannelBuffer { channel: i as usize, len });
            i = i + 1;
        }
        assert(self.channels@ =~= block(channels as int, samples as int));
        Ok(self.channels.as_slice())
    }

    /// Gets the comment struct for the specified bitstream.
    ///
    /// `found` is what the native library holds for the bitstream that was
    /// asked for, or nothing where it holds no comments. The vendor string
    /// that is not valid UTF-8 is replaced by a marker; a user comment that is
    /// not valid UTF-8 is left out, and the others keep their order.
    pub fn comment<'a>(&'a mut self, found: Option<&NativeComments<'a>>) -> (tags: Option<
        Comments<'a>,
    >)
        requires
            old(self)@.open,
        ensures
            final(self)@ == old(self)@,
            found is None ==> tags is None,
            found matches Some(raw) ==> (tags matches Some(c) && c@ == extracted(
                raw.vendor@,
                raw.entry_bytes(),
            )),
    {
        let raw = match found {
            Some(raw) => raw,
            None => {
                return None;
            },
        };
        let vendor = match text_of(raw.vendor) {
            Some(x) => {
                proof {
                    lemma_text_is_decoded(x, raw.vendor@);
                }
                x
            },
            None => INVALID_VENDOR,
        };
        let mut v: Vec<&'a str> = Vec::with_capacity(raw.entries.len());
        let mut i: usize = 0;
        while i < raw.entries.len()
            invariant
                i <= raw.entries@.len(),
                Seq::new(v@.len(), |k: int| v@[k]@) =~= entry_texts(raw.entry_bytes().take(i as int)),
            decreases raw.entries@.len() - i,
        {
            let ghost before = raw.entry_bytes().take(i as int);
            let ghost after = raw.entry_bytes().take(i + 1);
            assert(after.drop_last() =~= before);
            assert(after.last() == raw.entries@[i as int]@);
            match text_of(raw.entries[i]) {
                Some(s) => {
                    proof {
                        lemma_text_is_decoded(s, raw.entries@[i as int]@);
                    }
                    v.push(s);
                },
                None => {
                    // Left out: the comment data should be valid UTF-8, but
                    // the input is not to be trusted.
                },
            }
            i = i + 1;
        }
        assert(raw.entry_bytes().take(i as int) =~= raw.entry_bytes());
        Some(Comments { vendor, comments: v })
    }

    /// Ends the decoder. Returns whether the native cleanup is to be invoked
    /// now: `true` the first time, and never again.
    pub fn close(&mut self) -> (cleanup: bool)
        ensures
            cleanup == old(self)@.open,
            !final(self)@.open,
            final(self)@.channels == old(self)@.channels,
    {
        let cleanup = self.open;
        self.open = false;
        cleanup
    }
}

/// Every block has one descriptor for each channel, in the channels' order,
/// and all of them have the same length, which is the sample count itself:
/// above zero and at most `MAX_SAMPLES`.
pub proof fn lemma_block_channels_equal_length(samples: int, channels: int)
    requires
        0 < samples <= MAX_SAMPLES,
        channels <= c_int::MAX,
    ensures
        decoded(samples, channels) == Ok::<Seq<ChannelBuffer>, OVError>(block(channels, samples)),
        block(channels, samples).len() == if channels > 0 {
            channels
        } else {
            0
        },
        forall|i: int, j: int|
            0 <= i < block(channels, samples).len() && 0 <= j < block(channels, samples).len()
                ==> (#[trigger] block(channels, samples)[i]).len == (#[trigger] block(
                channels,
                samples,
            )[j]).len,
        forall|i: int|
            0 <= i < block(channels, samples).len() ==> (#[trigger] block(
                channels,
                samples,
            )[i]).channel == i,
        forall|i: int|
            0 <= i < block(channels, samples).len() ==> (#[trigger] block(channels, samples)[i]).len
                == samples,
{
}

/// A negative sample count is an error of the kind that the count stands
/// for as a status, and `UnknownNativeStatus` wherever it stands for none:
/// below the range of a native status always.
pub proof fn lemma_negative_count_is_its_status(samples: int, channels: int)
    requires
        samples < 0,
    ensures
        decoded(samples, channels) == Err::<Seq<ChannelBuffer>, OVError>(
            OVError::kind_of(samples),
        ),
        samples < -138 || -128 < samples < -3 || -3 < samples ==> decoded(samples, channels)
            == Err::<Seq<ChannelBuffer>, OVError>(OVError::UnknownNativeStatus),
{
}

/// A decode call reports the end of the stream when the native read
/// returned no sample, and only then: as long as the native read keeps
/// returning zero, every call reports the end of the stream, whatever went
/// before and whatever the channel count.
pub proof fn lemma_end_of_stream_only_at_zero(samples: int, channels: int)
    ensures
        decoded(samples, channels) == Err::<Seq<ChannelBuffer>, OVError>(OVError::EndOfStream)
            <==> samples == 0,
{
}

} // verus!
