//! The LAME MP3 encoder, through the `mp3lame_encoder` crate. Its builder and
//! encoder are opaque: what is stated is which settings they accept.
use vstd::prelude::*;
use mp3lame_encoder::{Bitrate, BuildError, Builder, DualPcm, Encoder, FlushNoGap, Id3Tag, Id3TagError, Quality};

verus! {

#[verifier::external_type_specification]
#[verifier::external_body]
pub struct ExBuilder(mp3lame_encoder::Builder);

#[verifier::external_type_specification]
#[verifier::external_body]
pub struct ExEncoder(mp3lame_encoder::Encoder);

#[verifier::external_type_specification]
#[verifier::external_body]
pub struct ExBuildError(mp3lame_encoder::BuildError);

#[verifier::external_type_specification]
#[verifier::external_body]
pub struct ExId3TagError(mp3lame_encoder::Id3TagError);

#[verifier::external_type_specification]
#[verifier::external_body]
pub struct ExEncodeError(mp3lame_encoder::EncodeError);

#[verifier::external_type_specification]
pub struct ExBitrate(mp3lame_encoder::Bitrate);

#[verifier::external_type_specification]
pub struct ExQuality(mp3lame_encoder::Quality);

/// Relies on `Builder::new`: a fresh LAME configuration, `None` when it
/// cannot be allocated.
#[verifier::external_body]
pub(crate) fn new_builder() -> (b: Option<Builder>) {
    Builder::new()
}

/// Relies on `Builder::set_num_channels` (LAME's `lame_set_num_channels`):
/// accepts one or two channels and refuses any other count.
#[verifier::external_body]
pub(crate) fn set_num_channels(b: &mut Builder, num: u8) -> (r: Result<(), BuildError>)
    ensures
        r is Ok <==> 1 <= num <= 2,
{
    b.set_num_channels(num)
}

/// Relies on `Builder::set_sample_rate` (LAME's `lame_set_in_samplerate`):
/// accepts every rate of at least 1 Hz.
#[verifier::external_body]
pub(crate) fn set_sample_rate(b: &mut Builder, rate: u32) -> (r: Result<(), BuildError>)
    ensures
        r is Ok <==> rate >= 1,
{
    b.set_sample_rate(rate)
}

/// Relies on `Builder::set_brate` (LAME's `lame_set_brate`): always accepted.
#[verifier::external_body]
pub(crate) fn set_brate(b: &mut Builder, brate: Bitrate) -> (r: Result<(), BuildError>)
    ensures
        r is Ok,
{
    b.set_brate(brate)
}

/// Relies on `Builder::set_quality` (LAME's `lame_set_quality`, which clamps
/// to 0..=9): always accepted.
#[verifier::external_body]
pub(crate) fn set_quality(b: &mut Builder, quality: Quality) -> (r: Result<(), BuildError>)
    ensures
        r is Ok,
{
    b.set_quality(quality)
}

/// Relies on `Builder::set_id3_tag`: adds an ID3v2 tag holding each non-empty
/// field, cut to its first 250 bytes, and does nothing when every field is
/// empty. Without album art it cannot fail.
#[verifier::external_body]
pub(crate) fn set_id3_tag(
    b: &mut Builder,
    title: &[u8],
    artist: &[u8],
    album: &[u8],
    year: &[u8],
    comment: &[u8],
) -> (r: Result<(), Id3TagError>)
    ensures
        r is Ok,
{
    b.set_id3_tag(Id3Tag { title, artist, album, album_art: &[], year, comment })
}

/// Relies on `Builder::build`: initialises the encoder from the configuration.
#[verifier::external_body]
pub(crate) fn build(b: Builder) -> (r: Result<Encoder, BuildError>) {
    b.build()
}

/// Relies on `mp3lame_encoder::max_required_buffer_size`: the sample count,
/// a quarter of it rounded up, and one 7200-byte frame, with wrapping adds.
#[verifier::external_body]
pub(crate) fn max_required_buffer_size(samples: usize) -> (r: usize)
    ensures
        samples as int + (samples as int + 3) / 4 + 7200 <= usize::MAX ==> r as int == samples
            + (samples as int + 3) / 4 + 7200,
{
    mp3lame_encoder::max_required_buffer_size(samples)
}

/// Relies on `Encoder::encode_to_vec` with a two-channel input: on success,
/// the bytes the encoder wrote into a buffer of `capacity` bytes.
#[verifier::external_body]
pub(crate) fn encode(e: &mut Encoder, left: &[i16], right: &[i16], capacity: usize) -> (r: Result<
    Vec<u8>,
    mp3lame_encoder::EncodeError,
>)
    requires
        left@.len() == right@.len(),
{
    let mut out: Vec<u8> = Vec::with_capacity(capacity);
    match e.encode_to_vec(DualPcm { left, right }, &mut out) {
        Ok(_) => Ok(out),
        Err(x) => Err(x),
    }
}

/// Relies on `Encoder::flush_to_vec::<FlushNoGap>`: on success, the end of
/// the stream as written into a buffer of `capacity` bytes.
#[verifier::external_body]
pub(crate) fn flush(e: &mut Encoder, capacity: usize) -> (r: Result<
    Vec<u8>,
    mp3lame_encoder::EncodeError,
>) {
    let mut out: Vec<u8> = Vec::with_capacity(capacity);
    match e.flush_to_vec::<FlushNoGap>(&mut out) {
        Ok(_) => Ok(out),
        Err(x) => Err(x),
    }
}

} // verus!
