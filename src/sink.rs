//! The per-track sink: buffers interleaved 16-bit PCM, then encodes it to
//! MP3 with the track's tags. Writing the bytes to disk is left to the caller.
use vstd::prelude::*;
use vstd::utf8::encode_utf8;
use crate::lame;
use crate::track::{joined, names_of, join_artists, TrackMetadata, DEFAULT_COMPRESSION};

verus! {

/// Encoded audio is always stereo.
pub const CHANNELS: u8 = 2;

/// Samples reach the sink already at 44.1 kHz.
pub const SAMPLE_RATE: u32 = 44_100;

/// Buffers one track and encodes it when the track ends.
pub struct FileSinkMP3 {
    pub sink: String,
    pub content: Vec<i16>,
    pub metadata: Option<TrackMetadata>,
    pub compression: u32,
}

/// Why encoding a track failed.
#[derive(Clone, Copy, Debug, PartialEq, Eq)]
pub enum EncodeFailure {
    /// The encoder could not be created or configured.
    Init,
    /// Encoding the samples failed.
    Encode,
    /// Flushing the end of the stream failed.
    Flush,
}

/// Left channel: the samples at even positions, one per complete frame.
pub open spec fn left_of(s: Seq<i16>) -> Seq<i16> {
    Seq::new((s.len() / 2) as nat, |i: int| s[2 * i])
}

/// Right channel: the samples at odd positions, one per complete frame.
pub open spec fn right_of(s: Seq<i16>) -> Seq<i16> {
    Seq::new((s.len() / 2) as nat, |i: int| s[2 * i + 1])
}

/// Interleaves two channels of equal length back into one sequence.
pub open spec fn interleaved(left: Seq<i16>, right: Seq<i16>) -> Seq<i16> {
    Seq::new((2 * left.len()) as nat, |i: int| if i % 2 == 0 { left[i / 2] } else { right[i / 2] })
}

/// Splits interleaved stereo samples into left and right channels. A trailing
/// sample without a partner is dropped.
pub fn split_channels(content: &Vec<i16>) -> (r: (Vec<i16>, Vec<i16>))
    ensures
        r.0@ == left_of(content@),
        r.1@ == right_of(content@),
{
    let len = content.len();
    let frames = len / 2;
    let mut left: Vec<i16> = Vec::with_capacity(frames);
    let mut right: Vec<i16> = Vec::with_capacity(frames);
    let mut i: usize = 0;
    while i < frames
        invariant
            len == content@.len(),
            frames == content@.len() / 2,
            i <= frames,
            left@ == left_of(content@).subrange(0, i as int),
            right@ == right_of(content@).subrange(0, i as int),
        decreases frames - i,
    {
        assert(2 * i + 1 < content@.len()) by (nonlinear_arith)
            requires
                i < frames,
                frames == content@.len() / 2,
        ;
        left.push(content[2 * i]);
        right.push(content[2 * i + 1]);
        i = i + 1;
        assert(left@ =~= left_of(content@).subrange(0, i as int));
        assert(right@ =~= right_of(content@).subrange(0, i as int));
    }
    assert(left@ =~= left_of(content@));
    assert(right@ =~= right_of(content@));
    (left, right)
}

/// Splitting and interleaving again gives back the samples of every complete
/// frame: only a trailing unpaired sample is lost.
pub proof fn lemma_split_then_interleave(s: Seq<i16>)
    ensures
        interleaved(left_of(s), right_of(s)) == s.subrange(0, 2 * (s.len() / 2) as int),
{
    let r = interleaved(left_of(s), right_of(s));
    let t = s.subrange(0, 2 * (s.len() / 2) as int);
    assert forall|i: int| 0 <= i < r.len() implies r[i] == t[i] by {
        if i % 2 == 0 {
            assert(2 * (i / 2) == i);
        } else {
            assert(2 * (i / 2) + 1 == i);
        }
    }
    assert(r =~= t);
}

/// The ID3 fields written for a track, as UTF-8 bytes.
pub struct TagFields {
    pub title: Vec<u8>,
    pub artist: Vec<u8>,
    pub album: Vec<u8>,
    pub year: Vec<u8>,
    pub comment: Vec<u8>,
}

/// The tags of `meta`: title and album as given, the artists joined with
/// `", "`, and empty year and comment.
pub open spec fn tags_of(t: TagFields, meta: TrackMetadata) -> bool {
    &&& t.title@ == encode_utf8(meta.track_name@)
    &&& t.artist@ == encode_utf8(joined(names_of(meta.artists@)))
    &&& t.album@ == encode_utf8(meta.album@)
    &&& t.year@.len() == 0
    &&& t.comment@.len() == 0
}

/// Tags are written exactly when metadata was attached.
pub open spec fn tags_for(tags: Option<TagFields>, metadata: Option<TrackMetadata>) -> bool {
    match metadata {
        Some(meta) => tags is Some && tags_of(tags.unwrap(), meta),
        None => tags is None,
    }
}

pub fn id3_fields(meta: &TrackMetadata) -> (r: TagFields)
    ensures
        tags_of(r, *meta),
{
    let artist = join_artists(&meta.artists);
    TagFields {
        title: meta.track_name.as_str().as_bytes_vec(),
        artist: artist.as_str().as_bytes_vec(),
        album: meta.album.as_str().as_bytes_vec(),
        year: Vec::new(),
        comment: Vec::new(),
    }
}

/// Everything handed to the encoder for one track.
pub struct EncodeRequest {
    pub left: Vec<i16>,
    pub right: Vec<i16>,
    pub tags: Option<TagFields>,
}

/// Space for the end of the stream, as the encoder documents it.
pub const FLUSH_CAPACITY: usize = 7200;

impl FileSinkMP3 {
    /// A sink writing to `path`, with an empty buffer, no tags and the
    /// default compression. A missing path is a caller's error.
    pub fn open(path: Option<String>) -> (s: FileSinkMP3)
        requires
            path is Some,
        ensures
            s.sink@ == path.unwrap()@,
            s.content@.len() == 0,
            s.metadata is None,
            s.compression == DEFAULT_COMPRESSION,
    {
        FileSinkMP3 {
            sink: path.unwrap(),
            content: Vec::new(),
            metadata: None,
            compression: DEFAULT_COMPRESSION,
        }
    }

    pub fn add_metadata(&mut self, meta: TrackMetadata)
        ensures
            final(self).metadata == Some(meta),
            final(self).sink == old(self).sink,
            final(self).content == old(self).content,
            final(self).compression == old(self).compression,
    {
        self.metadata = Some(meta);
    }

    pub fn set_compression(&mut self, compression: u32)
        ensures
            final(self).compression == compression,
            final(self).sink == old(self).sink,
            final(self).content == old(self).content,
            final(self).metadata == old(self).metadata,
    {
        self.compression = compression;
    }

    /// Appends decoded interleaved samples to the buffer.
    pub fn write(&mut self, samples: Vec<i16>)
        ensures
            final(self).content@ == old(self).content@ + samples@,
            final(self).sink == old(self).sink,
            final(self).metadata == old(self).metadata,
            final(self).compression == old(self).compression,
    {
        let mut samples = samples;
        self.content.append(&mut samples);
    }

    /// What the buffered track hands to the encoder: the two channels of
    /// its complete frames, and its tags when metadata was attached.
    pub fn request(&self) -> (q: EncodeRequest)
        ensures
            q.left@ == left_of(self.content@),
            q.right@ == right_of(self.content@),
            tags_for(q.tags, self.metadata),
    {
        let (left, right) = split_channels(&self.content);
        let tags = match &self.metadata {
            Some(meta) => Some(id3_fields(meta)),
            None => None,
        };
        EncodeRequest { left, right, tags }
    }

    /// Encodes the buffered track, that is `encode(&self.request())`, and
    /// consumes the buffer whatever the outcome.
    pub fn stop(&mut self) -> (r: Result<Vec<u8>, EncodeFailure>)
        ensures
            final(self).content@.len() == 0,
            final(self).sink == old(self).sink,
            final(self).metadata == old(self).metadata,
            final(self).compression == old(self).compression,
    {
        let q = self.request();
        self.content.clear();
        encode(&q)
    }
}

/// Sets up the encoder: stereo at 44.1 kHz, 192 kbps at the best quality,
/// and the tags if any. LAME accepts every one of these settings.
pub fn configure(builder: &mut mp3lame_encoder::Builder, tags: &Option<TagFields>) -> (r: Result<(), EncodeFailure>)
    ensures
        r is Ok,
{
    if lame::set_num_channels(builder, CHANNELS).is_err() {
        return Err(EncodeFailure::Init);
    }
    if lame::set_sample_rate(builder, SAMPLE_RATE).is_err() {
        return Err(EncodeFailure::Init);
    }
    if lame::set_brate(builder, mp3lame_encoder::Bitrate::Kbps192).is_err() {
        return Err(EncodeFailure::Init);
    }
    if lame::set_quality(builder, mp3lame_encoder::Quality::Best).is_err() {
        return Err(EncodeFailure::Init);
    }
    match tags {
        Some(t) => {
            if lame::set_id3_tag(
                builder,
                t.title.as_slice(),
                t.artist.as_slice(),
                t.album.as_slice(),
                t.year.as_slice(),
                t.comment.as_slice(),
            ).is_err() {
                return Err(EncodeFailure::Init);
            }
        },
        None => {},
    }
    Ok(())
}

/// The finished stream once the samples were encoded into `encoded`: those
/// bytes followed by the flush output, or `Flush` when the flush failed.
pub fn finish_stream(encoded: Vec<u8>, flushed: Result<Vec<u8>, mp3lame_encoder::EncodeError>) -> (r:
    Result<Vec<u8>, EncodeFailure>)
    ensures
        match flushed {
            Ok(f) => r is Ok && r.unwrap()@ == encoded@ + f@,
            Err(_) => r == Err::<Vec<u8>, EncodeFailure>(EncodeFailure::Flush),
        },
{
    match flushed {
        Ok(f) => {
            let mut out = encoded;
            let mut tail = f;
            out.append(&mut tail);
            Ok(out)
        },
        Err(_) => Err(EncodeFailure::Flush),
    }
}

/// Runs the encoder over a request: `Init` when LAME cannot be created or
/// initialised, `Encode` when encoding the samples fails, and otherwise the
/// result of `finish_stream` on the encoded bytes and the no-gap flush.
pub fn encode(q: &EncodeRequest) -> (r: Result<Vec<u8>, EncodeFailure>)
    requires
        q.left@.len() == q.right@.len(),
{
    let mut builder = match lame::new_builder() {
        Some(b) => b,
        None => return Err(EncodeFailure::Init),
    };
    if configure(&mut builder, &q.tags).is_err() {
        return Err(EncodeFailure::Init);
    }
    let mut encoder = match lame::build(builder) {
        Ok(e) => e,
        Err(_) => return Err(EncodeFailure::Init),
    };
    let capacity = lame::max_required_buffer_size(q.left.len());
    let encoded = match lame::encode(&mut encoder, q.left.as_slice(), q.right.as_slice(), capacity) {
        Ok(bytes) => bytes,
        Err(_) => return Err(EncodeFailure::Encode),
    };
    let flushed = lame::flush(&mut encoder, FLUSH_CAPACITY);
    finish_stream(encoded, flushed)
}

} // verus!
