//! Decoder for the canonical 44-byte PCM WAV layout: little-endian header
//! fields at fixed offsets, followed by 16-bit signed interleaved sample data.

use vstd::prelude::*;

verus! {

/// Little-endian 16-bit unsigned value read from two consecutive bytes.
pub open spec fn le16(b: Seq<u8>, off: int) -> int {
    b[off] + 0x100 * b[off + 1]
}

/// Little-endian 32-bit unsigned value read from four consecutive bytes.
pub open spec fn le32(b: Seq<u8>, off: int) -> int {
    b[off] + 0x100 * b[off + 1] + 0x10000 * b[off + 2] + 0x1000000 * b[off + 3]
}

/// Two's-complement reading of a 16-bit unsigned value.
pub open spec fn signed16(v: int) -> int {
    if v < 0x8000 {
        v
    } else {
        v - 0x10000
    }
}

/// The `i`-th 16-bit PCM sample of the data region, which starts at byte 44.
pub open spec fn sample_at(b: Seq<u8>, i: int) -> int {
    signed16(le16(b, 44 + 2 * i))
}

/// Byte length of the data region actually present in the source.
pub open spec fn avail_data(b: Seq<u8>) -> int {
    b.len() - 44
}

/// Number of 16-bit byte pairs available to the decoder: the data region is
/// bounded by the declared `data_size` and by the bytes actually present,
/// and an odd trailing byte is dropped.
pub open spec fn decoded_pairs(b: Seq<u8>) -> int {
    vstd::math::min(le32(b, 40), avail_data(b)) / 2
}

/// Number of samples the decoder yields: the available byte pairs, rounded
/// down to a whole number of frames of `num_channels` samples, so a partial
/// trailing frame is dropped rather than kept or read out of bounds.
pub open spec fn decoded_len(b: Seq<u8>) -> int {
    decoded_pairs(b) / le16(b, 22) * le16(b, 22)
}

/// Which header field failed validation.
pub enum FormatField {
    AudioFormat,
    NumChannels,
    SampleRate,
    BitsPerSample,
}

/// A fully decoded audio buffer: the header fields as declared in the source,
/// and every 16-bit sample of the data region as a signed integer. A sample
/// `s` denotes the normalized amplitude `s / 32767`; the division is left to
/// unverified float code at the output edge.
pub struct DecodedAudio {
    pub audio_format: u16,
    pub num_channels: u16,
    pub sample_rate: u32,
    pub byte_rate: u32,
    pub bits_per_sample: u16,
    pub data_size: u32,
    pub samples: Vec<i16>,
}

/// Why decoding failed.
pub enum DecodeError {
    /// The source is too short to hold the 44-byte header region.
    Io,
    /// A header field has a value outside the supported PCM subset.
    UnsupportedFormat { field: FormatField, value: u32 },
    /// The source holds fewer data bytes than `data_size` declares; the
    /// samples that could be decoded are returned with the condition.
    Truncated { partial: DecodedAudio },
}

impl DecodedAudio {
    /// The header fields a decoder output must satisfy: integer PCM, 16 bits
    /// per sample, at least one channel, a positive rate, no more samples
    /// than the declared payload holds, and only complete frames.
    pub open spec fn well_formed(self) -> bool {
        &&& self.audio_format == 1
        &&& self.num_channels >= 1
        &&& self.sample_rate >= 1
        &&& self.bits_per_sample == 16
        &&& self.samples@.len() * 2 <= self.data_size
        &&& self.samples@.len() as int % self.num_channels as int == 0
    }
}

/// The decoded fields and samples agree exactly with the source bytes.
pub open spec fn audio_matches(a: DecodedAudio, b: Seq<u8>) -> bool {
    &&& a.audio_format == le16(b, 20)
    &&& a.num_channels == le16(b, 22)
    &&& a.sample_rate == le32(b, 24)
    &&& a.byte_rate == le32(b, 28)
    &&& a.bits_per_sample == le16(b, 34)
    &&& a.data_size == le32(b, 40)
    &&& a.samples@.len() == decoded_len(b)
    &&& forall|i: int| 0 <= i < a.samples@.len() ==> #[trigger] a.samples@[i] as int == sample_at(b, i)
}

/// The validation error `load` reports for a source with a full header
/// region, or `None` when every validated field is in the supported subset.
pub open spec fn format_error(b: Seq<u8>) -> Option<DecodeError> {
    if le16(b, 20) != 1 {
        Some(DecodeError::UnsupportedFormat { field: FormatField::AudioFormat, value: le16(b, 20) as u32 })
    } else if le16(b, 34) != 16 {
        Some(DecodeError::UnsupportedFormat { field: FormatField::BitsPerSample, value: le16(b, 34) as u32 })
    } else if le16(b, 22) == 0 {
        Some(DecodeError::UnsupportedFormat { field: FormatField::NumChannels, value: 0 })
    } else if le32(b, 24) == 0 {
        Some(DecodeError::UnsupportedFormat { field: FormatField::SampleRate, value: 0 })
    } else {
        None
    }
}

fn read_u16_le(bytes: &Vec<u8>, off: usize) -> (r: u16)
    requires
        off + 2 <= bytes@.len(),
    ensures
        r as int == le16(bytes@, off as int),
{
    // Binds the length as a usize so the verifier knows the index sums fit.
    let _blen: usize = bytes.len();
    let lo = bytes[off];
    let hi = bytes[off + 1];
    lo as u16 + hi as u16 * 0x100
}

fn read_u32_le(bytes: &Vec<u8>, off: usize) -> (r: u32)
    requires
        off + 4 <= bytes@.len(),
    ensures
        r as int == le32(bytes@, off as int),
{
    // Binds the length as a usize so the verifier knows the index sums fit.
    let _blen: usize = bytes.len();
    let b0 = bytes[off];
    let b1 = bytes[off + 1];
    let b2 = bytes[off + 2];
    let b3 = bytes[off + 3];
    b0 as u32 + b1 as u32 * 0x100 + b2 as u32 * 0x10000 + b3 as u32 * 0x1000000
}

fn read_sample(bytes: &Vec<u8>, off: usize) -> (r: i16)
    requires
        off + 2 <= bytes@.len(),
    ensures
        r as int == signed16(le16(bytes@, off as int)),
{
    let raw = read_u16_le(bytes, off);
    if raw < 0x8000 {
        raw as i16
    } else {
        (raw as i32 - 0x10000) as i16
    }
}

/// Decodes a canonical PCM WAV source held in memory.
///
/// The header fields are read little-endian at their fixed offsets and
/// validated; the data region is decoded into one signed 16-bit sample per
/// byte pair, bounded both by the declared `data_size` and by the bytes
/// actually present, so trailing metadata after the payload is never read.
/// The sample count is rounded down to a whole number of frames: a partial
/// trailing frame is dropped.
pub fn load(bytes: &Vec<u8>) -> (r: Result<DecodedAudio, DecodeError>)
    ensures
        bytes@.len() < 44 ==> r == Result::<DecodedAudio, DecodeError>::Err(DecodeError::Io),
        bytes@.len() >= 44 && format_error(bytes@) is Some ==> r == Result::<
            DecodedAudio,
            DecodeError,
        >::Err(format_error(bytes@)->Some_0),
        bytes@.len() >= 44 && format_error(bytes@) is None && avail_data(bytes@) >= le32(
            bytes@,
            40,
        ) ==> (r matches Ok(a) && audio_matches(a, bytes@) && a.well_formed()),
        bytes@.len() >= 44 && format_error(bytes@) is None && avail_data(bytes@) < le32(
            bytes@,
            40,
        ) ==> (r matches Err(DecodeError::Truncated { partial }) && audio_matches(partial, bytes@)
            && partial.well_formed()),
{
    if bytes.len() < 44 {
        return Err(DecodeError::Io);
    }
    let audio_format = read_u16_le(bytes, 20);
    let num_channels = read_u16_le(bytes, 22);
    let sample_rate = read_u32_le(bytes, 24);
    let byte_rate = read_u32_le(bytes, 28);
    let bits_per_sample = read_u16_le(bytes, 34);
    let data_size = read_u32_le(bytes, 40);
    if audio_format != 1 {
        return Err(DecodeError::UnsupportedFormat {
            field: FormatField::AudioFormat,
            value: audio_format as u32,
        });
    }
    if bits_per_sample != 16 {
        return Err(DecodeError::UnsupportedFormat {
            field: FormatField::BitsPerSample,
            value: bits_per_sample as u32,
        });
    }
    if num_channels == 0 {
        return Err(DecodeError::UnsupportedFormat { field: FormatField::NumChannels, value: 0 });
    }
    if sample_rate == 0 {
        return Err(DecodeError::UnsupportedFormat { field: FormatField::SampleRate, value: 0 });
    }

    let avail: usize = bytes.len() - 44;
    let declared: usize = data_size as usize;
    let bounded: usize = if declared < avail {
        declared
    } else {
        avail
    };
    let pairs: usize = bounded / 2;
    let ch: usize = num_channels as usize;
    let whole_frames: usize = pairs / ch;
    proof {
        vstd::arithmetic::div_mod::lemma_fundamental_div_mod(pairs as int, ch as int);
        vstd::arithmetic::div_mod::lemma_mod_bound(pairs as int, ch as int);
        vstd::arithmetic::div_mod::lemma_mod_multiples_basic(whole_frames as int, ch as int);
        assert(whole_frames as int * ch as int == ch as int * whole_frames as int)
            by (nonlinear_arith);
        assert(whole_frames as int * ch as int <= pairs as int);
    }
    let count: usize = whole_frames * ch;
    assert(count <= pairs);
    assert(count == decoded_len(bytes@));
    assert(count % ch == 0);

    let mut samples: Vec<i16> = Vec::new();
    let mut i: usize = 0;
    while i < count
        invariant
            i <= count,
            count == decoded_len(bytes@),
            44 + 2 * count <= bytes@.len(),
            bytes@.len() <= usize::MAX,
            samples@.len() == i,
            forall|j: int| 0 <= j < i ==> #[trigger] samples@[j] as int == sample_at(bytes@, j),
        decreases count - i,
    {
        let s = read_sample(bytes, 44 + 2 * i);
        samples.push(s);
        i += 1;
    }

    let audio = DecodedAudio {
        audio_format,
        num_channels,
        sample_rate,
        byte_rate,
        bits_per_sample,
        data_size,
        samples,
    };
    if declared > avail {
        Err(DecodeError::Truncated { partial: audio })
    } else {
        Ok(audio)
    }
}

/// When the source holds at least the declared payload and that payload is
/// frame-aligned, the decoder yields exactly one sample per byte pair of
/// `data_size`: an odd trailing byte is dropped, and a zero-length payload
/// yields an empty sample sequence. A payload whose pair count is not a
/// multiple of the channel count instead loses its partial trailing frame.
pub proof fn lemma_complete_source_sample_count(b: Seq<u8>)
    requires
        b.len() >= 44,
        avail_data(b) >= le32(b, 40),
        le16(b, 22) >= 1,
        (le32(b, 40) / 2) % le16(b, 22) == 0,
    ensures
        decoded_len(b) == le32(b, 40) / 2,
        le32(b, 40) == 0 ==> decoded_len(b) == 0,
{
    let pairs = decoded_pairs(b);
    let ch = le16(b, 22);
    assert(pairs == le32(b, 40) / 2);
    vstd::arithmetic::div_mod::lemma_fundamental_div_mod(pairs, ch);
    assert(pairs == ch * (pairs / ch));
    assert(decoded_len(b) == pairs / ch * ch);
    assert(ch * (pairs / ch) == pairs / ch * ch) by (nonlinear_arith);
}

/// The decoder keeps only complete frames: its sample count is always a
/// whole multiple of the channel count, so a partial trailing frame is
/// dropped, never emitted or read out of bounds.
pub proof fn lemma_complete_frames(b: Seq<u8>)
    requires
        le16(b, 22) >= 1,
    ensures
        decoded_len(b) % le16(b, 22) == 0,
{
    vstd::arithmetic::div_mod::lemma_mod_multiples_basic(
        decoded_pairs(b) / le16(b, 22),
        le16(b, 22),
    );
}

/// Every decoded sample lies in the signed 16-bit range, so its normalized
/// amplitude `sample / 32767` lies within one unit of full scale on the
/// positive side and `32768 / 32767` on the negative side.
pub proof fn lemma_sample_range(b: Seq<u8>, i: int)
    requires
        0 <= 44 + 2 * i,
        44 + 2 * i + 2 <= b.len(),
    ensures
        -0x8000 <= sample_at(b, i) <= 0x7FFF,
{
    assert(0 <= b[44 + 2 * i] < 0x100);
    assert(0 <= b[44 + 2 * i + 1] < 0x100);
}

} // verus!
