//! Audio intake: size rules, container detection, WAV decoding, down-mixing and
//! resampling to the canonical form, mono at 16 kHz.

use crate::error::{AudioFault, TranscribeError};
use vstd::math::min;
use vstd::prelude::*;
use vstd::string::*;

verus! {

/// Largest clip that is accepted, in bytes.
pub const MAX_AUDIO_BYTES: usize = 10_000_000;

/// Sample rate of the canonical form, in samples per second.
pub const TARGET_RATE: u32 = 16_000;

/// What is wrong with the size of a clip of `len` bytes, if anything: a clip is
/// refused for its size where it is empty or larger than the maximum, and only there.
pub open spec fn size_complaint(len: nat) -> Option<Seq<char>> {
    if len == 0 {
        Some("Audio data is empty"@)
    } else if len > MAX_AUDIO_BYTES {
        Some("Audio data too large (>10MB)"@)
    } else {
        None
    }
}

/// Accepts a clip that is neither empty nor larger than the maximum.
pub fn validate_audio_data(audio_data: &[u8]) -> (res: Result<(), String>)
    ensures
        match size_complaint(audio_data@.len()) {
            Some(text) => res matches Err(e) && e@ == text,
            None => res is Ok,
        },
{
    if audio_data.len() == 0 {
        return Err(String::from_str("Audio data is empty"));
    }
    if audio_data.len() > MAX_AUDIO_BYTES {
        return Err(String::from_str("Audio data too large (>10MB)"));
    }
    Ok(())
}

/// The four characters that name a RIFF chunk.
#[derive(Clone, Copy, Debug)]
pub struct ChunkTag(pub char, pub char, pub char, pub char);

impl ChunkTag {
    /// Each character of the tag is one byte.
    pub open spec fn is_ascii(self) -> bool {
        &&& (self.0 as u32) < 128
        &&& (self.1 as u32) < 128
        &&& (self.2 as u32) < 128
        &&& (self.3 as u32) < 128
    }
}

/// The four bytes at `at` spell `tag`.
pub open spec fn tag_at(b: Seq<u8>, at: int, tag: ChunkTag) -> bool {
    &&& 0 <= at
    &&& at + 4 <= b.len()
    &&& b[at] == tag.0 as u8
    &&& b[at + 1] == tag.1 as u8
    &&& b[at + 2] == tag.2 as u8
    &&& b[at + 3] == tag.3 as u8
}

/// The clip opens with the RIFF magic and is therefore read as a WAV container.
pub open spec fn is_riff(b: Seq<u8>) -> bool {
    tag_at(b, 0, ChunkTag('R', 'I', 'F', 'F'))
}

fn has_tag(b: &[u8], at: usize, tag: ChunkTag) -> (r: bool)
    requires
        tag.is_ascii(),
    ensures
        r == tag_at(b@, at as int, tag),
{
    at <= b.len() && b.len() - at >= 4 && b[at] == tag.0 as u8 && b[at + 1] == tag.1 as u8 && b[at
        + 2] == tag.2 as u8 && b[at + 3] == tag.3 as u8
}

/// The name of the container that a clip is read as, or why it is read as none.
/// A clip that opens with `RIFF` is a WAV container. Any other clip is raw PCM, which
/// has two bytes to the sample: with an odd number of bytes it is refused.
pub open spec fn detected_format(b: Seq<u8>) -> Result<Seq<char>, Seq<char>> {
    if b.len() < 4 {
        Err("Audio data too short for format detection"@)
    } else if is_riff(b) {
        Ok("WAV"@)
    } else if b.len() % 2 == 1 {
        Err(AudioFault::OddLength.text())
    } else {
        Ok("PCM"@)
    }
}

/// Tells a WAV container from raw PCM by the first four bytes.
pub fn detect_audio_format(audio_data: &[u8]) -> (res: Result<String, String>)
    ensures
        match detected_format(audio_data@) {
            Ok(name) => res matches Ok(n) && n@ == name,
            Err(text) => res matches Err(e) && e@ == text,
        },
{
    if audio_data.len() < 4 {
        return Err(String::from_str("Audio data too short for format detection"));
    }
    if has_tag(audio_data, 0, ChunkTag('R', 'I', 'F', 'F')) {
        return Ok(String::from_str("WAV"));
    }
    if audio_data.len() % 2 == 1 {
        return Err(AudioFault::OddLength.message());
    }
    Ok(String::from_str("PCM"))
}

/// The 16-bit little-endian number at `at`.
pub open spec fn word16(b: Seq<u8>, at: int) -> int {
    b[at] as int + 256 * (b[at + 1] as int)
}

/// The 32-bit little-endian number at `at`.
pub open spec fn word32(b: Seq<u8>, at: int) -> int {
    word16(b, at) + 65536 * word16(b, at + 2)
}

fn read_word16(b: &[u8], at: usize) -> (v: u16)
    requires
        at + 2 <= b.len(),
    ensures
        v == word16(b@, at as int),
{
    let lo: u16 = b[at] as u16;
    let hi: u16 = b[at + 1] as u16;
    lo + 256 * hi
}

fn read_word32(b: &[u8], at: usize) -> (v: u32)
    requires
        at + 4 <= b.len(),
    ensures
        v == word32(b@, at as int),
{
    let lo: u32 = read_word16(b, at) as u32;
    let hi: u32 = read_word16(b, at + 2) as u32;
    lo + 65536 * hi
}

/// Declared length of the body of the chunk whose header starts at `at`.
pub open spec fn chunk_size(b: Seq<u8>, at: int) -> int {
    word32(b, at + 4)
}

/// Where the chunk after the one at `at` starts: bodies are padded to an even length.
pub open spec fn chunk_end(b: Seq<u8>, at: int) -> int {
    at + 8 + chunk_size(b, at) + chunk_size(b, at) % 2
}

/// Start of the first chunk named `tag`, walking the chunk list from `from`.
/// The walk ends where fewer than eight bytes are left for a chunk header.
pub open spec fn find_chunk(b: Seq<u8>, from: int, tag: ChunkTag) -> Option<int>
    decreases b.len() - from,
{
    if from < 0 || from + 8 > b.len() {
        None
    } else if tag_at(b, from, tag) {
        Some(from)
    } else if chunk_end(b, from) > b.len() {
        None
    } else {
        find_chunk(b, chunk_end(b, from), tag)
    }
}

fn locate_chunk(b: &[u8], tag: ChunkTag) -> (r: Option<usize>)
    requires
        tag.is_ascii(),
    ensures
        match find_chunk(b@, 12, tag) {
            Some(at) => r == Some(at as usize) && 12 <= at && at + 8 <= b@.len(),
            None => r is None,
        },
{
    let len: usize = b.len();
    let mut pos: usize = 12;
    while pos <= len && len - pos >= 8
        invariant
            len == b@.len(),
            12 <= pos,
            find_chunk(b@, 12, tag) == find_chunk(b@, pos as int, tag),
            tag.is_ascii(),
        decreases len - pos,
    {
        if has_tag(b, pos, tag) {
            return Some(pos);
        }
        let size: u64 = read_word32(b, pos + 4) as u64;
        let padded: u64 = size + size % 2;
        let room: usize = len - pos - 8;
        if padded > room as u64 {
            return None;
        }
        pos = pos + 8 + padded as usize;
    }
    None
}

/// What the header of a WAV container declares, and where its samples lie.
#[derive(Clone, Copy, Debug, PartialEq, Eq)]
pub struct WavFormat {
    /// Number of interleaved channels.
    pub channels: u16,
    /// Frames per second.
    pub sample_rate: u32,
    /// Bits per sample; only 16 is decoded.
    pub bits_per_sample: u16,
    /// Offset of the first sample byte.
    pub data_start: usize,
    /// Number of sample bytes that are present.
    pub data_len: usize,
}

/// Reads a RIFF/WAVE container: the `fmt ` chunk must declare integer PCM of 16 bits at
/// a non-zero rate, and the `data` chunk holds the samples. A `data` chunk that declares
/// more bytes than the clip holds is cut at the end of the clip.
pub open spec fn wav_format(b: Seq<u8>) -> Result<WavFormat, AudioFault> {
    if !is_riff(b) || !tag_at(b, 8, ChunkTag('W', 'A', 'V', 'E')) {
        Err(AudioFault::MalformedHeader)
    } else {
        match (
            find_chunk(b, 12, ChunkTag('f', 'm', 't', ' ')),
            find_chunk(b, 12, ChunkTag('d', 'a', 't', 'a')),
        ) {
            (Some(f), Some(d)) => {
                if chunk_size(b, f) < 16 || f + 24 > b.len() {
                    Err(AudioFault::MalformedHeader)
                } else if word16(b, f + 8) != 1 || word16(b, f + 22) != 16 {
                    Err(AudioFault::UnsupportedEncoding)
                } else if word32(b, f + 12) == 0 {
                    Err(AudioFault::MalformedHeader)
                } else {
                    Ok(
                        WavFormat {
                            channels: word16(b, f + 10) as u16,
                            sample_rate: word32(b, f + 12) as u32,
                            bits_per_sample: 16,
                            data_start: (d + 8) as usize,
                            data_len: min(chunk_size(b, d), b.len() - (d + 8)) as usize,
                        },
                    )
                }
            },
            _ => Err(AudioFault::MalformedHeader),
        }
    }
}

/// Parses the header of a WAV container.
pub fn parse_wav(b: &[u8]) -> (res: Result<WavFormat, AudioFault>)
    ensures
        res == wav_format(b@),
        res matches Ok(fmt) ==> fmt.data_start + fmt.data_len <= b@.len() && fmt.sample_rate > 0,
{
    let len: usize = b.len();
    if !has_tag(b, 0, ChunkTag('R', 'I', 'F', 'F')) || !has_tag(
        b,
        8,
        ChunkTag('W', 'A', 'V', 'E'),
    ) {
        return Err(AudioFault::MalformedHeader);
    }
    let fmt_at: Option<usize> = locate_chunk(b, ChunkTag('f', 'm', 't', ' '));
    let data_at: Option<usize> = locate_chunk(b, ChunkTag('d', 'a', 't', 'a'));
    match (fmt_at, data_at) {
        (Some(f), Some(d)) => {
            if read_word32(b, f + 4) < 16 || len - f < 24 {
                return Err(AudioFault::MalformedHeader);
            }
            if read_word16(b, f + 8) != 1 || read_word16(b, f + 22) != 16 {
                return Err(AudioFault::UnsupportedEncoding);
            }
            let sample_rate: u32 = read_word32(b, f + 12);
            if sample_rate == 0 {
                return Err(AudioFault::MalformedHeader);
            }
            let declared: u32 = read_word32(b, d + 4);
            let present: usize = len - (d + 8);
            let data_len: usize = if (declared as u64) < (present as u64) {
                declared as usize
            } else {
                present
            };
            Ok(
                WavFormat {
                    channels: read_word16(b, f + 10),
                    sample_rate,
                    bits_per_sample: 16,
                    data_start: d + 8,
                    data_len,
                },
            )
        },
        _ => Err(AudioFault::MalformedHeader),
    }
}

/// The signed sample whose little-endian bytes are `lo` and `hi`.
pub open spec fn sample16(lo: u8, hi: u8) -> i16 {
    let u = lo as int + 256 * (hi as int);
    if u >= 32768 {
        (u - 65536) as i16
    } else {
        u as i16
    }
}

/// The samples that a run of bytes holds; an odd byte at the end holds none.
pub open spec fn pcm_samples(b: Seq<u8>) -> Seq<i16> {
    Seq::new((b.len() / 2) as nat, |i: int| sample16(b[2 * i], b[2 * i + 1]))
}

fn decode_sample(lo: u8, hi: u8) -> (v: i16)
    ensures
        v == sample16(lo, hi),
{
    let u: i32 = lo as i32 + 256 * (hi as i32);
    if u >= 32768 {
        (u - 65536) as i16
    } else {
        u as i16
    }
}

fn decode_pcm(b: &[u8], start: usize, len: usize) -> (v: Vec<i16>)
    requires
        start + len <= b.len(),
    ensures
        v@ == pcm_samples(b@.subrange(start as int, start + len)),
{
    let count: usize = len / 2;
    let mut v: Vec<i16> = Vec::new();
    let mut i: usize = 0;
    while i < count
        invariant
            start + len <= b.len(),
            count == len / 2,
            i <= count,
            v.len() == i,
            forall|j: int|
                0 <= j < i ==> #[trigger] v[j] == sample16(b[start + 2 * j], b[start + 2 * j + 1]),
        decreases count - i,
    {
        v.push(decode_sample(b[start + 2 * i], b[start + 2 * i + 1]));
        i += 1;
    }
    assert(v@ =~= pcm_samples(b@.subrange(start as int, start + len)));
    v
}

/// Half of `x`, rounded towards zero.
pub open spec fn trunc_half(x: int) -> int {
    if x >= 0 {
        x / 2
    } else {
        -((-x) / 2)
    }
}

/// One sample per stereo frame: the mean of left and right, rounded towards zero.
/// A sample left over without its partner is dropped.
pub open spec fn downmixed(s: Seq<i16>) -> Seq<i16> {
    Seq::new((s.len() / 2) as nat, |i: int| trunc_half(s[2 * i] + s[2 * i + 1]) as i16)
}

fn downmix(s: &Vec<i16>) -> (v: Vec<i16>)
    ensures
        v@ == downmixed(s@),
{
    let frames: usize = s.len() / 2;
    let mut v: Vec<i16> = Vec::new();
    let mut i: usize = 0;
    while i < frames
        invariant
            frames == s.len() / 2,
            i <= frames,
            v.len() == i,
            forall|j: int| 0 <= j < i ==> #[trigger] v[j] == trunc_half(s[2 * j] + s[2 * j + 1]),
        decreases frames - i,
    {
        let sum: i32 = s[2 * i] as i32 + s[2 * i + 1] as i32;
        v.push((sum / 2) as i16);
        i += 1;
    }
    assert(v@ =~= downmixed(s@));
    v
}

/// Number of samples that `n` samples recorded at `rate` become at the target rate.
pub open spec fn resampled_len(n: int, rate: int) -> int {
    (n * TARGET_RATE) / rate
}

/// Nearest-earlier-sample resampling: output sample `i` is the input sample at
/// `i * rate / 16000`, rounded down. The ratio is kept exact, as a fraction.
pub open spec fn resampled(s: Seq<i16>, rate: int) -> Seq<i16> {
    Seq::new(
        resampled_len(s.len() as int, rate) as nat,
        |i: int| s[(i * rate) / (TARGET_RATE as int)],
    )
}

/// The input sample that output sample `i` is taken from lies inside the input.
pub proof fn lemma_resample_source_in_range(n: int, rate: int, i: int)
    requires
        0 <= n,
        0 < rate,
        0 <= i < resampled_len(n, rate),
    ensures
        0 <= (i * rate) / (TARGET_RATE as int) < n,
{
    let total: int = n * 16000;
    let q: int = total / rate;
    assert(q * rate <= total) by (nonlinear_arith)
        requires
            q == total / rate,
            0 < rate,
            0 <= total,
    ;
    assert((i + 1) * rate <= q * rate) by (nonlinear_arith)
        requires
            i + 1 <= q,
            0 < rate,
    ;
    assert(i * rate < n * 16000) by (nonlinear_arith)
        requires
            (i + 1) * rate <= total,
            total == n * 16000,
            0 < rate,
    ;
    assert(0 <= i * rate) by (nonlinear_arith)
        requires
            0 <= i,
            0 < rate,
    ;
    let p: int = i * rate;
    assert(0 <= p / 16000 < n) by (nonlinear_arith)
        requires
            0 <= p < n * 16000,
    ;
}

/// Resampling from the target rate to itself changes nothing.
pub proof fn lemma_resample_at_target_rate_is_identity(s: Seq<i16>)
    ensures
        resampled(s, TARGET_RATE as int) == s,
{
    assert(resampled(s, TARGET_RATE as int) =~= s);
}

fn resample(s: &Vec<i16>, rate: u32) -> (r: Option<Vec<i16>>)
    requires
        rate > 0,
    ensures
        resampled_len(s@.len() as int, rate as int) > usize::MAX ==> r is None,
        resampled_len(s@.len() as int, rate as int) <= usize::MAX ==> (r matches Some(v) && v@
            == resampled(s@, rate as int)),
{
    let n: usize = s.len();
    let wide: u128 = (n as u128 * TARGET_RATE as u128) / (rate as u128);
    if wide > usize::MAX as u128 {
        return None;
    }
    let count: usize = wide as usize;
    let mut v: Vec<i16> = Vec::new();
    let mut i: usize = 0;
    while i < count
        invariant
            n == s.len(),
            rate > 0,
            count == resampled_len(n as int, rate as int),
            i <= count,
            v.len() == i,
            forall|j: int| 0 <= j < i ==> #[trigger] v[j] == s[(j * rate) / (TARGET_RATE as int)],
        decreases count - i,
    {
        proof {
            lemma_resample_source_in_range(n as int, rate as int, i as int);
            assert(0 <= i * rate <= 0xffff_ffff_ffff_ffff * 0xffff_ffff) by (nonlinear_arith)
                requires
                    0 <= i <= 0xffff_ffff_ffff_ffff,
                    0 <= rate <= 0xffff_ffff,
            ;
        }
        let source: u128 = (i as u128 * rate as u128) / (TARGET_RATE as u128);
        v.push(s[source as usize]);
        i += 1;
    }
    assert(v@ =~= resampled(s@, rate as int));
    Some(v)
}

/// The decoded samples of a container as one channel.
pub open spec fn mono(s: Seq<i16>, channels: u16) -> Seq<i16> {
    if channels == 2 {
        downmixed(s)
    } else {
        s
    }
}

/// The samples that the `data` chunk of a container holds.
pub open spec fn wav_samples(b: Seq<u8>, fmt: WavFormat) -> Seq<i16> {
    pcm_samples(b.subrange(fmt.data_start as int, fmt.data_start + fmt.data_len))
}

/// The canonical samples of a clip, or the reason why it has none.
///
/// A clip that opens with `RIFF` is a WAV container: its samples are decoded, mixed
/// down where it has two channels, and resampled where its rate is not the target
/// rate, whatever that rate is. Any other clip is raw 16-bit little-endian PCM at the
/// target rate. A resampled clip is refused only where this machine cannot count its
/// samples, which no machine with addresses of 64 bits does.
pub open spec fn normalized(b: Seq<u8>) -> Result<Seq<i16>, AudioFault> {
    if b.len() == 0 {
        Err(AudioFault::Empty)
    } else if b.len() > MAX_AUDIO_BYTES {
        Err(AudioFault::TooLarge)
    } else if is_riff(b) {
        match wav_format(b) {
            Err(fault) => Err(fault),
            Ok(fmt) => {
                let one = mono(wav_samples(b, fmt), fmt.channels);
                if fmt.sample_rate == TARGET_RATE {
                    Ok(one)
                } else if resampled_len(one.len() as int, fmt.sample_rate as int) > usize::MAX {
                    Err(AudioFault::TooLong)
                } else {
                    Ok(resampled(one, fmt.sample_rate as int))
                }
            },
        }
    } else if b.len() % 2 == 1 {
        Err(AudioFault::OddLength)
    } else {
        Ok(pcm_samples(b))
    }
}

/// Mono samples at 16 kHz, as many as there are. A sample `v` stands for the
/// amplitude `v / 32768`, which lies in [-1, 1).
#[derive(Debug)]
pub struct AudioBuffer {
    samples: Vec<i16>,
}

impl View for AudioBuffer {
    type V = Seq<i16>;

    closed spec fn view(&self) -> Seq<i16> {
        self.samples@
    }
}

impl AudioBuffer {
    /// Wraps samples that are already mono at the target rate.
    pub fn from_samples(samples: Vec<i16>) -> (buffer: AudioBuffer)
        ensures
            buffer@ == samples@,
    {
        AudioBuffer { samples }
    }

    /// Number of samples.
    pub fn len(&self) -> (n: usize)
        ensures
            n == self@.len(),
    {
        self.samples.len()
    }

    /// The samples, in order.
    pub fn samples(&self) -> (s: &Vec<i16>)
        ensures
            s@ == self@,
    {
        &self.samples
    }
}

/// Turns the bytes of a clip into canonical samples.
pub fn normalize(raw_bytes: &[u8]) -> (res: Result<AudioBuffer, TranscribeError>)
    ensures
        match normalized(raw_bytes@) {
            Ok(samples) => res matches Ok(buffer) && buffer@ == samples,
            Err(fault) => res matches Err(TranscribeError::InvalidAudio(f)) && f == fault,
        },
{
    let len: usize = raw_bytes.len();
    if len == 0 {
        return Err(TranscribeError::InvalidAudio(AudioFault::Empty));
    }
    if len > MAX_AUDIO_BYTES {
        return Err(TranscribeError::InvalidAudio(AudioFault::TooLarge));
    }
    if has_tag(raw_bytes, 0, ChunkTag('R', 'I', 'F', 'F')) {
        let fmt: WavFormat = match parse_wav(raw_bytes) {
            Ok(fmt) => fmt,
            Err(fault) => {
                return Err(TranscribeError::InvalidAudio(fault));
            },
        };
        let decoded: Vec<i16> = decode_pcm(raw_bytes, fmt.data_start, fmt.data_len);
        let one: Vec<i16> = if fmt.channels == 2 {
            downmix(&decoded)
        } else {
            decoded
        };
        if fmt.sample_rate == TARGET_RATE {
            Ok(AudioBuffer { samples: one })
        } else {
            match resample(&one, fmt.sample_rate) {
                Some(samples) => Ok(AudioBuffer { samples }),
                None => Err(TranscribeError::InvalidAudio(AudioFault::TooLong)),
            }
        }
    } else if len % 2 == 1 {
        Err(TranscribeError::InvalidAudio(AudioFault::OddLength))
    } else {
        assert(raw_bytes@.subrange(0, len as int) =~= raw_bytes@);
        Ok(AudioBuffer { samples: decode_pcm(raw_bytes, 0, len) })
    }
}

/// A chunk that the walk finds lies at or after the start of the walk, carries the
/// tag, and has its whole header inside the clip.
pub proof fn lemma_found_chunk_is_inside(b: Seq<u8>, from: int, tag: ChunkTag)
    ensures
        find_chunk(b, from, tag) matches Some(at) ==> from <= at && at + 8 <= b.len() && tag_at(
            b,
            at,
            tag,
        ),
    decreases b.len() - from,
{
    if !(from < 0 || from + 8 > b.len()) && !tag_at(b, from, tag) && chunk_end(b, from)
        <= b.len() {
        lemma_found_chunk_is_inside(b, chunk_end(b, from), tag);
    }
}

/// A one-channel container at the target rate comes through sample for sample: the
/// buffer holds exactly the decoded integers, as many as the container holds.
pub proof fn lemma_mono_wav_at_target_rate_is_unchanged(b: Seq<u8>, fmt: WavFormat)
    requires
        b.len() <= MAX_AUDIO_BYTES,
        wav_format(b) == Ok::<WavFormat, AudioFault>(fmt),
        fmt.sample_rate == TARGET_RATE,
        fmt.channels == 1,
    ensures
        normalized(b) == Ok::<Seq<i16>, AudioFault>(wav_samples(b, fmt)),
        wav_samples(b, fmt).len() == fmt.data_len / 2,
{
    lemma_found_chunk_is_inside(b, 12, ChunkTag('d', 'a', 't', 'a'));
}

/// A one-channel container at any other rate is resampled, however long the result:
/// the buffer has `n * 16000 / rate` samples, rounded down, and sample `i` is the
/// decoded sample at `i * rate / 16000`, rounded down, which lies inside the clip.
pub proof fn lemma_mono_wav_is_resampled(b: Seq<u8>, fmt: WavFormat, i: int)
    requires
        0 < b.len() <= MAX_AUDIO_BYTES,
        wav_format(b) == Ok::<WavFormat, AudioFault>(fmt),
        fmt.sample_rate != TARGET_RATE,
        fmt.channels == 1,
        resampled_len(wav_samples(b, fmt).len() as int, fmt.sample_rate as int) <= usize::MAX,
        0 <= i < resampled_len(wav_samples(b, fmt).len() as int, fmt.sample_rate as int),
    ensures
        ({
            let decoded = wav_samples(b, fmt);
            let rate = fmt.sample_rate as int;
            &&& normalized(b) matches Ok(out) && out.len() == (decoded.len() as int * 16000) / rate
                && out[i] == decoded[(i * rate) / 16000]
            &&& 0 <= (i * rate) / 16000 < decoded.len()
        }),
{
    lemma_resample_source_in_range(
        wav_samples(b, fmt).len() as int,
        fmt.sample_rate as int,
        i,
    );
}

/// No clip is refused for its length after resampling where sizes have 64 bits: a
/// clip within the byte bound has fewer than five million samples, and these become
/// at most sixteen thousand times as many.
pub proof fn lemma_resampled_clip_is_countable(b: Seq<u8>, fmt: WavFormat)
    requires
        b.len() <= MAX_AUDIO_BYTES,
        wav_format(b) == Ok::<WavFormat, AudioFault>(fmt),
    ensures
        resampled_len(
            mono(wav_samples(b, fmt), fmt.channels).len() as int,
            fmt.sample_rate as int,
        ) <= 80_000_000_000,
        usize::MAX >= 80_000_000_000 ==> normalized(b) is Ok,
{
    lemma_found_chunk_is_inside(b, 12, ChunkTag('d', 'a', 't', 'a'));
    let n: int = mono(wav_samples(b, fmt), fmt.channels).len() as int;
    let rate: int = fmt.sample_rate as int;
    assert(n <= 5_000_000);
    assert((n * 16000) / rate <= 80_000_000_000) by (nonlinear_arith)
        requires
            0 <= n <= 5_000_000,
            1 <= rate,
    ;
}

/// A two-channel container at the target rate yields one sample per frame, each the
/// mean of the frame's two samples rounded towards zero. At another rate the same
/// sequence is resampled afterwards, which changes its length.
pub proof fn lemma_stereo_wav_is_averaged(b: Seq<u8>, fmt: WavFormat)
    requires
        b.len() <= MAX_AUDIO_BYTES,
        wav_format(b) == Ok::<WavFormat, AudioFault>(fmt),
        fmt.sample_rate == TARGET_RATE,
        fmt.channels == 2,
    ensures
        normalized(b) matches Ok(one) && one.len() == wav_samples(b, fmt).len() / 2 && forall|
            i: int,
        |
            0 <= i < one.len() ==> #[trigger] one[i] == trunc_half(
                wav_samples(b, fmt)[2 * i] + wav_samples(b, fmt)[2 * i + 1],
            ),
{
}

/// Whatever the rate of a two-channel container that is accepted, each sample of the
/// buffer is the mean of one frame: of frame `i` at the target rate, and of the frame
/// that resampling picks for `i` at any other rate.
pub proof fn lemma_stereo_wav_samples_are_frame_means(b: Seq<u8>, fmt: WavFormat, i: int)
    requires
        wav_format(b) == Ok::<WavFormat, AudioFault>(fmt),
        fmt.channels == 2,
        normalized(b) is Ok,
        0 <= i < normalized(b).unwrap().len(),
    ensures
        ({
            let decoded = wav_samples(b, fmt);
            let frame = if fmt.sample_rate == TARGET_RATE {
                i
            } else {
                (i * fmt.sample_rate) / (TARGET_RATE as int)
            };
            &&& 0 <= frame < decoded.len() / 2
            &&& normalized(b).unwrap()[i] == trunc_half(
                decoded[2 * frame] + decoded[2 * frame + 1],
            )
        }),
{
    let decoded = wav_samples(b, fmt);
    let one = downmixed(decoded);
    if fmt.sample_rate != TARGET_RATE {
        lemma_resample_source_in_range(one.len() as int, fmt.sample_rate as int, i);
    }
}

/// Raw PCM with an odd number of bytes is refused, whatever it holds: it is not
/// normalized, and it is not detected as PCM.
pub proof fn lemma_odd_raw_pcm_is_refused(b: Seq<u8>)
    requires
        !is_riff(b),
        b.len() % 2 == 1,
    ensures
        normalized(b) is Err,
        b.len() <= MAX_AUDIO_BYTES ==> normalized(b) == Err::<Seq<i16>, AudioFault>(
            AudioFault::OddLength,
        ),
        detected_format(b) is Err,
{
}

/// A clip that passes the size rule and is detected as a container has a first
/// stage in `normalize` too: raw PCM is normalized, and a WAV container fails only
/// for what its header says.
pub proof fn lemma_detection_agrees_with_normalize(b: Seq<u8>)
    requires
        size_complaint(b.len()) is None,
    ensures
        detected_format(b) == Ok::<Seq<char>, Seq<char>>("PCM"@) ==> normalized(b) is Ok,
        detected_format(b) == Ok::<Seq<char>, Seq<char>>("WAV"@) ==> is_riff(b),
        normalized(b) is Ok && b.len() >= 4 ==> detected_format(b) is Ok,
{
    reveal_strlit("PCM");
    reveal_strlit("WAV");
    assert("PCM"@ != "WAV"@) by {
        assert("PCM"@[0] == 'P');
        assert("WAV"@[0] == 'W');
    }
}

} // verus!
