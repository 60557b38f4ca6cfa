//! RIFF/WAVE measurement and two-sided peak normalization of 16-bit PCM.

use vstd::prelude::*;

verus! {

/// Why a WAV buffer was refused.
#[derive(Debug, Clone, Copy, PartialEq, Eq, Structural)]
pub enum WavError {
    /// A tag is missing or wrong, the buffer ends early, or no `data`
    /// chunk follows the format chunk.
    MalformedContainer,
    /// The samples are not linear PCM integers.
    UnsupportedCodec,
}

/// What a WAV header says about the length of its audio: the size of the
/// `data` chunk, the bytes per frame, and the frames per second.
#[derive(Debug, Clone, Copy, PartialEq, Eq, Structural)]
pub struct WavTiming {
    pub data_size: u32,
    pub block_align: u16,
    pub sample_rate: u32,
}

/// The little-endian 16-bit integer at `i`.
pub open spec fn le16(b: Seq<u8>, i: int) -> int {
    b[i] + 256 * b[i + 1]
}

/// The little-endian 32-bit integer at `i`.
pub open spec fn le32(b: Seq<u8>, i: int) -> int {
    b[i] + 256 * b[i + 1] + 65536 * b[i + 2] + 16777216 * b[i + 3]
}

/// The four bytes at `i` spell `tag`.
pub open spec fn tag_at(b: Seq<u8>, i: int, tag: Seq<u8>) -> bool {
    &&& b[i] == tag[0]
    &&& b[i + 1] == tag[1]
    &&& b[i + 2] == tag[2]
    &&& b[i + 3] == tag[3]
}

/// `RIFF`
pub open spec fn riff_tag() -> Seq<u8> {
    seq![0x52u8, 0x49u8, 0x46u8, 0x46u8]
}

/// `WAVE`
pub open spec fn wave_tag() -> Seq<u8> {
    seq![0x57u8, 0x41u8, 0x56u8, 0x45u8]
}

/// `fmt `
pub open spec fn fmt_tag() -> Seq<u8> {
    seq![0x66u8, 0x6du8, 0x74u8, 0x20u8]
}

/// `data`
pub open spec fn data_tag() -> Seq<u8> {
    seq![0x64u8, 0x61u8, 0x74u8, 0x61u8]
}

/// The offset of the `data` chunk header, scanning chunk headers from `pos`
/// and skipping each other chunk by its declared size; `None` when the
/// buffer ends before a whole `data` header.
pub open spec fn find_data(b: Seq<u8>, pos: int) -> Option<int>
    decreases b.len() - pos,
{
    if pos < 0 || pos + 8 > b.len() {
        None
    } else if tag_at(b, pos, data_tag()) {
        Some(pos)
    } else {
        let next = pos + 8 + le32(b, pos + 4);
        if next <= pos || next > b.len() {
            None
        } else {
            find_data(b, next)
        }
    }
}

/// The timing a WAV buffer declares: `RIFF` at 0 and `WAVE` at 8, a `fmt `
/// chunk at 12 whose payload (at least 14 bytes) lies in the buffer and
/// gives format code 1, then a `data` chunk found by skipping other chunks.
pub open spec fn wav_timing(b: Seq<u8>) -> Result<WavTiming, WavError> {
    if b.len() < 12 || !tag_at(b, 0, riff_tag()) || !tag_at(b, 8, wave_tag()) {
        Err(WavError::MalformedContainer)
    } else if b.len() < 20 || !tag_at(b, 12, fmt_tag()) {
        Err(WavError::MalformedContainer)
    } else if le32(b, 16) < 14 || 20 + le32(b, 16) > b.len() {
        Err(WavError::MalformedContainer)
    } else if le16(b, 20) != 1 {
        Err(WavError::UnsupportedCodec)
    } else {
        match find_data(b, 20 + le32(b, 16)) {
            None => Err(WavError::MalformedContainer),
            Some(p) => Ok(
                WavTiming {
                    data_size: le32(b, p + 4) as u32,
                    block_align: le16(b, 32) as u16,
                    sample_rate: le32(b, 24) as u32,
                },
            ),
        }
    }
}

fn read_u16_le(b: &[u8], i: usize) -> (r: u16)
    requires
        i + 2 <= b@.len(),
    ensures
        r == le16(b@, i as int),
{
    b[i] as u16 + 256 * (b[i + 1] as u16)
}

fn read_u32_le(b: &[u8], i: usize) -> (r: u32)
    requires
        i + 4 <= b@.len(),
    ensures
        r == le32(b@, i as int),
{
    b[i] as u32 + 256 * (b[i + 1] as u32) + 65536 * (b[i + 2] as u32) + 16777216 * (
    b[i + 3] as u32)
}

fn has_tag(b: &[u8], i: usize, tag: [u8; 4]) -> (r: bool)
    requires
        i + 4 <= b@.len(),
    ensures
        r == tag_at(b@, i as int, tag@),
{
    b[i] == tag[0] && b[i + 1] == tag[1] && b[i + 2] == tag[2] && b[i + 3] == tag[3]
}

/// Reads the timing that a RIFF/WAVE buffer declares.
pub fn read_wav_timing(bytes: &[u8]) -> (r: Result<WavTiming, WavError>)
    ensures
        r == wav_timing(bytes@),
{
    let riff: [u8; 4] = [0x52, 0x49, 0x46, 0x46];
    let wave: [u8; 4] = [0x57, 0x41, 0x56, 0x45];
    let fmt: [u8; 4] = [0x66, 0x6d, 0x74, 0x20];
    let data: [u8; 4] = [0x64, 0x61, 0x74, 0x61];
    assert(riff@ =~= riff_tag());
    assert(wave@ =~= wave_tag());
    assert(fmt@ =~= fmt_tag());
    assert(data@ =~= data_tag());
    let n = bytes.len();
    if n < 12 || !has_tag(bytes, 0, riff) || !has_tag(bytes, 8, wave) {
        return Err(WavError::MalformedContainer);
    }
    if n < 20 || !has_tag(bytes, 12, fmt) {
        return Err(WavError::MalformedContainer);
    }
    let fmt_size = read_u32_le(bytes, 16);
    if fmt_size < 14 || fmt_size as usize > n - 20 {
        return Err(WavError::MalformedContainer);
    }
    if read_u16_le(bytes, 20) != 1 {
        return Err(WavError::UnsupportedCodec);
    }
    let sample_rate = read_u32_le(bytes, 24);
    let block_align = read_u16_le(bytes, 32);
    let start: usize = 20 + fmt_size as usize;
    let mut pos: usize = start;
    let ghost found = match find_data(bytes@, start as int) {
        None => Err(WavError::MalformedContainer),
        Some(p) => Ok(
            WavTiming {
                data_size: le32(bytes@, p + 4) as u32,
                block_align: block_align,
                sample_rate: sample_rate,
            },
        ),
    };
    assert(wav_timing(bytes@) == found);
    loop
        invariant
            n == bytes@.len(),
            data@ == data_tag(),
            wav_timing(bytes@) == found,
            found == match find_data(bytes@, start as int) {
                None => Err(WavError::MalformedContainer),
                Some(p) => Ok(
                    WavTiming {
                        data_size: le32(bytes@, p + 4) as u32,
                        block_align: block_align,
                        sample_rate: sample_rate,
                    },
                ),
            },
            find_data(bytes@, pos as int) == find_data(bytes@, start as int),
        decreases n - pos,
    {
        if n < 8 || pos > n - 8 {
            assert(find_data(bytes@, pos as int) is None);
            return Err(WavError::MalformedContainer);
        }
        if has_tag(bytes, pos, data) {
            assert(find_data(bytes@, pos as int) == Some(pos as int));
            let data_size = read_u32_le(bytes, pos + 4);
            return Ok(WavTiming { data_size, block_align, sample_rate });
        }
        let size = read_u32_le(bytes, pos + 4);
        if size as usize > n - pos - 8 {
            assert(find_data(bytes@, pos + 8 + size) is None);
            return Err(WavError::MalformedContainer);
        }
        pos = pos + 8 + size as usize;
    }
}

impl WavTiming {
    /// Whether the audio lasts longer than `seconds`: whether the data size
    /// exceeds `seconds` times the bytes per second.
    pub fn longer_than(&self, seconds: u64) -> (r: bool)
        ensures
            r == (self.data_size > seconds * self.block_align * self.sample_rate),
    {
        assert(self.block_align * self.sample_rate <= 0xffff * 0xffff_ffffu64) by (nonlinear_arith)
            requires
                self.block_align <= 0xffff,
                self.sample_rate <= 0xffff_ffffu64,
        ;
        let per_second: u64 = self.block_align as u64 * self.sample_rate as u64;
        assert(seconds * per_second <= 0xffff_ffff_ffff_ffffu64 * 0xffff_ffff_ffff_ffffu64)
            by (nonlinear_arith)
            requires
                seconds <= 0xffff_ffff_ffff_ffffu64,
                per_second <= 0xffff_ffff_ffff_ffffu64,
        ;
        let limit: u128 = seconds as u128 * per_second as u128;
        assert(limit == seconds * self.block_align * self.sample_rate) by (nonlinear_arith)
            requires
                per_second == self.block_align * self.sample_rate,
                limit == seconds * per_second,
        ;
        self.data_size as u128 > limit
    }
}

/// `b` with a chunk (its 8-byte header, then its payload) inserted at `at`.
pub open spec fn with_chunk(b: Seq<u8>, at: int, header: Seq<u8>, payload: Seq<u8>) -> Seq<u8> {
    b.subrange(0, at) + header + payload + b.subrange(at, b.len() as int)
}

/// Scanning a buffer whose tail from `q` on has moved `shift` bytes on
/// finds the same chunk, moved by `shift` too.
proof fn lemma_find_data_shifted(b: Seq<u8>, b2: Seq<u8>, q: int, shift: int, pos: int)
    requires
        0 <= q <= pos,
        shift >= 0,
        b2.len() == b.len() + shift,
        forall|i: int| q <= i < b.len() ==> b2[i + shift] == #[trigger] b[i],
    ensures
        find_data(b2, pos + shift) == match find_data(b, pos) {
            None => None,
            Some(p) => Some(p + shift),
        },
        find_data(b, pos) matches Some(p) ==> pos <= p && p + 8 <= b.len(),
    decreases b.len() - pos,
{
    if pos + 8 <= b.len() {
        assert(b2[pos + shift] == b[pos]);
        assert(b2[pos + 1 + shift] == b[pos + 1]);
        assert(b2[pos + 2 + shift] == b[pos + 2]);
        assert(b2[pos + 3 + shift] == b[pos + 3]);
        assert(b2[pos + 4 + shift] == b[pos + 4]);
        assert(b2[pos + 5 + shift] == b[pos + 5]);
        assert(b2[pos + 6 + shift] == b[pos + 6]);
        assert(b2[pos + 7 + shift] == b[pos + 7]);
        let next = pos + 8 + le32(b, pos + 4);
        if next > pos && next <= b.len() {
            lemma_find_data_shifted(b, b2, q, shift, next);
        }
    }
}

/// An unknown chunk inserted right after the format chunk changes nothing
/// of what the buffer declares: the scan skips it by its declared size.
pub proof fn lemma_extra_chunk_skipped(b: Seq<u8>, header: Seq<u8>, payload: Seq<u8>)
    requires
        b.len() >= 20,
        20 + le32(b, 16) <= b.len(),
        header.len() == 8,
        !tag_at(header, 0, data_tag()),
        le32(header, 4) == payload.len(),
    ensures
        wav_timing(with_chunk(b, 20 + le32(b, 16), header, payload)) == wav_timing(b),
{
    let q = 20 + le32(b, 16);
    let b2 = with_chunk(b, q, header, payload);
    let shift: int = 8 + payload.len() as int;
    assert forall|i: int| 0 <= i < q implies #[trigger] b2[i] == b[i] by {}
    assert forall|i: int| q <= i < b.len() implies b2[i + shift] == #[trigger] b[i] by {}
    assert forall|k: int| 0 <= k < 8 implies #[trigger] b2[q + k] == header[k] by {}
    assert(b2[16] == b[16] && b2[17] == b[17] && b2[18] == b[18] && b2[19] == b[19]);
    assert(b2[0] == b[0] && b2[1] == b[1] && b2[2] == b[2] && b2[3] == b[3]);
    assert(b2[8] == b[8] && b2[9] == b[9] && b2[10] == b[10] && b2[11] == b[11]);
    assert(b2[12] == b[12] && b2[13] == b[13] && b2[14] == b[14] && b2[15] == b[15]);
    if le32(b, 16) >= 14 {
        assert(b2[20] == b[20] && b2[21] == b[21]);
        assert(b2[24] == b[24] && b2[25] == b[25] && b2[26] == b[26] && b2[27] == b[27]);
        assert(b2[32] == b[32] && b2[33] == b[33]);
        assert(b2[q] == header[0] && b2[q + 1] == header[1] && b2[q + 2] == header[2]
            && b2[q + 3] == header[3]);
        assert(b2[q + 4] == header[4] && b2[q + 5] == header[5] && b2[q + 6] == header[6]
            && b2[q + 7] == header[7]);
        lemma_find_data_shifted(b, b2, q, shift, q);
        assert(find_data(b2, q) == find_data(b2, q + shift));
        if let Some(p) = find_data(b, q) {
            assert(b2[p + 4 + shift] == b[p + 4] && b2[p + 5 + shift] == b[p + 5]);
            assert(b2[p + 6 + shift] == b[p + 6] && b2[p + 7 + shift] == b[p + 7]);
        }
    }
}

/// The largest sample, or 0 when none is positive.
pub open spec fn peak_high(s: Seq<i16>) -> int
    decreases s.len(),
{
    if s.len() == 0 {
        0
    } else if s.last() > peak_high(s.drop_last()) {
        s.last() as int
    } else {
        peak_high(s.drop_last())
    }
}

/// The smallest sample, or 0 when none is negative.
pub open spec fn peak_low(s: Seq<i16>) -> int
    decreases s.len(),
{
    if s.len() == 0 {
        0
    } else if s.last() < peak_low(s.drop_last()) {
        s.last() as int
    } else {
        peak_low(s.drop_last())
    }
}

/// `x` rescaled against the peaks `high` and `low`, truncated toward zero:
/// a positive sample becomes `x · 32767 / high`, any other one
/// `x · (−32768) / low`; with no negative peak a zero sample stays zero.
pub open spec fn rescaled(x: i16, high: int, low: int) -> i16 {
    if x > 0 {
        (x * 32767 / high) as i16
    } else if low == 0 {
        0
    } else {
        (-((-x * 32768) / (-low))) as i16
    }
}

/// The samples of `s`, each rescaled against the peaks of `s`.
pub open spec fn normalized(s: Seq<i16>) -> Seq<i16> {
    s.map_values(|x: i16| rescaled(x, peak_high(s), peak_low(s)))
}

/// Every sample lies between the two peaks, and the peaks are bounded by 0.
proof fn lemma_peaks_bound(s: Seq<i16>)
    ensures
        0 <= peak_high(s) <= i16::MAX,
        i16::MIN <= peak_low(s) <= 0,
        forall|i: int| 0 <= i < s.len() ==> peak_low(s) <= #[trigger] s[i] <= peak_high(s),
    decreases s.len(),
{
    if s.len() > 0 {
        lemma_peaks_bound(s.drop_last());
        assert forall|i: int| 0 <= i < s.len() implies peak_low(s) <= #[trigger] s[i] <= peak_high(
            s,
        ) by {
            if i < s.len() - 1 {
                assert(s[i] == s.drop_last()[i]);
            }
        }
    }
}

/// The rescaled value lies in `i16` when `x` lies between the peaks.
proof fn lemma_rescaled_exact(x: i16, high: int, low: int)
    requires
        0 <= high <= i16::MAX,
        i16::MIN <= low <= 0,
        low <= x <= high,
    ensures
        x > 0 ==> 0 <= x * 32767 / high <= i16::MAX,
        x <= 0 && low != 0 ==> 0 <= (-x * 32768) / (-low) <= 32768,
{
    if x > 0 {
        assert(0 <= x * 32767 / high <= 32767) by (nonlinear_arith)
            requires
                0 < x <= high,
        ;
    }
    if x <= 0 && low != 0 {
        assert(0 <= (-x * 32768) / (-low) <= 32768) by (nonlinear_arith)
            requires
                low <= x <= 0,
                low < 0,
        ;
    }
}

/// Rescales every sample so that the positive peak reaches `i16::MAX` and
/// the negative peak reaches `i16::MIN`, each side by its own factor.
pub fn normalize_samples(samples: &[i16]) -> (r: Vec<i16>)
    ensures
        r@ == normalized(samples@),
{
    let n = samples.len();
    let mut high: i16 = 0;
    let mut low: i16 = 0;
    let mut i: usize = 0;
    while i < n
        invariant
            n == samples@.len(),
            i <= n,
            high == peak_high(samples@.take(i as int)),
            low == peak_low(samples@.take(i as int)),
        decreases n - i,
    {
        assert(samples@.take(i + 1).drop_last() =~= samples@.take(i as int));
        if samples[i] > high {
            high = samples[i];
        }
        if samples[i] < low {
            low = samples[i];
        }
        i += 1;
    }
    assert(samples@.take(n as int) =~= samples@);
    proof {
        lemma_peaks_bound(samples@);
    }
    let mut out: Vec<i16> = Vec::with_capacity(n);
    let mut j: usize = 0;
    while j < n
        invariant
            n == samples@.len(),
            j <= n,
            high == peak_high(samples@),
            low == peak_low(samples@),
            0 <= high <= i16::MAX,
            i16::MIN <= low <= 0,
            forall|k: int| 0 <= k < n ==> low <= #[trigger] samples@[k] <= high,
            out@ =~= normalized(samples@).take(j as int),
        decreases n - j,
    {
        let x = samples[j];
        proof {
            lemma_rescaled_exact(x, high as int, low as int);
        }
        let y: i16 = if x > 0 {
            (x as i32 * 32767 / high as i32) as i16
        } else if low == 0 {
            0
        } else {
            (-((-(x as i32) * 32768) / (-(low as i32)))) as i16
        };
        assert(y == rescaled(x, high as int, low as int));
        out.push(y);
        j += 1;
    }
    out
}

/// Whether `x` is left as it is by rescaling against peaks that already
/// reach both bounds of `i16`.
proof fn lemma_rescaled_full_range(x: i16)
    ensures
        rescaled(x, 32767, -32768) == x,
{
    if x > 0 {
        assert(x * 32767 / 32767 == x) by (nonlinear_arith)
            requires
                x > 0,
        ;
    } else {
        assert((-x * 32768) / 32768 == -x) by (nonlinear_arith)
            requires
                x <= 0,
        ;
    }
}

/// A signal whose peaks already reach `i16::MAX` and `i16::MIN` is left
/// unchanged by normalization.
pub proof fn lemma_full_range_is_fixed(s: Seq<i16>)
    requires
        peak_high(s) == i16::MAX,
        peak_low(s) == i16::MIN,
    ensures
        normalized(s) == s,
{
    assert forall|i: int| 0 <= i < s.len() implies #[trigger] normalized(s)[i] == s[i] by {
        lemma_rescaled_full_range(s[i]);
    }
    assert(normalized(s) =~= s);
}

/// A silent signal normalizes to itself, with no division by a zero peak.
pub proof fn lemma_silence_is_kept(s: Seq<i16>)
    requires
        forall|i: int| 0 <= i < s.len() ==> s[i] == 0,
    ensures
        normalized(s) == s,
{
    assert forall|i: int| 0 <= i < s.len() implies #[trigger] normalized(s)[i] == s[i] by {
        if peak_low(s) != 0 {
            assert((-(s[i] as int) * 32768) / (-peak_low(s)) == 0);
        }
    }
    assert(normalized(s) =~= s);
}

/// How the samples of a WAV stream are encoded.
#[derive(Debug, Clone, Copy, PartialEq, Eq, Structural)]
pub enum SampleKind {
    Int,
    Float,
}

/// The format of a WAV stream, as its header gives it.
#[derive(Debug, Clone, Copy, PartialEq, Eq, Structural)]
pub struct PcmFormat {
    pub channels: u16,
    pub sample_rate: u32,
    pub bits_per_sample: u16,
    pub kind: SampleKind,
}

/// What the WAV decoder reads from `bytes`: the header's format and every
/// sample as `i16`; `None` when it stops on an error.
pub uninterp spec fn decoded_wav(bytes: Seq<u8>) -> Option<(PcmFormat, Seq<i16>)>;

/// What the WAV encoder writes for integer samples in the given layout;
/// `None` when it stops on an error.
pub uninterp spec fn encoded_wav(
    channels: u16,
    sample_rate: u32,
    bits_per_sample: u16,
    samples: Seq<i16>,
) -> Option<Seq<u8>>;

#[verifier::external_type_specification]
#[verifier::external_body]
pub struct ExHoundError(hound::Error);

/// Relies on the variants of `hound::Error`: unsupported layouts and
/// sample types are a codec matter, every other error a malformed file.
#[verifier::external_body]
fn wav_error_of(e: hound::Error) -> (r: WavError) {
    match e {
        hound::Error::IoError(_) => WavError::MalformedContainer,
        hound::Error::FormatError(_) => WavError::MalformedContainer,
        hound::Error::UnfinishedSample => WavError::MalformedContainer,
        hound::Error::TooWide => WavError::UnsupportedCodec,
        hound::Error::Unsupported => WavError::UnsupportedCodec,
        hound::Error::InvalidSampleFormat => WavError::UnsupportedCodec,
    }
}

/// Relies on `hound::WavReader::new`, `WavReader::spec` and
/// `WavReader::samples::<i16>` over an in-memory cursor: on success, the
/// header's format and every sample, or an error; which of the two, and
/// what they hold, depends on the bytes alone.
#[verifier::external_body]
fn decode_wav(bytes: &[u8]) -> (r: Result<(PcmFormat, Vec<i16>), hound::Error>)
    ensures
        decoded_wav(bytes@) == match r {
            Ok((f, s)) => Some((f, s@)),
            Err(_) => None::<(PcmFormat, Seq<i16>)>,
        },
{
    let mut reader = hound::WavReader::new(std::io::Cursor::new(bytes))?;
    let spec = reader.spec();
    let samples = reader.samples::<i16>().collect::<Result<Vec<i16>, _>>()?;
    let kind = match spec.sample_format {
        hound::SampleFormat::Int => SampleKind::Int,
        hound::SampleFormat::Float => SampleKind::Float,
    };
    let format = PcmFormat {
        channels: spec.channels,
        sample_rate: spec.sample_rate,
        bits_per_sample: spec.bits_per_sample,
        kind,
    };
    Ok((format, samples))
}

/// The bytes the encoder stores for one sample of `bits` bits.
pub open spec fn sample_width(bits: u16) -> int {
    (bits + 7) / 8
}

/// The encoder can write `n` integer samples in format `f` without any of
/// its header fields overflowing: at least one channel, a non-zero rate,
/// at most 32 bits per sample, and the byte rate and the file size within
/// `u32`.
pub open spec fn writable(f: PcmFormat, n: nat) -> bool {
    &&& f.kind == SampleKind::Int
    &&& f.channels > 0
    &&& f.sample_rate > 0
    &&& 1 <= f.bits_per_sample <= 32
    &&& f.sample_rate * sample_width(f.bits_per_sample) * f.channels <= u32::MAX
    &&& n * 4 + 68 <= u32::MAX
}

/// Relies on `hound::WavWriter::new`, `WavWriter::write_sample` and
/// `WavWriter::finalize` over an in-memory cursor: whether it fails, and
/// the file it writes, depend on the format and the samples alone. The
/// `requires` keeps out the formats on which the writer divides by zero or
/// overflows.
#[verifier::external_body]
fn encode_wav(format: PcmFormat, samples: &[i16]) -> (r: Result<Vec<u8>, hound::Error>)
    requires
        writable(format, samples@.len()),
    ensures
        encoded_wav(format.channels, format.sample_rate, format.bits_per_sample, samples@)
            == match r {
            Ok(b) => Some(b@),
            Err(_) => None::<Seq<u8>>,
        },
{
    let spec = hound::WavSpec {
        channels: format.channels,
        sample_rate: format.sample_rate,
        bits_per_sample: format.bits_per_sample,
        sample_format: hound::SampleFormat::Int,
    };
    let mut buf: Vec<u8> = Vec::new();
    let mut writer = hound::WavWriter::new(std::io::Cursor::new(&mut buf), spec)?;
    for &s in samples {
        writer.write_sample(s)?;
    }
    writer.finalize()?;
    Ok(buf)
}

/// What normalizing the WAV file `b` gives: nothing when it does not
/// decode, or its format cannot be written back, or the encoder fails;
/// else the encoding of the normalized samples in the same format.
pub open spec fn normalized_wav(b: Seq<u8>) -> Option<Seq<u8>> {
    match decoded_wav(b) {
        None => None,
        Some((f, s)) => if writable(f, s.len()) {
            encoded_wav(f.channels, f.sample_rate, f.bits_per_sample, normalized(s))
        } else {
            None
        },
    }
}

/// Decodes a WAV file of integer samples, normalizes them against their own
/// peaks, and writes them back in the same format. A decoded format that
/// cannot be written back is a codec error.
pub fn normalize_wav_volume(wav_file: &[u8]) -> (r: Result<Vec<u8>, WavError>)
    ensures
        normalized_wav(wav_file@) == match r {
            Ok(b) => Some(b@),
            Err(_) => None::<Seq<u8>>,
        },
        decoded_wav(wav_file@) matches Some((f, s)) && !writable(f, s.len()) ==> r == Err::<
            Vec<u8>,
            WavError,
        >(WavError::UnsupportedCodec),
{
    let (format, samples) = match decode_wav(wav_file) {
        Ok(decoded) => decoded,
        Err(e) => return Err(wav_error_of(e)),
    };
    if format.kind != SampleKind::Int {
        return Err(WavError::UnsupportedCodec);
    }
    if format.channels == 0 || format.sample_rate == 0 || format.bits_per_sample == 0
        || format.bits_per_sample > 32 {
        return Err(WavError::UnsupportedCodec);
    }
    let width: u64 = (format.bits_per_sample as u64 + 7) / 8;
    assert(format.sample_rate * width * format.channels <= 0xffff_ffffu64 * 4 * 0xffff)
        by (nonlinear_arith)
        requires
            width <= 4,
            format.sample_rate <= 0xffff_ffffu64,
            format.channels <= 0xffff,
    ;
    assert(format.sample_rate * width <= 0xffff_ffffu64 * 4) by (nonlinear_arith)
        requires
            width <= 4,
            format.sample_rate <= 0xffff_ffffu64,
    ;
    let byte_rate: u64 = format.sample_rate as u64 * width * format.channels as u64;
    if byte_rate > 0xffff_ffff || samples.len() > (0xffff_ffff - 68) / 4 {
        return Err(WavError::UnsupportedCodec);
    }
    let normalized_samples = normalize_samples(&samples);
    match encode_wav(format, &normalized_samples) {
        Ok(bytes) => Ok(bytes),
        Err(e) => Err(wav_error_of(e)),
    }
}

/// A file whose samples already reach both bounds of `i16` normalizes to
/// the plain re-encoding of those same samples.
pub proof fn lemma_full_range_file_reencoded(b: Seq<u8>, f: PcmFormat, s: Seq<i16>)
    requires
        decoded_wav(b) == Some((f, s)),
        writable(f, s.len()),
        peak_high(s) == i16::MAX,
        peak_low(s) == i16::MIN,
    ensures
        normalized_wav(b) == encoded_wav(f.channels, f.sample_rate, f.bits_per_sample, s),
{
    lemma_full_range_is_fixed(s);
}

/// A silent file normalizes to the re-encoding of its silent samples.
pub proof fn lemma_silent_file_reencoded(b: Seq<u8>, f: PcmFormat, s: Seq<i16>)
    requires
        decoded_wav(b) == Some((f, s)),
        writable(f, s.len()),
        forall|i: int| 0 <= i < s.len() ==> s[i] == 0,
    ensures
        normalized_wav(b) == encoded_wav(f.channels, f.sample_rate, f.bits_per_sample, s),
{
    lemma_silence_is_kept(s);
}

} // verus!
