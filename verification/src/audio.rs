//! Response formats and audio byte encodings: 16-bit little-endian PCM, the WAV
//! container, and the choice of what each response format needs.
use vstd::prelude::*;
use vstd::string::*;

use crate::text::concat;

verus! {

/// An output format of the speech endpoint (OpenAI's `response_format`).
#[derive(Clone, Copy, Debug, PartialEq, Eq, Structural)]
pub enum SpeechResponseFormat {
    Mp3,
    Opus,
    Aac,
    Flac,
    Pcm,
    Wav,
}

/// HTTP-facing properties of a response format.
pub trait SpeechResponseFormatExt: Sized {
    /// The MIME type that a response in this format carries.
    spec fn spec_content_type(self) -> Seq<char>;

    /// Whether this service can produce the format.
    spec fn spec_is_supported_by_service(self) -> bool;

    fn content_type(self) -> (r: &'static str)
        ensures
            r@ == self.spec_content_type(),
    ;

    fn is_supported_by_service(self) -> (r: bool)
        ensures
            r == self.spec_is_supported_by_service(),
    ;
}

impl SpeechResponseFormatExt for SpeechResponseFormat {
    open spec fn spec_content_type(self) -> Seq<char> {
        match self {
            SpeechResponseFormat::Wav => "audio/wav"@,
            SpeechResponseFormat::Pcm => "audio/pcm"@,
            SpeechResponseFormat::Mp3 => "audio/mpeg"@,
            SpeechResponseFormat::Flac => "audio/flac"@,
            SpeechResponseFormat::Opus => "audio/ogg"@,
            SpeechResponseFormat::Aac => "audio/aac"@,
        }
    }

    open spec fn spec_is_supported_by_service(self) -> bool {
        match self {
            SpeechResponseFormat::Wav
            | SpeechResponseFormat::Pcm
            | SpeechResponseFormat::Mp3
            | SpeechResponseFormat::Flac => true,
            _ => false,
        }
    }

    fn content_type(self) -> (r: &'static str) {
        match self {
            SpeechResponseFormat::Wav => "audio/wav",
            SpeechResponseFormat::Pcm => "audio/pcm",
            SpeechResponseFormat::Mp3 => "audio/mpeg",
            SpeechResponseFormat::Flac => "audio/flac",
            SpeechResponseFormat::Opus => "audio/ogg",
            SpeechResponseFormat::Aac => "audio/aac",
        }
    }

    fn is_supported_by_service(self) -> (r: bool) {
        match self {
            SpeechResponseFormat::Wav
            | SpeechResponseFormat::Pcm
            | SpeechResponseFormat::Mp3
            | SpeechResponseFormat::Flac => true,
            _ => false,
        }
    }
}

/// The name of a format as it is written in a request.
pub open spec fn spec_format_name(format: SpeechResponseFormat) -> Seq<char> {
    match format {
        SpeechResponseFormat::Mp3 => "mp3"@,
        SpeechResponseFormat::Opus => "opus"@,
        SpeechResponseFormat::Aac => "aac"@,
        SpeechResponseFormat::Flac => "flac"@,
        SpeechResponseFormat::Pcm => "pcm"@,
        SpeechResponseFormat::Wav => "wav"@,
    }
}

/// The name of a format as it is written in a request (`"mp3"`, `"wav"`, ...).
pub fn format_name(format: SpeechResponseFormat) -> (r: &'static str)
    ensures
        r@ == spec_format_name(format),
{
    match format {
        SpeechResponseFormat::Mp3 => "mp3",
        SpeechResponseFormat::Opus => "opus",
        SpeechResponseFormat::Aac => "aac",
        SpeechResponseFormat::Flac => "flac",
        SpeechResponseFormat::Pcm => "pcm",
        SpeechResponseFormat::Wav => "wav",
    }
}

/// The unsigned 16-bit pattern of a sample (two's complement).
pub open spec fn u16_pattern(v: i16) -> int {
    if v < 0 {
        v + 0x1_0000
    } else {
        v as int
    }
}

/// The two little-endian bytes of a signed 16-bit sample.
pub open spec fn s16le(v: i16) -> Seq<u8> {
    seq![(u16_pattern(v) % 256) as u8, (u16_pattern(v) / 256) as u8]
}

/// The sample that two little-endian bytes hold.
pub open spec fn s16_from_le(lo: u8, hi: u8) -> int {
    let u = lo + 256 * hi;
    if u >= 0x8000 {
        u - 0x1_0000
    } else {
        u
    }
}

/// Signed 16-bit samples laid out as little-endian PCM, two bytes per sample.
pub open spec fn pcm_bytes(samples: Seq<i16>) -> Seq<u8> {
    Seq::new(
        2 * samples.len(),
        |i: int|
            if i % 2 == 0 {
                (u16_pattern(samples[i / 2]) % 256) as u8
            } else {
                (u16_pattern(samples[i / 2]) / 256) as u8
            },
    )
}

/// The four little-endian bytes of an unsigned 32-bit value.
pub open spec fn le32(v: nat) -> Seq<u8> {
    seq![(v % 256) as u8, (v / 256 % 256) as u8, (v / 65536 % 256) as u8, (v / 16777216 % 256) as u8]
}

/// The two little-endian bytes of an unsigned 16-bit value.
pub open spec fn le16(v: nat) -> Seq<u8> {
    seq![(v % 256) as u8, (v / 256 % 256) as u8]
}

/// The number a little-endian 32-bit field holds.
pub open spec fn read_le32(b: Seq<u8>, at: int) -> int {
    b[at] + 256 * b[at + 1] + 65536 * b[at + 2] + 16777216 * b[at + 3]
}

/// ASCII `RIFF`.
pub open spec fn riff_tag() -> Seq<u8> {
    seq![0x52u8, 0x49, 0x46, 0x46]
}

/// ASCII `WAVE`.
pub open spec fn wave_tag() -> Seq<u8> {
    seq![0x57u8, 0x41, 0x56, 0x45]
}

/// ASCII `fmt ` (with the trailing space).
pub open spec fn fmt_tag() -> Seq<u8> {
    seq![0x66u8, 0x6d, 0x74, 0x20]
}

/// ASCII `data`.
pub open spec fn data_tag() -> Seq<u8> {
    seq![0x64u8, 0x61, 0x74, 0x61]
}

/// The 44-byte header of a mono 16-bit PCM WAV file holding `data_len` bytes of samples
/// at `rate` samples per second.
pub open spec fn wav_header(data_len: nat, rate: nat) -> Seq<u8> {
    riff_tag() + le32(36 + data_len) + wave_tag() + fmt_tag() + le32(16) + le16(1) + le16(1)
        + le32(rate) + le32(rate * 2) + le16(2) + le16(16) + data_tag() + le32(data_len)
}

/// A mono 16-bit WAV file of `samples` at `rate` samples per second.
pub open spec fn wav_bytes(samples: Seq<i16>, rate: nat) -> Seq<u8> {
    wav_header(2 * samples.len(), rate) + pcm_bytes(samples)
}

/// Why audio could not be encoded.
#[derive(Clone, Copy, Debug, PartialEq, Eq, Structural)]
pub enum AudioError {
    /// A WAV file needs a positive sample rate.
    NonPositiveSampleRate,
    /// The service does not produce this format.
    UnsupportedFormat(SpeechResponseFormat),
}

impl AudioError {
    pub open spec fn spec_message(self) -> Seq<char> {
        match self {
            AudioError::NonPositiveSampleRate => "sample rate must be positive"@,
            AudioError::UnsupportedFormat(f) => "unsupported response_format: "@ + spec_format_name(f),
        }
    }

    /// The text of the error, as the service reports it.
    pub fn message(&self) -> (r: String)
        ensures
            r@ == self.spec_message(),
    {
        match self {
            AudioError::NonPositiveSampleRate => crate::text::owned("sample rate must be positive"),
            AudioError::UnsupportedFormat(f) => concat("unsupported response_format: ", format_name(*f)),
        }
    }
}

/// What a response in a given format needs, once samples are known.
#[derive(Clone, Debug)]
pub enum AudioEncoding {
    /// The response body itself.
    Bytes(Vec<u8>),
    /// A WAV file to be transcoded (by `ffmpeg`) into `output_format`.
    Transcode { wav: Vec<u8>, output_format: String },
}

/// The encoding of `samples` at `rate` that a response in `format` needs.
pub open spec fn spec_encode_audio(samples: Seq<i16>, rate: int, format: SpeechResponseFormat) -> Result<
    (Seq<u8>, Option<Seq<char>>),
    AudioError,
> {
    match format {
        SpeechResponseFormat::Wav => if rate <= 0 {
            Err(AudioError::NonPositiveSampleRate)
        } else {
            Ok((wav_bytes(samples, rate as nat), None))
        },
        SpeechResponseFormat::Pcm => Ok((pcm_bytes(samples), None)),
        SpeechResponseFormat::Mp3 | SpeechResponseFormat::Flac => if rate <= 0 {
            Err(AudioError::NonPositiveSampleRate)
        } else {
            Ok((wav_bytes(samples, rate as nat), Some(spec_format_name(format))))
        },
        _ => Err(AudioError::UnsupportedFormat(format)),
    }
}

impl AudioEncoding {
    /// The bytes carried and, for a transcode, the target format.
    pub open spec fn spec_parts(self) -> (Seq<u8>, Option<Seq<char>>) {
        match self {
            AudioEncoding::Bytes(b) => (b@, None),
            AudioEncoding::Transcode { wav, output_format } => (wav@, Some(output_format@)),
        }
    }
}

/// Signed 16-bit samples as little-endian PCM bytes.
pub fn s16le_bytes(samples: &[i16]) -> (r: Vec<u8>)
    requires
        samples@.len() * 2 <= usize::MAX,
    ensures
        r@ == pcm_bytes(samples@),
{
    let mut bytes: Vec<u8> = Vec::new();
    let n = samples.len();
    let mut i: usize = 0;
    while i < n
        invariant
            n == samples@.len(),
            n * 2 <= usize::MAX,
            i <= n,
            bytes@ =~= pcm_bytes(samples@.take(i as int)),
        decreases n - i,
    {
        let v = samples[i];
        let u: u32 = if v < 0 { (v as i32 + 0x1_0000) as u32 } else { v as u32 };
        let lo = (u % 256) as u8;
        let hi = (u / 256) as u8;
        bytes.push(lo);
        bytes.push(hi);
        proof {
            let t = samples@.take(i + 1);
            assert(t[i as int] == v);
            assert forall|j: int| 0 <= j < 2 * (i + 1) implies #[trigger] bytes@[j] == pcm_bytes(
                t,
            )[j] by {
                if j < 2 * i {
                    assert(t[j / 2] == samples@.take(i as int)[j / 2]);
                }
            }
        }
        i = i + 1;
    }
    proof {
        assert(samples@.take(n as int) =~= samples@);
    }
    bytes
}

fn push_le32(out: &mut Vec<u8>, v: u32)
    ensures
        final(out)@ == old(out)@ + le32(v as nat),
{
    out.push((v % 256) as u8);
    out.push((v / 256 % 256) as u8);
    out.push((v / 65536 % 256) as u8);
    out.push((v / 16777216 % 256) as u8);
    proof {
        assert(final(out)@ =~= old(out)@ + le32(v as nat));
    }
}

fn push_le16(out: &mut Vec<u8>, v: u16)
    ensures
        final(out)@ == old(out)@ + le16(v as nat),
{
    out.push((v % 256) as u8);
    out.push((v / 256 % 256) as u8);
    proof {
        assert(final(out)@ =~= old(out)@ + le16(v as nat));
    }
}

fn push_tag(out: &mut Vec<u8>, a: u8, b: u8, c: u8, d: u8)
    ensures
        final(out)@ == old(out)@ + seq![a, b, c, d],
{
    out.push(a);
    out.push(b);
    out.push(c);
    out.push(d);
    proof {
        assert(final(out)@ =~= old(out)@ + seq![a, b, c, d]);
    }
}

/// A mono 16-bit WAV file of `samples` at `sample_rate`; refused when the rate is not positive.
pub fn pcm_to_wav(samples: &[i16], sample_rate: i32) -> (r: Result<Vec<u8>, AudioError>)
    requires
        samples@.len() * 2 + 36 <= u32::MAX,
    ensures
        sample_rate <= 0 <==> r is Err,
        r matches Err(e) ==> e == AudioError::NonPositiveSampleRate,
        r matches Ok(b) ==> b@ == wav_bytes(samples@, sample_rate as nat),
{
    if sample_rate <= 0 {
        return Err(AudioError::NonPositiveSampleRate);
    }
    let pcm = s16le_bytes(samples);
    let data_len = pcm.len() as u32;
    let rate = sample_rate as u32;
    let mut wav: Vec<u8> = Vec::new();
    push_tag(&mut wav, 0x52, 0x49, 0x46, 0x46);
    push_le32(&mut wav, 36 + data_len);
    push_tag(&mut wav, 0x57, 0x41, 0x56, 0x45);
    push_tag(&mut wav, 0x66, 0x6d, 0x74, 0x20);
    push_le32(&mut wav, 16);
    push_le16(&mut wav, 1);
    push_le16(&mut wav, 1);
    push_le32(&mut wav, rate);
    push_le32(&mut wav, rate * 2);
    push_le16(&mut wav, 2);
    push_le16(&mut wav, 16);
    push_tag(&mut wav, 0x64, 0x61, 0x74, 0x61);
    push_le32(&mut wav, data_len);
    let mut i: usize = 0;
    let ghost header = wav@;
    proof {
        assert(header =~= wav_header(2 * samples@.len(), sample_rate as nat));
    }
    while i < pcm.len()
        invariant
            i <= pcm@.len(),
            wav@ =~= header + pcm@.take(i as int),
        decreases pcm@.len() - i,
    {
        wav.push(pcm[i]);
        proof {
            assert(pcm@.take(i + 1) =~= pcm@.take(i as int).push(pcm@[i as int]));
        }
        i = i + 1;
    }
    proof {
        assert(pcm@.take(pcm@.len() as int) =~= pcm@);
    }
    Ok(wav)
}

/// What a response in `format` needs for `samples` at `sample_rate`: the PCM or WAV bytes
/// themselves, a WAV file to transcode to MP3 or FLAC, or an error for formats the service
/// does not produce and for a non-positive rate where a WAV file is needed. Only the
/// formats built on a WAV file need the sample count to fit its 32-bit size fields.
pub fn encode_audio(samples: &[i16], sample_rate: i32, format: SpeechResponseFormat) -> (r: Result<
    AudioEncoding,
    AudioError,
>)
    requires
        samples@.len() * 2 <= usize::MAX,
        format == SpeechResponseFormat::Wav || format == SpeechResponseFormat::Mp3 || format
            == SpeechResponseFormat::Flac ==> samples@.len() * 2 + 36 <= u32::MAX,
    ensures
        match spec_encode_audio(samples@, sample_rate as int, format) {
            Ok(parts) => r matches Ok(enc) && enc.spec_parts() == parts,
            Err(e) => r == Err::<AudioEncoding, AudioError>(e),
        },
{
    match format {
        SpeechResponseFormat::Wav => match pcm_to_wav(samples, sample_rate) {
            Ok(wav) => Ok(AudioEncoding::Bytes(wav)),
            Err(e) => Err(e),
        },
        SpeechResponseFormat::Pcm => Ok(AudioEncoding::Bytes(s16le_bytes(samples))),
        SpeechResponseFormat::Mp3 | SpeechResponseFormat::Flac => match pcm_to_wav(
            samples,
            sample_rate,
        ) {
            Ok(wav) => Ok(
                AudioEncoding::Transcode {
                    wav,
                    output_format: crate::text::owned(format_name(format)),
                },
            ),
            Err(e) => Err(e),
        },
        _ => Err(AudioError::UnsupportedFormat(format)),
    }
}

/// Every sample reads back from its two little-endian bytes.
pub proof fn lemma_pcm_roundtrip(samples: Seq<i16>, i: int)
    requires
        0 <= i < samples.len(),
    ensures
        pcm_bytes(samples).len() == 2 * samples.len(),
        s16_from_le(pcm_bytes(samples)[2 * i], pcm_bytes(samples)[2 * i + 1]) == samples[i],
{
    let b = pcm_bytes(samples);
    assert((2 * i) / 2 == i);
    assert((2 * i + 1) / 2 == i);
    assert((2 * i) % 2 == 0);
    assert((2 * i + 1) % 2 == 1);
    let u = u16_pattern(samples[i]);
    assert(b[2 * i] == (u % 256) as u8);
    assert(b[2 * i + 1] == (u / 256) as u8);
}

/// A WAV file is its 44-byte header followed by the PCM bytes, and the header's fields give
/// back the data length, the sample rate and the RIFF chunk size.
#[verifier::rlimit(50)]
#[verifier::spinoff_prover]
pub proof fn lemma_wav_layout(samples: Seq<i16>, rate: nat)
    requires
        samples.len() * 2 + 36 <= u32::MAX,
        0 < rate <= i32::MAX,
    ensures
        wav_bytes(samples, rate).len() == 44 + 2 * samples.len(),
        wav_bytes(samples, rate).subrange(0, 4) == riff_tag(),
        wav_bytes(samples, rate).subrange(8, 12) == wave_tag(),
        wav_bytes(samples, rate).subrange(12, 16) == fmt_tag(),
        wav_bytes(samples, rate).subrange(36, 40) == data_tag(),
        read_le32(wav_bytes(samples, rate), 4) == 36 + 2 * samples.len(),
        read_le32(wav_bytes(samples, rate), 24) == rate,
        read_le32(wav_bytes(samples, rate), 40) == 2 * samples.len(),
        wav_bytes(samples, rate).subrange(44, 44 + 2 * samples.len() as int) == pcm_bytes(samples),
{
    let w = wav_bytes(samples, rate);
    let n: nat = 2 * samples.len();
    lemma_le32_roundtrip(36 + n);
    lemma_le32_roundtrip(rate);
    lemma_le32_roundtrip(n);
    assert(w.subrange(0, 4) =~= riff_tag());
    assert(w.subrange(8, 12) =~= wave_tag());
    assert(w.subrange(12, 16) =~= fmt_tag());
    assert(w.subrange(36, 40) =~= data_tag());
    assert(w.subrange(44, 44 + n as int) =~= pcm_bytes(samples));
    assert(w[4] == le32(36 + n)[0] && w[5] == le32(36 + n)[1] && w[6] == le32(36 + n)[2] && w[7]
        == le32(36 + n)[3]);
    assert(w[24] == le32(rate)[0] && w[25] == le32(rate)[1] && w[26] == le32(rate)[2] && w[27]
        == le32(rate)[3]);
    assert(w[40] == le32(n)[0] && w[41] == le32(n)[1] && w[42] == le32(n)[2] && w[43] == le32(
        n,
    )[3]);
}

/// The number a little-endian 16-bit field holds.
pub open spec fn read_le16(b: Seq<u8>, at: int) -> int {
    b[at] + 256 * b[at + 1]
}

/// The format chunk of every WAV file written here describes mono 16-bit PCM at the given
/// rate: a 16-byte chunk, audio format 1 (PCM), one channel, the rate, a byte rate of two
/// bytes per sample, a block of 2 bytes and 16 bits per sample.
pub proof fn lemma_wav_format_is_mono_16_bit_pcm(samples: Seq<i16>, rate: nat)
    requires
        samples.len() * 2 + 36 <= u32::MAX,
        0 < rate <= i32::MAX,
    ensures
        read_le32(wav_bytes(samples, rate), 16) == 16,
        read_le16(wav_bytes(samples, rate), 20) == 1,
        read_le16(wav_bytes(samples, rate), 22) == 1,
        read_le32(wav_bytes(samples, rate), 24) == rate,
        read_le32(wav_bytes(samples, rate), 28) == 2 * rate,
        read_le16(wav_bytes(samples, rate), 32) == 2,
        read_le16(wav_bytes(samples, rate), 34) == 16,
{
    let w = wav_bytes(samples, rate);
    lemma_le32_roundtrip(16);
    lemma_le32_roundtrip(rate);
    lemma_le32_roundtrip(rate * 2);
    assert(w[16] == le32(16)[0] && w[17] == le32(16)[1] && w[18] == le32(16)[2] && w[19] == le32(
        16,
    )[3]);
    assert(w[20] == le16(1)[0] && w[21] == le16(1)[1]);
    assert(w[22] == le16(1)[0] && w[23] == le16(1)[1]);
    assert(w[24] == le32(rate)[0] && w[25] == le32(rate)[1] && w[26] == le32(rate)[2] && w[27]
        == le32(rate)[3]);
    assert(w[28] == le32(rate * 2)[0] && w[29] == le32(rate * 2)[1] && w[30] == le32(rate * 2)[2]
        && w[31] == le32(rate * 2)[3]);
    assert(w[32] == le16(2)[0] && w[33] == le16(2)[1]);
    assert(w[34] == le16(16)[0] && w[35] == le16(16)[1]);
}

/// MP3 and FLAC are made by transcoding the very WAV file that a WAV response carries:
/// for a positive rate both succeed, hand over the same bytes as the WAV response (a RIFF
/// file whose data is the PCM of the samples), and name their own format.
pub proof fn lemma_transcodes_start_from_the_wav_response(samples: Seq<i16>, rate: int)
    requires
        samples.len() * 2 + 36 <= u32::MAX,
        0 < rate <= i32::MAX,
    ensures
        spec_encode_audio(samples, rate, SpeechResponseFormat::Wav) is Ok,
        spec_encode_audio(samples, rate, SpeechResponseFormat::Mp3) is Ok,
        spec_encode_audio(samples, rate, SpeechResponseFormat::Flac) is Ok,
        ({
            let wav = spec_encode_audio(samples, rate, SpeechResponseFormat::Wav)->Ok_0;
            let mp3 = spec_encode_audio(samples, rate, SpeechResponseFormat::Mp3)->Ok_0;
            let flac = spec_encode_audio(samples, rate, SpeechResponseFormat::Flac)->Ok_0;
            &&& wav.1 is None
            &&& mp3.0 == wav.0
            &&& flac.0 == wav.0
            &&& mp3.1 == Some("mp3"@)
            &&& flac.1 == Some("flac"@)
            &&& wav.0.len() == 44 + 2 * samples.len()
            &&& wav.0.subrange(0, 4) == riff_tag()
            &&& wav.0.subrange(8, 12) == wave_tag()
            &&& wav.0.subrange(44, wav.0.len() as int) == pcm_bytes(samples)
        }),
{
    lemma_wav_layout(samples, rate as nat);
}

/// A PCM response carries two bytes per sample, from which every sample reads back, at any
/// rate; Opus and AAC are always refused.
pub proof fn lemma_pcm_response_holds_the_samples(samples: Seq<i16>, rate: int, i: int)
    requires
        0 <= i < samples.len(),
    ensures
        spec_encode_audio(samples, rate, SpeechResponseFormat::Pcm) is Ok,
        ({
            let pcm = spec_encode_audio(samples, rate, SpeechResponseFormat::Pcm)->Ok_0;
            &&& pcm.1 is None
            &&& pcm.0.len() == 2 * samples.len()
            &&& s16_from_le(pcm.0[2 * i], pcm.0[2 * i + 1]) == samples[i]
        }),
        spec_encode_audio(samples, rate, SpeechResponseFormat::Opus) == Err::<
            (Seq<u8>, Option<Seq<char>>),
            AudioError,
        >(AudioError::UnsupportedFormat(SpeechResponseFormat::Opus)),
        spec_encode_audio(samples, rate, SpeechResponseFormat::Aac) == Err::<
            (Seq<u8>, Option<Seq<char>>),
            AudioError,
        >(AudioError::UnsupportedFormat(SpeechResponseFormat::Aac)),
{
    lemma_pcm_roundtrip(samples, i);
}

proof fn lemma_le32_roundtrip(v: nat)
    requires
        v <= u32::MAX,
    ensures
        le32(v)[0] + 256 * le32(v)[1] + 65536 * le32(v)[2] + 16777216 * le32(v)[3] == v,
{
    let b = le32(v);
    assert(b[0] == v % 256);
    assert(b[1] == v / 256 % 256);
    assert(b[2] == v / 65536 % 256);
    assert(b[3] == v / 16777216 % 256);
    assert(v % 256 + 256 * (v / 256 % 256) + 65536 * (v / 65536 % 256) + 16777216 * (v / 16777216
        % 256) == v) by (nonlinear_arith)
        requires
            v <= u32::MAX,
    ;
}

} // verus!
