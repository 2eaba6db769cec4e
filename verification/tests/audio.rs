use sherpa_onnx_openai_server::audio::{
    encode_audio, format_name, pcm_to_wav, s16le_bytes, AudioEncoding, AudioError,
    SpeechResponseFormat, SpeechResponseFormatExt,
};
use sherpa_onnx_openai_server::tts::MockSynthesizer;

#[test]
fn pcm_is_little_endian_s16() {
    // -1.0, 0.0 and 1.0 quantize to -32767, 0 and 32767.
    assert_eq!(
        s16le_bytes(&[-32767, 0, 32767]),
        vec![0x01, 0x80, 0x00, 0x00, 0xff, 0x7f]
    );
}

#[test]
fn wav_has_expected_header() {
    // 0.0 and 0.5 quantize to 0 and 16384.
    let wav = pcm_to_wav(&[0, 16384], 24_000).unwrap();
    assert_eq!(&wav[0..4], b"RIFF");
    assert_eq!(&wav[8..12], b"WAVE");
    assert_eq!(&wav[12..16], b"fmt ");
    assert_eq!(&wav[36..40], b"data");
}

#[test]
fn wav_header_fields_hold_lengths_and_rate() {
    let wav = pcm_to_wav(&[0, 16384], 24_000).unwrap();
    assert_eq!(wav.len(), 48);
    assert_eq!(u32::from_le_bytes([wav[4], wav[5], wav[6], wav[7]]), 40);
    assert_eq!(u32::from_le_bytes([wav[16], wav[17], wav[18], wav[19]]), 16);
    assert_eq!(u16::from_le_bytes([wav[20], wav[21]]), 1);
    assert_eq!(u16::from_le_bytes([wav[22], wav[23]]), 1);
    assert_eq!(u32::from_le_bytes([wav[24], wav[25], wav[26], wav[27]]), 24_000);
    assert_eq!(u32::from_le_bytes([wav[28], wav[29], wav[30], wav[31]]), 48_000);
    assert_eq!(u16::from_le_bytes([wav[32], wav[33]]), 2);
    assert_eq!(u16::from_le_bytes([wav[34], wav[35]]), 16);
    assert_eq!(u32::from_le_bytes([wav[40], wav[41], wav[42], wav[43]]), 4);
    assert_eq!(&wav[44..48], &[0x00, 0x00, 0x00, 0x40]);
}

#[test]
fn pcm_bytes_read_back_as_the_samples() {
    let samples: [i16; 5] = [-32768, -1, 0, 1, 32767];
    let bytes = s16le_bytes(&samples);
    assert_eq!(bytes.len(), 10);
    for (i, s) in samples.iter().enumerate() {
        assert_eq!(i16::from_le_bytes([bytes[2 * i], bytes[2 * i + 1]]), *s);
    }
}

#[test]
fn wav_refuses_non_positive_sample_rate() {
    assert_eq!(pcm_to_wav(&[1, 2], 0), Err(AudioError::NonPositiveSampleRate));
    assert_eq!(pcm_to_wav(&[1, 2], -5), Err(AudioError::NonPositiveSampleRate));
}

#[test]
fn empty_wav_is_only_a_header() {
    let wav = pcm_to_wav(&[], 16_000).unwrap();
    assert_eq!(wav.len(), 44);
    assert_eq!(u32::from_le_bytes([wav[4], wav[5], wav[6], wav[7]]), 36);
    assert_eq!(u32::from_le_bytes([wav[40], wav[41], wav[42], wav[43]]), 0);
}

#[test]
fn content_types_and_support() {
    assert_eq!(SpeechResponseFormat::Wav.content_type(), "audio/wav");
    assert_eq!(SpeechResponseFormat::Pcm.content_type(), "audio/pcm");
    assert_eq!(SpeechResponseFormat::Mp3.content_type(), "audio/mpeg");
    assert_eq!(SpeechResponseFormat::Flac.content_type(), "audio/flac");
    assert_eq!(SpeechResponseFormat::Opus.content_type(), "audio/ogg");
    assert_eq!(SpeechResponseFormat::Aac.content_type(), "audio/aac");
    assert!(SpeechResponseFormat::Wav.is_supported_by_service());
    assert!(SpeechResponseFormat::Pcm.is_supported_by_service());
    assert!(SpeechResponseFormat::Mp3.is_supported_by_service());
    assert!(SpeechResponseFormat::Flac.is_supported_by_service());
    assert!(!SpeechResponseFormat::Opus.is_supported_by_service());
    assert!(!SpeechResponseFormat::Aac.is_supported_by_service());
}

#[test]
fn format_names() {
    assert_eq!(format_name(SpeechResponseFormat::Mp3), "mp3");
    assert_eq!(format_name(SpeechResponseFormat::Opus), "opus");
    assert_eq!(format_name(SpeechResponseFormat::Aac), "aac");
    assert_eq!(format_name(SpeechResponseFormat::Flac), "flac");
    assert_eq!(format_name(SpeechResponseFormat::Pcm), "pcm");
    assert_eq!(format_name(SpeechResponseFormat::Wav), "wav");
}

#[test]
fn encode_audio_per_format() {
    let samples = [0i16, 100, -100];
    match encode_audio(&samples, 24_000, SpeechResponseFormat::Pcm).unwrap() {
        AudioEncoding::Bytes(b) => assert_eq!(b, s16le_bytes(&samples)),
        AudioEncoding::Transcode { .. } => panic!("pcm needs no transcode"),
    }
    match encode_audio(&samples, 24_000, SpeechResponseFormat::Wav).unwrap() {
        AudioEncoding::Bytes(b) => assert_eq!(b, pcm_to_wav(&samples, 24_000).unwrap()),
        AudioEncoding::Transcode { .. } => panic!("wav needs no transcode"),
    }
    match encode_audio(&samples, 24_000, SpeechResponseFormat::Mp3).unwrap() {
        AudioEncoding::Transcode { wav, output_format } => {
            assert_eq!(wav, pcm_to_wav(&samples, 24_000).unwrap());
            assert_eq!(output_format, "mp3");
        }
        AudioEncoding::Bytes(_) => panic!("mp3 is transcoded"),
    }
    match encode_audio(&samples, 24_000, SpeechResponseFormat::Flac).unwrap() {
        AudioEncoding::Transcode { output_format, .. } => assert_eq!(output_format, "flac"),
        AudioEncoding::Bytes(_) => panic!("flac is transcoded"),
    }
}

#[test]
fn encode_audio_errors() {
    let samples = [0i16];
    let err = encode_audio(&samples, 24_000, SpeechResponseFormat::Opus).unwrap_err();
    assert_eq!(err, AudioError::UnsupportedFormat(SpeechResponseFormat::Opus));
    assert_eq!(err.message(), "unsupported response_format: opus");
    let err = encode_audio(&samples, 24_000, SpeechResponseFormat::Aac).unwrap_err();
    assert_eq!(err.message(), "unsupported response_format: aac");
    let err = encode_audio(&samples, 0, SpeechResponseFormat::Mp3).unwrap_err();
    assert_eq!(err, AudioError::NonPositiveSampleRate);
    assert_eq!(err.message(), "sample rate must be positive");
    assert!(encode_audio(&samples, 0, SpeechResponseFormat::Pcm).is_ok());
}

#[test]
fn mock_synthesizer_gives_a_tenth_of_a_second() {
    let mock = MockSynthesizer;
    assert_eq!(mock.sample_rate(), 24_000);
    assert_eq!(mock.sample_count(), 2_400);
}

#[test]
fn pcm_has_no_wav_size_limit_in_its_contract() {
    let samples = vec![7i16; 1000];
    match encode_audio(&samples, 0, SpeechResponseFormat::Pcm).unwrap() {
        AudioEncoding::Bytes(b) => assert_eq!(b.len(), 2000),
        AudioEncoding::Transcode { .. } => panic!("pcm needs no transcode"),
    }
}
