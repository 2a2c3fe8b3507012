use transcriber::error::{AudioFault, TranscribeError};
use transcriber::pipeline::{admit_model, prepare, ModelStep, Plan, TranscriptionRequest};
use transcriber::registry::resolve;

fn speech_clip() -> Vec<u8> {
    // one second of raw PCM at 16 kHz: loud and silent tenths in turn
    let mut bytes: Vec<u8> = Vec::new();
    for i in 0..16_000usize {
        let loud = (i / 1_600) % 2 == 0;
        let v: i16 = if !loud {
            0
        } else if i % 2 == 0 {
            12_000
        } else {
            -12_000
        };
        bytes.extend_from_slice(&v.to_le_bytes());
    }
    bytes
}

#[test]
fn silent_second_gives_the_empty_plan() {
    let zeros = vec![0u8; 32_000];
    assert!(matches!(prepare(&zeros, "tiny", "en"), Ok(Plan::Silent)));
}

#[test]
fn silent_clip_skips_the_model_lookup() {
    let zeros = vec![0u8; 32_000];
    assert!(matches!(prepare(&zeros, "no-such-model", "en"), Ok(Plan::Silent)));
}

#[test]
fn clip_with_speech_is_planned_for_the_engine() {
    match prepare(&speech_clip(), "base", "de-AT") {
        Ok(Plan::Transcribe { audio, model, options }) => {
            assert_eq!(audio.len(), 16_000);
            assert_eq!(audio.samples()[0], 12_000);
            assert_eq!(audio.samples()[1], -12_000);
            assert_eq!(model.identifier, "base");
            assert_eq!(model.remote_location, "openai/whisper-base");
            assert_eq!(options.language, "de");
            assert!(options.greedy);
        }
        _ => panic!("expected a plan for the engine"),
    }
}

#[test]
fn unknown_model_is_refused_for_a_clip_with_speech() {
    match prepare(&speech_clip(), "huge", "en") {
        Err(TranscribeError::UnknownModel { identifier }) => assert_eq!(identifier, "huge"),
        _ => panic!("expected an unknown model"),
    }
}

#[test]
fn audio_errors_come_first() {
    match prepare(&[], "huge", "en") {
        Err(e) => assert_eq!(e, TranscribeError::InvalidAudio(AudioFault::Empty)),
        _ => panic!("expected an audio error"),
    }
    match prepare(&[1, 2, 3], "tiny", "en") {
        Err(e) => assert_eq!(e, TranscribeError::InvalidAudio(AudioFault::OddLength)),
        _ => panic!("expected an audio error"),
    }
}

#[test]
fn model_that_is_not_downloaded_asks_for_a_download() {
    let tiny = resolve("tiny").unwrap();
    let e = admit_model(&tiny, false, false).unwrap_err();
    assert_eq!(e, TranscribeError::DownloadRequired { identifier: "tiny".to_string() });
    assert_eq!(e.message(), "Model tiny is not downloaded. Please download the model first.");
}

#[test]
fn model_that_is_not_downloaded_is_fetched_on_demand() {
    let tiny = resolve("tiny").unwrap();
    assert_eq!(admit_model(&tiny, false, true), Ok(ModelStep::Download));
}

#[test]
fn downloaded_model_is_used() {
    let tiny = resolve("tiny").unwrap();
    assert_eq!(admit_model(&tiny, true, false), Ok(ModelStep::Use));
    assert_eq!(admit_model(&tiny, true, true), Ok(ModelStep::Use));
}

#[test]
fn request_is_planned_like_its_parts() {
    let request = TranscriptionRequest {
        audio_bytes: speech_clip(),
        model_identifier: "small".to_string(),
        language_code: "ja-JP".to_string(),
    };
    match request.plan() {
        Ok(Plan::Transcribe { audio, model, options }) => {
            assert_eq!(audio.len(), 16_000);
            assert_eq!(model.identifier, "small");
            assert_eq!(options.language, "ja");
        }
        _ => panic!("expected a plan for the engine"),
    }
    let silent = TranscriptionRequest {
        audio_bytes: vec![0u8; 32_000],
        model_identifier: "small".to_string(),
        language_code: "ja-JP".to_string(),
    };
    assert!(matches!(silent.plan(), Ok(Plan::Silent)));
}
