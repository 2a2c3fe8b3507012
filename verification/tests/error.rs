use transcriber::error::{AudioFault, TranscribeError};

#[test]
fn audio_faults_have_their_texts() {
    assert_eq!(AudioFault::Empty.message(), "Audio data is empty");
    assert_eq!(AudioFault::TooLarge.message(), "Audio data too large (>10MB)");
    assert_eq!(AudioFault::OddLength.message(), "Raw PCM data has an odd number of bytes");
    assert_eq!(AudioFault::MalformedHeader.message(), "WAV header is malformed");
    assert_eq!(
        AudioFault::UnsupportedEncoding.message(),
        "Only 16-bit PCM WAV audio is supported"
    );
    assert_eq!(AudioFault::TooLong.message(), "Audio clip is too long");
}

#[test]
fn invalid_audio_is_surfaced_verbatim() {
    let e = TranscribeError::InvalidAudio(AudioFault::OddLength);
    assert_eq!(e.message(), AudioFault::OddLength.message());
}

#[test]
fn errors_name_what_they_are_about() {
    assert_eq!(
        TranscribeError::UnknownModel { identifier: "x".to_string() }.message(),
        "Unknown model: x"
    );
    assert_eq!(
        TranscribeError::DownloadRequired { identifier: "base".to_string() }.message(),
        "Model base is not downloaded. Please download the model first."
    );
    assert_eq!(
        TranscribeError::DownloadFailed {
            file: "config.json".to_string(),
            cause: "timed out".to_string()
        }
        .message(),
        "Failed to download config.json: timed out"
    );
    assert_eq!(
        TranscribeError::ModelLoadFailed { cause: "bad weights".to_string() }.message(),
        "Failed to load model: bad weights"
    );
    assert_eq!(
        TranscribeError::InferenceFailed { cause: "out of memory".to_string() }.message(),
        "Inference failed: out of memory"
    );
    assert_eq!(TranscribeError::LockUnavailable.message(), "Model cache lock is unavailable");
}
