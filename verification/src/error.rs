//! The failures that the transcription pipeline reports, and the text shown for each.

use vstd::prelude::*;
use vstd::string::*;

verus! {

/// Why a clip was refused before any sample was handed on.
#[derive(Clone, Copy, Debug, PartialEq, Eq)]
pub enum AudioFault {
    /// The clip holds no bytes.
    Empty,
    /// The clip is larger than the accepted maximum.
    TooLarge,
    /// Raw PCM with an odd number of bytes: the last sample is cut in half.
    OddLength,
    /// A RIFF container whose chunks cannot be found or read.
    MalformedHeader,
    /// A RIFF container that holds something other than 16-bit integer PCM.
    UnsupportedEncoding,
    /// Once resampled, the clip would hold more samples than this machine can
    /// count. That takes a machine whose sizes have fewer than 64 bits.
    TooLong,
}

impl AudioFault {
    /// The text of the fault, as a sequence of characters.
    pub open spec fn text(self) -> Seq<char> {
        match self {
            AudioFault::Empty => "Audio data is empty"@,
            AudioFault::TooLarge => "Audio data too large (>10MB)"@,
            AudioFault::OddLength => "Raw PCM data has an odd number of bytes"@,
            AudioFault::MalformedHeader => "WAV header is malformed"@,
            AudioFault::UnsupportedEncoding => "Only 16-bit PCM WAV audio is supported"@,
            AudioFault::TooLong => "Audio clip is too long"@,
        }
    }

    /// The fault as a message for the user.
    pub fn message(self) -> (s: String)
        ensures
            s@ == self.text(),
    {
        match self {
            AudioFault::Empty => String::from_str("Audio data is empty"),
            AudioFault::TooLarge => String::from_str("Audio data too large (>10MB)"),
            AudioFault::OddLength => String::from_str("Raw PCM data has an odd number of bytes"),
            AudioFault::MalformedHeader => String::from_str("WAV header is malformed"),
            AudioFault::UnsupportedEncoding => String::from_str(
                "Only 16-bit PCM WAV audio is supported",
            ),
            AudioFault::TooLong => String::from_str("Audio clip is too long"),
        }
    }
}

/// Every way in which a pipeline operation can fail. None of them ends the process.
#[derive(Clone, Debug, PartialEq, Eq)]
pub enum TranscribeError {
    /// The clip is empty, oversized or malformed; the user can correct it.
    InvalidAudio(AudioFault),
    /// The identifier names no model of the catalog.
    UnknownModel { identifier: String },
    /// The model's files are not complete on disk and downloading on demand is switched off.
    DownloadRequired { identifier: String },
    /// A required file could not be fetched or stored; the call may be repeated.
    DownloadFailed { file: String, cause: String },
    /// The local files could not be turned into an inference context.
    ModelLoadFailed { cause: String },
    /// The inference engine reported a failure of its own.
    InferenceFailed { cause: String },
    /// The lock around the model slot cannot be used any more.
    LockUnavailable,
}

impl TranscribeError {
    /// The text of the error, as a sequence of characters.
    pub open spec fn text(self) -> Seq<char> {
        match self {
            TranscribeError::InvalidAudio(fault) => fault.text(),
            TranscribeError::UnknownModel { identifier } => "Unknown model: "@ + identifier@,
            TranscribeError::DownloadRequired { identifier } => "Model "@ + identifier@
                + " is not downloaded. Please download the model first."@,
            TranscribeError::DownloadFailed { file, cause } => "Failed to download "@ + file@
                + ": "@ + cause@,
            TranscribeError::ModelLoadFailed { cause } => "Failed to load model: "@ + cause@,
            TranscribeError::InferenceFailed { cause } => "Inference failed: "@ + cause@,
            TranscribeError::LockUnavailable => "Model cache lock is unavailable"@,
        }
    }

    /// The error as a message for the user.
    pub fn message(&self) -> (s: String)
        ensures
            s@ == self.text(),
    {
        match self {
            TranscribeError::InvalidAudio(fault) => fault.message(),
            TranscribeError::UnknownModel { identifier } => String::from_str(
                "Unknown model: ",
            ).concat(identifier.as_str()),
            TranscribeError::DownloadRequired { identifier } => String::from_str("Model ").concat(
                identifier.as_str(),
            ).concat(" is not downloaded. Please download the model first."),
            TranscribeError::DownloadFailed { file, cause } => String::from_str(
                "Failed to download ",
            ).concat(file.as_str()).concat(": ").concat(cause.as_str()),
            TranscribeError::ModelLoadFailed { cause } => String::from_str(
                "Failed to load model: ",
            ).concat(cause.as_str()),
            TranscribeError::InferenceFailed { cause } => String::from_str(
                "Inference failed: ",
            ).concat(cause.as_str()),
            TranscribeError::LockUnavailable => String::from_str("Model cache lock is unavailable"),
        }
    }
}

} // verus!
