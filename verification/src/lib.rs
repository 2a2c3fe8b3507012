//! Speech-to-text for short clips: audio intake, a speech gate, the model catalog and
//! its on-disk cache, the single model slot, and the clean-up of transcripts.
//!
//! Samples are carried as 16-bit integers; a sample `v` stands for the amplitude
//! `v / 32768`, so the whole pipeline up to the inference engine is exact arithmetic.

pub mod audio;
pub mod cache;
pub mod config;
pub mod error;
pub mod gate;
pub mod osc;
pub mod pipeline;
pub mod registry;
pub mod store;
pub mod text;

pub use audio::{detect_audio_format, normalize, validate_audio_data, AudioBuffer};
pub use cache::{language_hint, ModelSlot};
pub use error::{AudioFault, TranscribeError};
pub use gate::has_speech;
pub use pipeline::{admit_model, prepare, ModelStep, Plan, TranscriptionRequest};
pub use registry::{resolve, ModelDescriptor};
pub use store::{is_complete, list_downloaded, ModelSnapshot};
pub use text::clean_transcript;
