//! The one operation that callers see, as far as it is a matter of decisions: what
//! to do with a clip, and what to do about a model that is not on disk. The caller
//! carries the decisions out: it looks at the disk, fetches, locks the slot and runs
//! the engine.

use crate::audio::{normalize, normalized, AudioBuffer};
use crate::cache::{decoding_options, hint_of, DecodingOptions};
use crate::error::TranscribeError;
use crate::gate::{has_speech, speech_present};
use crate::registry::{catalog_entry, resolve, ModelDescriptor};
use vstd::prelude::*;

verus! {

/// What to do with a clip.
#[derive(Debug)]
pub enum Plan {
    /// The clip holds no speech: the transcript is empty, and neither the store nor
    /// the engine is touched.
    Silent,
    /// Run the engine on `audio` with `model`, decoding as `options` say.
    Transcribe { audio: AudioBuffer, model: ModelDescriptor, options: DecodingOptions },
}

/// What the plan for a request has to be: the error of the first stage that fails,
/// the silent plan for a clip without speech, and otherwise the canonical samples,
/// the catalog entry of the model and the decoding options for the language.
pub open spec fn plan_for(
    audio_bytes: Seq<u8>,
    model_identifier: Seq<char>,
    language_code: Seq<char>,
    res: Result<Plan, TranscribeError>,
) -> bool {
    match normalized(audio_bytes) {
        Err(fault) => res matches Err(TranscribeError::InvalidAudio(f)) && f == fault,
        Ok(samples) => if !speech_present(samples) {
            res matches Ok(Plan::Silent)
        } else {
            match catalog_entry(model_identifier) {
                None => res matches Err(TranscribeError::UnknownModel { identifier })
                    && identifier@ == model_identifier,
                Some(entry) => res matches Ok(Plan::Transcribe { audio, model, options })
                    && audio@ == samples && model@ == entry && options.language@ == hint_of(
                    language_code,
                ) && options.greedy && !options.carry_context && options.suppress_blank
                    && !options.single_segment,
            }
        },
    }
}

/// Turns a request into a plan: the clip is normalized, then tested for speech, and
/// only for a clip with speech is the model looked up, before the store is touched.
pub fn prepare(audio_bytes: &[u8], model_identifier: &str, language_code: &str) -> (res: Result<
    Plan,
    TranscribeError,
>)
    ensures
        plan_for(audio_bytes@, model_identifier@, language_code@, res),
{
    let audio: AudioBuffer = match normalize(audio_bytes) {
        Ok(audio) => audio,
        Err(e) => {
            return Err(e);
        },
    };
    if !has_speech(&audio) {
        return Ok(Plan::Silent);
    }
    let model: ModelDescriptor = match resolve(model_identifier) {
        Ok(model) => model,
        Err(e) => {
            return Err(e);
        },
    };
    Ok(Plan::Transcribe { audio, model, options: decoding_options(language_code) })
}

/// One call: the clip, the model that is asked for, and the locale of the speaker.
/// It lives from the call to its return.
#[derive(Clone, Debug, PartialEq, Eq)]
pub struct TranscriptionRequest {
    pub audio_bytes: Vec<u8>,
    pub model_identifier: String,
    pub language_code: String,
}

impl TranscriptionRequest {
    /// The plan for this request.
    pub fn plan(&self) -> (res: Result<Plan, TranscribeError>)
        ensures
            plan_for(self.audio_bytes@, self.model_identifier@, self.language_code@, res),
    {
        prepare(
            self.audio_bytes.as_slice(),
            self.model_identifier.as_str(),
            self.language_code.as_str(),
        )
    }
}

/// What to do about the model before the engine runs.
#[derive(Clone, Copy, Debug, PartialEq, Eq)]
pub enum ModelStep {
    /// The copy on disk is complete: load or reuse it.
    Use,
    /// Fetch what is missing first.
    Download,
}

/// Decides what to do about a model whose copy on disk is `complete` or not, where
/// fetching on demand is switched on or off.
pub fn admit_model(descriptor: &ModelDescriptor, complete: bool, download_on_demand: bool) -> (res:
    Result<ModelStep, TranscribeError>)
    ensures
        complete ==> res == Ok::<ModelStep, TranscribeError>(ModelStep::Use),
        !complete && download_on_demand ==> res == Ok::<ModelStep, TranscribeError>(
            ModelStep::Download,
        ),
        !complete && !download_on_demand ==> (res matches Err(
            TranscribeError::DownloadRequired { identifier },
        ) && identifier@ == descriptor@.identifier),
{
    if complete {
        Ok(ModelStep::Use)
    } else if download_on_demand {
        Ok(ModelStep::Download)
    } else {
        Err(TranscribeError::DownloadRequired { identifier: descriptor.identifier.clone() })
    }
}

} // verus!
