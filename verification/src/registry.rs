//! The catalog of models: which identifiers exist, where each model's files are
//! published, and which files a complete copy consists of.

use crate::error::TranscribeError;
use vstd::prelude::*;
use vstd::string::*;

verus! {

/// Where a model's files are published and which files make it up.
#[derive(Clone, Debug, PartialEq, Eq)]
pub struct ModelDescriptor {
    /// Short name of the model tier.
    pub identifier: String,
    /// Repository on the file host that publishes the model.
    pub remote_location: String,
    /// Names of the files of a complete copy, in download order.
    pub required_files: Vec<String>,
}

/// A descriptor as plain values.
pub struct DescriptorView {
    pub identifier: Seq<char>,
    pub remote_location: Seq<char>,
    pub required_files: Seq<Seq<char>>,
}

impl View for ModelDescriptor {
    type V = DescriptorView;

    open spec fn view(&self) -> DescriptorView {
        DescriptorView {
            identifier: self.identifier@,
            remote_location: self.remote_location@,
            required_files: self.required_files.deep_view(),
        }
    }
}

/// The files that every model of the catalog consists of.
pub open spec fn standard_files() -> Seq<Seq<char>> {
    seq!["config.json"@, "model.safetensors"@, "tokenizer.json"@]
}

/// The catalog entry for `identifier`, published at `repository`.
pub open spec fn described(identifier: Seq<char>, repository: Seq<char>) -> DescriptorView {
    DescriptorView {
        identifier,
        remote_location: repository,
        required_files: standard_files(),
    }
}

/// The catalog, in the order in which it is searched.
pub open spec fn catalog_view() -> Seq<DescriptorView> {
    seq![
        described("tiny"@, "openai/whisper-tiny"@),
        described("base"@, "openai/whisper-base"@),
        described("small"@, "openai/whisper-small"@),
        described("medium"@, "openai/whisper-medium"@),
        described("large"@, "openai/whisper-large-v3"@),
    ]
}

/// The views of a run of descriptors.
pub open spec fn views(models: Seq<ModelDescriptor>) -> Seq<DescriptorView> {
    Seq::new(models.len(), |i: int| models[i]@)
}

/// The first entry at or after `from` that carries `identifier`.
pub open spec fn lookup(entries: Seq<DescriptorView>, from: int, identifier: Seq<char>) -> Option<
    DescriptorView,
>
    decreases entries.len() - from,
{
    if from < 0 || from >= entries.len() {
        None
    } else if entries[from].identifier == identifier {
        Some(entries[from])
    } else {
        lookup(entries, from + 1, identifier)
    }
}

/// The catalog entry that `identifier` names, if it names one.
pub open spec fn catalog_entry(identifier: Seq<char>) -> Option<DescriptorView> {
    lookup(catalog_view(), 0, identifier)
}

fn describe(identifier: &str, repository: &str) -> (d: ModelDescriptor)
    ensures
        d@ == described(identifier@, repository@),
{
    let mut required_files: Vec<String> = Vec::new();
    required_files.push(String::from_str("config.json"));
    required_files.push(String::from_str("model.safetensors"));
    required_files.push(String::from_str("tokenizer.json"));
    assert(required_files.deep_view() =~= standard_files());
    ModelDescriptor {
        identifier: String::from_str(identifier),
        remote_location: String::from_str(repository),
        required_files,
    }
}

/// Builds the catalog.
pub fn catalog() -> (models: Vec<ModelDescriptor>)
    ensures
        views(models@) == catalog_view(),
{
    let mut models: Vec<ModelDescriptor> = Vec::new();
    models.push(describe("tiny", "openai/whisper-tiny"));
    models.push(describe("base", "openai/whisper-base"));
    models.push(describe("small", "openai/whisper-small"));
    models.push(describe("medium", "openai/whisper-medium"));
    models.push(describe("large", "openai/whisper-large-v3"));
    assert(views(models@) =~= catalog_view());
    models
}

/// Looks an identifier up in the catalog.
pub fn resolve(identifier: &str) -> (res: Result<ModelDescriptor, TranscribeError>)
    ensures
        match catalog_entry(identifier@) {
            Some(entry) => res matches Ok(d) && d@ == entry,
            None => res matches Err(TranscribeError::UnknownModel { identifier: id }) && id@
                == identifier@,
        },
{
    let wanted: String = String::from_str(identifier);
    let mut models: Vec<ModelDescriptor> = catalog();
    let mut i: usize = 0;
    while i < models.len()
        invariant
            i <= models.len(),
            wanted@ == identifier@,
            views(models@) == catalog_view(),
            catalog_entry(identifier@) == lookup(catalog_view(), i as int, identifier@),
        decreases models.len() - i,
    {
        assert(views(models@)[i as int] == models@[i as int]@);
        if models[i].identifier == wanted {
            return Ok(models.swap_remove(i));
        }
        i += 1;
    }
    Err(TranscribeError::UnknownModel { identifier: wanted })
}

/// The catalog holds the five tiers and nothing else.
pub proof fn lemma_catalog_identifiers(identifier: Seq<char>)
    ensures
        catalog_entry(identifier) is Some <==> (identifier == "tiny"@ || identifier == "base"@
            || identifier == "small"@ || identifier == "medium"@ || identifier == "large"@),
        catalog_entry(identifier) matches Some(entry) ==> entry.identifier == identifier
            && entry.required_files == standard_files(),
{
    reveal_with_fuel(lookup, 6);
}

} // verus!
