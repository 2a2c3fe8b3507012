use transcriber::error::TranscribeError;
use transcriber::registry::{catalog, resolve};

#[test]
fn catalog_lists_the_five_tiers_in_order() {
    let ids: Vec<String> = catalog().into_iter().map(|d| d.identifier).collect();
    assert_eq!(ids, vec!["tiny", "base", "small", "medium", "large"]);
}

#[test]
fn resolve_finds_each_tier() {
    let expected = [
        ("tiny", "openai/whisper-tiny"),
        ("base", "openai/whisper-base"),
        ("small", "openai/whisper-small"),
        ("medium", "openai/whisper-medium"),
        ("large", "openai/whisper-large-v3"),
    ];
    for (id, repository) in expected {
        let d = resolve(id).unwrap();
        assert_eq!(d.identifier, id);
        assert_eq!(d.remote_location, repository);
        assert_eq!(d.required_files, vec!["config.json", "model.safetensors", "tokenizer.json"]);
    }
}

#[test]
fn resolve_refuses_unknown_identifiers() {
    for id in ["", "huge", "Tiny", "tiny ", "large-v3", "../tiny"] {
        match resolve(id) {
            Err(TranscribeError::UnknownModel { identifier }) => assert_eq!(identifier, id),
            other => panic!("{:?}", other),
        }
    }
}

#[test]
fn unknown_model_message_names_the_identifier() {
    let e = resolve("huge").unwrap_err();
    assert_eq!(e.message(), "Unknown model: huge");
}
