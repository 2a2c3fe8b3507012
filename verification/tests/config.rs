use transcriber::config::{check_model_config, config_verdict};
use transcriber::error::TranscribeError;

#[test]
fn json_configuration_is_accepted() {
    assert_eq!(check_model_config("{\"model_type\": \"whisper\", \"d_model\": 384}"), Ok(()));
    assert_eq!(check_model_config(" [1, 2.5, null, true] "), Ok(()));
    assert_eq!(check_model_config("\"text\""), Ok(()));
}

#[test]
fn broken_configuration_fails_the_load() {
    for text in ["", "{", "{\"a\": }", "{} {}", "model_type = whisper", "{'a': 1}"] {
        match check_model_config(text) {
            Err(TranscribeError::ModelLoadFailed { cause }) => {
                assert!(cause.starts_with("Failed to parse config JSON: "), "{}", cause);
                assert!(cause.len() > "Failed to parse config JSON: ".len());
                assert!(cause.contains("line 1"), "{}", cause);
            }
            other => panic!("{:?} for {:?}", other, text),
        }
    }
}

#[test]
fn broken_configuration_message_is_the_parser_s() {
    let expected = serde_json::from_str::<serde_json::Value>("{").unwrap_err().to_string();
    assert_eq!(
        check_model_config("{"),
        Err(TranscribeError::ModelLoadFailed {
            cause: format!("Failed to parse config JSON: {}", expected)
        })
    );
}

#[test]
fn verdict_follows_the_fault() {
    assert_eq!(config_verdict(None), Ok(()));
    assert_eq!(
        config_verdict(Some("expected value at line 1 column 1".to_string())),
        Err(TranscribeError::ModelLoadFailed {
            cause: "Failed to parse config JSON: expected value at line 1 column 1".to_string()
        })
    );
}
