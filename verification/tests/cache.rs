use transcriber::cache::{decoding_options, language_hint, ModelSlot};

#[test]
fn empty_slot_needs_a_load() {
    let slot: ModelSlot<u32> = ModelSlot::empty();
    assert!(slot.needs_load("base"));
    assert!(slot.context().is_none());
}

#[test]
fn base_then_small_reloads_exactly_once() {
    let mut slot: ModelSlot<&'static str> = ModelSlot::empty();
    let mut loads = 0;
    for requested in ["base", "small", "small", "small"] {
        if slot.needs_load(requested) {
            loads += 1;
            slot.install(requested.to_string(), requested);
        }
        assert_eq!(slot.context(), Some(&requested));
    }
    // one load for "base", one reload for the first "small", none after that
    assert_eq!(loads, 2);
}

#[test]
fn same_model_is_never_loaded_twice_in_a_row() {
    let mut slot: ModelSlot<usize> = ModelSlot::empty();
    let requests = ["tiny", "tiny", "base", "base", "tiny", "tiny", "tiny"];
    let mut loaded: Vec<&str> = Vec::new();
    for (n, requested) in requests.iter().enumerate() {
        if slot.needs_load(requested) {
            loaded.push(requested);
            slot.install(requested.to_string(), n);
        }
    }
    assert_eq!(loaded, vec!["tiny", "base", "tiny"]);
}

#[test]
fn failed_load_before_the_files_were_opened_keeps_the_slot() {
    let mut slot: ModelSlot<u8> = ModelSlot::empty();
    slot.install("base".to_string(), 7);
    slot.load_failed(false);
    assert!(!slot.needs_load("base"));
    assert_eq!(slot.context(), Some(&7));
}

#[test]
fn failed_load_after_the_files_were_opened_empties_the_slot() {
    let mut slot: ModelSlot<u8> = ModelSlot::empty();
    slot.install("base".to_string(), 7);
    slot.load_failed(true);
    assert!(slot.needs_load("base"));
    assert!(slot.context().is_none());
}

#[test]
fn locale_tags_are_cut_to_two_letters() {
    assert_eq!(language_hint("en-US"), "en");
    assert_eq!(language_hint("ja"), "ja");
    assert_eq!(language_hint("pt_BR"), "pt");
    assert_eq!(language_hint("deu"), "de");
}

#[test]
fn short_or_odd_tags_fall_back_to_english() {
    for tag in ["", "e", "E", "EN", "En-us", "1a", "-fr", "日本", "é!", "z{"] {
        assert_eq!(language_hint(tag), "en", "{:?}", tag);
    }
    assert_eq!(language_hint("az"), "az");
    assert_eq!(language_hint("za"), "za");
}

#[test]
fn decoding_is_greedy_and_carries_nothing_over() {
    let options = decoding_options("fr-CA");
    assert_eq!(options.language, "fr");
    assert!(options.greedy);
    assert!(!options.carry_context);
    assert!(options.suppress_blank);
    assert!(!options.single_segment);
}
