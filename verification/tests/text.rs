use transcriber::text::{clean_text, clean_transcript, strip, trim};

#[test]
fn blank_marker_and_ellipsis_are_removed() {
    assert_eq!(clean_text("Hello [BLANK_AUDIO] world..."), "Hello  world");
}

#[test]
fn each_marker_is_removed() {
    for marker in
        ["[BLANK_AUDIO]", "(BLANK_AUDIO)", "[MUSIC]", "[NOISE]", "(music)", "(inaudible)", "..."]
    {
        let raw = format!("a{}b{}c", marker, marker);
        assert_eq!(clean_text(&raw), "abc", "{}", marker);
    }
}

#[test]
fn other_bracketed_words_stay() {
    assert_eq!(clean_text("[music] (MUSIC) [blank_audio] .."), "[music] (MUSIC) [blank_audio] ..");
}

#[test]
fn text_is_trimmed_before_and_after() {
    assert_eq!(clean_text("  \t hi there \n"), "hi there");
    assert_eq!(clean_text(" [MUSIC] "), "");
    assert_eq!(clean_text("[NOISE] so [NOISE]"), "so");
    assert_eq!(clean_text(""), "");
    assert_eq!(clean_text(" \u{3000}\u{a0} "), "");
}

#[test]
fn markers_are_removed_one_kind_after_the_other() {
    // removing the first kind can bring a later kind together, not an earlier one
    assert_eq!(clean_text("a.[MUSIC]..b"), "ab");
    assert_eq!(clean_text("[MU...SIC]"), "[MUSIC]");
    assert_eq!(clean_text("....."), "..");
}

#[test]
fn strip_removes_from_left_to_right() {
    assert_eq!(strip("aaaa", "aa"), "");
    assert_eq!(strip("aaa", "aa"), "a");
    assert_eq!(strip("abababa", "aba"), "b");
    assert_eq!(strip("xyz", ""), "xyz");
    assert_eq!(strip("xy", "xyz"), "xy");
    assert_eq!(strip("été...", "..."), "été");
    assert_eq!(strip("日本語...テキスト", "..."), "日本語テキスト");
}

#[test]
fn trim_knows_unicode_white_space() {
    assert_eq!(trim("\u{2003}a b\u{2028}\u{85}"), "a b");
    assert_eq!(trim("\u{200b}a"), "\u{200b}a");
    assert_eq!(trim("a"), "a");
    assert_eq!(trim("   "), "");
    for c in (0u32..0x3100).filter_map(char::from_u32) {
        let s = format!("{}x{}", c, c);
        assert_eq!(trim(&s), s.trim(), "U+{:04X}", c as u32);
    }
}

#[test]
fn segments_are_joined_without_separator() {
    let segments = vec![" Hello".to_string(), " world".to_string(), "... [MUSIC]".to_string()];
    assert_eq!(clean_transcript(&segments), "Hello world");
    assert_eq!(clean_transcript(&Vec::new()), "");
    // a marker that only comes together at a seam is removed as well
    let seam = vec!["[BLANK_".to_string(), "AUDIO] hi".to_string()];
    assert_eq!(clean_transcript(&seam), "hi");
}

#[test]
fn strip_agrees_with_the_standard_replace() {
    let texts = ["", ".", "...", "a...b....c.....", "((music))", "(mus(music)ic)", "x[NOISE][NOISE]y"];
    let patterns = ["...", "(music)", "[NOISE]", "a", ".."];
    for t in texts {
        for p in patterns {
            assert_eq!(strip(t, p), t.replace(p, ""), "{:?} {:?}", t, p);
        }
    }
}
