use gptranslate::alternatives::extract_alternatives;
use gptranslate::chat::parse_chat_response;
use gptranslate::extract::extract_translation_fields;
use gptranslate::translation::Error;
use gptranslate::translator::{
    map_language_code_to_name, map_language_name_to_code, parse_translator_response,
    translator_detection_code,
};

#[test]
fn decoder_reads_a_clean_json_reply() {
    let (lang, text) = extract_translation_fields(
        "{\"detected_language\":\"French\",\"translated_text\":\"Bonjour\"}",
    );
    assert_eq!(lang, "French");
    assert_eq!(text, "Bonjour");
}

#[test]
fn decoder_recovers_json_wrapped_in_prose() {
    let (lang, text) = extract_translation_fields(
        "Sure! Here you go: {\"detected_language\":\"German\",\"translated_text\":\"Hallo\"} Anything else?",
    );
    assert_eq!(lang, "German");
    assert_eq!(text, "Hallo");
}

#[test]
fn decoder_never_fails_on_plain_text() {
    let (lang, text) = extract_translation_fields("just some prose, no braces at all");
    assert_eq!(lang, "unknown");
    assert_eq!(text, "just some prose, no braces at all");
}

#[test]
fn decoder_never_fails_on_truncated_json() {
    let (lang, text) = extract_translation_fields("{\"detected_language\": \"Fre");
    assert_eq!(lang, "unknown");
    assert_eq!(text, "{\"detected_language\": \"Fre");
}

#[test]
fn decoder_strips_control_characters() {
    let (lang, text) = extract_translation_fields(
        "{\"detected_language\":\"Dutch\",\u{0001}\"translated_text\":\"Hoi\"}",
    );
    assert_eq!(lang, "Dutch");
    assert_eq!(text, "Hoi");
}

#[test]
fn decoder_unescapes_literal_sequences() {
    let (_, text) = extract_translation_fields(
        "{\"translated_text\":\"line one\\\\nline two\\\\tdone\"}",
    );
    assert_eq!(text, "line one\nline two\tdone");
}

#[test]
fn decoder_reads_unicode_escapes() {
    let (_, text) = extract_translation_fields("{\"translated_text\":\"\\u0041\\u00e9\"}");
    assert_eq!(text, "A\u{e9}");
}

#[test]
fn decoder_survives_a_lone_surrogate_escape() {
    let (lang, text) = extract_translation_fields("{\"translated_text\":\"\\ud800\"}");
    assert_eq!(lang, "unknown");
    assert_eq!(text, "{\"translated_text\":\"\\ud800\"}");
}

#[test]
fn decoder_skips_numbers_and_nested_values() {
    let (lang, text) = extract_translation_fields(
        "{\"usage\":{\"tokens\":[1,2.5,-3e2]},\"detected_language\":\"Czech\",\"translated_text\":\"Ahoj\",\"extra\":null}",
    );
    assert_eq!(lang, "Czech");
    assert_eq!(text, "Ahoj");
}

#[test]
fn decoder_takes_the_last_of_a_repeated_key() {
    let (lang, _) = extract_translation_fields(
        "{\"detected_language\":\"Czech\",\"detected_language\":\"Polish\",\"translated_text\":\"x\"}",
    );
    assert_eq!(lang, "Polish");
}

#[test]
fn decoder_defaults_an_empty_language() {
    let (lang, _) = extract_translation_fields(
        "{\"detected_language\":\"\",\"translated_text\":\"x\"}",
    );
    assert_eq!(lang, "unknown");
}

#[test]
fn decoder_uses_a_bare_string_reply() {
    let (lang, text) = extract_translation_fields("\"only the translation\"");
    assert_eq!(lang, "unknown");
    assert_eq!(text, "only the translation");
}

#[test]
fn decoder_marks_a_missing_translation() {
    let (lang, text) = extract_translation_fields("{\"detected_language\":\"French\"}");
    assert_eq!(lang, "French");
    assert_eq!(text, "translation failed");
}

#[test]
fn chat_reply_is_unwrapped_and_switched() {
    let body = "{\"choices\":[{\"message\":{\"content\":\"{\\\"detected_language\\\":\\\"French\\\",\\\"translated_text\\\":\\\"Oui\\\"}\"}}]}";
    let r = parse_chat_response(body, "English", "Spanish").unwrap();
    assert_eq!(r.detected_language, "French");
    assert_eq!(r.translated_text, "Oui");
    assert_eq!(r.target_language, "English");
}

#[test]
fn chat_reply_without_choices_is_refused() {
    let r = parse_chat_response("{\"error\":\"rate limited\"}", "English", "Spanish");
    match r {
        Err(Error::ApiError(m)) => assert_eq!(m, "No 'choices' array in response"),
        _ => panic!("expected a shape error"),
    }
}

#[test]
fn chat_reply_with_empty_choices_is_refused() {
    let r = parse_chat_response("{\"choices\":[]}", "English", "Spanish");
    match r {
        Err(Error::ApiError(m)) => assert_eq!(m, "Empty 'choices' array in response"),
        _ => panic!("expected a shape error"),
    }
}

#[test]
fn language_tables_map_both_ways() {
    assert_eq!(map_language_name_to_code("Spanish"), "es");
    assert_eq!(map_language_name_to_code("NORWEGIAN"), "nb");
    assert_eq!(map_language_name_to_code("Klingon"), "Klingon");
    assert_eq!(map_language_code_to_name("fr"), "French");
    assert_eq!(map_language_code_to_name("ZH-HANS"), "Chinese");
    assert_eq!(map_language_code_to_name("xx"), "xx");
}

#[test]
fn translator_reply_is_decoded() {
    let body = "[{\"detectedLanguage\":{\"language\":\"de\",\"score\":1.0},\"translations\":[{\"text\":\"Hello\",\"to\":\"en\"}]}]";
    let r = parse_translator_response(body).unwrap();
    assert_eq!(r.detected_language, "German");
    assert_eq!(r.translated_text, "Hello");
    assert_eq!(r.target_language, "English");
}

#[test]
fn translator_reply_without_translations_is_refused() {
    let r = parse_translator_response("[{\"detectedLanguage\":{\"language\":\"de\"}}]");
    match r {
        Err(Error::ApiError(m)) => assert_eq!(m, "No translations found in response"),
        _ => panic!("expected a shape error"),
    }
}

#[test]
fn translator_detection_reads_the_code() {
    let code = translator_detection_code(
        "[{\"detectedLanguage\":{\"language\":\"fr\",\"score\":0.98}}]",
    )
    .unwrap();
    assert_eq!(code, "fr");
}

#[test]
fn alternatives_come_from_clean_json() {
    let r = extract_alternatives("{\"alternatives\":[\"first\",\"second\"]}", "word").unwrap();
    assert_eq!(r.alternatives, vec!["first", "second"]);
}

#[test]
fn alternatives_drop_the_selection_itself() {
    let r = extract_alternatives("{\"alternatives\":[\" Word \",\"other\"]}", "word").unwrap();
    assert_eq!(r.alternatives, vec!["other"]);
}

#[test]
fn alternatives_recover_a_truncated_array() {
    let r = extract_alternatives("{\"alternatives\": [\"a1\", \"b2\"", "word").unwrap();
    assert_eq!(r.alternatives, vec!["a1", "b2"]);
}

#[test]
fn alternatives_fall_back_to_text_lines() {
    let r = extract_alternatives("1. premier\n2. deuxieme\n", "word").unwrap();
    assert_eq!(r.alternatives, vec!["premier", "deuxieme"]);
}

#[test]
fn alternatives_cap_at_five() {
    let r = extract_alternatives("one1\ntwo2\nthree3\nfour4\nfive5\nsix6\n", "word").unwrap();
    assert_eq!(r.alternatives.len(), 5);
}

#[test]
fn an_array_of_only_the_selection_is_an_error() {
    let r = extract_alternatives("{\"alternatives\":[\"word\"]}", "word");
    match r {
        Err(Error::ApiError(m)) => assert_eq!(m, "No alternatives found in response"),
        _ => panic!("expected an error"),
    }
}

#[test]
fn no_alternatives_is_an_error() {
    let r = extract_alternatives("{}", "word");
    match r {
        Err(Error::ApiError(m)) => assert_eq!(m, "No alternatives found in response"),
        _ => panic!("expected an error"),
    }
}
