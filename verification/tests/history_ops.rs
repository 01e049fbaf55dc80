use gptranslate::history::{
    add_translation_to_history, clear_translation_history, deduplicate_history,
    delete_history_entry, fix_target_language_in_history, record_translation, TranslationEntry,
    TranslationHistory,
};

fn entry(id: &str, original: &str, translated: &str, detected: &str, target: &str, ts: i64)
    -> TranslationEntry {
    TranslationEntry {
        id: id.to_string(),
        original_text: original.to_string(),
        translated_text: translated.to_string(),
        detected_language: detected.to_string(),
        target_language: target.to_string(),
        timestamp_ms: ts,
    }
}

#[test]
fn short_texts_are_not_recorded() {
    let mut h = TranslationHistory::new();
    record_translation(
        &mut h,
        "hi".to_string(),
        "salut".to_string(),
        "English".to_string(),
        "French".to_string(),
        "id-1".to_string(),
        1000,
    );
    assert_eq!(h.entries.len(), 0);
}

#[test]
fn near_duplicate_with_longer_text_merges_in_place() {
    let mut h = TranslationHistory::new();
    record_translation(
        &mut h,
        "Hello world, how are you today".to_string(),
        "Bonjour le monde".to_string(),
        "English".to_string(),
        "French".to_string(),
        "id-first".to_string(),
        1000,
    );
    assert_eq!(h.entries.len(), 1);
    record_translation(
        &mut h,
        "Hello world, how are you today?".to_string(),
        "Bonjour le monde !".to_string(),
        "English".to_string(),
        "French".to_string(),
        "id-second".to_string(),
        2000,
    );
    assert_eq!(h.entries.len(), 1);
    assert_eq!(h.entries[0].id, "id-first");
    assert_eq!(h.entries[0].original_text, "Hello world, how are you today?");
    assert_eq!(h.entries[0].translated_text, "Bonjour le monde !");
    assert_eq!(h.entries[0].timestamp_ms, 2000);
}

#[test]
fn near_duplicate_with_shorter_text_is_dropped() {
    let mut h = TranslationHistory::new();
    record_translation(
        &mut h,
        "Hello world, how are you today?".to_string(),
        "Bonjour le monde !".to_string(),
        "English".to_string(),
        "French".to_string(),
        "id-first".to_string(),
        1000,
    );
    record_translation(
        &mut h,
        "Hello world, how are you today".to_string(),
        "Bonjour le monde".to_string(),
        "English".to_string(),
        "French".to_string(),
        "id-second".to_string(),
        2000,
    );
    assert_eq!(h.entries.len(), 1);
    assert_eq!(h.entries[0].id, "id-first");
    assert_eq!(h.entries[0].timestamp_ms, 1000);
}

#[test]
fn different_languages_do_not_merge() {
    let mut h = TranslationHistory::new();
    record_translation(
        &mut h,
        "Hello world, how are you today".to_string(),
        "Bonjour le monde".to_string(),
        "English".to_string(),
        "French".to_string(),
        "id-first".to_string(),
        1000,
    );
    record_translation(
        &mut h,
        "Hello world, how are you today?".to_string(),
        "Hola mundo".to_string(),
        "English".to_string(),
        "Spanish".to_string(),
        "id-second".to_string(),
        2000,
    );
    assert_eq!(h.entries.len(), 2);
    assert_eq!(h.entries[0].id, "id-second");
}

#[test]
fn history_respects_the_hundred_entry_cap() {
    let mut h = TranslationHistory::new();
    for i in 0..101u32 {
        // Alternate two very different shapes so consecutive entries never
        // count as near-duplicates.
        let text = if i % 2 == 0 {
            format!("alpha bravo charlie delta echo foxtrot {}", i)
        } else {
            format!("zzzz qqqq wwww kkkk ffff gggg hhhh {}", i)
        };
        record_translation(
            &mut h,
            text,
            format!("translation {}", i),
            "English".to_string(),
            "French".to_string(),
            format!("id-{}", i),
            i as i64,
        );
    }
    assert_eq!(h.entries.len(), 100);
    assert_eq!(h.entries[0].id, "id-100");
    assert!(h.entries.iter().all(|e| e.id != "id-0"));
}

#[test]
fn fresh_ids_take_the_hyphenated_form() {
    let mut h = TranslationHistory::new();
    add_translation_to_history(
        &mut h,
        "A sentence long enough to record".to_string(),
        "Une phrase assez longue".to_string(),
        "English".to_string(),
        "French".to_string(),
    );
    assert_eq!(h.entries.len(), 1);
    assert_eq!(h.entries[0].id.chars().count(), 36);
}

#[test]
fn batch_dedup_keeps_the_first_of_a_pair_and_sorts() {
    let mut h = TranslationHistory {
        entries: vec![
            entry("a", "The weather is nice here today", "t1", "English", "French", 300),
            entry("b", "The weather is nice here today!", "t2", "English", "French", 100),
            entry("c", "Something else entirely different", "t3", "English", "French", 200),
        ],
    };
    deduplicate_history(&mut h);
    assert_eq!(h.entries.len(), 2);
    assert_eq!(h.entries[0].id, "a");
    assert_eq!(h.entries[1].id, "c");
}

#[test]
fn delete_removes_exactly_the_matching_id() {
    let mut h = TranslationHistory {
        entries: vec![
            entry("a", "one text", "t1", "English", "French", 1),
            entry("b", "two text", "t2", "English", "French", 2),
        ],
    };
    delete_history_entry(&mut h, "a");
    assert_eq!(h.entries.len(), 1);
    assert_eq!(h.entries[0].id, "b");
    delete_history_entry(&mut h, "missing");
    assert_eq!(h.entries.len(), 1);
}

#[test]
fn clear_empties_the_history() {
    let mut h = TranslationHistory {
        entries: vec![entry("a", "one text", "t1", "English", "French", 1)],
    };
    clear_translation_history(&mut h);
    assert_eq!(h.entries.len(), 0);
}

#[test]
fn history_survives_its_json_round_trip() {
    let h = TranslationHistory {
        entries: vec![
            entry("id-a", "a \"quoted\" line\nand more", "done", "English", "French", -5),
            entry("id-b", "second entry text", "ferdig", "English", "Norwegian", 123456789),
        ],
    };
    let text = gptranslate::persist::history_to_json_text(&h);
    let back = gptranslate::persist::history_from_json_text(&text);
    assert_eq!(back.entries.len(), 2);
    assert_eq!(back.entries[0].id, "id-a");
    assert_eq!(back.entries[0].original_text, "a \"quoted\" line\nand more");
    assert_eq!(back.entries[0].timestamp_ms, -5);
    assert_eq!(back.entries[1].target_language, "Norwegian");
    assert_eq!(back.entries[1].timestamp_ms, 123456789);
}

#[test]
fn unreadable_history_text_means_an_empty_history() {
    let back = gptranslate::persist::history_from_json_text("not a document at all");
    assert_eq!(back.entries.len(), 0);
}

#[test]
fn norwegian_marker_words_repair_the_target() {
    let mut h = TranslationHistory {
        entries: vec![
            entry("a", "source", "Dette er ikke et problem", "English", "English", 1),
            entry("b", "source", "This is plainly English text", "English", "English", 2),
            entry("c", "source", "Texte en francais", "French", "English", 3),
        ],
    };
    fix_target_language_in_history(&mut h);
    assert_eq!(h.entries[0].target_language, "Norwegian");
    assert_eq!(h.entries[1].target_language, "English");
    assert_eq!(h.entries[2].target_language, "English");
}

#[test]
fn norwegian_suffixes_repair_the_target() {
    let mut h = TranslationHistory {
        entries: vec![entry("a", "source", "en kjaerlighet", "English", "English", 1)],
    };
    fix_target_language_in_history(&mut h);
    assert_eq!(h.entries[0].target_language, "Norwegian");
}
