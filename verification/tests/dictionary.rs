use murmure::dictionary::{Dictionary, DictionaryEntry, DictionaryError, get_filename,
    validate_dictionary_format};

#[test]
fn test_validate_dictionary_format_valid_multiple_words() {
    let result = validate_dictionary_format("hello,WORLD,test".to_string());
    assert!(result.is_ok());
    assert_eq!(result.unwrap(), vec!["hello", "world", "test"]);
}

#[test]
fn test_validate_dictionary_format_trims_whitespace() {
    let result = validate_dictionary_format("  hello  ,  world  ,  test  ".to_string());
    assert!(result.is_ok());
    assert_eq!(result.unwrap(), vec!["hello", "world", "test"]);
}

#[test]
fn test_validate_dictionary_format_skips_empty_entries() {
    let result = validate_dictionary_format("hello,,world,,test".to_string());
    assert!(result.is_ok());
    assert_eq!(result.unwrap(), vec!["hello", "world", "test"]);
}

#[test]
fn test_validate_dictionary_format_invalid_with_numbers() {
    let result = validate_dictionary_format("hello,world123,test".to_string());
    assert!(result.is_err());
    match result.unwrap_err() {
        DictionaryError::InvalidWordFormat(word) => {
            assert_eq!(word, "world123");
        }
        _ => panic!("Expected InvalidWordFormat error"),
    }
}

#[test]
fn test_validate_dictionary_format_invalid_with_special_characters() {
    let result = validate_dictionary_format("hello,world-test,test".to_string());
    assert!(result.is_err());
    match result.unwrap_err() {
        DictionaryError::InvalidWordFormat(word) => {
            assert_eq!(word, "world-test");
        }
        _ => panic!("Expected InvalidWordFormat error"),
    }
}

#[test]
fn test_validate_dictionary_format_invalid_with_spaces_in_word() {
    let result = validate_dictionary_format("hello,world test,test".to_string());
    assert!(result.is_err());
    match result.unwrap_err() {
        DictionaryError::InvalidWordFormat(word) => {
            assert_eq!(word, "world test");
        }
        _ => panic!("Expected InvalidWordFormat error"),
    }
}

#[test]
fn test_validate_dictionary_format_empty_string() {
    let result = validate_dictionary_format("".to_string());
    assert!(result.is_err());
    match result.unwrap_err() {
        DictionaryError::EmptyDictionary => {}
        _ => panic!("Expected EmptyDictionary error"),
    }
}

#[test]
fn test_validate_dictionary_format_only_commas() {
    let result = validate_dictionary_format(",,,".to_string());
    assert!(result.is_err());
    match result.unwrap_err() {
        DictionaryError::EmptyDictionary => {}
        _ => panic!("Expected EmptyDictionary error"),
    }
}

#[test]
fn test_validate_dictionary_format_accented_words() {
    let result = validate_dictionary_format("Caf\u{e9},na\u{ef}ve".to_string());
    assert!(result.is_ok());
    assert_eq!(result.unwrap(), vec!["caf\u{e9}", "na\u{ef}ve"]);
}

#[test]
fn test_get_filename_prefers_base_name() {
    let taken: Vec<String> = vec!["notes.txt".to_string()];
    assert_eq!(get_filename(&taken), "murmure-dictionary.csv");
}

#[test]
fn test_get_filename_numbers_collisions() {
    let taken = vec![
        "murmure-dictionary.csv".to_string(),
        "murmure-dictionary-1.csv".to_string(),
    ];
    assert_eq!(get_filename(&taken), "murmure-dictionary-2.csv");
}

#[test]
fn test_dictionary_merge_keeps_existing_entries() {
    let mut dict = Dictionary::new(vec![DictionaryEntry {
        word: "insulin".to_string(),
        languages: vec!["english".to_string()],
    }]);
    dict.merge_words(vec!["insulin".to_string(), "aorta".to_string()]);
    let entries = dict.get();
    assert_eq!(entries.len(), 2);
    assert_eq!(entries[0].word, "insulin");
    assert_eq!(entries[0].languages, vec!["english"]);
    assert_eq!(entries[1].word, "aorta");
    assert_eq!(entries[1].languages, vec!["english", "french"]);
}

#[test]
fn test_dictionary_get_and_set() {
    let mut dict = Dictionary::new(Vec::new());
    assert_eq!(dict.get().len(), 0);
    dict.set(vec![DictionaryEntry {
        word: "femur".to_string(),
        languages: vec!["english".to_string(), "french".to_string()],
    }]);
    let entries = dict.get();
    assert_eq!(entries.len(), 1);
    assert_eq!(entries[0].word, "femur");
    assert!(dict.contains_word("femur"));
    assert!(!dict.contains_word("tibia"));
}
