use minitweet::hashtag::extract_hashtags;

#[test]
fn plain_tag_is_found() {
    assert_eq!(extract_hashtags("hello #world"), vec!["world".to_string()]);
}

#[test]
fn no_tag_no_labels() {
    assert_eq!(extract_hashtags("just words, nothing else"), Vec::<String>::new());
    assert_eq!(extract_hashtags(""), Vec::<String>::new());
}

#[test]
fn labels_are_lowercased() {
    assert_eq!(extract_hashtags("go #RustLang now"), vec!["rustlang".to_string()]);
}

#[test]
fn duplicates_keep_first_occurrence_order() {
    assert_eq!(
        extract_hashtags("#b #a #B #a #c"),
        vec!["b".to_string(), "a".to_string(), "c".to_string()]
    );
}

#[test]
fn case_insensitive_deduplication() {
    assert_eq!(extract_hashtags("#Tag and #tag and #TAG"), vec!["tag".to_string()]);
}

#[test]
fn bare_hash_yields_nothing() {
    assert_eq!(extract_hashtags("#"), Vec::<String>::new());
    assert_eq!(extract_hashtags("# spaced"), Vec::<String>::new());
    assert_eq!(extract_hashtags("ends with #"), Vec::<String>::new());
}

#[test]
fn double_hash_reads_the_tagged_word() {
    assert_eq!(extract_hashtags("##x"), vec!["x".to_string()]);
}

#[test]
fn adjacent_tags_both_count() {
    assert_eq!(extract_hashtags("#foo#bar"), vec!["foo".to_string(), "bar".to_string()]);
}

#[test]
fn label_stops_at_non_word_character() {
    assert_eq!(extract_hashtags("#wow!really"), vec!["wow".to_string()]);
    assert_eq!(extract_hashtags("(#nested)"), vec!["nested".to_string()]);
}

#[test]
fn digits_and_underscores_belong_to_labels() {
    assert_eq!(extract_hashtags("#tag_2_go"), vec!["tag_2_go".to_string()]);
    assert_eq!(extract_hashtags("#2024"), vec!["2024".to_string()]);
}

#[test]
fn non_ascii_text_around_tags_is_fine() {
    assert_eq!(extract_hashtags("héllo wörld #tag café"), vec!["tag".to_string()]);
    // A non-ASCII letter ends the label.
    assert_eq!(extract_hashtags("#caf\u{e9}s"), vec!["caf".to_string()]);
}
