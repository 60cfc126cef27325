use pad_left::left_pad;

#[test]
fn empty_text_and_zero_target_stay_empty() {
    assert_eq!(left_pad("".to_string(), 0, ' '), "");
}

#[test]
fn empty_text_becomes_all_fill() {
    assert_eq!(left_pad("".to_string(), 10, ' '), "          ");
    assert_eq!(left_pad("".to_string(), 10, ' '), "          ".to_string());
    assert_eq!(left_pad("".to_string(), 3, 'x'), "xxx");
}

#[test]
fn text_of_target_length_is_unchanged() {
    assert_eq!(left_pad("hello".to_string(), 5, ' '), "hello");
    assert_eq!(left_pad("hello".to_string(), 5, ' '), "hello".to_string());
    assert_eq!(left_pad("hello".to_string(), 5, '*'), "hello");
}

#[test]
fn zero_target_leaves_text_unchanged() {
    assert_eq!(left_pad("hello".to_string(), 0, ' '), "hello".to_string());
    assert_eq!(left_pad("hello".to_string(), 0, '-'), "hello");
}

#[test]
fn longer_text_is_not_truncated() {
    assert_eq!(left_pad("hello world".to_string(), 5, ' '), "hello world");
    assert_eq!(left_pad("hello world".to_string(), 10, '*'), "hello world");
}

#[test]
fn pads_with_spaces() {
    assert_eq!(left_pad("hello".to_string(), 10, ' '), "     hello");
    assert_eq!(left_pad("hello".to_string(), 10, ' '), "     hello".to_string());
    assert_eq!(left_pad("hello".to_string(), 15, ' '), "          hello".to_string());
}

#[test]
fn pads_with_stars() {
    assert_eq!(left_pad("hello".to_string(), 10, '*'), "*****hello");
}

#[test]
fn pads_with_dashes() {
    assert_eq!(left_pad("hello".to_string(), 10, '-'), "-----hello".to_string());
    assert_eq!(left_pad("hello".to_string(), 15, '-'), "----------hello".to_string());
}

#[test]
fn null_fill_pads_with_spaces() {
    assert_eq!(left_pad("hello".to_string(), 10, '\0'), "     hello".to_string());
    assert_eq!(left_pad("hello".to_string(), 15, '\0'), "          hello".to_string());
}

#[test]
fn wide_fill_counts_once_per_repetition() {
    assert_eq!(
        left_pad("hello".to_string(), 10, '🚀'),
        "🚀🚀🚀🚀🚀hello".to_string()
    );
    assert_eq!(
        left_pad("hello".to_string(), 15, '🚀'),
        "🚀🚀🚀🚀🚀🚀🚀🚀🚀🚀hello".to_string()
    );
    let padded = left_pad("hello".to_string(), 10, '🚀');
    assert_eq!(padded.chars().count(), 10);
    assert_eq!(padded.len(), 5 * 4 + 5);
}

#[test]
fn two_and_three_unit_fills_count_once_per_repetition() {
    assert_eq!(left_pad("ab".to_string(), 5, 'é'), "éééab");
    assert_eq!(left_pad("ab".to_string(), 5, 'é').len(), 3 * 2 + 2);
    assert_eq!(left_pad("ab".to_string(), 4, '€'), "€€ab");
    assert_eq!(left_pad("ab".to_string(), 4, '€').len(), 2 * 3 + 2);
}

#[test]
fn text_length_is_counted_in_storage_units() {
    // "héllo" holds five characters in six bytes.
    assert_eq!(left_pad("héllo".to_string(), 6, '*'), "héllo");
    assert_eq!(left_pad("héllo".to_string(), 7, '*'), "*héllo");
    assert_eq!(left_pad("🚀".to_string(), 4, '.'), "🚀");
    assert_eq!(left_pad("🚀".to_string(), 6, '.'), "..🚀");
}

#[test]
fn deficit_of_one() {
    assert_eq!(left_pad("hello".to_string(), 6, ' '), " hello");
    assert_eq!(left_pad("hello".to_string(), 6, '0'), "0hello");
    assert_eq!(left_pad("".to_string(), 1, '\0'), " ");
}

#[test]
fn deficits_around_the_short_limit() {
    assert_eq!(left_pad("x".to_string(), 20, ' '), format!("{}x", " ".repeat(19)));
    assert_eq!(left_pad("x".to_string(), 21, ' '), format!("{}x", " ".repeat(20)));
    assert_eq!(left_pad("x".to_string(), 22, ' '), format!("{}x", " ".repeat(21)));
    assert_eq!(left_pad("x".to_string(), 20, '\0'), format!("{}x", " ".repeat(19)));
    assert_eq!(left_pad("x".to_string(), 21, '\0'), format!("{}x", " ".repeat(20)));
    assert_eq!(left_pad("x".to_string(), 20, '#'), format!("{}x", "#".repeat(19)));
    assert_eq!(left_pad("x".to_string(), 21, '#'), format!("{}x", "#".repeat(20)));
}

#[test]
fn large_deficits() {
    let padded = left_pad("end".to_string(), 1003, '=');
    assert_eq!(padded.len(), 1003);
    assert_eq!(padded, format!("{}end", "=".repeat(1000)));
    let padded = left_pad("".to_string(), 4096, ' ');
    assert_eq!(padded, " ".repeat(4096));
    let padded = left_pad("z".to_string(), 1024, '€');
    assert_eq!(padded, format!("{}z", "€".repeat(1023)));
}
