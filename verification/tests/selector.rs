use mini_demos::selector::longest;

#[test]
fn longer_first_argument_wins() {
    assert_eq!(longest("abcd", "xyz"), "abcd");
    assert_eq!(longest("hello!", "world"), "hello!");
}

#[test]
fn longer_second_argument_wins() {
    assert_eq!(longest("hi", "world"), "world");
    assert_eq!(longest("", "x"), "x");
}

#[test]
fn tie_favours_the_second_argument() {
    assert_eq!(longest("hello", "world"), "world");
    assert_eq!(longest("", ""), "");
}

#[test]
fn length_counts_characters_not_bytes() {
    // two characters against three, though many more bytes
    assert_eq!(longest("\u{1f980}\u{1f980}", "abc"), "abc");
}
