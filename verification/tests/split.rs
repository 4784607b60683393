use minigrep::split::{split_first_line, strip_carriage_return, CARRIAGE_RETURN, LINE_FEED};

#[test]
fn first_line_is_cut_at_the_line_feed() {
    assert_eq!(("lolz ", "\n        trolllz \ntap colts"), split_first_line("lolz \n\n        trolllz \ntap colts"));
    assert_eq!(("a", "b"), split_first_line("a\nb"));
    assert_eq!(("a", ""), split_first_line("a\n"));
    assert_eq!(("", "b"), split_first_line("\nb"));
    assert_eq!(("", ""), split_first_line("\n"));
}

#[test]
fn text_without_line_feed_is_one_line() {
    assert_eq!(("abc", ""), split_first_line("abc"));
    assert_eq!(("abc\r", ""), split_first_line("abc\r"));
    assert_eq!(("", ""), split_first_line(""));
}

#[test]
fn first_line_loses_its_carriage_return() {
    assert_eq!(("a", "b\r\nc"), split_first_line("a\r\nb\r\nc"));
    assert_eq!(("a\r", "b"), split_first_line("a\r\r\nb"));
    assert_eq!(("", "b"), split_first_line("\r\nb"));
}

#[test]
fn first_line_is_cut_between_characters() {
    assert_eq!(("日本語", "テキスト"), split_first_line("日本語\nテキスト"));
    assert_eq!(("é", "è"), split_first_line("é\r\nè"));
}

#[test]
fn strip_carriage_return_drops_one_at_the_end() {
    assert_eq!("abc", strip_carriage_return("abc\r"));
    assert_eq!("abc\r", strip_carriage_return("abc\r\r"));
    assert_eq!("a\rbc", strip_carriage_return("a\rbc"));
    assert_eq!("abc", strip_carriage_return("abc"));
    assert_eq!("", strip_carriage_return("\r"));
    assert_eq!("", strip_carriage_return(""));
    assert_eq!("né", strip_carriage_return("né\r"));
}

#[test]
fn line_end_bytes_are_those_of_ascii() {
    assert_eq!(b'\n', LINE_FEED);
    assert_eq!(b'\r', CARRIAGE_RETURN);
}
