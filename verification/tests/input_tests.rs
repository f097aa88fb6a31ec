use flash::input::accepts_default;
use flash::input::parse_selection;
use flash::input::starts_with_yes;
use flash::input::trim_line;
use flash::input::Selection;

#[test]
fn test_string_processing() {
    let test_inputs = vec![
        ("  hello world  ", "hello world"),
        ("\n\ttest\n\t", "test"),
        ("", ""),
        ("no_trim_needed", "no_trim_needed"),
        ("  \n  ", ""),
    ];

    for (input, expected) in test_inputs {
        let result = trim_line(input);
        assert_eq!(
            result, expected,
            "String processing failed for input: '{}'",
            input
        );
    }
}

#[test]
fn trim_line_agrees_with_std_trim() {
    let samples = vec![
        "",
        " ",
        "a",
        " a",
        "a ",
        "\u{85}x\u{a0}",
        "\u{1680}\u{2000}\u{200a}word\u{2028}\u{2029}\u{202f}\u{205f}\u{3000}",
        "\u{200b}zero width space is no white space\u{200b}",
        "\u{0b}\u{0c}\r\nline\r\n",
        "inner  space stays",
        "\u{1f}unit separator is no white space ",
        "  ünï cödé  ",
    ];
    for sample in samples {
        assert_eq!(trim_line(sample), sample.trim(), "for {:?}", sample);
    }
}

#[test]
fn selection_custom_in_any_case() {
    assert_eq!(parse_selection("c", 3), Selection::Custom);
    assert_eq!(parse_selection("C", 3), Selection::Custom);
    assert_eq!(parse_selection("custom", 3), Selection::Custom);
    assert_eq!(parse_selection("CuStOm", 0), Selection::Custom);
    assert_eq!(parse_selection("  custom\n", 3), Selection::Custom);
    assert_eq!(parse_selection("customs", 3), Selection::Invalid);
    assert_eq!(parse_selection("cc", 3), Selection::Invalid);
}

#[test]
fn selection_by_number() {
    assert_eq!(parse_selection("1", 3), Selection::Server(0));
    assert_eq!(parse_selection("3\n", 3), Selection::Server(2));
    assert_eq!(parse_selection(" 2 ", 3), Selection::Server(1));
    assert_eq!(parse_selection("+2", 3), Selection::Server(1));
    assert_eq!(parse_selection("007", 9), Selection::Server(6));
    assert_eq!(parse_selection("10", 10), Selection::Server(9));
}

#[test]
fn selection_out_of_range_or_malformed() {
    assert_eq!(parse_selection("0", 3), Selection::Invalid);
    assert_eq!(parse_selection("4", 3), Selection::Invalid);
    assert_eq!(parse_selection("1", 0), Selection::Invalid);
    assert_eq!(parse_selection("", 3), Selection::Invalid);
    assert_eq!(parse_selection("+", 3), Selection::Invalid);
    assert_eq!(parse_selection("-1", 3), Selection::Invalid);
    assert_eq!(parse_selection("1.0", 3), Selection::Invalid);
    assert_eq!(parse_selection("2x", 3), Selection::Invalid);
    assert_eq!(parse_selection("1 2", 3), Selection::Invalid);
    assert_eq!(parse_selection("٣", 3), Selection::Invalid);
    assert_eq!(
        parse_selection("99999999999999999999999999999999999999", 3),
        Selection::Invalid
    );
    assert_eq!(
        parse_selection("18446744073709551616", usize::MAX),
        Selection::Invalid
    );
}

#[test]
fn selection_agrees_with_std_parse() {
    let answers = vec!["1", "+1", "-0", "00", "12", "٣", " 5", "5 ", "1e1", "0x1", "+", "++1"];
    for answer in answers {
        let expected = match answer.trim().parse::<usize>() {
            Ok(choice) if choice >= 1 && choice <= 20 => Selection::Server(choice - 1),
            _ => Selection::Invalid,
        };
        assert_eq!(parse_selection(answer, 20), expected, "for {:?}", answer);
    }
}

#[test]
fn selection_at_the_largest_count() {
    let text = format!("{}", usize::MAX);
    assert_eq!(
        parse_selection(&text, usize::MAX),
        Selection::Server(usize::MAX - 1)
    );
    assert_eq!(parse_selection(&text, usize::MAX - 1), Selection::Invalid);
}

#[test]
fn default_server_is_accepted_by_a_leading_y() {
    assert!(accepts_default("y"));
    assert!(accepts_default("Y"));
    assert!(accepts_default("yes"));
    assert!(accepts_default("Yes please"));
    assert!(accepts_default("yolo"));
    assert!(!accepts_default(""));
    assert!(!accepts_default("n"));
    assert!(!accepts_default("no"));
    assert!(!accepts_default(" y"));
    assert!(!accepts_default("ok"));
}

#[test]
fn lower_case_answer_starting_with_y() {
    assert!(starts_with_yes("y"));
    assert!(starts_with_yes("yes"));
    assert!(!starts_with_yes("Y"));
    assert!(!starts_with_yes(""));
    assert!(!starts_with_yes("ay"));
}
