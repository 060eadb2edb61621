use dimport::model::{Author, ImportOptions, MessageInfo};
use dimport::options::{
    parse_index, parse_options, read_options, select_messages, split_args, OptionError, ValueFlag,
};

fn args(list: &[&str]) -> Vec<String> {
    list.iter().map(|s| s.to_string()).collect()
}

fn message(content: &str) -> MessageInfo {
    MessageInfo {
        content: content.to_string(),
        author: Author {
            id: 1,
            name: "a".to_string(),
            avatar_url: String::new(),
            color: None,
        },
        timestamp: String::new(),
        timestamp_edited: None,
        attachments: Vec::new(),
        mentions: Vec::new(),
        inline_emojis: Vec::new(),
        reactions: Vec::new(),
    }
}

fn messages(n: usize) -> Vec<MessageInfo> {
    (0..n).map(|i| message(&i.to_string())).collect()
}

fn selected(
    n: usize,
    range_start: Option<usize>,
    range_end: Option<usize>,
    first: Option<usize>,
    last: Option<usize>,
) -> Vec<String> {
    let all = messages(n);
    select_messages(&all, range_start, range_end, first, last)
        .iter()
        .map(|m| m.content.clone())
        .collect()
}

fn names(list: &[usize]) -> Vec<String> {
    list.iter().map(|i| i.to_string()).collect()
}

#[test]
fn split_args_keeps_quoted_blanks() {
    let tokens = split_args("a \"b c\"  d");
    assert_eq!(tokens, args(&["a", "b c", "d"]));
}

#[test]
fn split_args_drops_quotes_and_empty_tokens() {
    assert_eq!(split_args(""), Vec::<String>::new());
    assert_eq!(split_args("   \t\n "), Vec::<String>::new());
    assert_eq!(split_args("\"\""), Vec::<String>::new());
    assert_eq!(split_args("a\"b\"c"), args(&["abc"]));
    assert_eq!(split_args("\"unclosed quote"), args(&["unclosed quote"]));
    assert_eq!(split_args("x\u{3000}y"), args(&["x", "y"]));
    assert_eq!(split_args("\" \""), args(&[" "]));
    assert_eq!(
        split_args("export.json \"my media\" --first 3"),
        args(&["export.json", "my media", "--first", "3"])
    );
}

#[test]
fn parse_options_of_nothing_is_the_default() {
    assert_eq!(parse_options(&[]), Ok(ImportOptions::default()));
    let d = ImportOptions::default();
    assert!(!d.no_guild && !d.button && !d.outside && !d.accent_color && !d.current_avatar);
    assert_eq!((d.range_start, d.range_end, d.first, d.last), (None, None, None, None));
}

#[test]
fn parse_options_sets_each_switch() {
    let all = args(&[
        "--no-guild",
        "--no-category",
        "--no-channel",
        "--no-timestamp",
        "--no-mentions",
        "--no-embed",
        "--button",
        "--reaction-users",
        "--outside",
        "--disable-button",
    ]);
    let o = parse_options(&all).unwrap();
    assert!(o.no_guild && o.no_category && o.no_channel && o.no_timestamp && o.no_mentions);
    assert!(o.no_embed && o.button && o.reaction_users && o.outside && o.disable_button);
    assert!(!o.no_reactions);
    let o = parse_options(&args(&["--no-reactions"])).unwrap();
    assert!(o.no_reactions);
    assert_eq!(o, ImportOptions { no_reactions: true, ..ImportOptions::default() });
}

#[test]
fn parse_options_reads_values() {
    let o = parse_options(&args(&["--range", "2,5"])).unwrap();
    assert_eq!((o.range_start, o.range_end), (Some(2), Some(5)));
    let o = parse_options(&args(&["--range-start", "3", "--range-end", "+4"])).unwrap();
    assert_eq!((o.range_start, o.range_end), (Some(3), Some(4)));
    let o = parse_options(&args(&["--first", "10", "--last", "007"])).unwrap();
    assert_eq!((o.first, o.last), (Some(10), Some(7)));
    let o = parse_options(&args(&["--first", "1", "--first", "2"])).unwrap();
    assert_eq!(o.first, Some(2));
    let o = parse_options(&args(&["--range", "1,2", "--range-end", "9"])).unwrap();
    assert_eq!((o.range_start, o.range_end), (Some(1), Some(9)));
}

#[test]
fn each_option_error_has_its_input_and_sentence() {
    let cases: Vec<(Vec<String>, OptionError, &str)> = vec![
        (
            args(&["--bogus"]),
            OptionError::Unknown("--bogus".to_string()),
            "Unknown option: --bogus",
        ),
        (
            args(&["--range"]),
            OptionError::MissingValue(ValueFlag::Range),
            "Missing value for --range",
        ),
        (
            args(&["--no-guild", "--first"]),
            OptionError::MissingValue(ValueFlag::First),
            "Missing value for --first",
        ),
        (
            args(&["--last"]),
            OptionError::MissingValue(ValueFlag::Last),
            "Missing value for --last",
        ),
        (
            args(&["--range-start"]),
            OptionError::MissingValue(ValueFlag::RangeStart),
            "Missing value for --range-start",
        ),
        (
            args(&["--range-end"]),
            OptionError::MissingValue(ValueFlag::RangeEnd),
            "Missing value for --range-end",
        ),
        (
            args(&["--first", "x"]),
            OptionError::InvalidValue(ValueFlag::First),
            "Invalid value for --first",
        ),
        (
            args(&["--last", "-1"]),
            OptionError::InvalidValue(ValueFlag::Last),
            "Invalid value for --last",
        ),
        (
            args(&["--range-start", ""]),
            OptionError::InvalidValue(ValueFlag::RangeStart),
            "Invalid value for --range-start",
        ),
        (
            args(&["--range-end", "1.5"]),
            OptionError::InvalidValue(ValueFlag::RangeEnd),
            "Invalid value for --range-end",
        ),
        (
            args(&["--range", "12"]),
            OptionError::RangeFormat,
            "Invalid format for --range. Use start,end",
        ),
        (args(&["--range", "a,2"]), OptionError::RangeStart, "Invalid start value in --range"),
        (args(&["--range", "1,b"]), OptionError::RangeEnd, "Invalid end value in --range"),
        (args(&["--range", "1,2,3"]), OptionError::RangeEnd, "Invalid end value in --range"),
        (args(&["--range", ","]), OptionError::RangeStart, "Invalid start value in --range"),
        (
            args(&["--no-reactions", "--button"]),
            OptionError::ReactionsWithButton,
            "--no-reactions and --button cannot be used together",
        ),
        (
            args(&["--disable-button"]),
            OptionError::DisableButtonAlone,
            "--disable-button can only be used with --button",
        ),
        (
            args(&["--no-embed"]),
            OptionError::NoEmbedAlone,
            "--no-embed can only be used with --outside",
        ),
    ];
    for (input, error, sentence) in cases {
        assert_eq!(error.message(), sentence);
        assert_eq!(read_options(&input), Err(error), "{input:?}");
        assert_eq!(parse_options(&input), Err(sentence.to_string()), "{input:?}");
    }
}

#[test]
fn the_first_faulty_token_decides() {
    assert_eq!(
        read_options(&args(&["--bogus", "--first"])),
        Err(OptionError::Unknown("--bogus".to_string()))
    );
    assert_eq!(
        read_options(&args(&["--no-embed", "--first", "x"])),
        Err(OptionError::InvalidValue(ValueFlag::First))
    );
    assert_eq!(
        read_options(&args(&["--disable-button", "--no-reactions", "--button"])),
        Err(OptionError::ReactionsWithButton)
    );
    assert_eq!(
        read_options(&args(&["--no-embed", "--disable-button"])),
        Err(OptionError::DisableButtonAlone)
    );
}

#[test]
fn refused_combinations_do_not_depend_on_the_rest() {
    let fillers: Vec<Vec<String>> = vec![
        args(&[]),
        args(&["--no-guild"]),
        args(&["--first", "3"]),
        args(&["--range", "1,2", "--reaction-users"]),
        args(&["--outside", "--no-timestamp"]),
    ];
    for before in &fillers {
        for after in &fillers {
            let wrap = |middle: &[&str]| {
                let mut list = before.clone();
                list.extend(args(middle));
                list.extend(after.clone());
                list
            };
            assert!(parse_options(&wrap(&["--no-reactions", "--button"])).is_err());
            assert!(parse_options(&wrap(&["--button", "--no-reactions"])).is_err());
            assert!(parse_options(&wrap(&["--disable-button"])).is_err());
            let outside = before.contains(&"--outside".to_string())
                || after.contains(&"--outside".to_string());
            assert_eq!(parse_options(&wrap(&["--no-embed"])).is_ok(), outside);
            assert!(parse_options(&wrap(&["--disable-button", "--button"])).is_ok());
            assert!(parse_options(&wrap(&["--no-embed", "--outside"])).is_ok());
        }
    }
}

#[test]
fn a_switch_cannot_be_a_value() {
    assert_eq!(
        read_options(&args(&["--first", "--button"])),
        Err(OptionError::InvalidValue(ValueFlag::First))
    );
    assert_eq!(read_options(&args(&["--range", "--button"])), Err(OptionError::RangeFormat));
}

#[test]
fn parse_index_reads_counts() {
    let v = |s: &str| s.chars().collect::<Vec<char>>();
    assert_eq!(parse_index(&v("0")), Some(0));
    assert_eq!(parse_index(&v("+12")), Some(12));
    assert_eq!(parse_index(&v("")), None);
    assert_eq!(parse_index(&v("-1")), None);
    assert_eq!(parse_index(&v("99999999999999999999999999")), None);
    assert_eq!(parse_index(&v(&usize::MAX.to_string())), Some(usize::MAX));
}

#[test]
fn select_range_is_inclusive_and_clamped() {
    assert_eq!(selected(10, Some(2), Some(4), None, None), names(&[2, 3, 4]));
    assert_eq!(selected(10, Some(0), Some(0), None, None), names(&[0]));
    assert_eq!(selected(10, Some(8), Some(100), None, None), names(&[8, 9]));
    assert_eq!(selected(10, Some(9), Some(usize::MAX), None, None), names(&[9]));
    assert_eq!(selected(3, Some(0), Some(2), None, None), names(&[0, 1, 2]));
}

#[test]
fn select_first_and_last_are_clamped() {
    assert_eq!(selected(10, None, None, Some(3), None), names(&[0, 1, 2]));
    assert_eq!(selected(2, None, None, Some(3), None), names(&[0, 1]));
    assert_eq!(selected(10, None, None, None, Some(3)), names(&[7, 8, 9]));
    assert_eq!(selected(2, None, None, None, Some(3)), names(&[0, 1]));
    assert_eq!(selected(4, None, None, None, Some(usize::MAX)), names(&[0, 1, 2, 3]));
    assert_eq!(selected(4, None, None, Some(4), None), names(&[0, 1, 2, 3]));
}

#[test]
fn select_priority_is_range_first_last_all() {
    assert_eq!(selected(10, Some(1), Some(2), Some(5), Some(5)), names(&[1, 2]));
    assert_eq!(selected(10, None, None, Some(2), Some(5)), names(&[0, 1]));
    assert_eq!(selected(10, None, None, None, None), names(&[0, 1, 2, 3, 4, 5, 6, 7, 8, 9]));
}

#[test]
fn select_invalid_selectors_fall_through() {
    // The range is out of order or starts past the end: the next selector decides.
    assert_eq!(selected(10, Some(5), Some(2), Some(3), None), names(&[0, 1, 2]));
    assert_eq!(selected(10, Some(10), Some(12), None, Some(2)), names(&[8, 9]));
    assert_eq!(selected(10, Some(5), Some(2), None, None).len(), 10);
    // Half a range is no range.
    assert_eq!(selected(10, Some(5), None, Some(1), None), names(&[0]));
    assert_eq!(selected(10, None, Some(5), None, Some(1)), names(&[9]));
    // A count of zero selects nothing by itself: the next selector decides.
    assert_eq!(selected(10, None, None, Some(0), Some(2)), names(&[8, 9]));
    assert_eq!(selected(10, None, None, Some(0), Some(0)).len(), 10);
    assert_eq!(selected(10, Some(7), Some(3), Some(0), Some(0)).len(), 10);
}

#[test]
fn select_from_an_empty_list_is_empty() {
    assert_eq!(selected(0, Some(0), Some(3), None, None), names(&[]));
    assert_eq!(selected(0, None, None, Some(3), None), names(&[]));
    assert_eq!(selected(0, None, None, None, Some(3)), names(&[]));
    assert_eq!(selected(0, None, None, None, None), names(&[]));
}
