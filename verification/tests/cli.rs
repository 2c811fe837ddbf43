use angry::cli::{parse_percent, Cli, Conversion, Input, Output, PercentError, DEFAULT_STEP};
use angry::convert::random::InvalidConfiguration;
use angry::convert::Convertor;
use std::path::PathBuf;

/// What the arguments `test` and nothing else leave in every field.
fn bare() -> Cli {
    Cli {
        input: None,
        output: None,
        percent: 50,
        step: None,
        content: None,
        uppercase: false,
        lowercase: false,
        reverse: false,
        angry: false,
    }
}

fn lines(texts: &[&str]) -> Vec<String> {
    texts.iter().map(|text| String::from(*text)).collect()
}

#[test]
fn parse_percent_success() {
    assert!(matches!(parse_percent("100"), Ok(100)));
}

#[test]
fn parse_percent_fail() {
    assert!(matches!(parse_percent("101"), Err(_)));
}

#[test]
fn conversion_with_uppercase() {
    // test --uppercase
    assert!(matches!(
        Cli { uppercase: true, ..bare() }.conversion(),
        Conversion::Uppercase
    ));
}

#[test]
fn conversion_with_lowercase() {
    // test --lowercase
    assert!(matches!(
        Cli { lowercase: true, ..bare() }.conversion(),
        Conversion::Lowercase
    ));
}

#[test]
fn conversion_with_reverse() {
    // test --reverse
    assert!(matches!(
        Cli { reverse: true, ..bare() }.conversion(),
        Conversion::Reverse
    ));
}

#[test]
fn conversion_with_random() {
    // test --angry
    assert!(matches!(
        Cli { angry: true, ..bare() }.conversion(),
        Conversion::Random(50, None)
    ));
}

#[test]
fn conversion_with_random_percent() {
    // test --angry -p60
    assert!(matches!(
        Cli { angry: true, percent: 60, ..bare() }.conversion(),
        Conversion::Random(60, None)
    ));
}

#[test]
fn conversion_with_random_default_step() {
    // test --angry -s
    assert!(matches!(
        Cli { angry: true, step: Some(None), ..bare() }.conversion(),
        Conversion::Random(50, Some(20))
    ));
}

#[test]
fn conversion_with_random_step() {
    // test --angry -s25
    assert!(matches!(
        Cli { angry: true, step: Some(Some(25)), ..bare() }.conversion(),
        Conversion::Random(50, Some(25))
    ));
}

#[test]
fn default_step_is_twenty() {
    assert_eq!(DEFAULT_STEP, 20);
}

#[test]
fn first_flag_set_wins() {
    let all = Cli { uppercase: true, lowercase: true, reverse: true, angry: true, ..bare() };
    assert_eq!(all.conversion(), Conversion::Uppercase);

    let two = Cli { lowercase: true, reverse: true, ..bare() };
    assert_eq!(two.conversion(), Conversion::Lowercase);

    assert_eq!(bare().conversion(), Conversion::Random(50, None));
}

#[test]
fn parse_percent_reads_decimal_numbers() {
    assert_eq!(parse_percent("0"), Ok(0));
    assert_eq!(parse_percent("7"), Ok(7));
    assert_eq!(parse_percent("50"), Ok(50));
    assert_eq!(parse_percent("99"), Ok(99));
    assert_eq!(parse_percent("100"), Ok(100));
    assert_eq!(parse_percent("+42"), Ok(42));
    assert_eq!(parse_percent("007"), Ok(7));
    assert_eq!(parse_percent("0000000000100"), Ok(100));
}

#[test]
fn parse_percent_rejects_numbers_above_hundred() {
    assert_eq!(parse_percent("101"), Err(PercentError::OutOfRange(101)));
    assert_eq!(parse_percent("255"), Err(PercentError::OutOfRange(255)));
    assert_eq!(parse_percent("+200"), Err(PercentError::OutOfRange(200)));
}

#[test]
fn parse_percent_rejects_what_is_no_u8() {
    for text in ["", "+", "-", "-1", "-0", "256", "1000", "99999999999999999999", "1.5", " 5", "5 ",
        "5%", "1_0", "++5", "5+", "a", "0x10", "٥", "５"]
    {
        assert_eq!(parse_percent(text), Err(PercentError::NotANumber), "{:?}", text);
    }
}

#[test]
fn parse_percent_agrees_with_the_standard_library() {
    for number in 0..=300u32 {
        for text in [format!("{}", number), format!("+{}", number), format!("0{}", number)] {
            let expected = match text.parse::<u8>() {
                Ok(percent) if percent > 100 => Err(PercentError::OutOfRange(percent)),
                Ok(percent) => Ok(percent),
                Err(_) => Err(PercentError::NotANumber),
            };
            assert_eq!(parse_percent(&text), expected, "{:?}", text);
        }
    }
}

#[test]
fn input_prefers_the_command_line_then_the_file() {
    let all = Cli {
        content: Some(String::from("text")),
        input: Some(PathBuf::from("in.txt")),
        ..bare()
    };
    assert!(matches!(all.input(), Input::Content(text) if text == "text"));

    let file = Cli { input: Some(PathBuf::from("in.txt")), ..bare() };
    assert!(matches!(file.input(), Input::File(path) if path == &PathBuf::from("in.txt")));

    assert!(matches!(bare().input(), Input::Stdin));
}

#[test]
fn output_prefers_the_file() {
    let file = Cli { output: Some(PathBuf::from("out.txt")), ..bare() };
    assert!(matches!(file.output(), Output::File(path) if path == &PathBuf::from("out.txt")));

    assert!(matches!(bare().output(), Output::Stdout));
}

#[test]
fn convert_uppercases_every_line() {
    let cli = Cli { uppercase: true, ..bare() };

    let out = cli.convert(lines(&["this is some text", "it covers at least", "three lines!"]));

    assert_eq!(out, Ok(lines(&["THIS IS SOME TEXT", "IT COVERS AT LEAST", "THREE LINES!"])));
}

#[test]
fn convert_lowercases_and_reverses() {
    let lower = Cli { lowercase: true, ..bare() };
    assert_eq!(
        lower.convert(lines(&["a little bit OF TEXT"])),
        Ok(lines(&["a little bit of text"]))
    );

    let reverse = Cli { reverse: true, ..bare() };
    assert_eq!(
        reverse.convert(lines(&["a little bit OF TEXT"])),
        Ok(lines(&["A LITTLE BIT of text"]))
    );
}

#[test]
fn convert_keeps_empty_lines_and_empty_input() {
    let cli = Cli { uppercase: true, ..bare() };

    assert_eq!(cli.convert(lines(&["", "a", ""])), Ok(lines(&["", "A", ""])));
    assert_eq!(cli.convert(Vec::new()), Ok(Vec::new()));
}

#[test]
fn convert_at_random_keeps_the_letters() {
    let cli = Cli { angry: true, step: Some(None), ..bare() };

    let out = cli.convert(lines(&["a little bit OF TEXT", "and more"])).unwrap();

    assert_eq!(out.len(), 2);
    assert_eq!(out[0].len(), 20);
    assert_eq!(out[0].to_lowercase(), "a little bit of text");
    assert_eq!(out[1].to_lowercase(), "and more");
}

#[test]
fn convert_with_certain_flips() {
    let always = Cli { angry: true, percent: 100, ..bare() };
    assert_eq!(always.convert(lines(&["abc", "DEF"])), Ok(lines(&["ABC", "DEF"])));

    let never = Cli { angry: true, percent: 0, ..bare() };
    assert_eq!(never.convert(lines(&["abc", "DEF"])), Ok(lines(&["abc", "def"])));
}

#[test]
fn convert_carries_the_threshold_across_lines() {
    // From 0 percent and with step 100 the first letter of the run is never
    // flipped and the second always is, wherever the line ends.
    let cli = Cli { angry: true, percent: 0, step: Some(Some(100)), ..bare() };

    assert_eq!(cli.convert(lines(&["a", "a", "a", "a"])), Ok(lines(&["a", "A", "a", "A"])));
    assert_eq!(cli.convert(lines(&["AAA", "AAA"])), Ok(lines(&["aAa", "AaA"])));
}

#[test]
fn convert_rejects_invalid_options() {
    let percent = Cli { angry: true, percent: 101, ..bare() };
    assert_eq!(
        percent.convert(lines(&["a"])),
        Err(InvalidConfiguration { percent: 101, step: None })
    );

    let step = Cli { angry: true, step: Some(Some(200)), ..bare() };
    assert_eq!(
        step.convert(lines(&["a"])),
        Err(InvalidConfiguration { percent: 50, step: Some(200) })
    );
    assert!(matches!(
        step.convertor(),
        Err(InvalidConfiguration { percent: 50, step: Some(200) })
    ));
}

#[test]
fn options_of_random_flipping_do_not_matter_to_the_other_conversions() {
    let cli = Cli { uppercase: true, percent: 200, step: Some(Some(200)), ..bare() };

    assert_eq!(cli.convert(lines(&["abc"])), Ok(lines(&["ABC"])));
}

#[test]
fn convertor_applies_the_chosen_conversion() {
    let mut upper = Cli { uppercase: true, ..bare() }.convertor().unwrap();
    assert_eq!(upper.convert(String::from("MiXed")), "MIXED");
    assert_eq!(upper.convert_char('ß'), vec!['S', 'S']);

    let mut lower = Cli { lowercase: true, ..bare() }.convertor().unwrap();
    assert_eq!(lower.convert(String::from("MiXed")), "mixed");

    let mut reverse = Cli { reverse: true, ..bare() }.convertor().unwrap();
    assert_eq!(reverse.convert(String::from("MiXed")), "mIxED");

    let mut random = Cli { angry: true, percent: 100, ..bare() }.convertor().unwrap();
    assert_eq!(random.convert(String::from("MiXed")), "MIXED");
}
