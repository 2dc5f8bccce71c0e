use gol::config::{decimal, parse_u32, Config};

fn args(items: &[&str]) -> Vec<String> {
    items.iter().map(|s| s.to_string()).collect()
}

fn default_def() -> Config {
    Config::WorldDef {
        width: 40,
        height: 40,
        num_starting_cells: 40,
        seed: 1,
        dead_char: None,
        alive_char: None,
    }
}

#[test]
fn parses_decimal_numbers_like_std() {
    for text in ["0", "7", "+7", "007", "4294967295", "4294967296", "", "+", "-1", "-0", " 1", "1 ", "1_000", "12a"] {
        assert_eq!(parse_u32(text), text.parse::<u32>().ok(), "{:?}", text);
    }
}

#[test]
fn writes_decimal_numbers() {
    assert_eq!(decimal(0), "0");
    assert_eq!(decimal(9), "9");
    assert_eq!(decimal(10), "10");
    assert_eq!(decimal(4045), "4045");
    assert_eq!(decimal(usize::MAX), usize::MAX.to_string());
}

#[test]
fn parse_args_reads_four_numbers() {
    let (w, h, n, s) = ("40".to_owned(), "30".to_owned(), "+5".to_owned(), "4045".to_owned());
    assert_eq!(Config::parse_args(&w, &h, &n, &s), Ok((40, 30, 5, 4045)));
    let bad = "x".to_owned();
    assert_eq!(
        Config::parse_args(&w, &bad, &n, &s),
        Err("Unable to parse parameters, please try again.".to_owned())
    );
}

#[test]
fn no_argument_gives_the_default() {
    assert_eq!(Config::new(args(&["gol"]), default_def(), vec!["gosper"]), Ok(default_def()));
}

#[test]
fn known_preset_is_chosen() {
    assert_eq!(
        Config::new(args(&["gol", "gosper"]), default_def(), vec!["gosper"]),
        Ok(Config::Preset { key: "gosper".to_owned() })
    );
}

#[test]
fn unknown_preset_is_an_error() {
    assert_eq!(
        Config::new(args(&["gol", "glider"]), default_def(), vec!["gosper", "pulsar"]),
        Err("Unknown preset, choose from [\"gosper\", \"pulsar\"].".to_owned())
    );
}

#[test]
fn help_lists_the_presets() {
    let message = Config::new(args(&["gol", "help"]), default_def(), vec!["gosper"]).unwrap_err();
    assert!(message.starts_with("try: gol\ntry: gol [\"gosper\"]\ntry: gol [width height"));
    assert!(message.ends_with("$ gol 40 40 40 4045 \"-\" \"#\""));
}

#[test]
fn world_description_with_and_without_glyphs() {
    assert_eq!(
        Config::new(args(&["gol", "10", "20", "30", "40"]), default_def(), vec![]),
        Ok(Config::WorldDef {
            width: 10,
            height: 20,
            num_starting_cells: 30,
            seed: 40,
            dead_char: None,
            alive_char: None,
        })
    );
    assert_eq!(
        Config::new(args(&["gol", "10", "20", "30", "40", "-", "#"]), default_def(), vec![]),
        Ok(Config::WorldDef {
            width: 10,
            height: 20,
            num_starting_cells: 30,
            seed: 40,
            dead_char: Some("-".to_owned()),
            alive_char: Some("#".to_owned()),
        })
    );
    assert_eq!(
        Config::new(args(&["gol", "10", "twenty", "30", "40"]), default_def(), vec![]),
        Err("Unable to parse parameters, please try again.".to_owned())
    );
}

#[test]
fn wrong_number_of_arguments() {
    assert_eq!(
        Config::new(args(&["gol", "1", "2"]), default_def(), vec![]),
        Err("Expected at least 4 or 6 args but got 2".to_owned())
    );
    assert_eq!(
        Config::new(args(&["gol", "1", "2", "3", "4", "5"]), default_def(), vec![]),
        Err("Expected at least 4 or 6 args but got 5".to_owned())
    );
}
