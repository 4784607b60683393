use minigrep::{run, Config};

fn arguments(given: &[&str]) -> Vec<String> {
    given.iter().map(|argument| argument.to_string()).collect()
}

#[test]
fn config_takes_query_and_filename_in_order() {
    let args = arguments(&["minigrep", "tap", "poem.txt"]);
    let config = match Config::new(&args, false) {
        Ok(config) => config,
        Err(message) => panic!("{}", message),
    };

    assert_eq!("tap", config.query);
    assert_eq!("poem.txt", config.filename);
    assert!(config.case_sensitive);
}

#[test]
fn config_ignores_case_when_asked() {
    let args = arguments(&["minigrep", "tap", "poem.txt"]);
    let config = match Config::new(&args, true) {
        Ok(config) => config,
        Err(message) => panic!("{}", message),
    };

    assert!(!config.case_sensitive);
}

#[test]
fn config_needs_query_and_filename() {
    let none = arguments(&[]);
    let program_only = arguments(&["minigrep"]);
    let query_only = arguments(&["minigrep", "tap"]);

    assert_eq!(Some("not enough arguments"), Config::new(&none, false).err());
    assert_eq!(Some("not enough arguments"), Config::new(&program_only, false).err());
    assert_eq!(Some("not enough arguments"), Config::new(&query_only, false).err());
    assert_eq!(Some("not enough arguments"), Config::new(&query_only, true).err());
}

#[test]
fn config_ignores_further_arguments() {
    let args = arguments(&["minigrep", "tap", "poem.txt", "other.txt"]);
    let config = match Config::new(&args, false) {
        Ok(config) => config,
        Err(message) => panic!("{}", message),
    };

    assert_eq!("tap", config.query);
    assert_eq!("poem.txt", config.filename);
}

#[test]
fn config_does_not_look_at_its_texts() {
    let args = arguments(&["minigrep", "", ""]);
    let config = match Config::new(&args, false) {
        Ok(config) => config,
        Err(message) => panic!("{}", message),
    };

    assert_eq!("", config.query);
    assert_eq!("", config.filename);
}

#[test]
fn run_searches_as_configured() {
    let contents = "Rust:\nsafe, fast, productive.\nPick three.\nTrust me.";
    let with_case = Config { query: "rust".to_string(), filename: "poem.txt".to_string(), case_sensitive: true };
    let without_case = Config { query: "rust".to_string(), filename: "poem.txt".to_string(), case_sensitive: false };

    assert_eq!(vec!["Trust me."], run(&with_case, contents));
    assert_eq!(vec!["Rust:", "Trust me."], run(&without_case, contents));
}

#[test]
fn run_finds_nothing_in_an_empty_file() {
    let config = Config { query: "rust".to_string(), filename: "empty.txt".to_string(), case_sensitive: true };
    let none: Vec<&str> = vec![];

    assert_eq!(none, run(&config, ""));
}
