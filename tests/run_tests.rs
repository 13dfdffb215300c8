use minigrep::config::{Config, ConfigError};
use minigrep::menu::{print_type, Appetizer};
use minigrep::plant::Vegetable;
use minigrep::runner::{matches_for, run, RunError};

fn args(items: &[&str]) -> Vec<String> {
    items.iter().map(|s| s.to_string()).collect()
}

#[test]
fn config_missing_query() {
    for signal in [false, true] {
        assert_eq!(Some(ConfigError::MissingQuery), Config::new(&args(&["minigrep"]), signal).err());
        assert_eq!(Some(ConfigError::MissingQuery), Config::new(&args(&[]), signal).err());
    }
}

#[test]
fn config_missing_path() {
    for signal in [false, true] {
        assert_eq!(
            Some(ConfigError::MissingPath),
            Config::new(&args(&["minigrep", "needle"]), signal).err()
        );
    }
}

#[test]
fn config_reads_query_path_and_signal() {
    let c = Config::new(&args(&["minigrep", "needle", "poem.txt"]), false).ok().unwrap();
    assert_eq!("needle", c.query);
    assert_eq!("poem.txt", c.filename);
    assert!(c.case_sensitive);
    let c = Config::new(&args(&["minigrep", "needle", "poem.txt", "extra"]), true).ok().unwrap();
    assert!(!c.case_sensitive);
}

#[test]
fn config_error_messages() {
    assert_eq!("Didn't get a query string", ConfigError::MissingQuery.message());
    assert_eq!("Didn't get a file name", ConfigError::MissingPath.message());
}

#[test]
fn run_on_unreadable_file_fails_without_lines() {
    let c = Config::new(&args(&["minigrep", "x", "/no/such/file"]), false).ok().unwrap();
    let r = run(c, Err("No such file or directory".to_string()));
    assert_eq!(Err(RunError::IoFailure("No such file or directory".to_string())), r);
}

#[test]
fn run_returns_matches_in_order() {
    let c = Config::new(&args(&["minigrep", "to", "f"]), false).ok().unwrap();
    let r = run(c, Ok("to be\nor not\nto be".to_string()));
    assert_eq!(Ok(vec!["to be".to_string(), "to be".to_string()]), r);
}

#[test]
fn run_with_no_match_succeeds() {
    let c = Config::new(&args(&["minigrep", "zzz", "f"]), false).ok().unwrap();
    assert_eq!(Ok(Vec::<String>::new()), run(c, Ok("abc\ndef".to_string())));
}

#[test]
fn run_twice_gives_same_output() {
    let text = "Rust:\nsafe, fast, productive.\nTrust me.";
    let first = run(Config::new(&args(&["minigrep", "rUsT", "f"]), true).ok().unwrap(), Ok(text.to_string()));
    let second = run(Config::new(&args(&["minigrep", "rUsT", "f"]), true).ok().unwrap(), Ok(text.to_string()));
    assert_eq!(first, second);
    assert_eq!(Ok(vec!["Rust:".to_string(), "Trust me.".to_string()]), first);
}

#[test]
fn matches_for_follows_case_setting() {
    let text = "Duct tape.\nproductive";
    let exact = Config::new(&args(&["minigrep", "duct", "f"]), false).ok().unwrap();
    let folded = Config::new(&args(&["minigrep", "duct", "f"]), true).ok().unwrap();
    assert_eq!(vec!["productive"], matches_for(&exact, text));
    assert_eq!(vec!["Duct tape.", "productive"], matches_for(&folded, text));
}

#[test]
fn vegetable_new_sets_name_and_number() {
    let mut v = Vegetable::new("squash");
    assert_eq!("squash", v.name);
    assert_eq!(1, v.id());
    v.name = String::from("butternut squash");
    assert_eq!("butternut squash", v.name);
}

#[test]
fn appetizer_names() {
    assert_eq!("Soup", print_type(&Appetizer::Soup));
    assert_eq!("Salad", print_type(&Appetizer::Salad));
}
