use sysutils::cat::{decorate_line, run, Cli};

fn lines(texts: &[&str]) -> Vec<String> {
    texts.iter().map(|t| t.to_string()).collect()
}

#[test]
fn no_file_name_means_standard_input() {
    assert!(Cli::new(None, false, false).reads_stdin());
    assert!(Cli::new(Some("-".to_string()), true, true).reads_stdin());
}

#[test]
fn any_other_name_is_a_file() {
    for name in ["a.txt", "--", "-a", "", " -", "−"] {
        assert!(!Cli::new(Some(name.to_string()), false, false).reads_stdin());
    }
}

#[test]
fn standard_input_is_echoed_undecorated() {
    let config = Cli::new(None, true, true);
    assert_eq!(run(&config, &lines(&["one", "two"])), lines(&["one", "two"]));
    let dash = Cli::new(Some("-".to_string()), true, true);
    assert_eq!(run(&dash, &lines(&["one", ""])), lines(&["one", ""]));
}

#[test]
fn a_plain_file_comes_out_as_it_is() {
    let config = Cli::new(Some("f".to_string()), false, false);
    assert_eq!(run(&config, &lines(&["alpha", "", "gamma"])), lines(&["alpha", "", "gamma"]));
}

#[test]
fn lines_are_numbered_from_zero_without_a_gap() {
    let config = Cli::new(Some("f".to_string()), false, true);
    assert_eq!(run(&config, &lines(&["alpha", "", "gamma"])), lines(&["0alpha", "1", "2gamma"]));
}

#[test]
fn lines_end_in_a_dollar() {
    let config = Cli::new(Some("f".to_string()), true, false);
    assert_eq!(run(&config, &lines(&["alpha", ""])), lines(&["alpha$", "$"]));
}

#[test]
fn numbered_and_terminated() {
    let config = Cli::new(Some("f".to_string()), true, true);
    let input: Vec<String> = (0..12).map(|i| format!("l{}", i)).collect();
    let output = run(&config, &input);
    assert_eq!(output.len(), 12);
    assert_eq!(output[0], "0l0$");
    assert_eq!(output[9], "9l9$");
    assert_eq!(output[10], "10l10$");
    assert_eq!(output[11], "11l11$");
}

#[test]
fn nothing_in_nothing_out() {
    let config = Cli::new(Some("f".to_string()), true, true);
    assert!(run(&config, &Vec::new()).is_empty());
}

#[test]
fn one_line_on_its_own() {
    let config = Cli::new(Some("f".to_string()), true, true);
    assert_eq!(decorate_line(&config, 41, "text"), "41text$");
    let bare = Cli::new(Some("f".to_string()), false, false);
    assert_eq!(decorate_line(&bare, 41, "naïve"), "naïve");
}
