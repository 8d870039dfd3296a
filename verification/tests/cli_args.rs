use payments_toy_engine::cli::{CliArgs, CliError};

#[test]
fn input_file_is_the_first_argument_after_the_name() {
    let args = vec!["program".to_owned(), "input.csv".to_owned(), "more".to_owned()];
    let cli_args = CliArgs::load(&args).expect("arguments");
    assert_eq!(cli_args.input_file_path, "input.csv");
}

#[test]
fn missing_input_file_is_an_error() {
    assert_eq!(
        CliArgs::load(&vec!["program".to_owned()]).err(),
        Some(CliError::InputFileNotPassed)
    );
    assert_eq!(CliArgs::load(&vec![]).err(), Some(CliError::InputFileNotPassed));
    assert_eq!(CliError::InputFileNotPassed.to_text(), "Input file not passed");
}
