use soft65c02::CommandLineArguments;

fn arguments(input: &str, output: &str) -> CommandLineArguments {
    CommandLineArguments {
        input_filepath: input.to_owned(),
        output_filepath: output.to_owned(),
        continue_on_failure: false,
        verbose: false,
        parse: false,
    }
}

#[test]
fn dash_means_standard_streams() {
    let a = arguments("-", "-");
    assert!(a.read_from_standard_input());
    assert!(a.write_to_standard_output());
    let b = arguments("script.txt", "--");
    assert!(!b.read_from_standard_input());
    assert!(!b.write_to_standard_output());
}

#[test]
fn input_path_from_standard_input_is_refused() {
    let a = arguments("-", "-");
    let e = a.get_input_file_path(true).unwrap_err();
    assert_eq!("Reading from standard input.", e.to_string());
}

#[test]
fn existing_input_path_is_given_back() {
    let a = arguments("tests/script.txt", "-");
    assert_eq!("tests/script.txt", a.get_input_file_path(true).unwrap());
}

#[test]
fn missing_input_path_is_reported_quoted() {
    let a = arguments("missing.txt", "-");
    let e = a.get_input_file_path(false).unwrap_err();
    assert_eq!("File not found: '\"missing.txt\"'.", e.to_string());
}

#[test]
fn missing_input_path_is_reported_escaped() {
    let a = arguments("a\"b\\c\nd\u{1b}é", "-");
    let e = a.get_input_file_path(false).unwrap_err();
    assert_eq!(format!("File not found: '{:?}'.", std::path::Path::new("a\"b\\c\nd\u{1b}é").display()), e.to_string());
    assert_eq!("File not found: '\"a\\\"b\\\\c\\nd\\u{1b}é\"'.", e.to_string());
}
