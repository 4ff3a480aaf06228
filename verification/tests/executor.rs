use soft65c02::{Executor, ExecutorConfiguration, OutputToken};

fn no_file(_: &str) -> Option<Vec<u8>> {
    None
}

fn lines(text: &str) -> Vec<String> {
    text.lines().map(|l| l.to_string()).collect()
}

fn run(executor: Executor, text: &str) -> (Result<(), String>, Vec<OutputToken>) {
    let mut tokens = Vec::new();
    let r = executor.run(lines(text), &no_file, &mut tokens).map_err(|e| e.to_string());
    (r, tokens)
}

#[test]
fn test_halt_on_error() {
    let configuration = ExecutorConfiguration::default();
    let executor = Executor::new(configuration);
    let buffer = "marker $$first thing$$\nazerty\nassert true $$not executed$$";
    let (r, tokens) = run(executor, buffer);

    let error = r.unwrap_err();
    assert!(error.contains("azerty"));
    assert_eq!(1, tokens.len());
}

#[test]
fn test_on_error_continue() {
    let configuration = ExecutorConfiguration { ignore_parse_error: true, ..ExecutorConfiguration::default() };
    let executor = Executor::new(configuration);
    let buffer = "marker $$first thing$$\nazerty\nassert true $$shall pass$$";
    let (r, tokens) = run(executor, buffer);

    r.unwrap();
    assert_eq!(2, tokens.len());
}

#[test]
fn test_halt_on_assertion_failed() {
    let configuration = ExecutorConfiguration::default();
    let executor = Executor::new(configuration);
    let buffer = "assert false $$first test$$\nassert true $$second test$$\n";
    let (r, tokens) = run(executor, buffer);
    r.unwrap_err();

    let mut tokens = tokens.into_iter();
    let output = tokens.next().unwrap();
    assert!(
        matches!(output, OutputToken::Assertion { failure, description } if failure.is_some() && description == *"first test")
    );

    // second test is not executed
    assert!(tokens.next().is_none());
}

#[test]
fn test_continue_when_assertion_succeed() {
    let configuration = ExecutorConfiguration::default();
    let executor = Executor::new(configuration);
    let buffer = "assert true $$first test$$\nassert true $$second test$$\n";
    let (r, tokens) = run(executor, buffer);
    r.unwrap();

    assert_eq!(2, tokens.len());
}

#[test]
fn test_continue_when_assertion_failed() {
    let configuration = ExecutorConfiguration { stop_on_failed_assertion: false, ..ExecutorConfiguration::default() };
    let executor = Executor::new(configuration);
    let buffer = "assert false $$first test$$\nassert true $$second test$$\n";
    let (r, tokens) = run(executor, buffer);
    r.unwrap_err();

    assert_eq!(2, tokens.len());
}

#[test]
fn test_execution_ok_without_initial_marker() {
    let text = &[
        "memory write #0x0800 0x(a9,c0)", // LDA $c0
        "run #0x0800",
        "assert A=0xc0 $$accumulator is loaded$$",
    ]
    .join("\n");
    let executor = Executor::new(ExecutorConfiguration::default());
    let (r, tokens) = run(executor, text);
    r.unwrap();

    let mut tokens = tokens.into_iter();
    let output = tokens.next().unwrap();
    assert!(matches!(output, OutputToken::Setup(_)));

    let output = tokens.next().unwrap();
    assert!(matches!(output, OutputToken::Run { loglines, symbols } if loglines.len() == 1 && symbols.is_none()));

    let output = tokens.next().unwrap();
    assert!(
        matches!(output, OutputToken::Assertion { failure, description } if failure.is_none() && description == *"accumulator is loaded")
    );

    assert!(tokens.next().is_none());
}

#[test]
fn test_execution_ok_with_initial_marker() {
    let text = &[
        "marker $$load accumulator$$",
        "memory write #0x0800 0x(a9,c0)", // LDA $c0
        "run #0x0800",
        "assert A=0xc0 $$accumulator is loaded$$",
    ]
    .join("\n");
    let executor = Executor::new(ExecutorConfiguration::default());
    let (r, tokens) = run(executor, text);
    r.unwrap();

    let mut tokens = tokens.into_iter();
    let output = tokens.next().unwrap();
    assert!(matches!(output, OutputToken::Marker { description } if description == *"load accumulator"));

    let output = tokens.next().unwrap();
    assert!(matches!(output, OutputToken::Setup(_)));

    let output = tokens.next().unwrap();
    assert!(matches!(output, OutputToken::Run { loglines, symbols } if loglines.len() == 1 && symbols.is_none()));

    let output = tokens.next().unwrap();
    assert!(
        matches!(output, OutputToken::Assertion { failure, description } if failure.is_none() && description == *"accumulator is loaded")
    );

    assert!(tokens.next().is_none());
}

#[test]
fn test_with_blank_lines() {
    let text = &[
        "memory write #0x0800 0x(a9,c0)", // LDA $c0
        "",
        "run #0x0800",
        "   ",
        "assert A=0xc0 $$accumulator is loaded$$",
    ]
    .join("\n");
    let executor = Executor::new(ExecutorConfiguration::default());
    let (r, tokens) = run(executor, text);
    r.unwrap();

    assert_eq!(3, tokens.len());
}

#[test]
fn test_several_plans() {
    let text = &[
        "registers set A=0xc0",
        "assert A=0xc0 $$accumulator is loaded$$",
        "marker $$second test plan$$",
        "assert A!=0xc0 $$accumulator is random$$",
    ]
    .join("\n");
    let executor = Executor::new(ExecutorConfiguration::default());
    let (_r, tokens) = run(executor, text);

    let _output = tokens.iter().nth(3).expect("there shall be a 4th output token");
}

#[test]
fn several_plans_with_one_failing() {
    let text = &[
        "marker $$first plan$$",
        "assert false $$failing test$$",
        "assert true  $$must not be executed$$",
        "marker $$second plan$$",
        "assert true  $$must be executed$$",
        "assert false $$failing test$$",
        "marker $$third plan$$",
        "assert true $$must be executed$$",
    ]
    .join("\n");
    let executor = Executor::new(ExecutorConfiguration::default());
    let (r, tokens) = run(executor, text);
    r.unwrap_err();
    let mut iter = tokens.into_iter();
    let output = iter.nth(2).expect("there shall be a 3th output token");

    assert!(matches!(output, OutputToken::Marker { description } if description == *"second plan"));
    let output = iter.nth(2).expect("there shall be a 3th output token");

    assert!(matches!(output, OutputToken::Marker { description } if description == *"third plan"));
}

#[test]
fn test_terminated_run_counts_as_failure() {
    let configuration = ExecutorConfiguration::default();
    let executor = Executor::new(configuration);
    let buffer = "memory write #0x1000 0x(ca,d0,fe)\nrun #0x1000 while cycle_count<5\nassert true $$this should be skipped$$\n";
    let (r, tokens) = run(executor, buffer);

    let error = r.unwrap_err();
    assert!(error.contains("1 assertions failed"), "TerminatedRun should count as a failure");

    let mut tokens = tokens.into_iter();
    let output = tokens.next().unwrap();
    assert!(matches!(output, OutputToken::Setup(_)));

    let output = tokens.next().unwrap();
    assert!(matches!(output, OutputToken::TerminatedRun { .. }), "Expected TerminatedRun token");

    assert!(tokens.next().is_none(), "Should not receive any more tokens");
}

#[test]
fn test_terminated_run_stops_execution() {
    let configuration = ExecutorConfiguration::default();
    let executor = Executor::new(configuration);
    let buffer = "memory write #0x1000 0x(ca,d0,fe)\nrun #0x1000 while cycle_count<5\nassert true $$should not execute$$\nassert true $$also should not execute$$\n";
    let (r, tokens) = run(executor, buffer);
    r.unwrap_err();

    let mut tokens = tokens.into_iter();
    let output = tokens.next().unwrap();
    assert!(matches!(output, OutputToken::Setup(_)));

    let output = tokens.next().unwrap();
    assert!(matches!(output, OutputToken::TerminatedRun { .. }), "Expected TerminatedRun token");

    assert!(tokens.next().is_none(), "No more commands should execute after TerminatedRun");
}

#[test]
fn test_terminated_run_continues_after_marker() {
    let configuration = ExecutorConfiguration::default();
    let executor = Executor::new(configuration);
    let buffer = "memory write #0x1000 0x(ca,d0,fe)\nrun #0x1000 while cycle_count<5\nassert true $$should not execute$$\nmarker $$new section$$\nassert true $$should execute$$\nassert true $$should also execute$$\n";
    let (r, tokens) = run(executor, buffer);
    r.unwrap_err();

    let mut tokens = tokens.into_iter();
    let output = tokens.next().unwrap();
    assert!(matches!(output, OutputToken::Setup(_)));

    let output = tokens.next().unwrap();
    assert!(matches!(output, OutputToken::TerminatedRun { .. }), "Expected TerminatedRun token");

    let output = tokens.next().unwrap();
    assert!(matches!(output, OutputToken::Marker { description } if description == "new section"));

    let output = tokens.next().unwrap();
    assert!(matches!(output, OutputToken::Assertion { failure: None, .. }), "First assertion after marker should execute");

    let output = tokens.next().unwrap();
    assert!(matches!(output, OutputToken::Assertion { failure: None, .. }), "Second assertion after marker should execute");
}

#[test]
fn test_terminated_run_stops_execution_even_with_stop_on_failed_assertion_set_to_false() {
    let configuration = ExecutorConfiguration { stop_on_failed_assertion: false, ..ExecutorConfiguration::default() };
    let executor = Executor::new(configuration);
    let buffer = "memory write #0x1000 0x(ca,d0,fe)\nrun #0x1000 while cycle_count<5\nrun #0x1000 while cycle_count<10\nassert true $$should not execute$$\n";
    let (r, outputs) = run(executor, buffer);
    let error = r.unwrap_err();
    assert!(error.contains("1 assertions failed"), "Should only count the first TerminatedRun as a failure");

    assert_eq!(outputs.len(), 2, "Should receive only setup and one TerminatedRun");
    assert!(matches!(outputs[0], OutputToken::Setup(_)));
    assert!(matches!(outputs[1], OutputToken::TerminatedRun { .. }));
}

#[test]
fn test_script() {
    let script = r#"marker $$first test$$
// main program
memory write #0x0800 0x(a9,c0,aa,e8,69,14,00,3a,d5,20,d0,fe,db)

// interrupt subroutine
memory write #0x8000 0x(95,20,40)

// set init vector
memory write #0xfffc 0x(00,08)

// set interrupt vector
memory write #0xfffe 0x(00,80)

// test
run init until CP=0x8000
assert A=0xc0 $$accumulator is loaded$$
run until CP=0x080A
run
assert CP=0x080C $$command pointer points at EOP$$"#;
    let executor = Executor::new(ExecutorConfiguration::default());
    let (r, tokens) = run(executor, script);
    r.unwrap_err();

    let mut tokens = tokens.into_iter();
    let token = tokens.next().unwrap();
    assert!(matches!(token, OutputToken::Marker { description } if description == *"first test"));
    let token = tokens.next().unwrap();
    assert!(matches!(token, OutputToken::Setup(lines) if lines == vec!["13 bytes written"]));
    let token = tokens.next().unwrap();
    assert!(matches!(token, OutputToken::Setup(lines) if lines == vec!["3 bytes written"]));
    let token = tokens.next().unwrap();
    assert!(matches!(token, OutputToken::Setup(lines) if lines == vec!["2 bytes written"]));
    let token = tokens.next().unwrap();
    assert!(matches!(token, OutputToken::Setup(lines) if lines == vec!["2 bytes written"]));
    let token = tokens.next().unwrap();
    assert!(matches!(token, OutputToken::Run { loglines: _logs, symbols: None }));
    let token = tokens.next().unwrap();

    assert!(
        matches!(token, OutputToken::Assertion { failure, description } if failure.is_some() && description == *"accumulator is loaded")
    );

    assert!(tokens.next().is_none());
}

#[test]
fn symbols_defined_in_a_script_are_known_to_later_lines() {
    let text = "symbols add counter=0x0200\nmemory write $counter 0x(2a)\nassert $counter = 0x2a $$counter holds 42$$";
    let executor = Executor::new(ExecutorConfiguration::default());
    let (r, tokens) = run(executor, text);
    r.unwrap();
    assert_eq!(3, tokens.len());
}

#[test]
fn symbol_file_is_read_through_the_loader() {
    let text = "symbols load \"labels.txt\"\nmemory write $start 0x(ea)\nassert #0x0803 = 0xea $$written at the label$$";
    let executor = Executor::new(ExecutorConfiguration::default());
    let load = |p: &str| if p == "labels.txt" { Some(b"al 000803 .start\n".to_vec()) } else { None };
    let mut tokens = Vec::new();
    executor.run(lines(text), &load, &mut tokens).unwrap();
    assert!(matches!(&tokens[0], OutputToken::Setup(s) if s[0] == "1 symbols loaded"));
    assert_eq!(3, tokens.len());
}

#[test]
fn commands_are_read_without_surrounding_white_space() {
    let text = "\u{a0}marker $$first plan$$\u{3000}\n  registers flush\u{2003}";
    let executor = Executor::new(ExecutorConfiguration::default());
    let (r, tokens) = run(executor, text);
    r.unwrap();
    assert_eq!(2, tokens.len());
    assert!(matches!(&tokens[0], OutputToken::Marker { description } if description == "first plan"));
}

#[test]
fn unreadable_line_stops_the_run_naming_the_line() {
    let executor = Executor::new(ExecutorConfiguration::default());
    let (r, tokens) = run(executor, "marker $$first thing$$\n  azerty  \nassert true $$not executed$$");
    assert_eq!("cannot parse 'azerty': syntax error: expected a command", r.unwrap_err());
    assert_eq!(1, tokens.len());
}
