use soft65c02::command_executor::{CommandExecutor, Executor};
use std::cell::RefCell;
use std::rc::Rc;

/// Records the commands and gives back predefined results.
struct MockExecutor {
    commands: Rc<RefCell<Vec<Vec<String>>>>,
    results: Vec<Result<(), String>>,
}

impl MockExecutor {
    fn new(results: Vec<Result<(), String>>) -> Self {
        Self { commands: Rc::new(RefCell::new(Vec::new())), results }
    }

    fn get_commands(&self) -> Vec<Vec<String>> {
        self.commands.borrow().clone()
    }
}

impl Executor for MockExecutor {
    fn execute(&self, args: &[String]) -> Result<(), String> {
        self.commands.borrow_mut().push(args.to_vec());
        self.results.get(self.commands.borrow().len() - 1).cloned().unwrap_or(Ok(()))
    }
}

#[test]
fn test_mock_executor() {
    let mock = MockExecutor::new(vec![Ok(()), Err("mock error".to_string()), Ok(())]);

    let args1 = vec!["test1".to_string()];
    let args2 = vec!["test2".to_string()];
    let args3 = vec!["test3".to_string()];

    assert!(mock.execute(&args1).is_ok());
    assert!(mock.execute(&args2).is_err());
    assert!(mock.execute(&args3).is_ok());

    let commands = mock.get_commands();
    assert_eq!(commands.len(), 3);
    assert_eq!(commands[0], args1);
    assert_eq!(commands[1], args2);
    assert_eq!(commands[2], args3);
}

#[test]
fn executor_builders_keep_name_and_verbosity() {
    let quiet = CommandExecutor::new("soft65c02_tester");
    assert_eq!("soft65c02_tester", quiet.executable);
    assert!(!quiet.verbose);
    let loud = CommandExecutor::with_verbose("echo", true);
    assert_eq!("echo", loud.executable);
    assert!(loud.verbose);
}

#[test]
fn successful_run_ignores_error_output() {
    let e = CommandExecutor::new("echo");
    assert_eq!(Ok(()), e.outcome(true, "Error: something"));
    assert_eq!(Ok(()), e.outcome(true, ""));
}

#[test]
fn failed_run_reports_message_after_marker() {
    let e = CommandExecutor::new("soft65c02_tester");
    assert_eq!(Err("3 assertions failed!".to_string()), e.outcome(false, "  Error:   3 assertions failed!\n"));
    assert_eq!(Err("".to_string()), e.outcome(false, "Error:"));
    assert!(e.is_error_report("\n Error: x"));
}

#[test]
fn failed_run_reports_whole_error_output_without_marker() {
    let e = CommandExecutor::new("soft65c02_tester");
    assert_eq!(Err("  panicked\n".to_string()), e.outcome(false, "  panicked\n"));
    assert_eq!(Err("Error".to_string()), e.outcome(false, "Error"));
    assert!(!e.is_error_report("error: lower case"));
    assert!(!e.is_error_report("Err"));
}
