use soft65c02::{execute_step, AddressableIO, CliDisplayer, Displayer, LogLine, Memory, OutputToken, Registers};

fn logline(program: &[u8]) -> LogLine {
    let mut memory = Memory::new_with_ram();
    memory.write(0x1000, &program.to_vec()).unwrap();
    let mut registers = Registers::new(0x1000);
    execute_step(&mut registers, &mut memory).unwrap()
}

#[test]
fn test_displayer() {
    let mut displayer = CliDisplayer::new(false);
    let marker = displayer.display(&OutputToken::Marker { description: "test".to_string() });
    let assertion = displayer.display(&OutputToken::Assertion {
        failure: Some("this is a failure".to_string()),
        description: "assertion".to_string(),
    });
    let output = format!("{marker}{assertion}");
    for (no, line) in output.lines().enumerate() {
        println!("line {no:02} - {}", line);
    }
    assert_eq!(output, "📄 test\n⚡ 01 → assertion ❌ (this is a failure)\n");
}

#[test]
fn displayer_numbers_assertions() {
    let mut displayer = CliDisplayer::new(false);
    let first = displayer.display(&OutputToken::Assertion { failure: None, description: "one".to_string() });
    let marker = displayer.display(&OutputToken::Marker { description: "plan".to_string() });
    let second = displayer.display(&OutputToken::Assertion { failure: None, description: "two".to_string() });
    assert_eq!(first, "⚡ 01 → one ✅\n");
    assert_eq!(marker, "📄 plan\n");
    assert_eq!(second, "⚡ 02 → two ✅\n");
    assert_eq!(displayer.assertions, 2);
}

#[test]
fn displayer_pads_to_two_digits_only() {
    let mut displayer = CliDisplayer { verbose: false, assertions: 99 };
    let text = displayer.display(&OutputToken::Assertion { failure: None, description: "x".to_string() });
    assert_eq!(text, "⚡ 100 → x ✅\n");
}

#[test]
fn displayer_hides_runs_and_setup_unless_verbose() {
    let mut quiet = CliDisplayer::new(false);
    let run = OutputToken::Run { loglines: vec![logline(&[0xe8])], symbols: None };
    assert_eq!(quiet.display(&run), "");
    assert_eq!(quiet.display(&OutputToken::Setup(vec!["memory flushed".to_string()])), "");
    assert_eq!(quiet.display(&OutputToken::Nothing), "");
}

#[test]
fn displayer_shows_runs_in_verbose_mode() {
    let mut verbose = CliDisplayer::new(true);
    let one = logline(&[0xe8]);
    let text_one = one.to_string();
    let run = OutputToken::Run { loglines: vec![one], symbols: None };
    assert_eq!(verbose.display(&run), format!("🚀 {text_one}\n"));

    let a = logline(&[0xe8]);
    let b = logline(&[0xa9, 0x10]);
    let (ta, tb) = (a.to_string(), b.to_string());
    let total = a.cycles as u32 + b.cycles as u32;
    let run = OutputToken::Run { loglines: vec![a, b], symbols: None };
    assert_eq!(verbose.display(&run), format!("🚀 {ta}\n🚀 {tb}\n🕒 Total cycles: {total}\n"));

    let empty = OutputToken::Run { loglines: vec![], symbols: None };
    assert_eq!(verbose.display(&empty), "\n");

    let setup = OutputToken::Setup(vec!["first".to_string(), "second".to_string()]);
    assert_eq!(verbose.display(&setup), "🔧 Setup: first\n");
}

#[test]
fn empty_setup_report_shows_nothing_when_not_verbose() {
    let mut displayer = CliDisplayer::new(false);
    assert_eq!("", displayer.display(&OutputToken::Setup(Vec::new())));
}
