use maestro::events::{TerminalCommand, TerminalEvent};

#[test]
fn test_terminal_event_output() {
    let event = TerminalEvent::Output(vec![72, 101, 108, 108, 111]); // "Hello"
    match event {
        TerminalEvent::Output(data) => assert_eq!(data, vec![72, 101, 108, 108, 111]),
        _ => panic!("Expected Output event"),
    }
}

#[test]
fn test_terminal_event_process_exited() {
    let event = TerminalEvent::ProcessExited(0);
    match event {
        TerminalEvent::ProcessExited(code) => assert_eq!(code, 0),
        _ => panic!("Expected ProcessExited event"),
    }
}

#[test]
fn test_terminal_event_resized() {
    let event = TerminalEvent::Resized { rows: 24, cols: 80 };
    match event {
        TerminalEvent::Resized { rows, cols } => {
            assert_eq!(rows, 24);
            assert_eq!(cols, 80);
        }
        _ => panic!("Expected Resized event"),
    }
}

#[test]
fn test_terminal_command_input() {
    let cmd = TerminalCommand::Input(b"ls -la\n".to_vec());
    match cmd {
        TerminalCommand::Input(data) => assert_eq!(data, b"ls -la\n".to_vec()),
        _ => panic!("Expected Input command"),
    }
}

#[test]
fn test_terminal_command_resize() {
    let cmd = TerminalCommand::Resize { rows: 50, cols: 100 };
    match cmd {
        TerminalCommand::Resize { rows, cols } => {
            assert_eq!(rows, 50);
            assert_eq!(cols, 100);
        }
        _ => panic!("Expected Resize command"),
    }
}

#[test]
fn test_terminal_command_shutdown() {
    let cmd = TerminalCommand::Shutdown;
    matches!(cmd, TerminalCommand::Shutdown);
}
