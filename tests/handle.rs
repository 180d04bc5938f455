use crossbeam_channel::unbounded;
use maestro::events::TerminalCommand;
use maestro::handle::TerminalHandle;

#[test]
fn test_terminal_handle_send_input() {
    let (tx, rx) = unbounded();
    let handle = TerminalHandle::new(tx);

    let input = b"echo hello\n".to_vec();
    handle.send_input(input.clone()).expect("Failed to send input");

    let received = rx.recv().expect("Failed to receive command");
    match received {
        TerminalCommand::Input(data) => assert_eq!(data, input),
        _ => panic!("Expected Input command"),
    }
}

#[test]
fn test_terminal_handle_resize() {
    let (tx, rx) = unbounded();
    let handle = TerminalHandle::new(tx);

    handle.resize(50, 100).expect("Failed to send resize");

    let received = rx.recv().expect("Failed to receive command");
    match received {
        TerminalCommand::Resize { rows, cols } => {
            assert_eq!(rows, 50);
            assert_eq!(cols, 100);
        }
        _ => panic!("Expected Resize command"),
    }
}

#[test]
fn test_terminal_handle_shutdown() {
    let (tx, rx) = unbounded();
    let handle = TerminalHandle::new(tx);

    handle.shutdown().expect("Failed to send shutdown");

    let received = rx.recv().expect("Failed to receive command");
    assert!(matches!(received, TerminalCommand::Shutdown));
}

#[test]
fn test_terminal_handle_clone() {
    let (tx, rx) = unbounded();
    let handle1 = TerminalHandle::new(tx);
    let handle2 = handle1.clone();

    handle1.send_input(b"from handle1".to_vec()).expect("Failed to send");
    handle2.send_input(b"from handle2".to_vec()).expect("Failed to send");

    let cmd1 = rx.recv().expect("Failed to receive");
    let cmd2 = rx.recv().expect("Failed to receive");

    assert!(matches!(cmd1, TerminalCommand::Input(_)));
    assert!(matches!(cmd2, TerminalCommand::Input(_)));
}

#[test]
fn test_terminal_handle_non_blocking() {
    let (tx, _rx) = unbounded();
    let handle = TerminalHandle::new(tx);

    // These should all return immediately without blocking
    let start = std::time::Instant::now();
    for _ in 0..100 {
        handle.send_input(b"test".to_vec()).expect("Failed to send");
    }
    let elapsed = start.elapsed();

    // Should complete in well under 100ms for 100 non-blocking sends
    assert!(elapsed.as_millis() < 100, "send_input should be non-blocking");
}

#[test]
fn send_after_loop_gone_hands_command_back() {
    let (tx, rx) = unbounded();
    let handle = TerminalHandle::new(tx);
    drop(rx);
    let err = handle.send_input(b"lost".to_vec()).unwrap_err();
    match err.command {
        TerminalCommand::Input(data) => assert_eq!(data, b"lost".to_vec()),
        _ => panic!("Expected the Input command back"),
    }
    let err = handle.resize(3, 4).unwrap_err();
    assert!(matches!(err.command, TerminalCommand::Resize { rows: 3, cols: 4 }));
    assert!(matches!(handle.shutdown().unwrap_err().command, TerminalCommand::Shutdown));
}

#[test]
fn cloned_handles_deliver_each_command_whole_once() {
    let (tx, rx) = unbounded();
    let handle1 = TerminalHandle::new(tx);
    let handle2 = handle1.clone();
    for i in 0..50u8 {
        handle1.send_input(vec![1, i, i, i]).unwrap();
        handle2.send_input(vec![2, i, i, i]).unwrap();
        if i % 3 == 0 {
            handle2.send_input(vec![2, 100 + i, 100 + i, 100 + i]).unwrap();
        }
    }
    let mut seen1 = Vec::new();
    let mut seen2 = Vec::new();
    while let Ok(cmd) = rx.try_recv() {
        match cmd {
            TerminalCommand::Input(data) => {
                assert_eq!(data.len(), 4);
                assert_eq!(data[1], data[2]);
                assert_eq!(data[2], data[3]);
                if data[0] == 1 {
                    seen1.push(data[1]);
                } else {
                    seen2.push(data[1]);
                }
            }
            _ => panic!("Expected Input command"),
        }
    }
    assert_eq!(seen1, (0..50u8).collect::<Vec<u8>>());
    let mut expected2 = Vec::new();
    for i in 0..50u8 {
        expected2.push(i);
        if i % 3 == 0 {
            expected2.push(100 + i);
        }
    }
    assert_eq!(seen2, expected2);
}
