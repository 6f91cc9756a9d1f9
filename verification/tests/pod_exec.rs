use scalex_dash::pod_exec::{
    attach_plan, exec_commands, exec_step, on_read, shell_candidates, ExecMessage, ExecRequest,
    ExecSession, ExecStep, ReadResult, TerminalSize,
};
// -- ExecRequest constructors ------------------------------------------

#[test]
fn exec_request_shell_defaults() {
    let req = ExecRequest::shell("my-pod", "default");
    assert_eq!(req.pod_name, "my-pod");
    assert_eq!(req.namespace, "default");
    assert!(req.command.is_empty(), "shell request has no fixed command");
    assert!(req.tty, "shell request defaults to tty=true");
    assert!(req.container.is_none());
}

#[test]
fn exec_request_with_command() {
    let req =
        ExecRequest::with_command("pod-1", "kube-system", vec!["ls".into(), "-la".into()]);
    assert_eq!(req.pod_name, "pod-1");
    assert_eq!(req.namespace, "kube-system");
    assert_eq!(req.command, vec!["ls", "-la"]);
    assert!(!req.tty, "with_command defaults to tty=false");
}

#[test]
fn exec_request_builder_chain() {
    let req = ExecRequest::shell("pod", "ns")
        .container("sidecar")
        .tty(false);
    assert_eq!(req.container.as_deref(), Some("sidecar"));
    assert!(!req.tty);
}

// -- ExecMessage variants ----------------------------------------------

#[test]
fn exec_message_debug() {
    // Ensure all variants are Debug-printable (compile-time + runtime check)
    let msgs = vec![
        ExecMessage::Stdout(b"hello".to_vec()),
        ExecMessage::Stderr(b"warn".to_vec()),
        ExecMessage::Exited(None),
        ExecMessage::Exited(Some("signal 9".into())),
        ExecMessage::Error("connection lost".into()),
    ];
    for m in &msgs {
        let _ = format!("{:?}", m);
    }
}

#[test]
fn exec_message_clone() {
    let msg = ExecMessage::Stdout(vec![1, 2, 3]);
    let cloned = msg.clone();
    match cloned {
        ExecMessage::Stdout(data) => assert_eq!(data, vec![1, 2, 3]),
        _ => panic!("unexpected variant"),
    }
}

// -- TerminalSize ------------------------------------------------------

#[test]
fn terminal_size_copy() {
    let ts = TerminalSize { cols: 80, rows: 24 };
    let ts2 = ts; // Copy
    assert_eq!(ts2.cols, 80);
    assert_eq!(ts2.rows, 24);
}

// -- ExecSession unit tests (no cluster needed) ------------------------

/// A session that runs.
fn make_test_session() -> ExecSession {
    ExecSession {
        active: true,
        pod_name: "test-pod".into(),
        container_name: "app".into(),
        namespace: "default".into(),
        output_lines: Vec::new(),
        input_line: String::new(),
    }
}

#[test]
fn session_title_with_container() {
    let session = make_test_session();
    assert_eq!(session.title(), "exec: default/test-pod (app)");
}

#[test]
fn session_title_without_container() {
    let mut session = make_test_session();
    session.container_name = String::new();
    assert_eq!(session.title(), "exec: default/test-pod");
}

#[test]
fn session_line_count_starts_at_zero() {
    let session = make_test_session();
    assert_eq!(session.line_count(), 0);
}

#[test]
fn poll_messages_stdout() {
    let mut session = make_test_session();
    let mut pending = Vec::new();
    pending.push(ExecMessage::Stdout(b"hello world\n".to_vec()));
    pending.push(ExecMessage::Stdout(b"line two\n".to_vec()));

    let msgs = session.poll_messages(std::mem::take(&mut pending));
    assert_eq!(msgs.len(), 2);
    assert!(session.active);
    assert_eq!(session.line_count(), 2);
    assert_eq!(session.output_lines[0], "hello world");
    assert_eq!(session.output_lines[1], "line two");
}

#[test]
fn poll_messages_stderr() {
    let mut session = make_test_session();
    let mut pending = Vec::new();
    pending.push(ExecMessage::Stderr(b"error output\n".to_vec()));

    let msgs = session.poll_messages(std::mem::take(&mut pending));
    assert_eq!(msgs.len(), 1);
    assert!(session.active);
    assert_eq!(session.output_lines[0], "error output");
}

#[test]
fn poll_messages_exited_marks_inactive() {
    let mut session = make_test_session();
    let mut pending = Vec::new();
    pending.push(ExecMessage::Exited(None));

    let msgs = session.poll_messages(std::mem::take(&mut pending));
    assert_eq!(msgs.len(), 1);
    assert!(!session.active);
    assert_eq!(session.output_lines[0], "[session exited]");
}

#[test]
fn poll_messages_exited_with_reason() {
    let mut session = make_test_session();
    let mut pending = Vec::new();
    pending.push(ExecMessage::Exited(Some("signal 15".into())));

    session.poll_messages(std::mem::take(&mut pending));
    assert!(!session.active);
    assert_eq!(session.output_lines[0], "[session exited: signal 15]");
}

#[test]
fn poll_messages_error_marks_inactive() {
    let mut session = make_test_session();
    let mut pending = Vec::new();
    pending.push(ExecMessage::Error("connection refused".into()));

    session.poll_messages(std::mem::take(&mut pending));
    assert!(!session.active);
    assert_eq!(session.output_lines[0], "[error: connection refused]");
}

#[test]
fn poll_messages_empty_when_no_messages() {
    let mut session = make_test_session();
    let pending = Vec::new();
    let msgs = session.poll_messages(pending);
    assert!(msgs.is_empty());
    assert!(session.active);
}

#[test]
fn close_marks_inactive() {
    let mut session = make_test_session();
    assert!(session.active);
    session.close();
    assert!(!session.active);
}

#[test]
fn close_is_idempotent() {
    let mut session = make_test_session();
    session.close();
    session.close(); // should not panic
    assert!(!session.active);
}

#[test]
fn poll_multiple_mixed_messages() {
    let mut session = make_test_session();
    let mut pending = Vec::new();
    pending.push(ExecMessage::Stdout(b"line1\nline2\n".to_vec()));
    pending.push(ExecMessage::Stderr(b"warning\n".to_vec()));
    pending.push(ExecMessage::Stdout(b"line3\n".to_vec()));

    let msgs = session.poll_messages(std::mem::take(&mut pending));
    assert_eq!(msgs.len(), 3);
    assert!(session.active);
    // line1, line2 from first msg, warning from second, line3 from third
    assert_eq!(session.line_count(), 4);
}

#[test]
fn shell_candidates_are_valid() {
    assert!(shell_candidates().len() >= 2);
    assert!(shell_candidates().contains(&"/bin/bash".to_string()));
    assert!(shell_candidates().contains(&"/bin/sh".to_string()));
}

#[test]
fn output_lines_accumulate_across_polls() {
    let mut session = make_test_session();
    let mut pending = Vec::new();
    pending.push(ExecMessage::Stdout(b"first\n".to_vec()));
    session.poll_messages(std::mem::take(&mut pending));
    assert_eq!(session.line_count(), 1);

    pending.push(ExecMessage::Stdout(b"second\n".to_vec()));
    session.poll_messages(std::mem::take(&mut pending));
    assert_eq!(session.line_count(), 2);
    assert_eq!(session.output_lines[0], "first");
    assert_eq!(session.output_lines[1], "second");
}

#[test]
fn binary_output_handled_as_lossy_utf8() {
    let mut session = make_test_session();
    let mut pending = Vec::new();
    // Invalid UTF-8 bytes
    pending.push(ExecMessage::Stdout(vec![0xFF, 0xFE, 0x68, 0x69]));
    session.poll_messages(std::mem::take(&mut pending));
    // Should not panic; lossy conversion replaces invalid bytes
    assert_eq!(session.line_count(), 1);
    assert!(session.output_lines[0].contains("hi"));
}

#[test]
fn shells_are_tried_in_order() {
    let commands = exec_commands(&ExecRequest::shell("pod", "ns"));
    assert_eq!(commands, vec![vec!["/bin/bash"], vec!["/bin/sh"]]);
    let req = ExecRequest::with_command("pod", "ns", vec!["ls".into(), "-l".into()]);
    assert_eq!(exec_commands(&req), vec![vec!["ls", "-l"]]);
}

#[test]
fn commands_are_tried_until_none_is_left() {
    assert!(matches!(exec_step(2, 0, None), ExecStep::Try(0)));
    assert!(matches!(exec_step(2, 1, Some("no bash")), ExecStep::Try(1)));
    match exec_step(2, 2, Some("no sh")) {
        ExecStep::GiveUp(ExecMessage::Error(e)) => assert_eq!(e, "exec failed: no sh"),
        other => panic!("unexpected step {:?}", other),
    }
    match exec_step(0, 0, None) {
        ExecStep::GiveUp(ExecMessage::Error(e)) => assert_eq!(e, "exec failed: no commands to try"),
        other => panic!("unexpected step {:?}", other),
    }
}

#[test]
fn a_terminal_takes_errors_with_the_rest() {
    assert!(!attach_plan(true).stderr);
    assert!(attach_plan(false).stderr);
    assert!(attach_plan(true).stdin && attach_plan(true).stdout && attach_plan(true).tty);
}

#[test]
fn reads_become_messages() {
    let (msg, more) = on_read(true, ReadResult::End);
    assert!(msg.is_none() && !more);
    let (msg, more) = on_read(false, ReadResult::Data(vec![1]));
    assert!(matches!(msg, Some(ExecMessage::Stderr(_))) && more);
    let (msg, more) = on_read(true, ReadResult::Failed("gone".into()));
    assert!(!more);
    match msg {
        Some(ExecMessage::Error(e)) => assert_eq!(e, "stdout read: gone"),
        other => panic!("unexpected message {:?}", other),
    }
    match on_read(false, ReadResult::Failed("gone".into())).0 {
        Some(ExecMessage::Error(e)) => assert_eq!(e, "stderr read: gone"),
        other => panic!("unexpected message {:?}", other),
    }
}

#[test]
fn a_new_session_is_of_its_request() {
    let session = ExecSession::new(&ExecRequest::shell("pod", "ns").container("web"));
    assert!(session.active);
    assert_eq!(session.title(), "exec: ns/pod (web)");
    assert_eq!(ExecSession::new(&ExecRequest::shell("pod", "ns")).title(), "exec: ns/pod");
    assert_eq!(session.line_count(), 0);
}

#[test]
fn text_beyond_ascii_is_kept() {
    let mut session = make_test_session();
    session.poll_messages(vec![ExecMessage::Stdout("größe\n\n→".as_bytes().to_vec())]);
    assert_eq!(session.output_lines, vec!["größe", "→"]);
}

#[test]
fn an_ended_session_stays_ended() {
    let mut session = make_test_session();
    session.poll_messages(vec![
        ExecMessage::Exited(None),
        ExecMessage::Stdout(b"late\n".to_vec()),
    ]);
    assert!(!session.active);
    assert_eq!(session.output_lines, vec!["[session exited]", "late"]);
}
