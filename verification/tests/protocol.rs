use mso::protocol::{push_log_line, TimestampedLine, ManagedProcess, ProcessRegistration, RestartPolicy, ProcessStatus, WIRE_MAGIC, MAX_LOG_LINES};
use mso::wire::{frame_payload, open_frame, frame_body_len, declared_len, FrameError, MAX_FRAME_LEN};

fn body_of(wire: &[u8]) -> Vec<u8> {
    let header: [u8; 4] = [wire[0], wire[1], wire[2], wire[3]];
    let len = frame_body_len(&header).unwrap();
    assert_eq!(len, wire.len() - 4);
    open_frame(&wire[4..]).unwrap()
}

#[test]
fn test_encode_decode_roundtrip() {
    // ClientMessage::Ping is variant 11 of the message enum.
    let payload = bincode::serialize(&11u32).unwrap();
    let wire = frame_payload(&payload);
    let decoded: u32 = bincode::deserialize(&body_of(&wire)).unwrap();
    assert_eq!(decoded, 11);
}

#[test]
fn test_register_process_roundtrip() {
    let command: Vec<String> = vec!["bash".into(), "-c".into(), "echo hi".into()];
    let env: Vec<(String, String)> = vec![("PATH".into(), "/usr/bin".into())];
    // RegisterProcess (variant 0) carrying pid, command, dir, env, silence, restart policy (Always = 1).
    let msg = (0u32, 12345u32, command.clone(), "/tmp".to_string(), env, Some(5u64), 1u32);
    let wire = frame_payload(&bincode::serialize(&msg).unwrap());
    let decoded: (u32, u32, Vec<String>, String, Vec<(String, String)>, Option<u64>, u32) =
        bincode::deserialize(&body_of(&wire)).unwrap();
    assert_eq!(decoded.0, 0);
    assert_eq!(decoded.1, 12345);
    assert_eq!(decoded.2, vec!["bash", "-c", "echo hi"]);
    assert_eq!(decoded.6, 1);
}

#[test]
fn test_timestamped_line_roundtrip() {
    let tl = (987654321u64, "hello world".to_string());
    let wire = frame_payload(&bincode::serialize(&tl).unwrap());
    let decoded: (u64, String) = bincode::deserialize(&body_of(&wire)).unwrap();
    assert_eq!(decoded.0, 987654321);
    assert_eq!(decoded.1, "hello world");
}

#[test]
fn test_wire_magic() {
    // DaemonMessage::Pong is variant 9 of the reply enum.
    let wire = frame_payload(&bincode::serialize(&9u32).unwrap());
    assert_eq!(wire[4..8], WIRE_MAGIC);
}

#[test]
fn frame_layout_is_length_magic_payload() {
    let wire = frame_payload(&[1, 2, 3]);
    assert_eq!(wire, vec![7, 0, 0, 0, b'M', b'S', b'O', 0, 1, 2, 3]);
    assert_eq!(declared_len(&[7, 0, 0, 0]), 7);
    assert_eq!(declared_len(&[0, 1, 0, 0]), 256);
}

#[test]
fn oversized_frame_is_refused() {
    let n = (MAX_FRAME_LEN as u32) + 1;
    let header = n.to_le_bytes();
    assert!(matches!(frame_body_len(&header), Err(FrameError::TooLarge(m)) if m == n));
    let ok = (MAX_FRAME_LEN as u32).to_le_bytes();
    assert_eq!(frame_body_len(&ok).unwrap(), MAX_FRAME_LEN);
}

#[test]
fn bad_magic_is_refused() {
    assert!(matches!(open_frame(b"MSX\0abc"), Err(FrameError::BadMagic)));
    assert!(matches!(open_frame(b"MS"), Err(FrameError::BadMagic)));
    assert_eq!(open_frame(b"MSO\0").unwrap(), Vec::<u8>::new());
}

#[test]
fn log_ring_keeps_newest_lines() {
    let mut lines: std::collections::VecDeque<TimestampedLine> = std::collections::VecDeque::new();
    for i in 0..(MAX_LOG_LINES as u64 + 5) {
        push_log_line(&mut lines, TimestampedLine { timestamp: i, line: format!("{i}") });
        assert!(lines.len() <= MAX_LOG_LINES);
    }
    assert_eq!(lines.len(), MAX_LOG_LINES);
    assert_eq!(lines[0].timestamp, 5);
    assert_eq!(lines.back().unwrap().timestamp, MAX_LOG_LINES as u64 + 4);
}

#[test]
fn registration_makes_a_running_record() {
    let reg = ProcessRegistration {
        pid: 0,
        command: vec!["echo".into(), "hi".into()],
        working_dir: "/tmp".into(),
        env_vars: vec![],
        silence_duration: None,
        restart_policy: RestartPolicy::Always,
        tags: vec!["web".into()],
        health_check: None,
        log_file: None,
    };
    let p = ManagedProcess::registered_at(42, 99, &reg, 1234);
    assert_eq!(p.id, 42);
    assert_eq!(p.pid, 99);
    assert_eq!(p.status, ProcessStatus::Running);
    assert_eq!(p.started_at, 1234);
    assert_eq!(p.command, vec!["echo", "hi"]);
    assert_eq!(p.tags, vec!["web"]);
    assert_eq!(p.restart_policy, RestartPolicy::Always);
    assert!(p.log_lines.is_empty());
}
