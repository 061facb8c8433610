use rusty_autossh::monitor::{bound_monitor_mode, plan_bind, probe_payload, reply_matches, MonitorPortPair};
use rusty_autossh::{AutosshError, MonitorMode};

#[test]
fn probe_payload_without_message_is_17_bytes() {
    let bytes = probe_payload(1_748_000_000, None);
    assert_eq!(bytes.len(), 17);
    assert_eq!(&bytes[..16], b"0000001748000000");
    assert_eq!(bytes[16], b'\n');
}

#[test]
fn probe_payload_with_message_uses_single_space_separator() {
    let bytes = probe_payload(1_748_000_000, Some("hello"));
    let expected = b"0000001748000000 hello\n";
    assert_eq!(bytes, expected);
}

#[test]
fn probe_payload_timestamp_left_pads_to_16_chars() {
    let bytes = probe_payload(42, None);
    assert_eq!(&bytes[..16], b"0000000000000042");
    assert_eq!(bytes[16], b'\n');
}

#[test]
fn probe_payload_timestamp_at_16_digit_width_does_not_overflow() {
    let bytes = probe_payload(9_999_999_999_999_999, None);
    assert_eq!(&bytes[..16], b"9999999999999999");
    assert_eq!(bytes.len(), 17);
}

#[test]
fn probe_payload_wider_timestamp_keeps_all_digits() {
    let bytes = probe_payload(u64::MAX, None);
    assert_eq!(bytes, b"18446744073709551615\n");
}

#[test]
fn probe_payload_message_is_utf8() {
    let bytes = probe_payload(0, Some("h\u{e9}"));
    assert_eq!(bytes, "0000000000000000 h\u{e9}\n".as_bytes());
}

#[test]
fn heartbeat_payload_matches_upstream_format() {
    let bytes = probe_payload(1_748_000_000, None);
    let expected: &[u8] = b"0000001748000000\n";
    assert_eq!(bytes, expected);
}

#[test]
fn heartbeat_payload_with_autossh_message() {
    let bytes = probe_payload(1_748_000_000, Some("alive"));
    let expected = b"0000001748000000 alive\n";
    assert_eq!(bytes, expected);
}

#[test]
fn strict_heartbeat_wire_format_byte_identical_to_upstream() {
    let payload_no_msg = probe_payload(1_748_000_000, None);
    assert_eq!(payload_no_msg, b"0000001748000000\n");
    let payload_with_msg = probe_payload(1_748_000_000, Some("alive"));
    assert_eq!(payload_with_msg, b"0000001748000000 alive\n");
}

#[test]
fn probe_loop_bind_rejects_embedded_newline_in_message() {
    let err = plan_bind(&MonitorMode::Active { port: 0, echo: None }, Some("with\nnewline"))
        .expect_err("embedded newline must be rejected");
    assert!(matches!(err, AutosshError::Internal(_)));
}

#[test]
fn probe_loop_bind_rejects_monitor_mode_none() {
    let err = plan_bind(&MonitorMode::Disabled, None).expect_err("MonitorMode::Disabled must be rejected");
    assert!(matches!(err, AutosshError::Internal(_)));
}

#[test]
fn bind_plan_pair_mode_uses_next_port() {
    let plan = plan_bind(&MonitorMode::Active { port: 20000, echo: None }, Some("alive")).unwrap();
    assert_eq!(plan.in_port, 20000);
    assert_eq!(plan.out_port, Some(20001));
    assert_eq!(plan.echo, None);
    assert_eq!(plan.message_suffix.as_deref(), Some("alive"));
    let ephemeral = plan_bind(&MonitorMode::Active { port: 0, echo: None }, None).unwrap();
    assert_eq!(ephemeral.out_port, Some(0));
    let top = plan_bind(&MonitorMode::Active { port: 65535, echo: None }, None).unwrap();
    assert_eq!(top.out_port, Some(65535));
}

#[test]
fn bind_plan_echo_mode_binds_one_listener() {
    let plan = plan_bind(&MonitorMode::Active { port: 20000, echo: Some(22) }, None).unwrap();
    assert_eq!(plan.out_port, None);
    assert_eq!(plan.port_pair(41000, None), MonitorPortPair { port_in: 41000, port_out: 22 });
}

#[test]
fn bound_mode_reflects_actual_port() {
    let pair = MonitorPortPair { port_in: 41000, port_out: 41001 };
    assert_eq!(
        bound_monitor_mode(&MonitorMode::Active { port: 0, echo: None }, Some(pair)),
        MonitorMode::Active { port: 41000, echo: None }
    );
    assert_eq!(bound_monitor_mode(&MonitorMode::Disabled, None), MonitorMode::Disabled);
}

#[test]
fn echoed_reply_must_equal_the_payload() {
    let sent = probe_payload(42, Some("alive"));
    assert!(reply_matches(&sent, &sent.clone()));
    let mut altered = sent.clone();
    altered[15] = b'3';
    assert!(!reply_matches(&sent, &altered));
    assert!(!reply_matches(&sent, &sent[..10].to_vec()));
}
