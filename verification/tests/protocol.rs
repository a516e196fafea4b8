use token_gate::protocol::{
    authenticate, classify, reply_for, respond, secret_from, Command, Incoming, Verdict, HOST,
    MAX_CHUNK,
};

fn chunk(bytes: &[u8]) -> Incoming {
    Incoming::Chunk(bytes.to_vec())
}

fn elapsed_of(reply: &str) -> f64 {
    let body = reply.strip_prefix("pong! ").expect("prefix");
    let body = body.strip_suffix('\n').expect("newline");
    let (digits, unit) = if let Some(d) = body.strip_suffix("ns") {
        (d, 1e-9)
    } else if let Some(d) = body.strip_suffix("µs") {
        (d, 1e-6)
    } else if let Some(d) = body.strip_suffix("ms") {
        (d, 1e-3)
    } else {
        (body.strip_suffix('s').expect("unit"), 1.0)
    };
    digits.parse::<f64>().expect("number") * unit
}

#[test]
fn chunk_limit_is_one_kibibyte() {
    assert_eq!(MAX_CHUNK, 1024);
}

#[test]
fn secret_is_accepted() {
    let secret = "TOKEN".to_string();
    assert_eq!(authenticate(&chunk(b"TOKEN"), &secret), Verdict::Accepted);
    assert_eq!(authenticate(&chunk(b"TOKEN\n"), &secret), Verdict::Accepted);
    assert_eq!(authenticate(&chunk(b" \tTOKEN\r\n"), &secret), Verdict::Accepted);
}

#[test]
fn other_tokens_are_rejected() {
    let secret = "TOKEN".to_string();
    for wrong in ["token", "TOKE", "TOKENS", "TOK EN", " ", "\n", "WRONG\n", "TOKEN TOKEN"] {
        assert_eq!(authenticate(&chunk(wrong.as_bytes()), &secret), Verdict::Rejected, "{:?}", wrong);
    }
}

#[test]
fn malformed_token_is_rejected() {
    let secret = "TOKEN".to_string();
    assert_eq!(authenticate(&chunk(b"TOKEN\xff"), &secret), Verdict::Rejected);
    assert_eq!(authenticate(&chunk(b"\xffTOKEN"), &secret), Verdict::Rejected);
}

#[test]
fn malformed_token_presents_the_empty_token() {
    let secret = String::new();
    assert_eq!(authenticate(&chunk(b"\xff\xfe"), &secret), Verdict::Accepted);
    assert_eq!(authenticate(&chunk(b" \n"), &secret), Verdict::Accepted);
    assert_eq!(authenticate(&chunk(b"x"), &secret), Verdict::Rejected);
}

#[test]
fn empty_first_read_is_unreadable() {
    assert_eq!(authenticate(&chunk(b""), &"TOKEN".to_string()), Verdict::Unreadable);
    assert_eq!(authenticate(&chunk(b""), &String::new()), Verdict::Unreadable);
}

#[test]
fn failed_read_is_unreadable() {
    assert_eq!(authenticate(&Incoming::Failed, &"TOKEN".to_string()), Verdict::Unreadable);
    assert_eq!(authenticate(&Incoming::Failed, &String::new()), Verdict::Unreadable);
}

#[test]
fn secret_with_white_space_never_matches() {
    let secret = " TOKEN".to_string();
    assert_eq!(authenticate(&chunk(b" TOKEN"), &secret), Verdict::Rejected);
    assert_eq!(authenticate(&chunk(b"TOKEN"), &secret), Verdict::Rejected);
}

#[test]
fn only_ping_is_ping() {
    assert_eq!(classify("ping"), Command::Ping);
    for other in ["", "Ping", "PING", "ping ", " ping", "pin", "pingping", "pong", "foo", "ping\n"] {
        assert_eq!(classify(other), Command::Unknown, "{:?}", other);
    }
}

#[test]
fn pong_reports_the_elapsed_time() {
    assert_eq!(reply_for(Command::Ping, 0, 0), "pong! 0ns\n");
    assert_eq!(reply_for(Command::Ping, 0, 1), "pong! 1ns\n");
    assert_eq!(reply_for(Command::Ping, 0, 1_500), "pong! 1.5µs\n");
    assert_eq!(reply_for(Command::Ping, 0, 2_000_000), "pong! 2ms\n");
    assert_eq!(reply_for(Command::Ping, 1, 500_000_000), "pong! 1.5s\n");
    assert_eq!(reply_for(Command::Ping, 0, 999_999_999), "pong! 999.999999ms\n");
    assert_eq!(reply_for(Command::Ping, u64::MAX, 999_999_999), "pong! 18446744073709551615.999999999s\n");
}

#[test]
fn unknown_reply_ignores_the_time() {
    assert_eq!(reply_for(Command::Unknown, 0, 0), "unknown command\n");
    assert_eq!(reply_for(Command::Unknown, 7, 123), "unknown command\n");
}

#[test]
fn ping_is_answered_with_pong() {
    for sent in ["ping", "ping\n", "  ping\r\n", "\t\u{3000}ping\u{A0}\n\n"] {
        let reply = respond(sent.as_bytes());
        assert!(reply.starts_with("pong! "), "{:?}", reply);
        assert!(reply.ends_with('\n'));
        let seconds = elapsed_of(&reply);
        assert!(seconds >= 0.0 && seconds < 20.0, "{:?}", reply);
    }
}

#[test]
fn other_text_is_an_unknown_command() {
    for sent in ["foo\n", "PING\n", "ping ping\n", "pong", " ", "\n", "p", "quit\r\n"] {
        assert_eq!(respond(sent.as_bytes()), "unknown command\n", "{:?}", sent);
    }
}

#[test]
fn malformed_command_is_unknown() {
    assert_eq!(respond(b"ping\xff"), "unknown command\n");
    assert_eq!(respond(b"\xffping\n"), "unknown command\n");
    assert_eq!(respond(b"\xff"), "unknown command\n");
    assert_eq!(respond(b" ping \xc0\x80"), "unknown command\n");
    assert_eq!(respond(b"pi\xed\xa0\x80ng"), "unknown command\n");
}

#[test]
fn oversized_message_is_served_chunk_by_chunk() {
    let mut message = vec![b' '; MAX_CHUNK - 2];
    message.extend_from_slice(b"ping\n");
    let head = &message[..MAX_CHUNK];
    let tail = &message[MAX_CHUNK..];
    assert_eq!(respond(head), "unknown command\n");
    assert_eq!(respond(tail), "unknown command\n");
}

#[test]
fn secret_defaults_to_token() {
    assert_eq!(secret_from(None), "TOKEN");
    assert_eq!(secret_from(Some("hunter2".to_string())), "hunter2");
    assert_eq!(secret_from(Some(String::new())), "");
}

#[test]
fn service_listens_on_the_local_port() {
    assert_eq!(HOST, "localhost:8219");
}
