use smteepee::settings::Settings;
use smteepee::smtp::{authentication, converse_lines, AuthStep, Authentication, Session, State};

fn lines(v: &[&str]) -> Vec<String> {
    v.iter().map(|s| s.to_string()).collect()
}

const READY: &str = "220 local ESMTP smteepee Service Ready";
const HELLO: &str = "250 groove.com, I hope this day finds you well.";
// base64 of "password", the default secret.
const SECRET: &str = "cGFzc3dvcmQ=";

#[test]
fn test_greeting() {
    let c = converse_lines(&Settings::default(), &lines(&["HELO", "QUIT"]));
    assert_eq!(vec![READY, HELLO, "221 Bye"], c.replies);
}

#[test]
fn test_from() {
    let c = converse_lines(&Settings::default(), &lines(&["HELO", "MAIL FROM:<onk@ponk.com>", "QUIT"]));
    assert_eq!(vec![READY, HELLO, "250 OK", "221 Bye"], c.replies);
    assert_eq!(Some("onk@ponk.com".to_string()), c.message.unwrap().from);
}

#[test]
fn test_rcpt() {
    let c = converse_lines(
        &Settings::default(),
        &lines(&["HELO", "RCPT TO: <onk@ponk.com>", "RCPT TO:<pook@ook.co.uk>", "QUIT"]),
    );
    assert_eq!(vec![READY, HELLO, "250 OK", "250 OK", "221 Bye"], c.replies);
    assert_eq!(
        vec!["onk@ponk.com".to_string(), "pook@ook.co.uk".to_string()],
        c.message.unwrap().to
    );
}

#[test]
fn helo_then_quit_gives_empty_message() {
    let c = converse_lines(&Settings::default(), &lines(&["HELO x", "QUIT"]));
    assert_eq!(vec![READY, HELLO, "221 Bye"], c.replies);
    let m = c.message.unwrap();
    assert_eq!(None, m.from);
    assert!(m.to.is_empty());
    assert!(m.data.is_empty());
}

#[test]
fn full_transaction_builds_message() {
    let c = converse_lines(
        &Settings::default(),
        &lines(&["HELO x", "MAIL FROM:<a@b.com>", "RCPT TO:<c@d.com>", "DATA", "hello", ".", "QUIT"]),
    );
    assert_eq!(
        vec![
            READY,
            HELLO,
            "250 OK",
            "250 OK",
            "354 End data with <CR><LF>.<CR><LF>",
            "250 OK",
            "221 Bye"
        ],
        c.replies
    );
    let m = c.message.unwrap();
    assert_eq!(Some("a@b.com".to_string()), m.from);
    assert_eq!(vec!["c@d.com".to_string()], m.to);
    assert_eq!(vec!["hello".to_string()], m.data);
    assert_eq!("hello", m.get_data());
}

#[test]
fn recipients_keep_their_order() {
    let c = converse_lines(
        &Settings::default(),
        &lines(&["HELO x", "RCPT TO:<z@z.com>", "RCPT TO:<a@a.com>", "QUIT"]),
    );
    let m = c.message.unwrap();
    assert_eq!(2, m.to.len());
    assert_eq!(vec!["z@z.com".to_string(), "a@a.com".to_string()], m.to);
}

#[test]
fn auth_succeeds_after_one_failure() {
    let c = converse_lines(
        &Settings::default(),
        &lines(&["EHLO x", "AUTH PLAIN", "d3Jvbmc=", "AUTH PLAIN", SECRET, "QUIT"]),
    );
    assert_eq!(
        vec![
            READY,
            HELLO,
            "250 AUTH PLAIN",
            "334 ",
            "535 Authentication credentials invalid",
            "334 ",
            "235 Authentication successful",
            "221 Bye"
        ],
        c.replies
    );
    assert!(c.message.is_some());
}

#[test]
fn auth_compares_against_encoded_secret() {
    // The password itself, not encoded, is refused.
    let c = converse_lines(&Settings::default(), &lines(&["EHLO x", "AUTH PLAIN", "password", "QUIT"]));
    assert_eq!("535 Authentication credentials invalid", c.replies[4]);
    assert_eq!("503", c.replies[5]);
    let mut settings = Settings::default();
    settings.password = "p\u{e9}".to_string();
    let c = converse_lines(&settings, &lines(&["EHLO x", "AUTH PLAIN", "cMOp", "QUIT"]));
    assert_eq!("235 Authentication successful", c.replies[4]);
    assert_eq!("221 Bye", c.replies[5]);
}

#[test]
fn auth_wants_auth_command_first() {
    let c = converse_lines(&Settings::default(), &lines(&["EHLO x", SECRET, "MAIL FROM:<a@b.com>"]));
    assert_eq!(vec![READY, HELLO, "250 AUTH PLAIN", "503", "503", "Error"], c.replies);
    assert!(c.message.is_none());
}

#[test]
fn verify_echoes_any_address() {
    let c = converse_lines(&Settings::default(), &lines(&["HELO x", "VRFY anything@anywhere", "QUIT"]));
    assert_eq!(vec![READY, HELLO, "250 anything@anywhere", "221 Bye"], c.replies);
}

#[test]
fn end_of_stream_before_greeting_gives_no_message() {
    let c = converse_lines(&Settings::default(), &lines(&[]));
    assert_eq!(vec![READY, "Error"], c.replies);
    assert!(c.message.is_none());
}

#[test]
fn end_of_stream_in_main_loop_gives_no_message() {
    let c = converse_lines(&Settings::default(), &lines(&["HELO x", "MAIL FROM:<a@b.com>"]));
    assert_eq!(vec![READY, HELLO, "250 OK", "Error"], c.replies);
    assert!(c.message.is_none());
}

#[test]
fn end_of_stream_in_body_gives_no_message() {
    let c = converse_lines(&Settings::default(), &lines(&["HELO x", "DATA", "partial"]));
    assert!(c.message.is_none());
}

#[test]
fn bad_greetings_are_retried() {
    let c = converse_lines(&Settings::default(), &lines(&["nonsense", "QUIT", "HELO x", "QUIT"]));
    assert_eq!(vec![READY, "502", "503", HELLO, "221 Bye"], c.replies);
    assert!(c.message.is_some());
}

#[test]
fn violation_in_main_loop_rejects() {
    let c = converse_lines(
        &Settings::default(),
        &lines(&["HELO x", "MAIL FROM:<a@b.com>", "NOOP", "QUIT"]),
    );
    assert_eq!(vec![READY, HELLO, "250 OK", "503", "Error"], c.replies);
    assert_eq!(Some("a@b.com".to_string()), c.message.unwrap().from);
}

#[test]
fn body_keeps_dotted_lines() {
    let c = converse_lines(
        &Settings::default(),
        &lines(&["HELO x", "DATA", "..x", ". ", "QUIT", ".", "QUIT"]),
    );
    let m = c.message.unwrap();
    assert_eq!(vec!["..x".to_string(), ". ".to_string(), "QUIT".to_string()], m.data);
}

#[test]
fn session_steps_one_line_at_a_time() {
    let mut s = Session::new(&Settings::default());
    assert_eq!(State::SendGreeting, s.state);
    assert!(!s.awaits_input());
    assert_eq!(vec![READY], s.start());
    assert!(s.start().is_empty());
    assert!(s.awaits_input());
    assert_eq!(vec![HELLO, "250 AUTH PLAIN"], s.handle(Some("EHLO me".to_string())));
    assert_eq!(State::Authenticate(Authentication::ReceiveAuthCommand), s.state);
    assert_eq!(vec!["334 "], s.handle(Some("AUTH PLAIN".to_string())));
    assert_eq!(vec!["235 Authentication successful"], s.handle(Some(SECRET.to_string())));
    assert_eq!(State::Accept, s.state);
    assert_eq!(vec!["221 Bye"], s.handle(Some("QUIT".to_string())));
    assert!(s.is_finished());
    assert!(s.handle(Some("HELO".to_string())).is_empty());
    assert!(s.finish().is_some());
}

#[test]
fn authentication_steps() {
    let secret = SECRET.to_string();
    let (step, reply) = authentication(Authentication::ReceiveAuthCommand, &"auth plain".to_string(), &secret);
    assert_eq!(AuthStep::Continue(Authentication::ReceivePlainAuth), step);
    assert_eq!("334 ", reply);
    let (step, reply) = authentication(Authentication::ReceiveAuthCommand, &"HELO".to_string(), &secret);
    assert_eq!(AuthStep::Continue(Authentication::ReceiveAuthCommand), step);
    assert_eq!("503", reply);
    let (step, reply) = authentication(Authentication::ReceivePlainAuth, &secret, &secret);
    assert_eq!(AuthStep::Authenticated, step);
    assert_eq!("235 Authentication successful", reply);
    let (step, reply) = authentication(Authentication::ReceivePlainAuth, &"x".to_string(), &secret);
    assert_eq!(AuthStep::Continue(Authentication::ReceiveAuthCommand), step);
    assert_eq!("535 Authentication credentials invalid", reply);
}
