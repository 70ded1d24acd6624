use smteepee::message::Message;
use smteepee::settings::{Protocol, Settings};

#[test]
fn new_message_is_empty() {
    let m = Message::new();
    assert_eq!(None, m.from);
    assert!(m.to.is_empty());
    assert!(m.data.is_empty());
    assert_eq!(None, m.saved);
    assert_eq!("", m.get_data());
}

#[test]
fn body_lines_are_joined_by_newlines() {
    let mut m = Message::new();
    m.append_body_line("one".to_string());
    assert_eq!("one", m.get_data());
    m.append_body_line("".to_string());
    m.append_body_line("three".to_string());
    assert_eq!("one\n\nthree", m.get_data());
}

#[test]
fn envelope_is_recorded() {
    let mut m = Message::new();
    m.record_sender("a@b.com".to_string());
    m.record_sender("c@d.com".to_string());
    m.record_recipient("x@y.com".to_string());
    m.record_recipient("x@y.com".to_string());
    assert_eq!(Some("c@d.com".to_string()), m.from);
    assert_eq!(vec!["x@y.com".to_string(), "x@y.com".to_string()], m.to);
}

#[test]
fn default_settings() {
    let s = Settings::default();
    assert_eq!(2525, s.port);
    assert_eq!(4, s.protocol);
    assert_eq!("groove.com", s.domain);
    assert_eq!("password", s.password);
}

#[test]
fn protocol_versions() {
    assert_eq!(Some(Protocol::V4), Protocol::from_version(4));
    assert_eq!(Some(Protocol::V6), Protocol::from_version(6));
    assert_eq!(None, Protocol::from_version(5));
    assert_eq!(None, Protocol::from_version(0));
}
