use smteepee::commands::Command;

#[test]
fn test_mail_command() {
    let command = Command::from_str("MAIL FROM: <ook@onk.com>");
    assert_eq!(Some(Command::MAIL("ook@onk.com".to_string())), command);
}

#[test]
fn test_rcpt_command() {
    let command = Command::from_str("RCPT TO: <ook@onk.com>");
    assert_eq!(Some(Command::RCPT("ook@onk.com".to_string())), command);
}

#[test]
fn keyword_case_variants_give_same_command() {
    for line in ["ehlo x", "EHLO x", "EhLo x"] {
        assert_eq!(Some(Command::EHLO("x".to_string())), Command::from_str(line));
    }
    for line in ["quit", "QUIT", "QuIt"] {
        assert_eq!(Some(Command::QUIT), Command::from_str(line));
    }
    for line in ["mail from:<a@b.com>", "Mail From:<a@b.com>", "MAIL FROM:<a@b.com>"] {
        assert_eq!(Some(Command::MAIL("a@b.com".to_string())), Command::from_str(line));
    }
}

#[test]
fn mail_from_whitespace_is_trimmed() {
    for line in ["MAIL FROM:<a@b.com>", "MAIL FROM: <a@b.com>", "MAIL FROM:< a@b.com >"] {
        assert_eq!(Some(Command::MAIL("a@b.com".to_string())), Command::from_str(line));
    }
    assert_eq!(
        Some(Command::MAIL("a@b.com".to_string())),
        Command::from_str("MAIL FROM \t :  <\u{a0}a@b.com\u{3000}> ")
    );
}

#[test]
fn mail_from_without_brackets_is_not_mail() {
    assert_eq!(None, Command::from_str("MAIL FROM:a@b.com"));
    assert_eq!(None, Command::from_str("MAIL FROM:<a@b.com"));
    assert_eq!(None, Command::from_str("MAIL FROM <a@b.com>"));
    assert_eq!(None, Command::from_str("RCPT TO:c@d.com"));
}

#[test]
fn address_runs_to_last_bracket() {
    assert_eq!(Some(Command::RCPT("a>b".to_string())), Command::from_str("RCPT TO:<a>b> x"));
    assert_eq!(Some(Command::RCPT(String::new())), Command::from_str("RCPT TO:<>"));
}

#[test]
fn greeting_argument_is_trimmed() {
    assert_eq!(Some(Command::HELO("x.org".to_string())), Command::from_str("HELO   x.org  "));
    assert_eq!(Some(Command::HELO(String::new())), Command::from_str("HELO"));
    assert_eq!(Some(Command::EHLO("a b".to_string())), Command::from_str("EHLO a b"));
}

#[test]
fn keyword_only_commands() {
    assert_eq!(Some(Command::DATA), Command::from_str("DATA"));
    assert_eq!(Some(Command::RSET), Command::from_str("rset"));
    assert_eq!(Some(Command::NOOP), Command::from_str("NOOP"));
    assert_eq!(Some(Command::QUIT), Command::from_str("QUIT"));
}

#[test]
fn verify_and_auth_carry_their_argument() {
    assert_eq!(
        Some(Command::VRFY("anything@anywhere".to_string())),
        Command::from_str("VRFY anything@anywhere")
    );
    assert_eq!(Some(Command::AUTH("PLAIN".to_string())), Command::from_str("AUTH PLAIN"));
}

#[test]
fn unknown_lines_are_no_command() {
    assert_eq!(None, Command::from_str(""));
    assert_eq!(None, Command::from_str("hello"));
    assert_eq!(None, Command::from_str(" HELO x"));
    assert_eq!(None, Command::from_str("HEL"));
}

#[test]
fn earlier_keyword_wins() {
    assert_eq!(Some(Command::EHLO("HELO".to_string())), Command::from_str("EHLO HELO"));
}
