//! The per-connection session: a state machine from one client line (or the
//! end of the stream) to the next state and the reply lines to send.
//!
//! `RSET` and `NOOP` are recognised by the parser but get no handling of
//! their own: before the greeting they are out of sequence, and in the main
//! loop they reject the session like any other unexpected command.
use vstd::prelude::*;

use crate::commands::{parse_command, Command, CommandView};
use crate::message::{empty_message, lines_view, opt_view, Message, MessageView};
use crate::responses::{completed_line, ready_line, Response};
use crate::settings::Settings;
use vstd::string::StringSliceAdditionalSpecFns;
use vstd::utf8::encode_utf8;

verus! {

/// What `base64::encode` returns for these bytes.
pub uninterp spec fn base64_of(bytes: Seq<u8>) -> Seq<char>;

/// Relies on `base64::encode` (standard alphabet, padded) to encode the
/// UTF-8 bytes of `password`; the result depends on those bytes alone. The
/// bound keeps clear of the length overflow on which the encoder panics.
#[verifier::external_body]
fn encode_secret(password: &str) -> (r: String)
    requires
        password.spec_bytes().len() <= usize::MAX / 2,
    ensures
        r@ == base64_of(password.spec_bytes()),
{
    base64::encode(password)
}

/// The step that authentication has reached.
#[derive(Debug, Clone, Copy, PartialEq, Eq, Structural)]
pub enum Authentication {
    /// Waiting for `AUTH`.
    ReceiveAuthCommand,
    /// Waiting for the encoded secret.
    ReceivePlainAuth,
}

/// Where a session stands.
#[derive(Debug, Clone, Copy, PartialEq, Eq, Structural)]
pub enum State {
    /// The greeting is still to be sent.
    SendGreeting,
    /// Waiting for `HELO` or `EHLO`.
    ReceiveGreeting,
    /// After `EHLO`: authentication is under way.
    Authenticate(Authentication),
    /// A violation was met: the error line is still to be sent.
    Rejected,
    /// The main command loop.
    Accept,
    /// Reading body lines up to a lone `.`.
    AcceptData,
    /// The session is over.
    End,
}

/// The result of one authentication step.
#[derive(Debug, Clone, Copy, PartialEq, Eq, Structural)]
pub enum AuthStep {
    /// Authentication goes on from this step.
    Continue(Authentication),
    /// The client has authenticated.
    Authenticated,
}

/// The states in which a session waits for the next line.
pub open spec fn awaits_input(s: State) -> bool {
    ||| s is ReceiveGreeting
    ||| s is Authenticate
    ||| s is Accept
    ||| s is AcceptData
}

/// The line that a lone `.` ends the body with.
pub open spec fn end_of_data() -> Seq<char> {
    seq!['.']
}

/// The line sent when a session is rejected.
pub open spec fn error_line() -> Seq<char> {
    "Error"@
}

/// The name the server gives itself in its greeting.
pub open spec fn server_name() -> Seq<char> {
    "smteepee"@
}

/// The text that answers a `HELO` or `EHLO`.
pub open spec fn greeting_text(domain: Seq<char>) -> Seq<char> {
    domain + ", I hope this day finds you well."@
}

/// One authentication step: the next step and the reply to `line`.
pub open spec fn auth_next(stage: Authentication, line: Seq<char>, secret: Seq<char>) -> (
    AuthStep,
    Seq<char>,
) {
    match stage {
        Authentication::ReceiveAuthCommand => {
            if parse_command(line) matches Some(CommandView::Auth(_)) {
                (
                    AuthStep::Continue(Authentication::ReceivePlainAuth),
                    Response::_334_Authenticate.text(),
                )
            } else {
                (
                    AuthStep::Continue(Authentication::ReceiveAuthCommand),
                    Response::_503_BadSequence.text(),
                )
            }
        },
        Authentication::ReceivePlainAuth => {
            if line == secret {
                (AuthStep::Authenticated, Response::_235_AuthenticationSuccessful.text())
            } else {
                (
                    AuthStep::Continue(Authentication::ReceiveAuthCommand),
                    Response::_535_FailedAuthentication.text(),
                )
            }
        },
    }
}

/// Whether `line` is the lone `.` that ends the body.
fn is_end_of_data(line: &String) -> (r: bool)
    ensures
        r == (line@ == end_of_data()),
{
    let s = line.as_str();
    if s.unicode_len() != 1 {
        return false;
    }
    let c = s.get_char(0);
    assert(c == '.' ==> line@ =~= end_of_data());
    c == '.'
}

/// One step of authentication: from `stage`, with the client's `line` and
/// the expected encoded `secret`, the next step and the reply to send.
pub fn authentication(stage: Authentication, line: &String, secret: &String) -> (r: (
    AuthStep,
    String,
))
    ensures
        (r.0, r.1@) == auth_next(stage, line@, secret@),
{
    match stage {
        Authentication::ReceiveAuthCommand => {
            if let Some(Command::AUTH(_)) = Command::from_str(line.as_str()) {
                (
                    AuthStep::Continue(Authentication::ReceivePlainAuth),
                    Response::_334_Authenticate.as_string(),
                )
            } else {
                (
                    AuthStep::Continue(Authentication::ReceiveAuthCommand),
                    Response::_503_BadSequence.as_string(),
                )
            }
        },
        Authentication::ReceivePlainAuth => {
            if line.eq(secret) {
                (AuthStep::Authenticated, Response::_235_AuthenticationSuccessful.as_string())
            } else {
                (
                    AuthStep::Continue(Authentication::ReceiveAuthCommand),
                    Response::_535_FailedAuthentication.as_string(),
                )
            }
        },
    }
}

/// One connection's session: its state, the message built so far, whether
/// the transport ended before the session did, the domain named in
/// greetings and the encoded secret that authentication expects.
pub struct Session {
    pub state: State,
    pub message: Message,
    pub closed: bool,
    pub domain: String,
    pub secret: String,
}

pub struct SessionView {
    pub state: State,
    pub message: MessageView,
    pub closed: bool,
    pub domain: Seq<char>,
    pub secret: Seq<char>,
}

impl View for Session {
    type V = SessionView;

    open spec fn view(&self) -> SessionView {
        SessionView {
            state: self.state,
            message: self.message@,
            closed: self.closed,
            domain: self.domain@,
            secret: self.secret@,
        }
    }
}

/// A new session, before its greeting.
pub open spec fn initial_session(domain: Seq<char>, secret: Seq<char>) -> SessionView {
    SessionView {
        state: State::SendGreeting,
        message: empty_message(),
        closed: false,
        domain,
        secret,
    }
}

/// Sending the greeting: from `SendGreeting` to `ReceiveGreeting`; any other
/// state is left as it is, with nothing sent.
pub open spec fn open_session(s: SessionView) -> (SessionView, Seq<Seq<char>>) {
    if s.state is SendGreeting {
        (
            SessionView { state: State::ReceiveGreeting, ..s },
            seq![ready_line(server_name())],
        )
    } else {
        (s, Seq::empty())
    }
}

/// The session ended by a violation: the replies `sent` and then the error line.
pub open spec fn rejected(s: SessionView, sent: Seq<Seq<char>>) -> (SessionView, Seq<Seq<char>>) {
    (SessionView { state: State::End, ..s }, sent.push(error_line()))
}

/// One transition: the state after `input` (`None` for the end of the
/// stream) and the lines sent in reply. A state that awaits no line is left
/// as it is.
pub open spec fn next(s: SessionView, input: Option<Seq<char>>) -> (SessionView, Seq<Seq<char>>) {
    if !awaits_input(s.state) {
        (s, Seq::empty())
    } else {
        match input {
            None => rejected(SessionView { closed: true, ..s }, Seq::empty()),
            Some(line) => match s.state {
                State::ReceiveGreeting => match parse_command(line) {
                    Some(CommandView::Helo(_)) => (
                        SessionView { state: State::Accept, ..s },
                        seq![completed_line(greeting_text(s.domain))],
                    ),
                    Some(CommandView::Ehlo(_)) => (
                        SessionView {
                            state: State::Authenticate(Authentication::ReceiveAuthCommand),
                            ..s
                        },
                        seq![
                            completed_line(greeting_text(s.domain)),
                            completed_line("AUTH PLAIN"@),
                        ],
                    ),
                    Some(_) => (s, seq![Response::_503_BadSequence.text()]),
                    None => (s, seq![Response::_502_CommandNotImplemented.text()]),
                },
                State::Authenticate(stage) => {
                    let (step, reply) = auth_next(stage, line, s.secret);
                    match step {
                        AuthStep::Authenticated => (
                            SessionView { state: State::Accept, ..s },
                            seq![reply],
                        ),
                        AuthStep::Continue(st) => (
                            SessionView { state: State::Authenticate(st), ..s },
                            seq![reply],
                        ),
                    }
                },
                State::Accept => match parse_command(line) {
                    Some(CommandView::Mail(a)) => (
                        SessionView { message: MessageView { from: Some(a), ..s.message }, ..s },
                        seq![completed_line("OK"@)],
                    ),
                    Some(CommandView::Rcpt(a)) => (
                        SessionView {
                            message: MessageView { to: s.message.to.push(a), ..s.message },
                            ..s
                        },
                        seq![completed_line("OK"@)],
                    ),
                    Some(CommandView::Vrfy(a)) => (s, seq![completed_line(a)]),
                    Some(CommandView::Data) => (
                        SessionView { state: State::AcceptData, ..s },
                        seq![Response::_354_StartMailInput.text()],
                    ),
                    Some(CommandView::Quit) => (
                        SessionView { state: State::End, ..s },
                        seq![Response::_221_ServiceClosing.text()],
                    ),
                    _ => rejected(s, seq![Response::_503_BadSequence.text()]),
                },
                _ => {
                    if line == end_of_data() {
                        (SessionView { state: State::Accept, ..s }, seq![completed_line("OK"@)])
                    } else {
                        (
                            SessionView {
                                message: MessageView { data: s.message.data.push(line), ..s.message },
                                ..s
                            },
                            Seq::empty(),
                        )
                    }
                },
            },
        }
    }
}

/// What a session hands over: its message where it ended without a
/// transport failure, and nothing before it has ended.
pub open spec fn outcome(s: SessionView) -> Option<MessageView> {
    if s.state is End && !s.closed {
        Some(s.message)
    } else {
        None
    }
}

impl Session {
    /// A session for a new connection, before its greeting. The bound on the
    /// password's length in bytes holds of every `String`, whose size is at
    /// most `isize::MAX`.
    pub fn new(settings: &Settings) -> (r: Session)
        requires
            encode_utf8(settings.password@).len() <= usize::MAX / 2,
        ensures
            r@ == initial_session(
                settings.domain@,
                base64_of(encode_utf8(settings.password@)),
            ),
    {
        let secret = encode_secret(settings.password.as_str());
        Session {
            state: State::SendGreeting,
            message: Message::new(),
            closed: false,
            domain: settings.domain.clone(),
            secret,
        }
    }

    /// Whether the session waits for the next line from the client.
    pub fn awaits_input(&self) -> (r: bool)
        ensures
            r == awaits_input(self.state),
    {
        match self.state {
            State::ReceiveGreeting | State::Authenticate(_) | State::Accept | State::AcceptData => true,
            _ => false,
        }
    }

    /// Whether the session is over.
    pub fn is_finished(&self) -> (r: bool)
        ensures
            r == (self.state is End),
    {
        match self.state {
            State::End => true,
            _ => false,
        }
    }

    /// Sends the greeting, where it is still to be sent.
    pub fn start(&mut self) -> (r: Vec<String>)
        ensures
            (final(self)@, lines_view(r@)) == open_session(old(self)@),
    {
        let mut r: Vec<String> = Vec::new();
        if let State::SendGreeting = self.state {
            r.push(Response::_220_ServiceReady("smteepee").as_string());
            self.state = State::ReceiveGreeting;
        }
        assert(lines_view(r@) =~= open_session(old(self)@).1);
        r
    }

    /// Takes the next line from the client, or `None` where the stream has
    /// ended, and returns the lines to send in reply.
    pub fn handle(&mut self, input: Option<String>) -> (r: Vec<String>)
        ensures
            (final(self)@, lines_view(r@)) == next(old(self)@, opt_view(input)),
    {
        let mut r: Vec<String> = Vec::new();
        if !self.awaits_input() {
            assert(lines_view(r@) =~= Seq::<Seq<char>>::empty());
            return r;
        }
        let line = match input {
            None => {
                self.closed = true;
                self.state = State::Rejected;
                self.send_error(&mut r);
                assert(lines_view(r@) =~= seq![error_line()]);
                return r;
            },
            Some(line) => line,
        };
        let ghost l = line@;
        match self.state {
            State::ReceiveGreeting => {
                match Command::from_str(line.as_str()) {
                    Some(Command::HELO(_)) => {
                        r.push(self.greeting());
                        self.state = State::Accept;
                    },
                    Some(Command::EHLO(_)) => {
                        r.push(self.greeting());
                        r.push(Response::_250_Completed("AUTH PLAIN").as_string());
                        self.state = State::Authenticate(Authentication::ReceiveAuthCommand);
                    },
                    Some(_) => {
                        r.push(Response::_503_BadSequence.as_string());
                    },
                    None => {
                        r.push(Response::_502_CommandNotImplemented.as_string());
                    },
                }
            },
            State::Authenticate(stage) => {
                let (step, reply) = authentication(stage, &line, &self.secret);
                r.push(reply);
                match step {
                    AuthStep::Authenticated => {
                        self.state = State::Accept;
                    },
                    AuthStep::Continue(st) => {
                        self.state = State::Authenticate(st);
                    },
                }
            },
            State::Accept => {
                match Command::from_str(line.as_str()) {
                    Some(Command::MAIL(from)) => {
                        self.message.record_sender(from);
                        r.push(Response::_250_Completed("OK").as_string());
                    },
                    Some(Command::RCPT(to)) => {
                        self.message.record_recipient(to);
                        r.push(Response::_250_Completed("OK").as_string());
                    },
                    Some(Command::VRFY(addr)) => {
                        // Every address is reported as deliverable.
                        r.push(Response::_250_Completed(addr.as_str()).as_string());
                    },
                    Some(Command::DATA) => {
                        r.push(Response::_354_StartMailInput.as_string());
                        self.state = State::AcceptData;
                    },
                    Some(Command::QUIT) => {
                        r.push(Response::_221_ServiceClosing.as_string());
                        self.state = State::End;
                    },
                    _ => {
                        r.push(Response::_503_BadSequence.as_string());
                        self.state = State::Rejected;
                    },
                }
            },
            _ => {
                if is_end_of_data(&line) {
                    r.push(Response::_250_Completed("OK").as_string());
                    self.state = State::Accept;
                } else {
                    self.message.append_body_line(line);
                }
            },
        }
        let ghost pre = r@;
        let ghost was_rejected = self.state is Rejected;
        self.send_error(&mut r);
        proof {
            if was_rejected {
                assert(r@ =~= pre.push(r@.last()));
                assert(lines_view(r@) =~= lines_view(pre).push(error_line()));
            }
        }
        assert(lines_view(r@) =~= next(old(self)@, Some(l)).1);
        r
    }

    /// A rejected session sends the error line and ends; any other is left
    /// as it is.
    fn send_error(&mut self, sent: &mut Vec<String>)
        ensures
            old(self).state is Rejected ==> final(self)@ == (SessionView {
                state: State::End,
                ..old(self)@
            }) && final(sent)@.len() == old(sent)@.len() + 1 && final(sent)@.drop_last()
                == old(sent)@ && final(sent)@.last()@ == error_line(),
            !(old(self).state is Rejected) ==> final(self)@ == old(self)@ && final(sent)@
                == old(sent)@,
    {
        if let State::Rejected = self.state {
            sent.push("Error".to_owned());
            self.state = State::End;
        }
    }

    /// The reply to a `HELO` or `EHLO`.
    fn greeting(&self) -> (r: String)
        ensures
            r@ == completed_line(greeting_text(self.domain@)),
    {
        let mut text = self.domain.clone();
        text.append(", I hope this day finds you well.");
        Response::_250_Completed(text.as_str()).as_string()
    }

    /// What the session hands over once it is done.
    pub fn finish(self) -> (r: Option<Message>)
        ensures
            match r {
                Some(m) => outcome(self@) == Some(m@),
                None => outcome(self@) is None,
            },
    {
        match self.state {
            State::End if !self.closed => Some(self.message),
            _ => None,
        }
    }
}

/// Feeding `lines` to a session one by one, then the end of the stream: the
/// session at the end and all the lines sent. Lines that arrive after the
/// session has ended are not read.
pub open spec fn feed(s: SessionView, lines: Seq<Seq<char>>) -> (SessionView, Seq<Seq<char>>)
    decreases lines.len(),
{
    if !awaits_input(s.state) {
        (s, Seq::empty())
    } else if lines.len() == 0 {
        next(s, None)
    } else {
        let (t, sent) = next(s, Some(lines[0]));
        let (u, rest) = feed(t, lines.drop_first());
        (u, sent + rest)
    }
}

/// A whole session with these settings over these client lines: what is
/// sent, and the message handed over.
pub open spec fn conversation(domain: Seq<char>, secret: Seq<char>, lines: Seq<Seq<char>>) -> (
    Seq<Seq<char>>,
    Option<MessageView>,
) {
    let (s, greeting) = open_session(initial_session(domain, secret));
    let (t, sent) = feed(s, lines);
    (greeting + sent, outcome(t))
}

/// A whole session: every line sent to the client, and the message handed
/// over, if any.
pub struct Conversation {
    pub replies: Vec<String>,
    pub message: Option<Message>,
}

/// Runs a session over `lines`, as a client sends them, followed by the end
/// of the stream.
pub fn converse_lines(settings: &Settings, lines: &Vec<String>) -> (r: Conversation)
    requires
        encode_utf8(settings.password@).len() <= usize::MAX / 2,
    ensures
        (lines_view(r.replies@), match r.message {
            Some(m) => Some(m@),
            None => None,
        }) == conversation(
            settings.domain@,
            base64_of(encode_utf8(settings.password@)),
            lines_view(lines@),
        ),
{
    let mut session = Session::new(settings);
    let mut replies = session.start();
    let ghost all = lines_view(lines@);
    let ghost target = feed(session@, all);
    let ghost greeting = lines_view(replies@);
    assert(all.skip(0) =~= all);
    let mut i: usize = 0;
    while i < lines.len() && session.awaits_input()
        invariant
            i <= lines@.len(),
            all == lines_view(lines@),
            feed(session@, all.skip(i as int)).0 == target.0,
            lines_view(replies@) + feed(session@, all.skip(i as int)).1 == greeting + target.1,
        decreases lines@.len() - i,
    {
        let ghost prev = lines_view(replies@);
        let mut sent = session.handle(Some(lines[i].clone()));
        proof {
            assert(all.skip(i as int).drop_first() =~= all.skip(i + 1));
            let rest = feed(session@, all.skip(i + 1)).1;
            assert(lines_view(replies@.add(sent@)) =~= prev + lines_view(sent@));
            assert((prev + lines_view(sent@)) + rest =~= prev + (lines_view(sent@) + rest));
        }
        replies.append(&mut sent);
        i = i + 1;
    }
    if session.awaits_input() {
        let ghost prev = lines_view(replies@);
        assert(all.skip(i as int) =~= Seq::<Seq<char>>::empty());
        let mut sent = session.handle(None);
        proof {
            assert(lines_view(replies@.add(sent@)) =~= prev + lines_view(sent@));
        }
        replies.append(&mut sent);
    }
    assert(lines_view(replies@) =~= greeting + target.1);
    Conversation { replies, message: session.finish() }
}

/// Recipients keep the order in which they were sent: two `RCPT TO` lines
/// in the main loop append their addresses, first then second, and the
/// session stays in the main loop.
pub proof fn lemma_recipients_in_order(
    s: SessionView,
    first: Seq<char>,
    second: Seq<char>,
    a: Seq<char>,
    b: Seq<char>,
)
    requires
        s.state is Accept,
        parse_command(first) == Some(CommandView::Rcpt(a)),
        parse_command(second) == Some(CommandView::Rcpt(b)),
    ensures
        ({
            let (t, _) = next(s, Some(first));
            let (u, _) = next(t, Some(second));
            &&& u.state is Accept
            &&& u.message.to == s.message.to.push(a).push(b)
            &&& u.message.to.len() == s.message.to.len() + 2
        }),
{
}

/// Authentication after `EHLO` takes a failed attempt in its stride: after
/// `AUTH`, a wrong secret, `AUTH` again and the right secret, the session
/// reaches the main loop only at the last line, and the replies hold exactly
/// one failure followed by one success.
pub proof fn lemma_auth_retry(
    s: SessionView,
    ehlo: Seq<char>,
    auth: Seq<char>,
    wrong: Seq<char>,
    right: Seq<char>,
)
    requires
        s.state is ReceiveGreeting,
        parse_command(ehlo) matches Some(CommandView::Ehlo(_)),
        parse_command(auth) matches Some(CommandView::Auth(_)),
        wrong != s.secret,
        right == s.secret,
    ensures
        ({
            let (s1, r1) = next(s, Some(ehlo));
            let (s2, r2) = next(s1, Some(auth));
            let (s3, r3) = next(s2, Some(wrong));
            let (s4, r4) = next(s3, Some(auth));
            let (s5, r5) = next(s4, Some(right));
            &&& !(s1.state is Accept) && !(s2.state is Accept)
            &&& !(s3.state is Accept) && !(s4.state is Accept)
            &&& s5.state is Accept
            &&& r1 + r2 + r3 + r4 + r5 == seq![
                completed_line(greeting_text(s.domain)),
                completed_line("AUTH PLAIN"@),
                Response::_334_Authenticate.text(),
                Response::_535_FailedAuthentication.text(),
                Response::_334_Authenticate.text(),
                Response::_235_AuthenticationSuccessful.text(),
            ]
        }),
{
    let (s1, r1) = next(s, Some(ehlo));
    let (s2, r2) = next(s1, Some(auth));
    let (s3, r3) = next(s2, Some(wrong));
    let (s4, r4) = next(s3, Some(auth));
    let (s5, r5) = next(s4, Some(right));
    assert(r1 + r2 + r3 + r4 + r5 =~= seq![
        completed_line(greeting_text(s.domain)),
        completed_line("AUTH PLAIN"@),
        Response::_334_Authenticate.text(),
        Response::_535_FailedAuthentication.text(),
        Response::_334_Authenticate.text(),
        Response::_235_AuthenticationSuccessful.text(),
    ]);
}

/// `VRFY` in the main loop always succeeds: the reply echoes its argument and
/// the session is left as it was.
pub proof fn lemma_verify_echoes(s: SessionView, line: Seq<char>, address: Seq<char>)
    requires
        s.state is Accept,
        parse_command(line) == Some(CommandView::Vrfy(address)),
    ensures
        next(s, Some(line)) == (s, seq![completed_line(address)]),
{
}

/// The end of the stream before the greeting or in the main loop ends the
/// session with no message handed over.
pub proof fn lemma_end_of_stream(s: SessionView)
    requires
        s.state is ReceiveGreeting || s.state is Accept,
    ensures
        next(s, None).0.state is End,
        outcome(next(s, None).0) is None,
{
}

} // verus!
