//! The command grammar: one client line to one typed command.
use vstd::prelude::*;

use crate::text::{
    all_whitespace, chars_of, equal_up_to_case, find_last, has_keyword, is_keyword, is_trimmed,
    is_ws, last_index_of, lemma_keyword_ignores_case, lemma_last_index_ignores_case,
    lemma_last_index_of_bounds, lemma_suffix_ignores_case, lemma_trim_padded,
    lemma_trim_start_ignores_case, lemma_trim_start_skips, matches_ignoring_case, same_up_to_case,
    skip_whitespace, starts_with_keyword, substring, trim, trim_bounds, trim_start,
};

verus! {

/// A command sent by the client.
#[derive(PartialEq, Eq, Debug)]
pub enum Command {
    EHLO(String),
    HELO(String),
    MAIL(String),
    RCPT(String),
    DATA,
    RSET,
    NOOP,
    QUIT,
    VRFY(String),
    AUTH(String),
}

/// A command with its argument as a sequence of characters.
pub enum CommandView {
    Ehlo(Seq<char>),
    Helo(Seq<char>),
    Mail(Seq<char>),
    Rcpt(Seq<char>),
    Data,
    Rset,
    Noop,
    Quit,
    Vrfy(Seq<char>),
    Auth(Seq<char>),
}

impl View for Command {
    type V = CommandView;

    open spec fn view(&self) -> CommandView {
        match self {
            Command::EHLO(d) => CommandView::Ehlo(d@),
            Command::HELO(d) => CommandView::Helo(d@),
            Command::MAIL(a) => CommandView::Mail(a@),
            Command::RCPT(a) => CommandView::Rcpt(a@),
            Command::DATA => CommandView::Data,
            Command::RSET => CommandView::Rset,
            Command::NOOP => CommandView::Noop,
            Command::QUIT => CommandView::Quit,
            Command::VRFY(a) => CommandView::Vrfy(a@),
            Command::AUTH(m) => CommandView::Auth(m@),
        }
    }
}

/// The view of a parse result.
pub open spec fn parsed_view(c: Option<Command>) -> Option<CommandView> {
    match c {
        Some(c) => Some(c@),
        None => None,
    }
}

pub open spec fn kw_ehlo() -> Seq<char> {
    seq!['E', 'H', 'L', 'O']
}

pub open spec fn kw_helo() -> Seq<char> {
    seq!['H', 'E', 'L', 'O']
}

pub open spec fn kw_mail_from() -> Seq<char> {
    seq!['M', 'A', 'I', 'L', ' ', 'F', 'R', 'O', 'M']
}

pub open spec fn kw_rcpt_to() -> Seq<char> {
    seq!['R', 'C', 'P', 'T', ' ', 'T', 'O']
}

pub open spec fn kw_data() -> Seq<char> {
    seq!['D', 'A', 'T', 'A']
}

pub open spec fn kw_rset() -> Seq<char> {
    seq!['R', 'S', 'E', 'T']
}

pub open spec fn kw_noop() -> Seq<char> {
    seq!['N', 'O', 'O', 'P']
}

pub open spec fn kw_quit() -> Seq<char> {
    seq!['Q', 'U', 'I', 'T']
}

pub open spec fn kw_vrfy() -> Seq<char> {
    seq!['V', 'R', 'F', 'Y']
}

pub open spec fn kw_auth() -> Seq<char> {
    seq!['A', 'U', 'T', 'H']
}

/// What follows the keyword `kw` at the start of `s`, trimmed of whitespace.
pub open spec fn argument_after(s: Seq<char>, kw: Seq<char>) -> Seq<char> {
    trim(s.skip(kw.len() as int))
}

/// The address of `KEYWORD : <address>` (any whitespace around the colon and
/// the brackets, the address running to the last `>`), trimmed of whitespace;
/// `None` where `s` is not of that shape.
pub open spec fn bracketed_address(s: Seq<char>, kw: Seq<char>) -> Option<Seq<char>> {
    if starts_with_keyword(s, kw) {
        let a = trim_start(s.skip(kw.len() as int));
        if a.len() > 0 && a[0] == ':' {
            let b = trim_start(a.skip(1));
            if b.len() > 0 && b[0] == '<' {
                let t = b.skip(1);
                let j = last_index_of(t, '>');
                if j >= 0 {
                    Some(trim(t.take(j)))
                } else {
                    None
                }
            } else {
                None
            }
        } else {
            None
        }
    } else {
        None
    }
}

/// The command that a line stands for: the keywords are tried in a fixed
/// order, ignoring ASCII case, and the first that the line begins with wins.
pub open spec fn parse_command(s: Seq<char>) -> Option<CommandView> {
    if starts_with_keyword(s, kw_ehlo()) {
        Some(CommandView::Ehlo(argument_after(s, kw_ehlo())))
    } else if starts_with_keyword(s, kw_helo()) {
        Some(CommandView::Helo(argument_after(s, kw_helo())))
    } else if bracketed_address(s, kw_mail_from()) is Some {
        Some(CommandView::Mail(bracketed_address(s, kw_mail_from())->0))
    } else if bracketed_address(s, kw_rcpt_to()) is Some {
        Some(CommandView::Rcpt(bracketed_address(s, kw_rcpt_to())->0))
    } else if starts_with_keyword(s, kw_data()) {
        Some(CommandView::Data)
    } else if starts_with_keyword(s, kw_rset()) {
        Some(CommandView::Rset)
    } else if starts_with_keyword(s, kw_noop()) {
        Some(CommandView::Noop)
    } else if starts_with_keyword(s, kw_quit()) {
        Some(CommandView::Quit)
    } else if starts_with_keyword(s, kw_vrfy()) {
        Some(CommandView::Vrfy(argument_after(s, kw_vrfy())))
    } else if starts_with_keyword(s, kw_auth()) {
        Some(CommandView::Auth(argument_after(s, kw_auth())))
    } else {
        None
    }
}

/// Two parse results that are the same command, whatever their arguments.
pub open spec fn same_command(x: Option<CommandView>, y: Option<CommandView>) -> bool {
    match (x, y) {
        (None, None) => true,
        (Some(CommandView::Ehlo(_)), Some(CommandView::Ehlo(_))) => true,
        (Some(CommandView::Helo(_)), Some(CommandView::Helo(_))) => true,
        (Some(CommandView::Mail(_)), Some(CommandView::Mail(_))) => true,
        (Some(CommandView::Rcpt(_)), Some(CommandView::Rcpt(_))) => true,
        (Some(CommandView::Data), Some(CommandView::Data)) => true,
        (Some(CommandView::Rset), Some(CommandView::Rset)) => true,
        (Some(CommandView::Noop), Some(CommandView::Noop)) => true,
        (Some(CommandView::Quit), Some(CommandView::Quit)) => true,
        (Some(CommandView::Vrfy(_)), Some(CommandView::Vrfy(_))) => true,
        (Some(CommandView::Auth(_)), Some(CommandView::Auth(_))) => true,
        _ => false,
    }
}

proof fn lemma_bracketed_ignores_case(a: Seq<char>, b: Seq<char>, kw: Seq<char>)
    requires
        equal_up_to_case(a, b),
        is_keyword(kw),
    ensures
        (bracketed_address(a, kw) is Some) == (bracketed_address(b, kw) is Some),
{
    lemma_keyword_ignores_case(a, b, kw);
    if starts_with_keyword(a, kw) {
        let n = kw.len() as int;
        lemma_suffix_ignores_case(a, b, n);
        lemma_trim_start_ignores_case(a.skip(n), b.skip(n));
        let (x, y) = (trim_start(a.skip(n)), trim_start(b.skip(n)));
        if x.len() > 0 {
            assert(same_up_to_case(x[0], y[0]));
            lemma_suffix_ignores_case(x, y, 1);
            lemma_trim_start_ignores_case(x.skip(1), y.skip(1));
            let (p, q) = (trim_start(x.skip(1)), trim_start(y.skip(1)));
            if p.len() > 0 {
                assert(same_up_to_case(p[0], q[0]));
                lemma_suffix_ignores_case(p, q, 1);
                lemma_last_index_ignores_case(p.skip(1), q.skip(1), '>');
            }
        }
    }
}

/// The parser ignores ASCII case: two lines that differ only in the case of
/// their letters are read as the same command.
pub proof fn lemma_parse_ignores_case(a: Seq<char>, b: Seq<char>)
    requires
        equal_up_to_case(a, b),
    ensures
        same_command(parse_command(a), parse_command(b)),
{
    assert(is_keyword(kw_ehlo()));
    assert(is_keyword(kw_helo()));
    assert(is_keyword(kw_mail_from()));
    assert(is_keyword(kw_rcpt_to()));
    assert(is_keyword(kw_data()));
    assert(is_keyword(kw_rset()));
    assert(is_keyword(kw_noop()));
    assert(is_keyword(kw_quit()));
    assert(is_keyword(kw_vrfy()));
    assert(is_keyword(kw_auth()));
    lemma_keyword_ignores_case(a, b, kw_ehlo());
    lemma_keyword_ignores_case(a, b, kw_helo());
    lemma_bracketed_ignores_case(a, b, kw_mail_from());
    lemma_bracketed_ignores_case(a, b, kw_rcpt_to());
    lemma_keyword_ignores_case(a, b, kw_data());
    lemma_keyword_ignores_case(a, b, kw_rset());
    lemma_keyword_ignores_case(a, b, kw_noop());
    lemma_keyword_ignores_case(a, b, kw_quit());
    lemma_keyword_ignores_case(a, b, kw_vrfy());
    lemma_keyword_ignores_case(a, b, kw_auth());
}

/// Whitespace around the colon and inside and outside the brackets of
/// `MAIL FROM` is left out: the address is what the brackets hold, trimmed.
pub proof fn lemma_mail_from_spacing(
    w1: Seq<char>,
    w2: Seq<char>,
    w3: Seq<char>,
    w4: Seq<char>,
    address: Seq<char>,
)
    requires
        all_whitespace(w1),
        all_whitespace(w2),
        all_whitespace(w3),
        all_whitespace(w4),
        is_trimmed(address),
    ensures
        parse_command(
            kw_mail_from() + w1 + seq![':'] + w2 + seq!['<'] + w3 + address + w4 + seq!['>'],
        ) == Some(CommandView::Mail(address)),
{
    let kw = kw_mail_from();
    let t = w3 + address + w4;
    let s = kw + w1 + seq![':'] + w2 + seq!['<'] + t + seq!['>'];
    assert(s =~= kw + w1 + seq![':'] + w2 + seq!['<'] + w3 + address + w4 + seq!['>']);
    assert(!matches_ignoring_case(s[0], kw_ehlo()[0]));
    assert(!matches_ignoring_case(s[0], kw_helo()[0]));
    assert(starts_with_keyword(s, kw));
    let rest = seq![':'] + (w2 + seq!['<'] + t + seq!['>']);
    assert(s.skip(kw.len() as int) =~= w1 + rest);
    lemma_trim_start_skips(w1, rest);
    assert(rest[0] == ':');
    let a = trim_start(s.skip(kw.len() as int));
    assert(a == rest);
    let rest2 = seq!['<'] + (t + seq!['>']);
    assert(a.skip(1) =~= w2 + rest2);
    lemma_trim_start_skips(w2, rest2);
    assert(rest2[0] == '<');
    let b = trim_start(a.skip(1));
    assert(b == rest2);
    assert(b.skip(1) =~= t + seq!['>']);
    assert((t + seq!['>']).drop_last() =~= t);
    assert(last_index_of(b.skip(1), '>') == t.len());
    assert(b.skip(1).take(t.len() as int) =~= t);
    lemma_trim_padded(w3, address, w4);
}

/// A `MAIL FROM` line whose address is not in brackets is not read as `MAIL`.
pub proof fn lemma_mail_from_needs_brackets(w1: Seq<char>, w2: Seq<char>, rest: Seq<char>)
    requires
        all_whitespace(w1),
        all_whitespace(w2),
        rest.len() == 0 || (!is_ws(rest[0]) && rest[0] != '<'),
    ensures
        !(parse_command(kw_mail_from() + w1 + seq![':'] + w2 + rest) matches Some(
            CommandView::Mail(_),
        )),
{
    let kw = kw_mail_from();
    let s = kw + w1 + seq![':'] + w2 + rest;
    assert(!matches_ignoring_case(s[0], kw_ehlo()[0]));
    assert(!matches_ignoring_case(s[0], kw_helo()[0]));
    let tail = seq![':'] + (w2 + rest);
    assert(s.skip(kw.len() as int) =~= w1 + tail);
    lemma_trim_start_skips(w1, tail);
    assert(tail[0] == ':');
    let a = trim_start(s.skip(kw.len() as int));
    assert(a == tail);
    assert(a.skip(1) =~= w2 + rest);
    lemma_trim_start_skips(w2, rest);
    if rest.len() > 0 {
        assert(trim_start(rest) == rest);
    } else {
        assert(trim_start(rest) == rest);
    }
}

/// The trimmed text of `text` after its first `n` characters.
fn argument(text: &str, v: &Vec<char>, n: usize) -> (r: String)
    requires
        v@ == text@,
        n <= v@.len(),
    ensures
        r@ == trim(text@.skip(n as int)),
{
    let (lo, hi) = trim_bounds(v, n, v.len());
    assert(v@.subrange(n as int, v@.len() as int) =~= text@.skip(n as int));
    substring(text, lo, hi)
}

/// The address of a `MAIL FROM` or `RCPT TO` line, as `bracketed_address` gives it.
fn address(text: &str, v: &Vec<char>, kw: &[char]) -> (r: Option<String>)
    requires
        v@ == text@,
    ensures
        match r {
            Some(a) => bracketed_address(text@, kw@) == Some(a@),
            None => bracketed_address(text@, kw@) is None,
        },
{
    if !has_keyword(v, kw) {
        return None;
    }
    let n = v.len();
    let i = skip_whitespace(v, kw.len(), n);
    assert(v@.subrange(kw@.len() as int, n as int) =~= v@.skip(kw@.len() as int));
    assert(v@.subrange(i as int, n as int) =~= v@.skip(i as int));
    if i >= n || v[i] != ':' {
        return None;
    }
    let k = skip_whitespace(v, i + 1, n);
    assert(v@.skip(i as int).skip(1) =~= v@.subrange(i + 1, n as int));
    assert(v@.subrange(k as int, n as int) =~= v@.skip(k as int));
    if k >= n || v[k] != '<' {
        return None;
    }
    assert(v@.skip(k as int).skip(1) =~= v@.skip(k + 1));
    match find_last(v, k + 1, '>') {
        Some(j) => {
            proof {
                lemma_last_index_of_bounds(v@.skip(k + 1), '>');
            }
            let (lo, hi) = trim_bounds(v, k + 1, j);
            assert(v@.skip(k + 1).take(j - (k + 1)) =~= v@.subrange(k + 1, j as int));
            Some(substring(text, lo, hi))
        },
        None => None,
    }
}

impl Command {
    /// Parses a line from the client, without its line terminator.
    pub fn from_str(text: &str) -> (r: Option<Command>)
        ensures
            parsed_view(r) == parse_command(text@),
    {
        let v = chars_of(text);
        if has_keyword(&v, &['E', 'H', 'L', 'O']) {
            return Some(Command::EHLO(argument(text, &v, 4)));
        }
        if has_keyword(&v, &['H', 'E', 'L', 'O']) {
            return Some(Command::HELO(argument(text, &v, 4)));
        }
        if let Some(from) = address(text, &v, &['M', 'A', 'I', 'L', ' ', 'F', 'R', 'O', 'M']) {
            return Some(Command::MAIL(from));
        }
        if let Some(to) = address(text, &v, &['R', 'C', 'P', 'T', ' ', 'T', 'O']) {
            return Some(Command::RCPT(to));
        }
        if has_keyword(&v, &['D', 'A', 'T', 'A']) {
            return Some(Command::DATA);
        }
        if has_keyword(&v, &['R', 'S', 'E', 'T']) {
            return Some(Command::RSET);
        }
        if has_keyword(&v, &['N', 'O', 'O', 'P']) {
            return Some(Command::NOOP);
        }
        if has_keyword(&v, &['Q', 'U', 'I', 'T']) {
            return Some(Command::QUIT);
        }
        if has_keyword(&v, &['V', 'R', 'F', 'Y']) {
            return Some(Command::VRFY(argument(text, &v, 4)));
        }
        if has_keyword(&v, &['A', 'U', 'T', 'H']) {
            return Some(Command::AUTH(argument(text, &v, 4)));
        }
        None
    }
}

} // verus!
