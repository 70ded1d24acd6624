//! The message that a session builds: envelope and body.
use vstd::prelude::*;

verus! {

/// The characters of each string, in order.
pub open spec fn lines_view(v: Seq<String>) -> Seq<Seq<char>> {
    v.map_values(|s: String| s@)
}

/// The characters of an optional string.
pub open spec fn opt_view(o: Option<String>) -> Option<Seq<char>> {
    match o {
        Some(s) => Some(s@),
        None => None,
    }
}

/// The lines of `lines` joined by newlines, with none after the last.
pub open spec fn join_lines(lines: Seq<Seq<char>>) -> Seq<char>
    decreases lines.len(),
{
    if lines.len() == 0 {
        Seq::empty()
    } else if lines.len() == 1 {
        lines[0]
    } else {
        join_lines(lines.drop_last()) + seq!['\n'] + lines.last()
    }
}

/// A message as received: the sender, the recipients in the order given
/// (duplicates kept), and the body lines.
#[derive(Debug, Clone)]
pub struct Message {
    pub from: Option<String>,
    pub to: Vec<String>,
    pub data: Vec<String>,
    pub saved: Option<String>,
}

pub struct MessageView {
    pub from: Option<Seq<char>>,
    pub to: Seq<Seq<char>>,
    pub data: Seq<Seq<char>>,
    pub saved: Option<Seq<char>>,
}

impl View for Message {
    type V = MessageView;

    open spec fn view(&self) -> MessageView {
        MessageView {
            from: opt_view(self.from),
            to: lines_view(self.to@),
            data: lines_view(self.data@),
            saved: opt_view(self.saved),
        }
    }
}

/// A message with no sender, no recipients and no body.
pub open spec fn empty_message() -> MessageView {
    MessageView { from: None, to: Seq::empty(), data: Seq::empty(), saved: None }
}

impl Message {
    pub fn new() -> (r: Message)
        ensures
            r@ == empty_message(),
    {
        let r = Message { from: None, to: Vec::new(), data: Vec::new(), saved: None };
        assert(r@.to =~= Seq::<Seq<char>>::empty());
        assert(r@.data =~= Seq::<Seq<char>>::empty());
        r
    }

    /// The body, its lines joined by newlines.
    pub fn get_data(&self) -> (r: String)
        ensures
            r@ == join_lines(self@.data),
    {
        let mut r = String::new();
        let mut i: usize = 0;
        while i < self.data.len()
            invariant
                i <= self.data@.len(),
                r@ == join_lines(lines_view(self.data@).take(i as int)),
            decreases self.data@.len() - i,
        {
            let ghost before = lines_view(self.data@).take(i as int);
            if i > 0 {
                proof {
                    reveal_strlit("\n");
                }
                r.append("\n");
            }
            r.append(self.data[i].as_str());
            proof {
                let after = lines_view(self.data@).take(i + 1);
                assert(after.drop_last() =~= before);
                if i == 0 {
                    assert(r@ =~= after[0]);
                }
            }
            i = i + 1;
        }
        assert(lines_view(self.data@).take(i as int) =~= lines_view(self.data@));
        r
    }

    /// Records `address` as the sender, replacing any earlier one.
    pub fn record_sender(&mut self, address: String)
        ensures
            final(self)@ == (MessageView { from: Some(address@), ..old(self)@ }),
    {
        self.from = Some(address);
    }

    /// Appends `address` to the recipients.
    pub fn record_recipient(&mut self, address: String)
        ensures
            final(self)@ == (MessageView { to: old(self)@.to.push(address@), ..old(self)@ }),
    {
        self.to.push(address);
        assert(final(self)@.to =~= old(self)@.to.push(address@));
    }

    /// Appends `line` to the body.
    pub fn append_body_line(&mut self, line: String)
        ensures
            final(self)@ == (MessageView { data: old(self)@.data.push(line@), ..old(self)@ }),
    {
        self.data.push(line);
        assert(final(self)@.data =~= old(self)@.data.push(line@));
    }
}

} // verus!
