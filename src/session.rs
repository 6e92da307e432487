//! The per-connection protocol state machine: envelope, DATA capture with
//! dot-unstuffing, and the reply to each command.

use vstd::prelude::*;
use crate::error::RelayError;
use crate::line::ends_crlf;
use smtp_proto::Request;
use crate::smtp::{decode_command, request_of, Reply};

verus! {

/// A line made of a single dot: the end of the message body.
pub open spec fn is_terminator(l: Seq<u8>) -> bool {
    l == seq![46u8, 13u8, 10u8]
}

/// What a body line adds to the message: a line that starts with two dots and
/// ends with `\r\n` loses its first dot; any other line is kept as it is.
pub open spec fn unstuffed(l: Seq<u8>) -> Seq<u8> {
    if l.len() >= 3 && l[0] == 46u8 && l[1] == 46u8 && ends_crlf(l) {
        l.drop_first()
    } else {
        l
    }
}

/// A completed message, handed to extraction and delivery.
#[derive(Debug, Clone)]
pub struct Message {
    pub body: Vec<u8>,
    pub sender: String,
    pub recipient: String,
}

/// What the connection does after one line.
#[derive(Debug, Clone)]
pub enum Step {
    /// Send the reply and read on.
    Reply(Reply),
    /// Send the reply, then close the connection.
    Close(Reply),
    /// A body line was stored; nothing is sent.
    Stored,
    /// The body ended: deliver the message, then send `completion_reply()`.
    Deliver(Message),
}

/// The state of one connection.
pub struct Session {
    sender: Option<String>,
    recipient: Option<String>,
    buffer: Vec<u8>,
    in_data: bool,
}

pub open spec fn opt_view(o: Option<String>) -> Option<Seq<char>> {
    match o {
        Some(s) => Some(s@),
        None => None,
    }
}

/// `r` is an ordinary reply with this code and text.
pub open spec fn replies(r: Step, code: u16, text: Seq<char>) -> bool {
    r matches Step::Reply(rep) && rep.code == code && rep.text@ == text
}

impl Session {
    pub closed spec fn sender(&self) -> Option<Seq<char>> {
        opt_view(self.sender)
    }

    pub closed spec fn recipient(&self) -> Option<Seq<char>> {
        opt_view(self.recipient)
    }

    pub closed spec fn buffer(&self) -> Seq<u8> {
        self.buffer@
    }

    pub closed spec fn in_data(&self) -> bool {
        self.in_data
    }

    /// The buffer fills only in DATA mode, which needs both addresses.
    pub open spec fn wf(&self) -> bool {
        &&& !self.in_data() ==> self.buffer() == Seq::<u8>::empty()
        &&& self.in_data() ==> self.sender() is Some && self.recipient() is Some
    }

    pub open spec fn same_state(&self, other: &Session) -> bool {
        &&& self.sender() == other.sender()
        &&& self.recipient() == other.recipient()
        &&& self.buffer() == other.buffer()
        &&& self.in_data() == other.in_data()
    }

    /// What a command does in command mode, from state `pre` to `post`, answered by `r`.
    pub open spec fn command_effect(pre: &Session, post: &Session, cmd: Request<String>, r: Step) -> bool {
        match cmd {
            Request::Helo { host } => replies(r, 250, "Hello "@ + host@) && post.same_state(pre),
            Request::Ehlo { host } => replies(r, 250, "Hello "@ + host@) && post.same_state(pre),
            Request::Lhlo { host } => replies(r, 250, "Hello "@ + host@) && post.same_state(pre),
            Request::Mail { from } => {
                &&& replies(r, 250, "OK"@)
                &&& post.sender() == Some(from.address@)
                &&& post.recipient() == pre.recipient()
                &&& post.buffer() == pre.buffer()
                &&& !post.in_data()
            },
            Request::Rcpt { to } => {
                &&& replies(r, 250, "OK"@)
                &&& post.recipient() == Some(to.address@)
                &&& post.sender() == pre.sender()
                &&& post.buffer() == pre.buffer()
                &&& !post.in_data()
            },
            Request::Data => if pre.sender() is Some && pre.recipient() is Some {
                &&& replies(r, 354, "End data with <CR><LF>.<CR><LF>"@)
                &&& post.in_data()
                &&& post.buffer() == Seq::<u8>::empty()
                &&& post.sender() == pre.sender()
                &&& post.recipient() == pre.recipient()
            } else {
                replies(r, 503, "Need MAIL and RCPT first"@) && post.same_state(pre)
            },
            Request::Rset => {
                &&& replies(r, 250, "OK"@)
                &&& post.sender() is None
                &&& post.recipient() is None
                &&& post.buffer() == Seq::<u8>::empty()
                &&& !post.in_data()
            },
            Request::Quit => (r matches Step::Close(rep) && rep.code == 221 && rep.text@ == "Bye"@)
                && post.same_state(pre),
            Request::Noop { .. } => replies(r, 250, "OK"@) && post.same_state(pre),
            Request::Help { .. } => replies(r, 214, "Help text"@) && post.same_state(pre),
            Request::StartTls => replies(r, 502, "TLS not supported"@) && post.same_state(pre),
            Request::Auth { .. } => replies(r, 502, "Auth not supported"@) && post.same_state(pre),
            Request::Vrfy { .. } => replies(r, 502, "Command not implemented"@) && post.same_state(pre),
            Request::Expn { .. } => replies(r, 502, "Command not implemented"@) && post.same_state(pre),
            Request::Bdat { .. } => replies(r, 502, "Command not implemented"@) && post.same_state(pre),
            Request::Burl { .. } => replies(r, 502, "Command not implemented"@) && post.same_state(pre),
            Request::Etrn { .. } => replies(r, 502, "Command not implemented"@) && post.same_state(pre),
            Request::Atrn { .. } => replies(r, 502, "Command not implemented"@) && post.same_state(pre),
        }
    }

    /// What a line does in DATA mode: the lone dot ends the body and hands the
    /// message over, clearing the transaction; any other line is stored unstuffed.
    pub open spec fn data_effect(pre: &Session, post: &Session, line: Seq<u8>, r: Step) -> bool {
        if is_terminator(line) {
            &&& r matches Step::Deliver(m) && m.body@ == pre.buffer() && Some(m.sender@)
                == pre.sender() && Some(m.recipient@) == pre.recipient()
            &&& post.sender() is None
            &&& post.recipient() is None
            &&& post.buffer() == Seq::<u8>::empty()
            &&& !post.in_data()
        } else {
            &&& r is Stored
            &&& post.buffer() == pre.buffer() + unstuffed(line)
            &&& post.in_data()
            &&& post.sender() == pre.sender()
            &&& post.recipient() == pre.recipient()
        }
    }

    /// A session in command mode, with an empty envelope and buffer.
    pub fn new() -> (r: Session)
        ensures
            r.wf(),
            r.sender() is None,
            r.recipient() is None,
            r.buffer() == Seq::<u8>::empty(),
            !r.in_data(),
    {
        Session { sender: None, recipient: None, buffer: Vec::new(), in_data: false }
    }

    /// The sender address of the current transaction.
    pub fn sender_address(&self) -> (r: Option<String>)
        ensures
            opt_view(r) == self.sender(),
    {
        self.sender.clone()
    }

    /// The recipient address of the current transaction.
    pub fn recipient_address(&self) -> (r: Option<String>)
        ensures
            opt_view(r) == self.recipient(),
    {
        self.recipient.clone()
    }

    /// The body bytes stored so far.
    pub fn buffered(&self) -> (r: Vec<u8>)
        ensures
            r@ == self.buffer(),
    {
        self.buffer.clone()
    }

    /// Whether the session is reading a message body.
    pub fn is_in_data(&self) -> (r: bool)
        ensures
            r == self.in_data(),
    {
        self.in_data
    }

    /// Acts on one decoded command.
    pub fn handle_command(&mut self, cmd: Request<String>) -> (r: Step)
        requires
            old(self).wf(),
            !old(self).in_data(),
        ensures
            final(self).wf(),
            Session::command_effect(old(self), final(self), cmd, r),
    {
        match cmd {
            Request::Helo { host } => hello_reply(host),
            Request::Ehlo { host } => hello_reply(host),
            Request::Lhlo { host } => hello_reply(host),
            Request::Mail { from } => {
                self.sender = Some(from.address);
                ok_reply()
            },
            Request::Rcpt { to } => {
                self.recipient = Some(to.address);
                ok_reply()
            },
            Request::Data => {
                if self.sender.is_none() || self.recipient.is_none() {
                    Step::Reply(Reply { code: 503, text: "Need MAIL and RCPT first".to_owned() })
                } else {
                    self.in_data = true;
                    self.buffer = Vec::new();
                    Step::Reply(
                        Reply { code: 354, text: "End data with <CR><LF>.<CR><LF>".to_owned() },
                    )
                }
            },
            Request::Rset => {
                self.sender = None;
                self.recipient = None;
                self.buffer = Vec::new();
                ok_reply()
            },
            Request::Quit => Step::Close(Reply { code: 221, text: "Bye".to_owned() }),
            Request::Noop { .. } => ok_reply(),
            Request::Help { .. } => Step::Reply(Reply { code: 214, text: "Help text".to_owned() }),
            Request::StartTls => Step::Reply(
                Reply { code: 502, text: "TLS not supported".to_owned() },
            ),
            Request::Auth { .. } => Step::Reply(
                Reply { code: 502, text: "Auth not supported".to_owned() },
            ),
            Request::Vrfy { .. } => unimplemented_reply(),
            Request::Expn { .. } => unimplemented_reply(),
            Request::Bdat { .. } => unimplemented_reply(),
            Request::Burl { .. } => unimplemented_reply(),
            Request::Etrn { .. } => unimplemented_reply(),
            Request::Atrn { .. } => unimplemented_reply(),
        }
    }

    /// Acts on one line of the message body.
    pub fn handle_data_line(&mut self, line: &Vec<u8>) -> (r: Step)
        requires
            old(self).wf(),
            old(self).in_data(),
        ensures
            final(self).wf(),
            Session::data_effect(old(self), final(self), line@, r),
    {
        let n = line.len();
        if n == 3 && line[0] == 46u8 && line[1] == 13u8 && line[2] == 10u8 {
            assert(line@ =~= seq![46u8, 13u8, 10u8]);
            let body = self.buffer.clone();
            let sender = match self.sender.take() {
                Some(s) => s,
                None => String::new(),
            };
            let recipient = match self.recipient.take() {
                Some(s) => s,
                None => String::new(),
            };
            self.buffer = Vec::new();
            self.in_data = false;
            Step::Deliver(Message { body, sender, recipient })
        } else {
            let start: usize = if n >= 3 && line[0] == 46u8 && line[1] == 46u8 && line[n - 2]
                == 13u8 && line[n - 1] == 10u8 {
                1
            } else {
                0
            };
            append_from(&mut self.buffer, line, start);
            assert(line@.subrange(start as int, n as int) =~= unstuffed(line@));
            Step::Stored
        }
    }

    /// Acts on one received line: a body line in DATA mode, else a command, which
    /// fails the session with `ProtocolParse` where it cannot be decoded.
    pub fn handle_line(&mut self, line: &Vec<u8>) -> (r: Result<Step, RelayError>)
        requires
            old(self).wf(),
        ensures
            final(self).wf(),
            old(self).in_data() ==> (r matches Ok(step) && Session::data_effect(
                old(self),
                final(self),
                line@,
                step,
            )),
            !old(self).in_data() && request_of(line@) is None ==> r == Err::<Step, RelayError>(
                RelayError::ProtocolParse,
            ) && final(self).same_state(old(self)),
            !old(self).in_data() && request_of(line@) is Some ==> (r matches Ok(step)
                && Session::command_effect(old(self), final(self), request_of(line@)->0, step)),
    {
        if self.in_data {
            Ok(self.handle_data_line(line))
        } else {
            match decode_command(line) {
                None => Err(RelayError::ProtocolParse),
                Some(cmd) => Ok(self.handle_command(cmd)),
            }
        }
    }
}

/// Appends `src[from..]` to `out`.
fn append_from(out: &mut Vec<u8>, src: &Vec<u8>, from: usize)
    requires
        from <= src.len(),
    ensures
        final(out)@ == old(out)@ + src@.subrange(from as int, src@.len() as int),
{
    let n = src.len();
    let mut i: usize = from;
    while i < n
        invariant
            from <= i <= n == src@.len(),
            out@ == old(out)@ + src@.subrange(from as int, i as int),
        decreases n - i,
    {
        out.push(src[i]);
        i = i + 1;
    }
}

fn hello_reply(host: String) -> (r: Step)
    ensures
        replies(r, 250, "Hello "@ + host@),
{
    Step::Reply(Reply { code: 250, text: "Hello ".to_owned().concat(host.as_str()) })
}

fn unimplemented_reply() -> (r: Step)
    ensures
        replies(r, 502, "Command not implemented"@),
{
    Step::Reply(Reply { code: 502, text: "Command not implemented".to_owned() })
}

fn ok_reply() -> (r: Step)
    ensures
        replies(r, 250, "OK"@),
{
    Step::Reply(Reply { code: 250, text: "OK".to_owned() })
}

/// The reply that opens a connection.
pub fn greeting() -> (r: Reply)
    ensures
        r.code == 220,
        r.text@ == "SMTP to Telegram Service Ready"@,
{
    Reply { code: 220, text: "SMTP to Telegram Service Ready".to_owned() }
}

/// The reply sent once a message body has ended, whatever became of its delivery.
pub fn completion_reply() -> (r: Reply)
    ensures
        r.code == 250,
        r.text@ == "OK"@,
{
    Reply { code: 250, text: "OK".to_owned() }
}

/// In DATA mode a line `..X\r\n` adds exactly `.X\r\n` to the body, and the
/// session stays in DATA mode.
pub proof fn lemma_dot_unstuffing(pre: Session, post: Session, x: Seq<u8>, r: Step)
    requires
        Session::data_effect(&pre, &post, seq![46u8, 46u8] + x + seq![13u8, 10u8], r),
    ensures
        r is Stored,
        post.buffer() == pre.buffer() + (seq![46u8] + x + seq![13u8, 10u8]),
        post.in_data(),
{
    let l = seq![46u8, 46u8] + x + seq![13u8, 10u8];
    assert(l.len() >= 4);
    assert(l[0] == 46u8 && l[1] == 46u8);
    assert(!is_terminator(l)) by {
        if is_terminator(l) {
            assert(l.len() == 3);
        }
    }
    assert(ends_crlf(l));
    assert(l.drop_first() =~= seq![46u8] + x + seq![13u8, 10u8]);
}

/// The line `.\r\n` ends DATA mode and is never added to the body: the message
/// handed over is the body stored before it, and the buffer is then empty.
pub proof fn lemma_terminator(pre: Session, post: Session, r: Step)
    requires
        Session::data_effect(&pre, &post, seq![46u8, 13u8, 10u8], r),
    ensures
        r matches Step::Deliver(m) && m.body@ == pre.buffer(),
        post.buffer() == Seq::<u8>::empty(),
        !post.in_data(),
{
}

/// DATA without both a sender and a recipient is answered 503 and leaves the
/// session in command mode with an empty buffer.
pub proof fn lemma_data_needs_envelope(pre: Session, post: Session, r: Step)
    requires
        pre.wf(),
        !pre.in_data(),
        pre.sender() is None || pre.recipient() is None,
        Session::command_effect(&pre, &post, Request::Data, r),
    ensures
        r matches Step::Reply(rep) && rep.code == 503,
        !post.in_data(),
        post.buffer() == Seq::<u8>::empty(),
{
}

} // verus!
