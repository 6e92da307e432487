//! SMTP commands and replies, decoded and encoded by the `smtp_proto` crate.

use vstd::prelude::*;
use vstd::utf8::encode_utf8;
use smtp_proto::{MailFrom, Mtrk, RcptTo, Request, Response};

verus! {

#[verifier::external_type_specification]
#[verifier::reject_recursive_types(T)]
pub struct ExRequest<T>(Request<T>);

#[verifier::external_type_specification]
#[verifier::reject_recursive_types(T)]
pub struct ExMailFrom<T>(MailFrom<T>);

#[verifier::external_type_specification]
#[verifier::reject_recursive_types(T)]
pub struct ExRcptTo<T>(RcptTo<T>);

#[verifier::external_type_specification]
#[verifier::reject_recursive_types(T)]
pub struct ExMtrk<T>(Mtrk<T>);

/// A reply: a three-digit code and its text.
#[derive(Debug, Clone, PartialEq, Eq)]
pub struct Reply {
    pub code: u16,
    pub text: String,
}

/// The command that `smtp_proto` decodes from `line`, or none where it refuses the line.
pub uninterp spec fn request_of(line: Seq<u8>) -> Option<Request<String>>;

/// The bytes of a reply of `code` and `text` with no enhanced status: the three
/// digits of the code, a space, `0.0.0`, a space, the text in UTF-8, `\r\n`.
pub open spec fn reply_wire(code: u16, text: Seq<char>) -> Seq<u8> {
    seq![(48 + code / 100) as u8, (48 + code / 10 % 10) as u8, (48 + code % 10) as u8, 32u8, 48u8,
        46u8, 48u8, 46u8, 48u8, 32u8] + encode_utf8(text) + seq![13u8, 10u8]
}

/// Relies on `smtp_proto::Request::parse`, then `Request::into_owned`: decodes one
/// command line (the result depends on the bytes alone).
#[verifier::external_body]
fn parse_request(line: &Vec<u8>) -> (r: Option<Request<String>>)
    ensures
        r == request_of(line@),
{
    Request::parse(&mut line.iter()).ok().map(Request::into_owned)
}

/// Relies on `smtp_proto::Response::write` with no enhanced status: for a code in
/// `100..1000` it writes the three digits, a space, `0.0.0 `, the text and `\r\n`.
#[verifier::external_body]
fn write_reply(code: u16, text: &str) -> (r: Vec<u8>)
    requires
        100 <= code < 1000,
    ensures
        r@ == reply_wire(code, text@),
{
    let mut out: Vec<u8> = Vec::new();
    let _ = Response::new(code, 0, 0, 0, text).write(&mut out);
    out
}

/// Decodes a command line; `None` where it is malformed.
pub fn decode_command(line: &Vec<u8>) -> (r: Option<Request<String>>)
    ensures
        r == request_of(line@),
{
    parse_request(line)
}

/// The bytes sent for `reply`.
pub fn encode_reply(reply: &Reply) -> (r: Vec<u8>)
    requires
        100 <= reply.code < 1000,
    ensures
        r@ == reply_wire(reply.code, reply.text@),
        r@.len() >= 12,
        r@[0] == (48 + reply.code / 100) as u8,
        r@[1] == (48 + reply.code / 10 % 10) as u8,
        r@[2] == (48 + reply.code % 10) as u8,
        r@[3] == 32u8,
        r@[r@.len() - 2] == 13u8,
        r@[r@.len() - 1] == 10u8,
{
    write_reply(reply.code, reply.text.as_str())
}

} // verus!
