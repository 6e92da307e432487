//! Turning the raw bytes of a message into the text to relay, with the
//! `mail_parser` crate doing the MIME decoding.

use vstd::prelude::*;
use mail_parser::{MessageParser, MimeHeaders};
use crate::session::opt_view;
use crate::text::{append_chars, chars_of, is_space, is_space_char, string_of};

verus! {

/// What the MIME parser yields of a message: the two halves of its content type,
/// its subject, and its first plain-text and first HTML body.
#[derive(Debug, Clone)]
pub struct MailParts {
    pub ctype: Option<String>,
    pub subtype: Option<String>,
    pub subject: Option<String>,
    pub text_body: Option<String>,
    pub html_body: Option<String>,
}

/// What `mail_parser` finds in `data`, or none where it cannot parse it.
pub uninterp spec fn mail_parts_of(data: Seq<u8>) -> Option<MailParts>;

/// `str::to_lowercase` of `s`.
pub uninterp spec fn lower_of(s: Seq<char>) -> Seq<char>;

/// `String::from_utf8_lossy` of `data`.
pub uninterp spec fn lossy_of(data: Seq<u8>) -> Seq<char>;

/// Relies on `mail_parser::MessageParser::parse` and the accessors of the message
/// it returns; the result depends on the bytes alone.
#[verifier::external_body]
fn parse_mail(data: &Vec<u8>) -> (r: Option<MailParts>)
    ensures
        r == mail_parts_of(data@),
{
    let msg = MessageParser::default().parse(data.as_slice())?;
    let ct = msg.content_type();
    Some(MailParts {
        ctype: ct.map(|c| c.ctype().to_string()),
        subtype: ct.and_then(|c| c.subtype()).map(|s| s.to_string()),
        subject: msg.subject().map(|s| s.to_string()),
        text_body: msg.body_text(0).map(|b| b.into_owned()),
        html_body: msg.body_html(0).map(|b| b.into_owned()),
    })
}

/// Relies on `str::to_lowercase`.
#[verifier::external_body]
fn lowercase(s: &str) -> (r: String)
    ensures
        r@ == lower_of(s@),
{
    s.to_lowercase()
}

/// Relies on `String::from_utf8_lossy`: the bytes as UTF-8, each invalid sequence
/// replaced by U+FFFD.
#[verifier::external_body]
fn utf8_lossy(data: &Vec<u8>) -> (r: String)
    ensures
        r@ == lossy_of(data@),
{
    String::from_utf8_lossy(data.as_slice()).into_owned()
}

pub open spec fn or_empty(o: Option<String>) -> Seq<char> {
    match o {
        Some(s) => s@,
        None => Seq::<char>::empty(),
    }
}

/// The lowercase `type/subtype` tag, present when both halves are.
pub open spec fn content_tag(p: MailParts) -> Option<Seq<char>> {
    match (p.ctype, p.subtype) {
        (Some(t), Some(s)) => Some(lower_of(t@ + "/"@ + s@)),
        _ => None,
    }
}

pub open spec fn starts_with_html(t: Seq<char>) -> bool {
    t.len() >= 9 && t.subrange(0, 9) == "text/html"@
}

/// The HTML body for an HTML content type, the text body for another; with no
/// content type, the text body unless it is empty, then the HTML body.
pub open spec fn chosen_body(p: MailParts) -> Seq<char> {
    match content_tag(p) {
        Some(t) => if starts_with_html(t) {
            or_empty(p.html_body)
        } else {
            or_empty(p.text_body)
        },
        None => if or_empty(p.text_body).len() > 0 {
            or_empty(p.text_body)
        } else {
            or_empty(p.html_body)
        },
    }
}

/// First index of `[p, e)` that is not white space, else `e`.
pub open spec fn lead(s: Seq<char>, p: int, e: int) -> int
    decreases e - p,
{
    if p >= e {
        e
    } else if is_space(s[p]) {
        lead(s, p + 1, e)
    } else {
        p
    }
}

/// End of `[a, e)` once trailing white space is cut off.
pub open spec fn tail(s: Seq<char>, a: int, e: int) -> int
    decreases e - a,
{
    if e <= a {
        a
    } else if is_space(s[e - 1]) {
        tail(s, a, e - 1)
    } else {
        e
    }
}

/// `s[p..e]` without its leading and trailing white space.
pub open spec fn trimmed(s: Seq<char>, p: int, e: int) -> Seq<char> {
    let a = lead(s, p, e);
    s.subrange(a, tail(s, a, e))
}

/// Index of the first newline at or after `p`, else the length.
pub open spec fn next_newline(s: Seq<char>, p: int) -> int
    decreases s.len() - p,
{
    if p >= s.len() {
        s.len() as int
    } else if s[p] == '\n' {
        p
    } else {
        next_newline(s, p + 1)
    }
}

/// The lines of `s` from `p` on, each trimmed, the empty ones left out, added to
/// `acc` with a newline between two lines.
pub open spec fn normalized_from(s: Seq<char>, p: int, acc: Seq<char>) -> Seq<char>
    decreases s.len() + 1 - p,
    when 0 <= p
    via normalized_from_decreases
{
    if p >= s.len() {
        acc
    } else {
        let e = next_newline(s, p);
        let t = trimmed(s, p, e);
        let acc2 = if t.len() == 0 {
            acc
        } else if acc.len() == 0 {
            t
        } else {
            acc + seq!['\n'] + t
        };
        normalized_from(s, e + 1, acc2)
    }
}

#[via_fn]
proof fn normalized_from_decreases(s: Seq<char>, p: int, acc: Seq<char>) {
    if 0 <= p < s.len() {
        lemma_next_newline(s, p);
    }
}

/// The lines of `s`, each trimmed, the empty ones left out, joined by newlines.
pub open spec fn normalized(s: Seq<char>) -> Seq<char> {
    normalized_from(s, 0, Seq::<char>::empty())
}

/// `Subject: <subject>`, a blank line and the body; the body alone without a subject.
pub open spec fn composed(subject: Seq<char>, body: Seq<char>) -> Seq<char> {
    if subject.len() > 0 {
        "Subject: "@ + subject + "\n\n"@ + body
    } else {
        body
    }
}

/// The text relayed for the raw bytes of a message, and its content-type tag.
pub open spec fn extraction(data: Seq<u8>) -> (Seq<char>, Option<Seq<char>>) {
    match mail_parts_of(data) {
        Some(p) => extracted(p),
        None => (lossy_of(data), None),
    }
}

/// Whether a content-type tag calls for HTML.
pub open spec fn html_tag(tag: Option<Seq<char>>) -> bool {
    tag matches Some(t) && starts_with_html(t)
}

/// The text relayed for a parsed message, and its content-type tag.
pub open spec fn extracted(p: MailParts) -> (Seq<char>, Option<Seq<char>>) {
    (composed(or_empty(p.subject), normalized(chosen_body(p))), content_tag(p))
}

proof fn lemma_next_newline(s: Seq<char>, p: int)
    requires
        0 <= p <= s.len(),
    ensures
        p <= next_newline(s, p) <= s.len(),
    decreases s.len() - p,
{
    if p < s.len() && s[p] != '\n' {
        lemma_next_newline(s, p + 1);
    }
}

proof fn lemma_lead(s: Seq<char>, p: int, e: int)
    requires
        p <= e,
    ensures
        p <= lead(s, p, e) <= e,
    decreases e - p,
{
    if p < e && is_space(s[p]) {
        lemma_lead(s, p + 1, e);
    }
}

proof fn lemma_tail(s: Seq<char>, a: int, e: int)
    requires
        a <= e,
    ensures
        a <= tail(s, a, e) <= e,
    decreases e - a,
{
    if e > a && is_space(s[e - 1]) {
        lemma_tail(s, a, e - 1);
    }
}

fn find_newline(s: &Vec<char>, p: usize) -> (r: usize)
    requires
        p <= s.len(),
    ensures
        r == next_newline(s@, p as int),
{
    let mut i: usize = p;
    while i < s.len()
        invariant
            p <= i <= s.len(),
            next_newline(s@, p as int) == next_newline(s@, i as int),
        decreases s.len() - i,
    {
        if s[i] == '\n' {
            return i;
        }
        i = i + 1;
    }
    i
}

fn trim_range(s: &Vec<char>, p: usize, e: usize) -> (r: (usize, usize))
    requires
        p <= e <= s.len(),
    ensures
        r.0 == lead(s@, p as int, e as int),
        r.1 == tail(s@, r.0 as int, e as int),
        p <= r.0 <= r.1 <= e,
{
    let mut a: usize = p;
    while a < e && is_space_char(s[a])
        invariant
            p <= a <= e <= s.len(),
            lead(s@, p as int, e as int) == lead(s@, a as int, e as int),
        decreases e - a,
    {
        a = a + 1;
    }
    let mut b: usize = e;
    while b > a && is_space_char(s[b - 1])
        invariant
            p <= a <= b <= e <= s.len(),
            tail(s@, a as int, e as int) == tail(s@, a as int, b as int),
        decreases b,
    {
        b = b - 1;
    }
    (a, b)
}

/// Splits `body` into lines, trims each, leaves out the empty ones and joins the
/// rest with single newlines.
pub fn normalize_body(body: &str) -> (r: String)
    ensures
        r@ == normalized(body@),
{
    let s = chars_of(body);
    let mut out: Vec<char> = Vec::new();
    let mut p: usize = 0;
    while p < s.len()
        invariant
            p <= s.len(),
            s@ == body@,
            normalized_from(s@, p as int, out@) == normalized(body@),
        decreases s.len() - p,
    {
        let e = find_newline(&s, p);
        proof {
            lemma_next_newline(s@, p as int);
        }
        let ghost acc = out@;
        let (a, b) = trim_range(&s, p, e);
        assert(s@.subrange(a as int, b as int) == trimmed(s@, p as int, e as int));
        if a < b {
            let t = crate::text::copy_range(&s, a, b);
            if out.len() > 0 {
                out.push('\n');
                append_chars(&mut out, &t);
                assert(out@ =~= acc + seq!['\n'] + t@);
            } else {
                append_chars(&mut out, &t);
                assert(out@ =~= t@);
            }
        }
        assert(normalized_from(s@, p as int, acc) == normalized_from(s@, e + 1, out@));
        if e == s.len() {
            assert(normalized_from(s@, e as int, out@) == out@);
            assert(normalized_from(s@, e + 1, out@) == out@);
        }
        p = if e < s.len() {
            e + 1
        } else {
            e
        };
    }
    string_of(&out)
}

fn begins_with_html(t: &String) -> (r: bool)
    ensures
        r == starts_with_html(t@),
{
    let c = chars_of(t.as_str());
    let pat = chars_of("text/html");
    proof {
        reveal_strlit("text/html");
    }
    assert(pat@.len() == 9);
    if c.len() < 9 {
        return false;
    }
    let mut i: usize = 0;
    while i < 9
        invariant
            i <= 9 <= c@.len(),
            pat@ == "text/html"@,
            pat@.len() == 9,
            c@ == t@,
            forall|k: int| 0 <= k < i ==> c@[k] == pat@[k],
        decreases 9 - i,
    {
        if c[i] != pat[i] {
            return false;
        }
        i = i + 1;
    }
    assert(c@.subrange(0, 9) =~= "text/html"@);
    true
}

/// Whether a content-type tag calls for HTML: it starts with `text/html`.
pub fn is_html(tag: &Option<String>) -> (r: bool)
    ensures
        r == html_tag(opt_view(*tag)),
{
    match tag {
        Some(t) => begins_with_html(t),
        None => false,
    }
}

/// The text relayed for a parsed message and its content-type tag.
pub fn extract_from_parts(p: &MailParts) -> (r: (String, Option<String>))
    ensures
        r.0@ == extracted(*p).0,
        opt_view(r.1) == extracted(*p).1,
{
    let tag: Option<String> = match (&p.ctype, &p.subtype) {
        (Some(t), Some(s)) => {
            let joined = t.clone().concat("/").concat(s.as_str());
            Some(lowercase(joined.as_str()))
        },
        _ => None,
    };
    let text_body: String = match &p.text_body {
        Some(b) => b.clone(),
        None => String::new(),
    };
    let html_body: String = match &p.html_body {
        Some(b) => b.clone(),
        None => String::new(),
    };
    let body: String = match &tag {
        Some(t) => if begins_with_html(t) {
            html_body
        } else {
            text_body
        },
        None => if !text_body.as_str().is_empty() {
            text_body
        } else {
            html_body
        },
    };
    let cleaned = normalize_body(body.as_str());
    let text = match &p.subject {
        Some(subj) if !subj.as_str().is_empty() => {
            "Subject: ".to_owned().concat(subj.as_str()).concat("\n\n").concat(cleaned.as_str())
        },
        _ => cleaned,
    };
    (text, tag)
}

/// The text relayed for the raw bytes of a message, and its content-type tag.
/// Bytes that the MIME parser refuses are read as UTF-8, invalid sequences
/// replaced, with no tag.
pub fn extract_text(data: &Vec<u8>) -> (r: (String, Option<String>))
    ensures
        r.0@ == extraction(data@).0,
        opt_view(r.1) == extraction(data@).1,
{
    match parse_mail(data) {
        Some(p) => extract_from_parts(&p),
        None => (utf8_lossy(data), None),
    }
}

} // verus!
