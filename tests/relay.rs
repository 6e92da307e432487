use smtp_relay::chunk::{delivery_result, pause_after, prepare_message, split_chunks, MAX_CHARS};
use smtp_relay::error::RelayError;
use smtp_relay::line::LineReader;
use smtp_relay::mail::{extract_from_parts, extract_text, is_html, normalize_body, MailParts};
use smtp_relay::pipeline::{outbound, outbound_from};
use smtp_relay::sanitize::{allowed_tags, filter_attribute, is_allowed_tag, tag_attributes, Sanitizer};
use smtp_relay::session::{completion_reply, greeting, Session, Step};
use smtp_proto::Request;
use smtp_relay::smtp::{decode_command, encode_reply, Reply};

fn chars(s: &str) -> Vec<char> {
    s.chars().collect()
}

fn feed(reader: &mut LineReader, bytes: &[u8]) -> Vec<Vec<u8>> {
    let mut lines = Vec::new();
    for b in bytes {
        if let Some(l) = reader.push_byte(*b) {
            lines.push(l);
        }
    }
    lines
}

fn cmd(line: &str) -> Request<String> {
    decode_command(&line.as_bytes().to_vec()).unwrap()
}

fn step_code(step: &Step) -> u16 {
    match step {
        Step::Reply(r) | Step::Close(r) => r.code,
        _ => 0,
    }
}

fn sanitize(html: &str) -> String {
    Sanitizer::new().clean(html)
}

#[test]
fn short_text_is_one_message_without_prefix() {
    let r = prepare_message("Hello").unwrap();
    assert_eq!(r, vec!["Hello".to_string()]);
}

#[test]
fn text_of_exactly_limit_is_one_message() {
    let text = "x".repeat(MAX_CHARS);
    let r = prepare_message(&text).unwrap();
    assert_eq!(r.len(), 1);
    assert_eq!(r[0], text);
}

#[test]
fn blank_text_is_refused() {
    assert_eq!(prepare_message(""), Err(RelayError::EmptyMessage));
    assert_eq!(prepare_message(" \n\t \r\n"), Err(RelayError::EmptyMessage));
}

#[test]
fn long_text_splits_after_last_newline_in_window() {
    let mut text = "a".repeat(4000);
    text.push('\n');
    text.push_str(&"b".repeat(200));
    let pieces = split_chunks(&chars(&text));
    assert_eq!(pieces.len(), 2);
    assert_eq!(pieces[0].len(), 4001);
    assert_eq!(pieces[0][4000], '\n');
    assert_eq!(pieces[1], chars(&"b".repeat(200)));
    let sent = prepare_message(&text).unwrap();
    assert_eq!(sent.len(), 2);
    assert!(sent[0].starts_with("[1/2]\n\n"));
    assert!(sent[1].starts_with("[2/2]\n\n"));
    assert_eq!(sent[1], format!("[2/2]\n\n{}", "b".repeat(200)));
}

#[test]
fn long_text_splits_after_white_space_without_newline() {
    let mut text = "a".repeat(3800);
    text.push(' ');
    text.push_str(&"b".repeat(500));
    let pieces = split_chunks(&chars(&text));
    assert_eq!(pieces.len(), 2);
    assert_eq!(pieces[0].len(), 3801);
    assert_eq!(pieces[1].len(), 500);
}

#[test]
fn break_before_window_is_not_used() {
    let mut text = "a".repeat(100);
    text.push('\n');
    text.push_str(&"b".repeat(4500));
    let pieces = split_chunks(&chars(&text));
    assert_eq!(pieces[0].len(), MAX_CHARS);
    assert_eq!(pieces[1].len(), 4601 - MAX_CHARS);
}

#[test]
fn text_without_breaks_is_cut_at_limit_and_truncated_beside_prefix() {
    let text = "a".repeat(5000);
    let pieces = split_chunks(&chars(&text));
    assert_eq!(pieces.len(), 2);
    assert_eq!(pieces[0].len(), 4096);
    assert_eq!(pieces[1].len(), 904);
    let sent = prepare_message(&text).unwrap();
    assert_eq!(sent[0].chars().count(), 4096);
    assert_eq!(sent[0], format!("[1/2]\n\n{}", "a".repeat(4089)));
    assert_eq!(sent[1], format!("[2/2]\n\n{}", "a".repeat(904)));
}

#[test]
fn contents_rejoin_to_the_text() {
    let mut text = String::new();
    for i in 0..300 {
        text.push_str(&format!("{:0>98}é\n", i));
    }
    let sent = prepare_message(&text).unwrap();
    let total = sent.len();
    assert!(total > 1);
    let mut rebuilt = String::new();
    for (i, s) in sent.iter().enumerate() {
        assert!(s.chars().count() <= MAX_CHARS);
        let prefix = format!("[{}/{}]\n\n", i + 1, total);
        assert!(s.starts_with(&prefix));
        rebuilt.push_str(&s[prefix.len()..]);
    }
    assert_eq!(rebuilt, text);
}

#[test]
fn multibyte_text_counts_characters() {
    let text = "é".repeat(4096);
    let r = prepare_message(&text).unwrap();
    assert_eq!(r.len(), 1);
    let text2 = "é".repeat(4097);
    let r2 = prepare_message(&text2).unwrap();
    assert_eq!(r2.len(), 2);
    for s in &r2 {
        assert!(s.chars().count() <= MAX_CHARS);
    }
}

#[test]
fn delivery_outcomes() {
    assert_eq!(delivery_result(0, 200, String::new()), Ok(()));
    assert_eq!(
        delivery_result(1, 400, "bad".to_string()),
        Err(RelayError::Delivery { chunk: 2, status: 400, body: "bad".to_string() })
    );
    assert!(pause_after(0, 2));
    assert!(!pause_after(1, 2));
    assert!(!pause_after(0, 1));
}

#[test]
fn line_reader_returns_crlf_terminated_lines() {
    let mut reader = LineReader::new();
    let lines = feed(&mut reader, b"HELO a\r\nMAIL");
    assert_eq!(lines, vec![b"HELO a\r\n".to_vec()]);
    assert!(reader.has_pending());
    let lines = feed(&mut reader, b" x\rz\n\r\n");
    assert_eq!(lines, vec![b"MAIL x\rz\n\r\n".to_vec()]);
    assert!(!reader.has_pending());
}

#[test]
fn replies_are_encoded_with_code_first() {
    let bytes = encode_reply(&Reply { code: 250, text: "OK".to_string() });
    assert_eq!(bytes, b"250 0.0.0 OK\r\n".to_vec());
    let bytes = encode_reply(&Reply { code: 503, text: "é".to_string() });
    assert_eq!(bytes, "503 0.0.0 é\r\n".as_bytes().to_vec());
}

#[test]
fn commands_are_decoded() {
    assert!(matches!(cmd("HELO a\r\n"), Request::Helo { host } if host == "a"));
    assert!(matches!(cmd("EHLO b\r\n"), Request::Ehlo { host } if host == "b"));
    assert!(matches!(cmd("MAIL FROM:<x@y>\r\n"), Request::Mail { from } if from.address == "x@y"));
    assert!(matches!(cmd("RCPT TO:<z@w>\r\n"), Request::Rcpt { to } if to.address == "z@w"));
    assert!(matches!(cmd("DATA\r\n"), Request::Data));
    assert!(matches!(cmd("VRFY x\r\n"), Request::Vrfy { .. }));
    assert!(decode_command(&b"BOGUS\r\n".to_vec()).is_none());
}

#[test]
fn greetings_and_unimplemented_commands() {
    let mut s = Session::new();
    for line in ["EHLO h\r\n", "LHLO h\r\n"] {
        match s.handle_command(cmd(line)) {
            Step::Reply(r) => assert_eq!(r, Reply { code: 250, text: "Hello h".to_string() }),
            _ => panic!("expected a reply"),
        }
    }
    for line in ["VRFY x\r\n", "EXPN x\r\n", "ETRN x\r\n"] {
        match s.handle_command(cmd(line)) {
            Step::Reply(r) => assert_eq!(r, Reply { code: 502, text: "Command not implemented".to_string() }),
            _ => panic!("expected a reply"),
        }
    }
}

#[test]
fn malformed_command_fails_session() {
    let mut s = Session::new();
    assert_eq!(s.handle_line(&b"BOGUS\r\n".to_vec()).err(), Some(RelayError::ProtocolParse));
}

#[test]
fn data_without_recipient_is_refused() {
    let mut s = Session::new();
    let r = s.handle_command(cmd("MAIL FROM:<x@y>\r\n"));
    assert_eq!(step_code(&r), 250);
    let r = s.handle_command(cmd("DATA\r\n"));
    assert_eq!(step_code(&r), 503);
    assert!(!s.is_in_data());
    assert!(s.buffered().is_empty());
}

#[test]
fn command_table_replies() {
    let mut s = Session::new();
    match s.handle_command(cmd("HELO h\r\n")) {
        Step::Reply(r) => assert_eq!(r, Reply { code: 250, text: "Hello h".to_string() }),
        _ => panic!("expected a reply"),
    }
    assert_eq!(step_code(&s.handle_command(cmd("NOOP\r\n"))), 250);
    assert_eq!(step_code(&s.handle_command(cmd("HELP\r\n"))), 214);
    assert_eq!(step_code(&s.handle_command(cmd("STARTTLS\r\n"))), 502);
    assert_eq!(step_code(&s.handle_command(cmd("AUTH PLAIN dGVzdA==\r\n"))), 502);
    assert_eq!(step_code(&s.handle_command(cmd("VRFY x\r\n"))), 502);
    assert!(matches!(s.handle_command(cmd("QUIT\r\n")), Step::Close(Reply { code: 221, .. })));
}

#[test]
fn rset_clears_envelope() {
    let mut s = Session::new();
    s.handle_command(cmd("MAIL FROM:<x@y>\r\n"));
    s.handle_command(cmd("RCPT TO:<z@w>\r\n"));
    assert_eq!(step_code(&s.handle_command(cmd("RSET\r\n"))), 250);
    assert_eq!(s.sender_address(), None);
    assert_eq!(s.recipient_address(), None);
    assert_eq!(step_code(&s.handle_command(cmd("DATA\r\n"))), 503);
}

#[test]
fn dot_stuffed_lines_lose_one_dot() {
    let mut s = Session::new();
    s.handle_command(cmd("MAIL FROM:<x@y>\r\n"));
    s.handle_command(cmd("RCPT TO:<z@w>\r\n"));
    assert_eq!(step_code(&s.handle_command(cmd("DATA\r\n"))), 354);
    assert!(matches!(s.handle_data_line(&b"..abc\r\n".to_vec()), Step::Stored));
    assert!(matches!(s.handle_data_line(&b"...\r\n".to_vec()), Step::Stored));
    assert!(matches!(s.handle_data_line(&b".x\r\n".to_vec()), Step::Stored));
    assert_eq!(s.buffered(), b".abc\r\n..\r\n.x\r\n".to_vec());
    match s.handle_data_line(&b".\r\n".to_vec()) {
        Step::Deliver(m) => {
            assert_eq!(m.body, b".abc\r\n..\r\n.x\r\n".to_vec());
            assert_eq!(m.sender, "x@y");
            assert_eq!(m.recipient, "z@w");
        }
        _ => panic!("expected the message"),
    }
    assert!(!s.is_in_data());
    assert!(s.buffered().is_empty());
    assert_eq!(s.sender_address(), None);
}

#[test]
fn end_to_end_session_delivers_one_message() {
    let mut s = Session::new();
    let mut codes = vec![greeting().code];
    let mut reader = LineReader::new();
    let input = b"HELO a\r\nMAIL FROM:<x@y>\r\nRCPT TO:<z@w>\r\nDATA\r\nHello\r\n.\r\n";
    let mut outbound = Vec::new();
    for line in feed(&mut reader, input) {
        match s.handle_line(&line).unwrap() {
            Step::Reply(r) | Step::Close(r) => codes.push(r.code),
            Step::Stored => {}
            Step::Deliver(m) => {
                let (text, tag) = extract_text(&m.body);
                assert!(!is_html(&tag));
                outbound.extend(prepare_message(&text).unwrap());
                codes.push(completion_reply().code);
            }
        }
    }
    assert_eq!(codes, vec![220, 250, 250, 250, 354, 250]);
    assert_eq!(outbound.len(), 1);
    assert_eq!(outbound[0], "Hello\r\n");
}

#[test]
fn body_lines_are_trimmed_and_joined() {
    assert_eq!(normalize_body("  a  \r\n\n\t b\r\n  \n"), "a\nb");
    assert_eq!(normalize_body(""), "");
    assert_eq!(normalize_body("\n\n"), "");
}

fn parts(ct: Option<(&str, &str)>, subject: Option<&str>, text: Option<&str>, html: Option<&str>) -> MailParts {
    MailParts {
        ctype: ct.map(|c| c.0.to_string()),
        subtype: ct.map(|c| c.1.to_string()),
        subject: subject.map(|s| s.to_string()),
        text_body: text.map(|s| s.to_string()),
        html_body: html.map(|s| s.to_string()),
    }
}

#[test]
fn html_content_type_picks_html_body() {
    let p = parts(Some(("Text", "HTML")), Some("Hi"), Some("plain"), Some("<b>x</b>"));
    let (text, tag) = extract_from_parts(&p);
    assert_eq!(tag, Some("text/html".to_string()));
    assert!(is_html(&tag));
    assert_eq!(text, "Subject: Hi\n\n<b>x</b>");
}

#[test]
fn plain_content_type_picks_text_body() {
    let p = parts(Some(("text", "plain")), None, Some(" one \n\n two "), Some("<b>x</b>"));
    let (text, tag) = extract_from_parts(&p);
    assert_eq!(tag, Some("text/plain".to_string()));
    assert!(!is_html(&tag));
    assert_eq!(text, "one\ntwo");
}

#[test]
fn no_content_type_falls_back_to_html_body() {
    let p = parts(None, Some(""), Some(""), Some("<i>y</i>"));
    let (text, tag) = extract_from_parts(&p);
    assert_eq!(tag, None);
    assert_eq!(text, "<i>y</i>");
}

#[test]
fn parsed_message_gives_subject_and_body() {
    let raw = b"Subject: Test\r\nContent-Type: text/plain\r\n\r\nLine one\r\n\r\n  Line two  \r\n".to_vec();
    let (text, tag) = extract_text(&raw);
    assert_eq!(tag, Some("text/plain".to_string()));
    assert_eq!(text, "Subject: Test\n\nLine one\nLine two");
}

#[test]
fn attribute_filter_policy() {
    assert_eq!(filter_attribute("span", "class", "tg-spoiler extra"), Some("tg-spoiler".to_string()));
    assert_eq!(filter_attribute("span", "class", "foo"), None);
    assert_eq!(filter_attribute("span", "class", "xtg-spoiler"), None);
    assert_eq!(filter_attribute("code", "class", "language-rust"), Some("language-rust".to_string()));
    assert_eq!(filter_attribute("pre", "class", "plain"), None);
    assert_eq!(filter_attribute("a", "href", "/rel"), Some("/rel".to_string()));
    assert!(is_allowed_tag("tg-spoiler"));
    assert!(!is_allowed_tag("script"));
    assert_eq!(tag_attributes("a"), vec!["href"]);
    assert!(tag_attributes("b").is_empty());
}

#[test]
fn sanitizer_scenarios() {
    assert_eq!(sanitize("<span class=\"tg-spoiler extra\">x</span>"), "<span class=\"tg-spoiler\">x</span>");
    assert_eq!(sanitize("<span class=\"foo\">x</span>"), "<span>x</span>");
    assert_eq!(sanitize("<code class=\"language-rust\">y</code>"), "<code class=\"language-rust\">y</code>");
    assert_eq!(sanitize("<code class=\"plain\">y</code>"), "<code>y</code>");
    assert_eq!(sanitize("<script>alert(1)</script>"), "");
    assert_eq!(sanitize("<a href=\"/p\" onclick=\"x\">l</a>"), "<a href=\"/p\">l</a>");
}

#[test]
fn allowed_tags_list_the_policy() {
    let tags = allowed_tags();
    assert_eq!(tags.len(), 14);
    assert!(tags.contains(&"tg-spoiler"));
    assert!(!tags.contains(&"script"));
}

#[test]
fn html_text_is_sanitized_and_flagged() {
    let s = Sanitizer::new();
    let out = outbound_from(&s, "<b>x</b><script>y</script>".to_string(), &Some("text/html".to_string())).unwrap();
    assert!(out.html);
    assert_eq!(out.text, "<b>x</b>");
    let plain = outbound_from(&s, "<b>x</b>".to_string(), &Some("text/plain".to_string())).unwrap();
    assert!(!plain.html);
    assert_eq!(plain.text, "<b>x</b>");
    assert!(outbound_from(&s, String::new(), &None).is_none());
}

#[test]
fn html_message_goes_out_as_html() {
    let s = Sanitizer::new();
    let raw = b"Subject: S\r\nContent-Type: text/html\r\n\r\n<p><i>hi</i></p>\r\n".to_vec();
    let out = outbound(&s, &raw).unwrap();
    assert!(out.html);
    assert!(out.text.starts_with("Subject: S\n\n"));
    assert!(out.text.contains("<i>hi</i>"));
    assert!(!out.text.contains("<p>"));
}
