//! From a finished message body to the text handed to the delivery step.

use vstd::prelude::*;
use crate::mail::{extract_text, extraction, html_tag, is_html};
use crate::sanitize::{sanitized_of, Sanitizer};
use crate::session::opt_view;

verus! {

/// A text ready for delivery, and whether it is sent as HTML.
#[derive(Debug, Clone)]
pub struct Outbound {
    pub text: String,
    pub html: bool,
}

/// The text sent for `text` and `tag`: nothing for an empty text; an HTML body
/// sanitized with the policy of `sanitizer` and marked as HTML; anything else as it is.
pub open spec fn outbound_spec(
    sanitizer: &Sanitizer,
    text: Seq<char>,
    tag: Option<Seq<char>>,
) -> Option<(Seq<char>, bool)> {
    if text.len() == 0 {
        None
    } else if html_tag(tag) {
        Some((sanitized_of(sanitizer.tags(), sanitizer.attrs(), text), true))
    } else {
        Some((text, false))
    }
}

/// Prepares an extracted text and its content-type tag for delivery.
pub fn outbound_from(sanitizer: &Sanitizer, text: String, tag: &Option<String>) -> (r: Option<
    Outbound,
>)
    requires
        sanitizer.wf(),
    ensures
        outbound_spec(sanitizer, text@, opt_view(*tag)) matches Some(o) ==> (r matches Some(out) && out.text@
            == o.0 && out.html == o.1),
        outbound_spec(sanitizer, text@, opt_view(*tag)) is None ==> r is None,
{
    if text.as_str().is_empty() {
        None
    } else if is_html(tag) {
        Some(Outbound { text: sanitizer.clean(text.as_str()), html: true })
    } else {
        Some(Outbound { text, html: false })
    }
}

/// Prepares the body of a finished message for delivery: extracts its text,
/// then as `outbound_from`.
pub fn outbound(sanitizer: &Sanitizer, body: &Vec<u8>) -> (r: Option<Outbound>)
    requires
        sanitizer.wf(),
    ensures
        outbound_spec(sanitizer, extraction(body@).0, extraction(body@).1) matches Some(o) ==> (r matches Some(
            out,
        ) && out.text@ == o.0 && out.html == o.1),
        outbound_spec(sanitizer, extraction(body@).0, extraction(body@).1) is None ==> r is None,
{
    let (text, tag) = extract_text(body);
    outbound_from(sanitizer, text, &tag)
}

} // verus!
