//! The markup policy for HTML bodies: which tags and attributes survive, and how
//! attribute values are filtered. The HTML cleaner applies it.

use vstd::prelude::*;
use std::borrow::Cow;
use std::collections::{HashMap, HashSet};
use ammonia::{Builder, UrlRelative};
use crate::text::{chars_of, is_space, is_space_char};

verus! {

/// The tags kept in a sanitized body.
pub open spec fn allowed_tag(t: Seq<char>) -> bool {
    t == "b"@ || t == "strong"@ || t == "i"@ || t == "em"@ || t == "u"@ || t == "ins"@ || t
        == "s"@ || t == "strike"@ || t == "del"@ || t == "span"@ || t == "tg-spoiler"@ || t
        == "a"@ || t == "code"@ || t == "pre"@
}

/// The attributes kept, each for one tag only.
pub open spec fn allowed_attribute(tag: Seq<char>, attr: Seq<char>) -> bool {
    (tag == "a"@ && attr == "href"@) || (tag == "span"@ && attr == "class"@) || (tag
        == "code"@ && attr == "class"@) || (tag == "pre"@ && attr == "class"@)
}

/// `v` holds `tok` as one of its white-space separated words.
pub open spec fn has_word(v: Seq<char>, tok: Seq<char>) -> bool {
    exists|i: int|
        #![trigger v.subrange(i, i + tok.len())]
        0 <= i && i + tok.len() <= v.len() && v.subrange(i, i + tok.len()) == tok && (i == 0
            || is_space(v[i - 1])) && (i + tok.len() == v.len() || is_space(v[i + tok.len()]))
}

pub open spec fn starts_with(v: Seq<char>, p: Seq<char>) -> bool {
    p.len() <= v.len() && v.subrange(0, p.len() as int) == p
}

/// What becomes of the value of an allowed attribute: a `span` class is
/// `tg-spoiler` alone when that word is among its words, else dropped; a `code`
/// or `pre` class is kept when it starts with `language-`, else dropped; any
/// other value is kept.
pub open spec fn filtered(tag: Seq<char>, attr: Seq<char>, value: Seq<char>) -> Option<Seq<char>> {
    if tag == "span"@ && attr == "class"@ {
        if has_word(value, "tg-spoiler"@) {
            Some("tg-spoiler"@)
        } else {
            None
        }
    } else if (tag == "code"@ || tag == "pre"@) && attr == "class"@ {
        if starts_with(value, "language-"@) {
            Some(value)
        } else {
            None
        }
    } else {
        Some(value)
    }
}

/// Whether two texts are equal.
fn same_text(a: &str, b: &str) -> (r: bool)
    ensures
        r == (a@ == b@),
{
    let x = chars_of(a);
    let y = chars_of(b);
    if x.len() != y.len() {
        return false;
    }
    let mut i: usize = 0;
    while i < x.len()
        invariant
            x@ == a@,
            y@ == b@,
            x@.len() == y@.len(),
            i <= x@.len(),
            forall|k: int| 0 <= k < i ==> x@[k] == y@[k],
        decreases x.len() - i,
    {
        if x[i] != y[i] {
            return false;
        }
        i = i + 1;
    }
    assert(x@ =~= y@);
    true
}

/// Whether `v[at..]` starts with `p`.
fn matches_at(v: &Vec<char>, at: usize, p: &Vec<char>) -> (r: bool)
    requires
        at <= v.len(),
    ensures
        r == (at + p@.len() <= v@.len() && v@.subrange(at as int, at + p@.len()) == p@),
{
    if p.len() > v.len() - at {
        return false;
    }
    let mut i: usize = 0;
    while i < p.len()
        invariant
            at + p@.len() <= v@.len(),
            (at as int) + (p.len() as int) <= v.len() as int,
            i <= p@.len(),
            forall|k: int| 0 <= k < i ==> v@[at + k] == p@[k],
        decreases p.len() - i,
    {
        if v[at + i] != p[i] {
            assert(v@.subrange(at as int, at + p@.len())[i as int] != p@[i as int]);
            return false;
        }
        i = i + 1;
    }
    assert(v@.subrange(at as int, at + p@.len()) =~= p@);
    true
}

fn contains_word(v: &Vec<char>, tok: &Vec<char>) -> (r: bool)
    requires
        tok@.len() >= 1,
    ensures
        r == has_word(v@, tok@),
{
    let n = v.len();
    let m = tok.len();
    if m > n {
        return false;
    }
    let mut i: usize = 0;
    while i <= n - m
        invariant
            m <= n == v@.len(),
            m == tok@.len(),
            m >= 1,
            i <= n - m + 1,
            forall|k: int|
                0 <= k < i ==> !(#[trigger] v@.subrange(k, k + m) == tok@ && (k == 0 || is_space(
                    v@[k - 1],
                )) && (k + m == n || is_space(v@[k + m]))),
        decreases n - m + 1 - i,
    {
        let here = matches_at(v, i, tok);
        let before = i == 0 || is_space_char(v[i - 1]);
        let after = i + m == n || is_space_char(v[i + m]);
        if here && before && after {
            return true;
        }
        i = i + 1;
    }
    assert forall|k: int|
        #![trigger v@.subrange(k, k + tok@.len())]
        0 <= k && k + tok@.len() <= v@.len() && v@.subrange(k, k + tok@.len()) == tok@ implies !((
        k == 0 || is_space(v@[k - 1])) && (k + tok@.len() == v@.len() || is_space(
        v@[k + tok@.len()],
    ))) by {
        assert(k < i);
    }
    false
}

/// Whether the cleaner keeps `tag`.
pub fn is_allowed_tag(tag: &str) -> (r: bool)
    ensures
        r == allowed_tag(tag@),
{
    same_text(tag, "b") || same_text(tag, "strong") || same_text(tag, "i") || same_text(tag, "em")
        || same_text(tag, "u") || same_text(tag, "ins") || same_text(tag, "s") || same_text(
        tag,
        "strike",
    ) || same_text(tag, "del") || same_text(tag, "span") || same_text(tag, "tg-spoiler")
        || same_text(tag, "a") || same_text(tag, "code") || same_text(tag, "pre")
}

/// The tags that the cleaner keeps.
pub fn allowed_tags() -> (r: Vec<&'static str>)
    ensures
        r@.len() == 14,
        forall|i: int| 0 <= i < r@.len() ==> allowed_tag((#[trigger] r@[i])@),
        forall|t: Seq<char>| allowed_tag(t) ==> exists|i: int| 0 <= i < r@.len() && (#[trigger] r@[i])@ == t,
{
    let r: Vec<&'static str> = vec![
        "b",
        "strong",
        "i",
        "em",
        "u",
        "ins",
        "s",
        "strike",
        "del",
        "span",
        "tg-spoiler",
        "a",
        "code",
        "pre",
    ];
    assert(r@[0]@ == "b"@);
    assert(r@[1]@ == "strong"@);
    assert(r@[2]@ == "i"@);
    assert(r@[3]@ == "em"@);
    assert(r@[4]@ == "u"@);
    assert(r@[5]@ == "ins"@);
    assert(r@[6]@ == "s"@);
    assert(r@[7]@ == "strike"@);
    assert(r@[8]@ == "del"@);
    assert(r@[9]@ == "span"@);
    assert(r@[10]@ == "tg-spoiler"@);
    assert(r@[11]@ == "a"@);
    assert(r@[12]@ == "code"@);
    assert(r@[13]@ == "pre"@);
    r
}

/// The attributes that the cleaner keeps on `tag`.
pub fn tag_attributes(tag: &str) -> (r: Vec<&'static str>)
    ensures
        forall|i: int| 0 <= i < r@.len() ==> allowed_attribute(tag@, (#[trigger] r@[i])@),
        forall|a: Seq<char>|
            allowed_attribute(tag@, a) ==> exists|i: int| 0 <= i < r@.len() && (#[trigger] r@[i])@ == a,
{
    proof {
        reveal_strlit("a");
        reveal_strlit("span");
        reveal_strlit("code");
        reveal_strlit("pre");
        reveal_strlit("href");
        reveal_strlit("class");
    }
    let mut r: Vec<&'static str> = Vec::new();
    if same_text(tag, "a") {
        r.push("href");
    } else if same_text(tag, "span") || same_text(tag, "code") || same_text(tag, "pre") {
        r.push("class");
    }
    assert forall|a: Seq<char>| allowed_attribute(tag@, a) implies exists|i: int|
        0 <= i < r@.len() && (#[trigger] r@[i])@ == a by {
        if tag@ == "a"@ {
            reveal_strlit("a");
            reveal_strlit("span");
            reveal_strlit("code");
            reveal_strlit("pre");
            assert("a"@.len() == 1 && "span"@.len() == 4 && "code"@.len() == 4 && "pre"@.len() == 3);
            assert(a == "href"@);
            assert(r@[0]@ == "href"@);
        } else {
            assert(a == "class"@);
            assert(r@[0]@ == "class"@);
        }
    }
    r
}

/// Filters the value of attribute `attr` on `tag`; `None` drops the attribute.
pub fn filter_attribute(tag: &str, attr: &str, value: &str) -> (r: Option<String>)
    ensures
        opt_chars(r) == filtered(tag@, attr@, value@),
{
    if same_text(tag, "span") && same_text(attr, "class") {
        let v = chars_of(value);
        let tok = chars_of("tg-spoiler");
        proof {
            reveal_strlit("tg-spoiler");
        }
        if contains_word(&v, &tok) {
            Some("tg-spoiler".to_owned())
        } else {
            None
        }
    } else if (same_text(tag, "code") || same_text(tag, "pre")) && same_text(attr, "class") {
        let v = chars_of(value);
        let p = chars_of("language-");
        if matches_at(&v, 0, &p) {
            Some(value.to_owned())
        } else {
            None
        }
    } else {
        Some(value.to_owned())
    }
}

pub open spec fn opt_chars(o: Option<String>) -> Option<Seq<char>> {
    match o {
        Some(s) => Some(s@),
        None => None,
    }
}

/// The views of a list of names.
pub open spec fn names_view(v: Seq<&'static str>) -> Seq<Seq<char>> {
    v.map_values(|n: &'static str| n@)
}

/// The views of a list of tags, each with its attribute names.
pub open spec fn attrs_view(v: Seq<(&'static str, Vec<&'static str>)>) -> Seq<(Seq<char>, Seq<Seq<char>>)> {
    v.map_values(|e: (&'static str, Vec<&'static str>)| (e.0@, names_view(e.1@)))
}

/// `attrs` lets `tag` keep attribute `attr`.
pub open spec fn lists_attribute(attrs: Seq<(Seq<char>, Seq<Seq<char>>)>, tag: Seq<char>, attr: Seq<char>) -> bool {
    exists|i: int| 0 <= i < attrs.len() && (#[trigger] attrs[i]).0 == tag && attrs[i].1.contains(attr)
}

/// The cleaner refuses to keep `script` or `style`, whose content it strips.
pub open spec fn cleanable(tags: Seq<Seq<char>>, attrs: Seq<(Seq<char>, Seq<Seq<char>>)>) -> bool {
    &&& !tags.contains("script"@)
    &&& !tags.contains("style"@)
    &&& forall|i: int| 0 <= i < attrs.len() ==> (#[trigger] attrs[i]).0 != "script"@ && attrs[i].0 != "style"@
}

/// What ammonia makes of `html` with a cleaner that keeps the tags `tags` and, on
/// each tag, the attributes that `attrs` lists for it, set up as `clean_html` does.
pub uninterp spec fn sanitized_of(
    tags: Seq<Seq<char>>,
    attrs: Seq<(Seq<char>, Seq<Seq<char>>)>,
    html: Seq<char>,
) -> Seq<char>;

/// Relies on `ammonia::Builder`: a cleaner that keeps the tags `tags`, the
/// attributes that `attrs` lists for each tag and no generic one, leaves relative
/// URLs as they are, adds no `rel`, and passes attribute values through
/// `filter_attribute`; then `Builder::clean` on `html`, rendered to a string.
/// `clean` panics where `script` or `style` is kept.
#[verifier::external_body]
fn clean_html(tags: &Vec<&'static str>, attrs: &Vec<(&'static str, Vec<&'static str>)>, html: &str) -> (r: String)
    requires
        cleanable(names_view(tags@), attrs_view(attrs@)),
    ensures
        r@ == sanitized_of(names_view(tags@), attrs_view(attrs@), html@),
{
    let per_tag: HashMap<&'static str, HashSet<&'static str>> =
        attrs.iter().map(|(t, a)| (*t, a.iter().copied().collect())).collect();
    let mut b = Builder::default();
    b.tags(tags.iter().copied().collect())
        .generic_attributes(HashSet::new())
        .tag_attributes(per_tag)
        .url_relative(UrlRelative::PassThrough)
        .link_rel(None)
        .attribute_filter(|t, a, v| filter_attribute(t, a, v).map(Cow::Owned));
    b.clean(html).to_string()
}

/// The HTML cleaning policy: the tags kept, and the attributes kept on each.
/// It is built once and shared.
pub struct Sanitizer {
    tags: Vec<&'static str>,
    attrs: Vec<(&'static str, Vec<&'static str>)>,
}

impl Sanitizer {
    pub closed spec fn tags(&self) -> Seq<Seq<char>> {
        names_view(self.tags@)
    }

    pub closed spec fn attrs(&self) -> Seq<(Seq<char>, Seq<Seq<char>>)> {
        attrs_view(self.attrs@)
    }

    /// The policy that the cleaner accepts.
    pub open spec fn wf(&self) -> bool {
        cleanable(self.tags(), self.attrs())
    }

    /// The policy of `allowed_tag` and `allowed_attribute`.
    pub fn new() -> (r: Sanitizer)
        ensures
            r.wf(),
            forall|t: Seq<char>| r.tags().contains(t) <==> allowed_tag(t),
            forall|t: Seq<char>, a: Seq<char>|
                lists_attribute(r.attrs(), t, a) <==> allowed_attribute(t, a),
    {
        let tags = allowed_tags();
        let mut attrs: Vec<(&'static str, Vec<&'static str>)> = Vec::new();
        let mut i: usize = 0;
        while i < tags.len()
            invariant
                i <= tags@.len() == 14,
                forall|k: int| 0 <= k < tags@.len() ==> allowed_tag((#[trigger] tags@[k])@),
                forall|k: int|
                    0 <= k < attrs@.len() ==> allowed_tag((#[trigger] attrs@[k]).0@) && forall|
                        j: int,
                    |
                        0 <= j < attrs@[k].1@.len() ==> allowed_attribute(
                            attrs@[k].0@,
                            (#[trigger] attrs@[k].1@[j])@,
                        ),
                forall|j: int, a: Seq<char>|
                    0 <= j < i && #[trigger] allowed_attribute(tags@[j]@, a) ==> lists_attribute(
                        attrs_view(attrs@),
                        tags@[j]@,
                        a,
                    ),
            decreases tags.len() - i,
        {
            let names = tag_attributes(tags[i]);
            let ghost before = attrs@;
            if names.len() > 0 {
                attrs.push((tags[i], names));
                assert forall|j: int, a: Seq<char>|
                    0 <= j <= i && #[trigger] allowed_attribute(tags@[j]@, a) implies lists_attribute(
                    attrs_view(attrs@),
                    tags@[j]@,
                    a,
                ) by {
                    if j < i {
                        let w = choose|w: int|
                            0 <= w < attrs_view(before).len() && (#[trigger] attrs_view(before)[w]).0
                                == tags@[j]@ && attrs_view(before)[w].1.contains(a);
                        assert(attrs_view(attrs@)[w] == attrs_view(before)[w]);
                    } else {
                        let w = choose|w: int| 0 <= w < names@.len() && (#[trigger] names@[w])@ == a;
                        let last = attrs@.len() - 1;
                        assert(names_view(names@)[w] == a);
                        assert(attrs_view(attrs@)[last].1.contains(a));
                    }
                }
            } else {
                assert forall|j: int, a: Seq<char>|
                    0 <= j <= i && #[trigger] allowed_attribute(tags@[j]@, a) implies lists_attribute(
                    attrs_view(attrs@),
                    tags@[j]@,
                    a,
                ) by {
                    if j == i {
                        let w = choose|w: int| 0 <= w < names@.len() && (#[trigger] names@[w])@ == a;
                    }
                }
            }
            i = i + 1;
        }
        let r = Sanitizer { tags, attrs };
        proof {
            lemma_policy_cleanable();
            assert forall|t: Seq<char>| r.tags().contains(t) <==> allowed_tag(t) by {
                if allowed_tag(t) {
                    let k = choose|k: int| 0 <= k < tags@.len() && (#[trigger] tags@[k])@ == t;
                    assert(r.tags()[k] == t);
                }
                if r.tags().contains(t) {
                    let k = choose|k: int| 0 <= k < r.tags().len() && r.tags()[k] == t;
                    assert(tags@[k]@ == t);
                }
            }
            assert forall|t: Seq<char>, a: Seq<char>|
                lists_attribute(r.attrs(), t, a) <==> allowed_attribute(t, a) by {
                if allowed_attribute(t, a) {
                    lemma_attribute_tag_allowed(t, a);
                    let k = choose|k: int| 0 <= k < tags@.len() && (#[trigger] tags@[k])@ == t;
                    assert(allowed_attribute(tags@[k]@, a));
                }
                if lists_attribute(r.attrs(), t, a) {
                    let k = choose|k: int|
                        0 <= k < r.attrs().len() && (#[trigger] r.attrs()[k]).0 == t && r.attrs()[k].1.contains(a);
                    let j = choose|j: int| 0 <= j < r.attrs()[k].1.len() && r.attrs()[k].1[j] == a;
                    assert(attrs@[k].1@[j]@ == a);
                }
            }
            assert forall|i: int| 0 <= i < r.attrs().len() implies (#[trigger] r.attrs()[i]).0
                != "script"@ && r.attrs()[i].0 != "style"@ by {
                assert(allowed_tag(attrs@[i].0@));
            }
            assert(!r.tags().contains("script"@));
            assert(!r.tags().contains("style"@));
        }
        r
    }

    /// Cleans an HTML body with this policy.
    pub fn clean(&self, html: &str) -> (r: String)
        requires
            self.wf(),
        ensures
            r@ == sanitized_of(self.tags(), self.attrs(), html@),
    {
        clean_html(&self.tags, &self.attrs, html)
    }
}

proof fn lemma_attribute_tag_allowed(t: Seq<char>, a: Seq<char>)
    requires
        allowed_attribute(t, a),
    ensures
        allowed_tag(t),
{
}

/// Neither `script` nor `style` is an allowed tag.
proof fn lemma_policy_cleanable()
    ensures
        !allowed_tag("script"@),
        !allowed_tag("style"@),
{
    reveal_strlit("script");
    reveal_strlit("style");
    reveal_strlit("b");
    reveal_strlit("strong");
    reveal_strlit("i");
    reveal_strlit("em");
    reveal_strlit("u");
    reveal_strlit("ins");
    reveal_strlit("s");
    reveal_strlit("strike");
    reveal_strlit("del");
    reveal_strlit("span");
    reveal_strlit("tg-spoiler");
    reveal_strlit("a");
    reveal_strlit("code");
    reveal_strlit("pre");
    assert("script"@.len() != "b"@.len());
    assert("script"@ != "b"@);
    assert("script"@[1] != "strong"@[1]);
    assert("script"@ != "strong"@);
    assert("script"@.len() != "i"@.len());
    assert("script"@ != "i"@);
    assert("script"@.len() != "em"@.len());
    assert("script"@ != "em"@);
    assert("script"@.len() != "u"@.len());
    assert("script"@ != "u"@);
    assert("script"@.len() != "ins"@.len());
    assert("script"@ != "ins"@);
    assert("script"@.len() != "s"@.len());
    assert("script"@ != "s"@);
    assert("script"@[1] != "strike"@[1]);
    assert("script"@ != "strike"@);
    assert("script"@.len() != "del"@.len());
    assert("script"@ != "del"@);
    assert("script"@.len() != "span"@.len());
    assert("script"@ != "span"@);
    assert("script"@.len() != "tg-spoiler"@.len());
    assert("script"@ != "tg-spoiler"@);
    assert("script"@.len() != "a"@.len());
    assert("script"@ != "a"@);
    assert("script"@.len() != "code"@.len());
    assert("script"@ != "code"@);
    assert("script"@.len() != "pre"@.len());
    assert("script"@ != "pre"@);
    assert("style"@.len() != "b"@.len());
    assert("style"@ != "b"@);
    assert("style"@.len() != "strong"@.len());
    assert("style"@ != "strong"@);
    assert("style"@.len() != "i"@.len());
    assert("style"@ != "i"@);
    assert("style"@.len() != "em"@.len());
    assert("style"@ != "em"@);
    assert("style"@.len() != "u"@.len());
    assert("style"@ != "u"@);
    assert("style"@.len() != "ins"@.len());
    assert("style"@ != "ins"@);
    assert("style"@.len() != "s"@.len());
    assert("style"@ != "s"@);
    assert("style"@.len() != "strike"@.len());
    assert("style"@ != "strike"@);
    assert("style"@.len() != "del"@.len());
    assert("style"@ != "del"@);
    assert("style"@.len() != "span"@.len());
    assert("style"@ != "span"@);
    assert("style"@.len() != "tg-spoiler"@.len());
    assert("style"@ != "tg-spoiler"@);
    assert("style"@.len() != "a"@.len());
    assert("style"@ != "a"@);
    assert("style"@.len() != "code"@.len());
    assert("style"@ != "code"@);
    assert("style"@.len() != "pre"@.len());
    assert("style"@ != "pre"@);
}

} // verus!
