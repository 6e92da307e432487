//! Splitting of outbound text into pieces that fit one chat message each, and
//! the `[i/total]` numbering of those pieces.

use vstd::prelude::*;
use crate::text::{
    append_chars, chars_of, copy_range, decimal, is_blank, is_blank_text, is_space,
    is_space_char, lemma_decimal_len, push_decimal, string_of,
};
use crate::error::RelayError;

verus! {

/// Most characters that one message may hold, numbering prefix included.
pub const MAX_CHARS: usize = 4096;

/// How far back from the limit a natural break (newline, then white space) is sought.
pub const LOOKBACK: usize = 500;

/// Index of the last newline among `s[lo..hi]`.
pub open spec fn last_newline(s: Seq<char>, lo: int, hi: int) -> Option<int>
    decreases hi - lo,
{
    if hi <= lo {
        None
    } else if s[hi - 1] == '\n' {
        Some(hi - 1)
    } else {
        last_newline(s, lo, hi - 1)
    }
}

/// Index of the last white-space character among `s[lo..hi]`.
pub open spec fn last_space(s: Seq<char>, lo: int, hi: int) -> Option<int>
    decreases hi - lo,
{
    if hi <= lo {
        None
    } else if is_space(s[hi - 1]) {
        Some(hi - 1)
    } else {
        last_space(s, lo, hi - 1)
    }
}

/// Where the piece that starts at `p` ends, when more than `MAX_CHARS` characters
/// remain: just after the last newline of the `LOOKBACK` characters before the
/// limit, else just after the last white space there, else at the limit.
pub open spec fn cut_point(s: Seq<char>, p: int) -> int {
    let hi = p + MAX_CHARS;
    let lo = hi - LOOKBACK;
    match last_newline(s, lo, hi) {
        Some(j) => j + 1,
        None => match last_space(s, lo, hi) {
            Some(j) => j + 1,
            None => hi,
        },
    }
}

/// The pieces of `s[p..]`, in order.
pub open spec fn chunks_from(s: Seq<char>, p: int) -> Seq<Seq<char>>
    decreases s.len() - p,
    when 0 <= p
    via chunks_from_decreases
{
    if p >= s.len() {
        seq![]
    } else if s.len() - p <= MAX_CHARS {
        seq![s.subrange(p, s.len() as int)]
    } else {
        let k = cut_point(s, p);
        seq![s.subrange(p, k)] + chunks_from(s, k)
    }
}

#[via_fn]
proof fn chunks_from_decreases(s: Seq<char>, p: int) {
    if p < s.len() && s.len() - p > MAX_CHARS {
        lemma_cut_point(s, p);
    }
}

/// The pieces that `s` is sent in.
pub open spec fn chunks(s: Seq<char>) -> Seq<Seq<char>> {
    chunks_from(s, 0)
}

/// All pieces joined back together.
pub open spec fn concat_all(cs: Seq<Seq<char>>) -> Seq<char>
    decreases cs.len(),
{
    if cs.len() == 0 {
        seq![]
    } else {
        cs[0] + concat_all(cs.drop_first())
    }
}

/// The numbering put before piece `index` (from 1) of `total`: `[index/total]` and a blank line.
pub open spec fn prefix(index: nat, total: nat) -> Seq<char> {
    seq!['['] + decimal(index) + seq!['/'] + decimal(total) + seq![']', '\n', '\n']
}

/// The text sent for piece `index` (from 0) of `total`: the piece alone when it is
/// the only one, else the numbering and then as much of the piece as fits.
pub open spec fn outgoing(index: nat, total: nat, c: Seq<char>) -> Seq<char> {
    if total <= 1 {
        c
    } else {
        let p = prefix(index + 1, total);
        if p.len() + c.len() <= MAX_CHARS {
            p + c
        } else {
            p + c.take(MAX_CHARS - p.len())
        }
    }
}

proof fn lemma_last_newline(s: Seq<char>, lo: int, hi: int)
    ensures
        last_newline(s, lo, hi) matches Some(j) ==> lo <= j < hi && s[j] == '\n',
    decreases hi - lo,
{
    if hi > lo && s[hi - 1] != '\n' {
        lemma_last_newline(s, lo, hi - 1);
    }
}

proof fn lemma_last_space(s: Seq<char>, lo: int, hi: int)
    ensures
        last_space(s, lo, hi) matches Some(j) ==> lo <= j < hi && is_space(s[j]),
    decreases hi - lo,
{
    if hi > lo && !is_space(s[hi - 1]) {
        lemma_last_space(s, lo, hi - 1);
    }
}

/// A cut keeps more than `MAX_CHARS - LOOKBACK` characters and at most `MAX_CHARS`.
pub proof fn lemma_cut_point(s: Seq<char>, p: int)
    ensures
        p + MAX_CHARS - LOOKBACK < cut_point(s, p) <= p + MAX_CHARS,
{
    lemma_last_newline(s, p + MAX_CHARS - LOOKBACK, p + MAX_CHARS);
    lemma_last_space(s, p + MAX_CHARS - LOOKBACK, p + MAX_CHARS);
}

fn rfind_newline(s: &Vec<char>, lo: usize, hi: usize) -> (r: Option<usize>)
    requires
        lo <= hi <= s.len(),
    ensures
        match r {
            Some(j) => last_newline(s@, lo as int, hi as int) == Some(j as int),
            None => last_newline(s@, lo as int, hi as int) is None,
        },
{
    let mut i: usize = hi;
    while i > lo
        invariant
            lo <= i <= hi <= s.len(),
            last_newline(s@, lo as int, hi as int) == last_newline(s@, lo as int, i as int),
        decreases i,
    {
        if s[i - 1] == '\n' {
            return Some(i - 1);
        }
        i = i - 1;
    }
    None
}

fn rfind_space(s: &Vec<char>, lo: usize, hi: usize) -> (r: Option<usize>)
    requires
        lo <= hi <= s.len(),
    ensures
        match r {
            Some(j) => last_space(s@, lo as int, hi as int) == Some(j as int),
            None => last_space(s@, lo as int, hi as int) is None,
        },
{
    let mut i: usize = hi;
    while i > lo
        invariant
            lo <= i <= hi <= s.len(),
            last_space(s@, lo as int, hi as int) == last_space(s@, lo as int, i as int),
        decreases i,
    {
        if is_space_char(s[i - 1]) {
            return Some(i - 1);
        }
        i = i - 1;
    }
    None
}

/// Where the piece that starts at `p` ends, for a text with more than `MAX_CHARS`
/// characters left after `p`.
pub fn cut_at(s: &Vec<char>, p: usize) -> (r: usize)
    requires
        p + MAX_CHARS < s.len(),
    ensures
        r == cut_point(s@, p as int),
{
    let hi = p + MAX_CHARS;
    let lo = hi - LOOKBACK;
    proof {
        lemma_last_newline(s@, lo as int, hi as int);
        lemma_last_space(s@, lo as int, hi as int);
    }
    match rfind_newline(s, lo, hi) {
        Some(j) => j + 1,
        None => match rfind_space(s, lo, hi) {
            Some(j) => j + 1,
            None => hi,
        },
    }
}

/// Splits `s` into the pieces that it is sent in.
pub fn split_chunks(s: &Vec<char>) -> (r: Vec<Vec<char>>)
    ensures
        r@.len() == chunks(s@).len(),
        forall|i: int| 0 <= i < r@.len() ==> (#[trigger] r@[i])@ == chunks(s@)[i],
{
    let mut out: Vec<Vec<char>> = Vec::new();
    let mut pos: usize = 0;
    let ghost mut got: Seq<Seq<char>> = seq![];
    assert(got + chunks_from(s@, 0) =~= chunks(s@));
    while pos < s.len()
        invariant
            pos <= s.len(),
            out@.len() == got.len(),
            forall|i: int| 0 <= i < got.len() ==> (#[trigger] out@[i])@ == got[i],
            got + chunks_from(s@, pos as int) == chunks(s@),
        decreases s.len() - pos,
    {
        let ghost before = got;
        let end: usize = if s.len() - pos <= MAX_CHARS {
            s.len()
        } else {
            proof {
                lemma_cut_point(s@, pos as int);
            }
            cut_at(s, pos)
        };
        let piece = copy_range(s, pos, end);
        out.push(piece);
        proof {
            got = before.push(s@.subrange(pos as int, end as int));
        }
        assert(seq![s@.subrange(pos as int, end as int)] + chunks_from(s@, end as int)
            == chunks_from(s@, pos as int));
        assert(got + chunks_from(s@, end as int) =~= before + chunks_from(s@, pos as int));
        pos = end;
    }
    assert(got + chunks_from(s@, pos as int) =~= got);
    out
}

/// The numbering of piece `index` (from 1) of `total` has at most 45 characters.
pub proof fn lemma_prefix_len(index: nat, total: nat)
    requires
        index <= usize::MAX,
        total <= usize::MAX,
    ensures
        7 <= prefix(index, total).len() <= 45,
{
    lemma_decimal_len(index);
    lemma_decimal_len(total);
}

/// Builds the text sent for piece `index` (from 0) of `total`.
pub fn format_chunk(index: usize, total: usize, piece: &Vec<char>) -> (r: Vec<char>)
    requires
        index < total,
        piece.len() <= MAX_CHARS,
    ensures
        r@ == outgoing(index as nat, total as nat, piece@),
        r@.len() <= MAX_CHARS,
{
    if total <= 1 {
        return piece.clone();
    }
    let mut out: Vec<char> = Vec::new();
    out.push('[');
    push_decimal(&mut out, index + 1);
    out.push('/');
    push_decimal(&mut out, total);
    out.push(']');
    out.push('\n');
    out.push('\n');
    let ghost p = prefix((index + 1) as nat, total as nat);
    assert(out@ =~= p);
    proof {
        lemma_prefix_len((index + 1) as nat, total as nat);
    }
    let room: usize = MAX_CHARS - out.len();
    if piece.len() <= room {
        append_chars(&mut out, piece);
    } else {
        let head = copy_range(piece, 0, room);
        assert(head@ =~= piece@.take(room as int));
        append_chars(&mut out, &head);
    }
    out
}

/// Concatenating the pieces of a text gives back the text.
pub proof fn lemma_chunks_concat(s: Seq<char>)
    ensures
        concat_all(chunks(s)) == s,
{
    lemma_chunks_from_concat(s, 0);
    assert(s.subrange(0, s.len() as int) =~= s);
}

proof fn lemma_chunks_from_concat(s: Seq<char>, p: int)
    requires
        0 <= p <= s.len(),
    ensures
        concat_all(chunks_from(s, p)) == s.subrange(p, s.len() as int),
    decreases s.len() - p,
{
    if p >= s.len() {
        assert(s.subrange(p, s.len() as int) =~= seq![]);
    } else if s.len() - p <= MAX_CHARS {
        let cs = chunks_from(s, p);
        assert(cs == seq![s.subrange(p, s.len() as int)]);
        let e = cs.drop_first();
        assert(e =~= Seq::<Seq<char>>::empty());
        assert(concat_all(e) == Seq::<char>::empty());
        assert(concat_all(cs) == cs[0] + concat_all(e));
        assert(cs[0] + Seq::<char>::empty() =~= cs[0]);
    } else {
        let k = cut_point(s, p);
        lemma_cut_point(s, p);
        lemma_chunks_from_concat(s, k);
        let cs = chunks_from(s, p);
        assert(cs.drop_first() =~= chunks_from(s, k));
        assert(s.subrange(p, k) + s.subrange(k, s.len() as int) =~= s.subrange(
            p,
            s.len() as int,
        ));
    }
}

/// Every piece of a text is non-empty and holds at most `MAX_CHARS` characters.
pub proof fn lemma_chunk_sizes(s: Seq<char>)
    ensures
        forall|i: int|
            0 <= i < chunks(s).len() ==> 0 < (#[trigger] chunks(s)[i]).len() <= MAX_CHARS,
{
    lemma_chunk_sizes_from(s, 0);
}

proof fn lemma_chunk_sizes_from(s: Seq<char>, p: int)
    requires
        0 <= p,
    ensures
        forall|i: int|
            0 <= i < chunks_from(s, p).len() ==> 0 < (#[trigger] chunks_from(s, p)[i]).len()
                <= MAX_CHARS,
        chunks_from(s, p).len() <= s.len() - p || p >= s.len(),
    decreases s.len() - p,
{
    if p < s.len() && s.len() - p > MAX_CHARS {
        let k = cut_point(s, p);
        lemma_cut_point(s, p);
        lemma_chunk_sizes_from(s, k);
        let cs = chunks_from(s, p);
        assert forall|i: int| 0 <= i < cs.len() implies 0 < (#[trigger] cs[i]).len()
            <= MAX_CHARS by {
            if i > 0 {
                assert(cs[i] == chunks_from(s, k)[i - 1]);
            }
        }
    }
}

/// A text of at most `MAX_CHARS` characters, not empty, is one piece, sent unchanged.
pub proof fn lemma_short_text_single(s: Seq<char>)
    requires
        0 < s.len() <= MAX_CHARS,
    ensures
        chunks(s) == seq![s],
        outgoing(0, 1, s) == s,
{
    assert(s.subrange(0, s.len() as int) =~= s);
}

/// Every text sent holds at most `MAX_CHARS` characters, numbering included.
pub proof fn lemma_outgoing_bounded(s: Seq<char>, i: int)
    requires
        0 <= i < chunks(s).len(),
        chunks(s).len() <= usize::MAX,
    ensures
        outgoing(i as nat, chunks(s).len(), chunks(s)[i]).len() <= MAX_CHARS,
{
    lemma_chunk_sizes(s);
    lemma_prefix_len((i + 1) as nat, chunks(s).len());
}

/// The texts to send for `text`, one message each, in order. A blank text is
/// refused with `EmptyMessage`.
pub fn prepare_message(text: &str) -> (r: Result<Vec<String>, RelayError>)
    ensures
        is_blank(text@) <==> r == Err::<Vec<String>, RelayError>(RelayError::EmptyMessage),
        r is Err ==> is_blank(text@),
        r matches Ok(v) ==> {
            &&& v@.len() == chunks(text@).len()
            &&& forall|i: int|
                0 <= i < v@.len() ==> (#[trigger] v@[i])@ == outgoing(
                    i as nat,
                    chunks(text@).len(),
                    chunks(text@)[i],
                )
            &&& forall|i: int| 0 <= i < v@.len() ==> (#[trigger] v@[i])@.len() <= MAX_CHARS
        },
        !is_blank(text@) && text@.len() <= MAX_CHARS ==> (r matches Ok(v) && v@.len() == 1
            && v@[0]@ == text@),
{
    let chars = chars_of(text);
    if is_blank_text(&chars) {
        return Err(RelayError::EmptyMessage);
    }
    let pieces = split_chunks(&chars);
    proof {
        if chars@.len() <= MAX_CHARS {
            assert(chars@.len() > 0) by {
                if chars@.len() == 0 {
                    assert(is_blank(chars@));
                }
            }
            lemma_short_text_single(chars@);
        }
        lemma_chunk_sizes(chars@);
        lemma_chunk_count(chars@, 0);
    }
    let total = pieces.len();
    let mut out: Vec<String> = Vec::new();
    let mut i: usize = 0;
    while i < total
        invariant
            total == pieces@.len() == chunks(text@).len(),
            chars@ == text@,
            total <= chars@.len(),
            i <= total,
            out@.len() == i,
            forall|k: int| 0 <= k < pieces@.len() ==> (#[trigger] pieces@[k])@ == chunks(text@)[k],
            forall|k: int|
                0 <= k < chunks(text@).len() ==> 0 < (#[trigger] chunks(text@)[k]).len() <= MAX_CHARS,
            forall|k: int|
                0 <= k < i ==> (#[trigger] out@[k])@ == outgoing(k as nat, total as nat, chunks(text@)[k]),
            forall|k: int| 0 <= k < i ==> (#[trigger] out@[k])@.len() <= MAX_CHARS,
        decreases total - i,
    {
        let sent = format_chunk(i, total, &pieces[i]);
        out.push(string_of(&sent));
        i = i + 1;
    }
    Ok(out)
}

proof fn lemma_chunk_count(s: Seq<char>, p: int)
    requires
        0 <= p <= s.len(),
    ensures
        chunks_from(s, p).len() <= s.len() - p,
    decreases s.len() - p,
{
    if p < s.len() && s.len() - p > MAX_CHARS {
        lemma_cut_point(s, p);
        lemma_chunk_count(s, cut_point(s, p));
    }
}

/// What the answer of the chat endpoint to piece `index` (from 0) means: success
/// for a status in `200..300`, else a delivery error that names the piece from 1.
pub fn delivery_result(index: usize, status: u16, body: String) -> (r: Result<(), RelayError>)
    requires
        index < usize::MAX,
    ensures
        200 <= status < 300 ==> r == Ok::<(), RelayError>(()),
        !(200 <= status < 300) ==> r == Err::<(), RelayError>(
            RelayError::Delivery { chunk: (index + 1) as usize, status, body },
        ),
{
    if 200 <= status && status < 300 {
        Ok(())
    } else {
        Err(RelayError::Delivery { chunk: index + 1, status, body })
    }
}

/// Whether to pause before the next request, after piece `index` (from 0) of `total`:
/// between pieces, never after the last.
pub fn pause_after(index: usize, total: usize) -> (r: bool)
    ensures
        r == (index + 1 < total),
{
    index < total && total - index > 1
}

/// The content portion of a sent text: without its numbering where there is one.
pub open spec fn content_of(index: nat, total: nat, sent: Seq<char>) -> Seq<char> {
    if total <= 1 {
        sent
    } else {
        sent.skip(prefix(index + 1, total).len() as int)
    }
}

/// The texts sent for `s`, in order.
pub open spec fn sent_texts(s: Seq<char>) -> Seq<Seq<char>> {
    Seq::new(chunks(s).len(), |i: int| outgoing(i as nat, chunks(s).len(), chunks(s)[i]))
}

/// Where no piece has to be cut short to fit beside its numbering, the content
/// portions of the texts sent for `s`, joined in order, give back `s` exactly.
pub proof fn lemma_contents_rebuild(s: Seq<char>)
    requires
        chunks(s).len() > 1 ==> forall|i: int|
            0 <= i < chunks(s).len() ==> prefix((i + 1) as nat, chunks(s).len()).len() + (
            #[trigger] chunks(s)[i]).len() <= MAX_CHARS,
    ensures
        concat_all(
            Seq::new(
                sent_texts(s).len(),
                |i: int| content_of(i as nat, chunks(s).len(), sent_texts(s)[i]),
            ),
        ) == s,
{
    let cs = chunks(s);
    let got = Seq::new(
        sent_texts(s).len(),
        |i: int| content_of(i as nat, chunks(s).len(), sent_texts(s)[i]),
    );
    assert forall|i: int| 0 <= i < got.len() implies got[i] == cs[i] by {
        if cs.len() > 1 {
            let p = prefix((i + 1) as nat, cs.len());
            assert((p + cs[i]).skip(p.len() as int) =~= cs[i]);
        }
    }
    assert(got =~= cs);
    lemma_chunks_concat(s);
}

} // verus!
