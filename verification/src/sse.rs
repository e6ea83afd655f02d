//! Server-sent event framing of streamed model replies.
//!
//! Chunks of bytes arrive from the network; complete events are cut off the
//! front of the buffer at a blank line and their `data:` lines are handed on.
//! The incomplete rest stays buffered until the stream ends.

use vstd::prelude::*;
use vstd::utf8::{decode_utf8, valid_utf8};
use vstd::string::StringSliceAdditionalSpecFns;
use crate::text::{
    CharClass, chars_eq_str, chars_of, find_first, find_first_exec, first_occurrence_from,
    occurs_at, push_all, slice_chars, string_of, trim, trim_ws,
};

verus! {

/// `String::from_utf8_lossy`: the text of a byte chunk, invalid sequences
/// replaced by U+FFFD.
pub uninterp spec fn utf8_lossy(bytes: Seq<u8>) -> Seq<char>;

/// The text of a chunk, from `String::from_utf8_lossy`. Valid UTF-8 decodes
/// to its characters; what replaces invalid sequences is not stated.
#[verifier::external_body]
fn decode_chunk(bytes: &[u8]) -> (r: Vec<char>)
    ensures
        r@ == utf8_lossy(bytes@),
        valid_utf8(bytes@) ==> r@ == decode_utf8(bytes@),
{
    String::from_utf8_lossy(bytes).chars().collect()
}

pub open spec fn crlf_crlf() -> Seq<u8> {
    seq![13u8, 10u8, 13u8, 10u8]
}

pub open spec fn lf_lf() -> Seq<u8> {
    seq![10u8, 10u8]
}

/// Where the first event of a buffer ends, as a byte offset and the length
/// of the blank line that ends it. A `\r\n\r\n` blank line is preferred;
/// `\n\n` is used when there is none.
pub open spec fn spec_sse_boundary(bytes: Seq<u8>) -> Option<(int, int)> {
    match find_first(bytes, crlf_crlf()) {
        Some(c) => Some((c, 4)),
        None => match find_first(bytes, lf_lf()) {
            Some(l) => Some((l, 2)),
            None => None,
        },
    }
}

fn occurs_at_bytes(s: &[u8], needle: &Vec<u8>, i: usize) -> (r: bool)
    requires
        i <= s@.len(),
    ensures
        r == occurs_at(s@, needle@, i as int),
{
    if needle.len() > s.len() - i {
        return false;
    }
    let mut k: usize = 0;
    while k < needle.len()
        invariant
            i + needle.len() <= s.len(),
            s.len() == s@.len(),
            k <= needle.len(),
            forall|m: int| 0 <= m < k ==> s@[i + m] == needle@[m],
        decreases needle.len() - k,
    {
        if s[i + k] != needle[k] {
            assert(s@.subrange(i as int, i + needle.len() as int)[k as int] != needle@[k as int]);
            return false;
        }
        k = k + 1;
    }
    assert(s@.subrange(i as int, i + needle.len() as int) =~= needle@);
    true
}

fn find_bytes(s: &[u8], needle: &Vec<u8>) -> (r: Option<usize>)
    ensures
        match r {
            Some(i) => Some(i as int),
            None => None,
        } == find_first(s@, needle@),
{
    let mut i: usize = 0;
    while i <= s.len()
        invariant
            i <= s@.len() + 1,
            find_first(s@, needle@) == first_occurrence_from(s@, needle@, i as nat),
        decreases s@.len() + 1 - i,
    {
        if occurs_at_bytes(s, needle, i) {
            return Some(i);
        }
        if i == s.len() {
            assert(first_occurrence_from(s@, needle@, (i + 1) as nat) is None);
            return None;
        }
        i = i + 1;
    }
    None
}

/// The end of the first complete event in `buffer` (byte offset) and the
/// length of the blank line after it.
pub fn sse_boundary(buffer: &str) -> (r: Option<(usize, usize)>)
    ensures
        match r {
            Some((i, n)) => Some((i as int, n as int)),
            None => None,
        } == spec_sse_boundary(buffer.spec_bytes()),
{
    let bytes = buffer.as_bytes();
    let crlf: Vec<u8> = vec![13u8, 10u8, 13u8, 10u8];
    let lf: Vec<u8> = vec![10u8, 10u8];
    assert(crlf@ =~= crlf_crlf());
    assert(lf@ =~= lf_lf());
    match find_bytes(bytes, &crlf) {
        Some(c) => Some((c, 4)),
        None => match find_bytes(bytes, &lf) {
            Some(l) => Some((l, 2)),
            None => None,
        },
    }
}

/// The same boundary, located in characters.
pub open spec fn char_boundary(s: Seq<char>) -> Option<(int, int)> {
    match find_first(s, seq!['\r', '\n', '\r', '\n']) {
        Some(c) => Some((c, 4)),
        None => match find_first(s, seq!['\n', '\n']) {
            Some(l) => Some((l, 2)),
            None => None,
        },
    }
}

/// `str::lines`: text split at `\n` (a `\r` before it is dropped too), with
/// no empty last line after a final line break.
pub open spec fn lines(s: Seq<char>) -> Seq<Seq<char>>
    decreases s.len(),
{
    match find_first(s, seq!['\n']) {
        Some(i) => if 0 <= i < s.len() {
            let line = s.take(i);
            let line = if line.len() > 0 && line.last() == '\r' { line.drop_last() } else { line };
            seq![line] + lines(s.skip(i + 1))
        } else {
            seq![s]
        },
        None => if s.len() == 0 { Seq::empty() } else { seq![s] },
    }
}

/// The payload of a `data:` line (trimmed), unless it is the `[DONE]`
/// marker.
pub open spec fn data_payload(line: Seq<char>) -> Option<Seq<char>> {
    let prefix = "data:"@;
    if line.len() >= prefix.len() && line.take(prefix.len() as int) == prefix {
        let data = trim(line.skip(prefix.len() as int));
        if data == "[DONE]"@ { None } else { Some(data) }
    } else {
        None
    }
}

/// The payloads of the data lines of some lines, in order.
pub open spec fn payloads(ls: Seq<Seq<char>>) -> Seq<Seq<char>>
    decreases ls.len(),
{
    if ls.len() == 0 {
        Seq::empty()
    } else {
        match data_payload(ls[0]) {
            Some(d) => seq![d] + payloads(ls.drop_first()),
            None => payloads(ls.drop_first()),
        }
    }
}

/// Cuts complete events off the front of a buffer: the payloads they carry
/// and the incomplete rest.
pub open spec fn drain_events(buf: Seq<char>) -> (Seq<Seq<char>>, Seq<char>)
    decreases buf.len(),
{
    match char_boundary(buf) {
        Some((i, n)) => if 0 <= i && i + n <= buf.len() {
            let rest = drain_events(buf.skip(i + n));
            (payloads(lines(buf.take(i))) + rest.0, rest.1)
        } else {
            (Seq::empty(), buf)
        },
        None => (Seq::empty(), buf),
    }
}

/// The not yet complete tail of a reply stream.
pub struct SseBuffer {
    buffer: Vec<char>,
}

impl View for SseBuffer {
    type V = Seq<char>;

    closed spec fn view(&self) -> Seq<char> {
        self.buffer@
    }
}

proof fn lemma_lines_empty()
    ensures
        lines(Seq::<char>::empty()) == Seq::<Seq<char>>::empty(),
{
    let e = Seq::<char>::empty();
    assert(!occurs_at(e, seq!['\n'], 0));
    assert(first_occurrence_from(e, seq!['\n'], 1) is None);
    assert(find_first(e, seq!['\n']) is None);
}

/// Splits at the first `\n`: the line (without `\n` and a `\r` before it)
/// and where the rest starts.
fn next_line(s: &Vec<char>, from: usize) -> (r: (Vec<char>, usize))
    requires
        from < s.len(),
    ensures
        from < r.1 <= s.len(),
        lines(s@.skip(from as int)) == seq![r.0@] + lines(s@.skip(r.1 as int)),
{
    let ghost t = s@.skip(from as int);
    let nl: Vec<char> = vec!['\n'];
    let rest = slice_chars(s, from, s.len());
    assert(rest@ =~= t);
    assert(nl@ =~= seq!['\n']);
    match find_first_exec(&rest, &nl) {
        Some(i) => {
            proof {
                crate::text::lemma_find_first_bound(t, seq!['\n']);
            }
            let mut line = slice_chars(&rest, 0, i);
            assert(line@ =~= t.take(i as int));
            if line.len() > 0 && line[line.len() - 1] == '\r' {
                let ghost l0 = line@;
                line.pop();
                assert(line@ =~= l0.drop_last());
            }
            assert(t.skip(i + 1) =~= s@.skip(from + i + 1));
            (line, from + i + 1)
        },
        None => {
            assert(t.len() > 0);
            assert(s@.skip(s.len() as int) =~= Seq::<char>::empty());
            proof {
                lemma_lines_empty();
            }
            assert(seq![rest@] + Seq::<Seq<char>>::empty() =~= seq![rest@]);
            (rest, s.len())
        },
    }
}

fn data_payload_exec(line: &Vec<char>) -> (r: Option<String>)
    ensures
        match r {
            Some(d) => Some(d@),
            None => None,
        } == data_payload(line@),
{
    let prefix = chars_of("data:");
    if line.len() >= prefix.len() && crate::text::occurs_at_exec(line, &prefix, 0) {
        assert(line@.subrange(0, prefix.len() as int) =~= line@.take(prefix.len() as int));
        let after = slice_chars(line, prefix.len(), line.len());
        assert(after@ =~= line@.skip(prefix.len() as int));
        let data = trim_ws(&after);
        if chars_eq_str(&data, "[DONE]") {
            None
        } else {
            Some(string_of(&data))
        }
    } else {
        proof {
            if line@.len() >= prefix@.len() {
                assert(line@.subrange(0, prefix.len() as int) =~= line@.take(prefix.len() as int));
            }
        }
        None
    }
}

proof fn lemma_payloads_append(a: Seq<Seq<char>>, b: Seq<Seq<char>>)
    ensures
        payloads(a + b) == payloads(a) + payloads(b),
    decreases a.len(),
{
    if a.len() == 0 {
        assert(a + b =~= b);
    } else {
        lemma_payloads_append(a.drop_first(), b);
        assert((a + b).drop_first() =~= a.drop_first() + b);
        assert((a + b)[0] == a[0]);
    }
}

/// The payloads of the data lines of `s`.
fn event_payloads(s: &Vec<char>, out: &mut Vec<String>)
    ensures
        final(out)@.map_values(|x: String| x@) == old(out)@.map_values(|x: String| x@) + payloads(lines(s@)),
{
    let mut pos: usize = 0;
    assert(s@.skip(0) =~= s@);
    assert(old(out)@.map_values(|x: String| x@) + payloads(lines(s@)) =~= old(out)@.map_values(|x: String| x@) + payloads(lines(s@.skip(0))));
    while pos < s.len()
        invariant
            pos <= s.len(),
            old(out)@.map_values(|x: String| x@) + payloads(lines(s@)) == out@.map_values(|x: String| x@) + payloads(lines(s@.skip(pos as int))),
        decreases s.len() - pos,
    {
        let (line, next) = next_line(s, pos);
        proof {
            lemma_payloads_append(seq![line@], lines(s@.skip(next as int)));
        }
        let ghost o = out@.map_values(|x: String| x@);
        assert(seq![line@].drop_first() =~= Seq::<Seq<char>>::empty());
        match data_payload_exec(&line) {
            Some(d) => {
                out.push(d);
                assert(payloads(seq![line@]) =~= seq![d@] + payloads(Seq::<Seq<char>>::empty()));
            },
            None => {
                assert(payloads(seq![line@]) =~= payloads(Seq::<Seq<char>>::empty()));
            },
        }
        assert(payloads(Seq::<Seq<char>>::empty()) =~= Seq::<Seq<char>>::empty());
        assert(out@.map_values(|x: String| x@) + payloads(lines(s@.skip(next as int))) =~= o + payloads(lines(s@.skip(pos as int))));
        pos = next;
    }
    assert(s@.skip(pos as int) =~= Seq::<char>::empty());
    proof {
        lemma_lines_empty();
    }
    assert(payloads(Seq::<Seq<char>>::empty()) =~= Seq::<Seq<char>>::empty());
    assert(out@.map_values(|x: String| x@) + Seq::<Seq<char>>::empty() =~= out@.map_values(|x: String| x@));
}

fn char_boundary_exec(s: &Vec<char>) -> (r: Option<(usize, usize)>)
    ensures
        match r {
            Some((i, n)) => Some((i as int, n as int)),
            None => None,
        } == char_boundary(s@),
        r matches Some((i, n)) ==> i + n <= s.len(),
{
    let crlf: Vec<char> = vec!['\r', '\n', '\r', '\n'];
    let lf: Vec<char> = vec!['\n', '\n'];
    assert(crlf@ =~= seq!['\r', '\n', '\r', '\n']);
    assert(lf@ =~= seq!['\n', '\n']);
    proof {
        crate::text::lemma_find_first_bound(s@, crlf@);
        crate::text::lemma_find_first_bound(s@, lf@);
    }
    match find_first_exec(s, &crlf) {
        Some(c) => Some((c, 4)),
        None => match find_first_exec(s, &lf) {
            Some(l) => Some((l, 2)),
            None => None,
        },
    }
}

impl SseBuffer {
    pub fn new() -> (r: Self)
        ensures
            r@.len() == 0,
    {
        SseBuffer { buffer: Vec::new() }
    }

    /// Adds a chunk of the stream and returns the data payloads of the
    /// events it completed, in order.
    pub fn push_chunk(&mut self, chunk: &[u8]) -> (r: Vec<String>)
        ensures
            ({
                let d = drain_events(old(self)@ + utf8_lossy(chunk@));
                &&& r@.map_values(|x: String| x@) == d.0
                &&& final(self)@ == d.1
            }),
    {
        let text = decode_chunk(chunk);
        let ghost whole = self.buffer@ + text@;
        assert(whole == old(self)@ + utf8_lossy(chunk@));
        push_all(&mut self.buffer, &text);
        assert(self.buffer@ == whole);
        let mut out: Vec<String> = Vec::new();
        assert(out@.map_values(|x: String| x@) + drain_events(whole).0 =~= drain_events(whole).0);
        loop
            invariant
                whole == old(self)@ + utf8_lossy(chunk@),
                drain_events(whole) == (out@.map_values(|x: String| x@) + drain_events(self.buffer@).0, drain_events(self.buffer@).1),
            ensures
                out@.map_values(|x: String| x@) == drain_events(whole).0,
                self.buffer@ == drain_events(whole).1,
            decreases self.buffer@.len(),
        {
            match char_boundary_exec(&self.buffer) {
                Some((i, n)) => {
                    let ghost b = self.buffer@;
                    let event = slice_chars(&self.buffer, 0, i);
                    let rest = slice_chars(&self.buffer, i + n, self.buffer.len());
                    assert(rest@ =~= b.skip(i + n));
                    assert(event@ =~= b.take(i as int));
                    let ghost before = out@.map_values(|x: String| x@);
                    event_payloads(&event, &mut out);
                    self.buffer = rest;
                    assert(before + (payloads(lines(b.take(i as int))) + drain_events(b.skip(i + n)).0) =~= out@.map_values(|x: String| x@) + drain_events(self.buffer@).0);
                },
                None => {
                    assert(drain_events(self.buffer@).0 =~= Seq::<Seq<char>>::empty());
                    assert(drain_events(self.buffer@).1 == self.buffer@);
                    assert(out@.map_values(|x: String| x@) + Seq::<Seq<char>>::empty() =~= out@.map_values(|x: String| x@));
                    break;
                },
            }
        }
        out
    }

    /// The data payloads of the incomplete tail, read when the stream ends.
    pub fn tail_payloads(&self) -> (r: Vec<String>)
        ensures
            r@.map_values(|x: String| x@) == payloads(lines(self@)),
    {
        let mut out: Vec<String> = Vec::new();
        event_payloads(&self.buffer, &mut out);
        assert(Seq::<String>::empty().map_values(|x: String| x@) + payloads(lines(self@)) =~= payloads(lines(self@)));
        out
    }

    /// The incomplete tail, trimmed.
    pub fn tail_trimmed(&self) -> (r: String)
        ensures
            r@ == trim(self@),
    {
        let t = trim_ws(&self.buffer);
        string_of(&t)
    }
}

/// After a chunk, no complete event is left in the buffer.
pub proof fn law_drained_buffer_has_no_event(buf: Seq<char>)
    ensures
        char_boundary(drain_events(buf).1) is None,
    decreases buf.len(),
{
    match char_boundary(buf) {
        Some((i, n)) => {
            if 0 <= i && i + n <= buf.len() {
                law_drained_buffer_has_no_event(buf.skip(i + n));
            } else {
                crate::text::lemma_find_first_bound(buf, seq!['\r', '\n', '\r', '\n']);
                crate::text::lemma_find_first_bound(buf, seq!['\n', '\n']);
            }
        },
        None => {},
    }
}

proof fn lemma_no_occurrence_without(s: Seq<char>, needle: Seq<char>, i: nat)
    requires
        needle.len() > 0,
        !s.contains(needle[0]),
    ensures
        first_occurrence_from(s, needle, i) is None,
    decreases s.len() + 1 - i,
{
    if i <= s.len() {
        if occurs_at(s, needle, i as int) {
            assert(s.subrange(i as int, i + needle.len() as int)[0] == s[i as int]);
            assert(s.contains(needle[0]));
        }
        lemma_no_occurrence_without(s, needle, i + 1);
    }
}

proof fn lemma_first_occurrence_in_prefix(a: Seq<char>, b: Seq<char>, needle: Seq<char>, i: nat)
    requires
        first_occurrence_from(a, needle, i) is Some,
    ensures
        first_occurrence_from(a + b, needle, i) == first_occurrence_from(a, needle, i),
    decreases a.len() + 1 - i,
{
    crate::text::lemma_first_occurrence_from(a, needle, i);
    let k = first_occurrence_from(a, needle, i)->0;
    assert(i + needle.len() <= a.len());
    assert((a + b).subrange(i as int, i + needle.len() as int) =~= a.subrange(i as int, i + needle.len() as int));
    if !occurs_at(a, needle, i as int) {
        lemma_first_occurrence_in_prefix(a, b, needle, i + 1);
    }
}

/// Where a reply stream breaks its lines with `\n` alone, how it is cut into
/// chunks does not matter: draining what arrived, appending the next text and
/// draining again yields the payloads and rest that all the text at once
/// yields.
pub proof fn law_chunking_keeps_events(a: Seq<char>, b: Seq<char>)
    requires
        !a.contains('\r'),
        !b.contains('\r'),
    ensures
        ({
            let first = drain_events(a);
            let second = drain_events(first.1 + b);
            drain_events(a + b) == (first.0 + second.0, second.1)
        }),
    decreases a.len(),
{
    let crlf = seq!['\r', '\n', '\r', '\n'];
    let lf = seq!['\n', '\n'];
    assert(!(a + b).contains('\r')) by {
        if (a + b).contains('\r') {
            let j = choose|j: int| 0 <= j < (a + b).len() && (a + b)[j] == '\r';
            if j < a.len() {
                assert(a[j] == '\r');
            } else {
                assert(b[j - a.len()] == '\r');
            }
        }
    }
    lemma_no_occurrence_without(a, crlf, 0);
    lemma_no_occurrence_without(a + b, crlf, 0);
    let first = drain_events(a);
    let second = drain_events(first.1 + b);
    match find_first(a, lf) {
        Some(l) => {
            lemma_first_occurrence_in_prefix(a, b, lf, 0);
            crate::text::lemma_find_first_bound(a, lf);
            let rest = a.skip(l + 2);
            assert(!rest.contains('\r')) by {
                if rest.contains('\r') {
                    let j = choose|j: int| 0 <= j < rest.len() && rest[j] == '\r';
                    assert(a[l + 2 + j] == '\r');
                }
            }
            law_chunking_keeps_events(rest, b);
            assert((a + b).skip(l + 2) =~= rest + b);
            assert((a + b).take(l) =~= a.take(l));
            let head = payloads(lines(a.take(l)));
            assert(first == (head + drain_events(rest).0, drain_events(rest).1));
            assert(head + (drain_events(rest).0 + second.0) =~= (head + drain_events(rest).0) + second.0);
        },
        None => {
            assert(first == (Seq::<Seq<char>>::empty(), a));
            assert(Seq::<Seq<char>>::empty() + second.0 =~= second.0);
        },
    }
}

} // verus!
