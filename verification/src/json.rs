//! JSON values as the library reads them, and locating the JSON object in a
//! model's reply.
//!
//! Parsing JSON text is done by `serde_json`; its values are handed to the
//! library as `Json`. Numbers carry the value `serde_json::Value::as_u64`
//! gives: present for non-negative integers that fit in 64 bits.

use vstd::prelude::*;
use crate::text::{
    CharClass, chars_eq_str, chars_of, find_first, find_first_exec, first_match,
    first_match_from, slice_chars, string_of, strip_prefix_repeat, strip_suffix_repeat,
    trim, trim_ws,
};

verus! {

/// A JSON value.
#[derive(Debug)]
pub enum Json {
    Null,
    Bool(bool),
    Number(Option<u64>),
    Str(String),
    Array(Vec<Json>),
    Object(Vec<(String, Json)>),
}

pub open spec fn key_of(key: Seq<char>) -> spec_fn((String, Json)) -> bool {
    |e: (String, Json)| e.0@ == key
}

/// The member `key` of an object.
pub open spec fn spec_get(j: Json, key: Seq<char>) -> Option<Json> {
    match j {
        Json::Object(entries) => match first_match(entries@, key_of(key)) {
            Some(k) => Some(entries@[k].1),
            None => None,
        },
        _ => None,
    }
}

/// The element `i` of an array.
pub open spec fn spec_at(j: Json, i: nat) -> Option<Json> {
    match j {
        Json::Array(items) => if i < items@.len() { Some(items@[i as int]) } else { None },
        _ => None,
    }
}

pub open spec fn get_in(j: Option<Json>, key: Seq<char>) -> Option<Json> {
    match j {
        Some(v) => spec_get(v, key),
        None => None,
    }
}

pub open spec fn at_in(j: Option<Json>, i: nat) -> Option<Json> {
    match j {
        Some(v) => spec_at(v, i),
        None => None,
    }
}

/// The text of a string value.
pub open spec fn as_str(j: Option<Json>) -> Option<Seq<char>> {
    match j {
        Some(Json::Str(s)) => Some(s@),
        _ => None,
    }
}

/// The value of a boolean.
pub open spec fn as_bool(j: Option<Json>) -> Option<bool> {
    match j {
        Some(Json::Bool(b)) => Some(b),
        _ => None,
    }
}

/// The value of a non-negative integer.
pub open spec fn as_u64(j: Option<Json>) -> Option<u64> {
    match j {
        Some(Json::Number(n)) => n,
        _ => None,
    }
}

impl Json {
    /// The member `key` of an object.
    pub fn get(&self, key: &str) -> (r: Option<&Json>)
        ensures
            match r {
                Some(v) => Some(*v),
                None => None,
            } == spec_get(*self, key@),
    {
        match self {
            Json::Object(entries) => {
                let want = chars_of(key);
                let mut i: usize = 0;
                while i < entries.len()
                    invariant
                        i <= entries.len(),
                        want@ == key@,
                        *self == Json::Object(*entries),
                        first_match(entries@, key_of(key@)) == first_match_from(entries@, key_of(key@), i as nat),
                    decreases entries.len() - i,
                {
                    let k = chars_of(entries[i].0.as_str());
                    if crate::text::chars_eq(&k, &want) {
                        assert(key_of(key@)(entries@[i as int]));
                        assert(first_match(entries@, key_of(key@)) == Some(i as int));
                        return Some(&entries[i].1);
                    }
                    i = i + 1;
                }
                None
            },
            _ => None,
        }
    }

    /// The element `i` of an array.
    pub fn at(&self, i: usize) -> (r: Option<&Json>)
        ensures
            match r {
                Some(v) => Some(*v),
                None => None,
            } == spec_at(*self, i as nat),
    {
        match self {
            Json::Array(items) => if i < items.len() { Some(&items[i]) } else { None },
            _ => None,
        }
    }

    /// The text of a string value.
    pub fn as_text(&self) -> (r: Option<&String>)
        ensures
            match r {
                Some(s) => Some(s@),
                None => None,
            } == as_str(Some(*self)),
    {
        match self {
            Json::Str(s) => Some(s),
            _ => None,
        }
    }

    /// The value of a boolean.
    pub fn as_boolean(&self) -> (r: Option<bool>)
        ensures
            r == as_bool(Some(*self)),
    {
        match self {
            Json::Bool(b) => Some(*b),
            _ => None,
        }
    }

    /// The value of a non-negative integer.
    pub fn as_unsigned(&self) -> (r: Option<u64>)
        ensures
            r == as_u64(Some(*self)),
    {
        match self {
            Json::Number(n) => *n,
            _ => None,
        }
    }
}

pub fn get_opt<'a>(j: Option<&'a Json>, key: &str) -> (r: Option<&'a Json>)
    ensures
        match r {
            Some(v) => Some(*v),
            None => None,
        } == get_in(match j { Some(v) => Some(*v), None => None }, key@),
{
    match j {
        Some(v) => v.get(key),
        None => None,
    }
}

pub fn at_opt<'a>(j: Option<&'a Json>, i: usize) -> (r: Option<&'a Json>)
    ensures
        match r {
            Some(v) => Some(*v),
            None => None,
        } == at_in(match j { Some(v) => Some(*v), None => None }, i as nat),
{
    match j {
        Some(v) => v.at(i),
        None => None,
    }
}

pub fn text_opt(j: Option<&Json>) -> (r: Option<String>)
    ensures
        match r {
            Some(s) => Some(s@),
            None => None,
        } == as_str(match j { Some(v) => Some(*v), None => None }),
{
    match j {
        Some(v) => match v.as_text() {
            Some(s) => Some(s.clone()),
            None => None,
        },
        None => None,
    }
}

/// A model reply with surrounding space and Markdown code fences removed.
pub open spec fn unfenced(text: Seq<char>) -> Seq<char> {
    trim(
        strip_suffix_repeat(
            strip_prefix_repeat(strip_prefix_repeat(trim(text), "```json"@), "```"@),
            "```"@,
        ),
    )
}

/// The texts tried, in order, as the JSON of a model reply: the unfenced
/// reply, then the span from its first `{` to its last `}` when that span
/// is not empty.
pub open spec fn spec_json_candidates(text: Seq<char>) -> Seq<Seq<char>> {
    let clean = unfenced(text);
    let start = find_first(clean, seq!['{']);
    let end = find_last(clean, '}');
    if start is Some && end is Some && start->0 < end->0 {
        seq![clean, clean.subrange(start->0, end->0 + 1)]
    } else {
        seq![clean]
    }
}

/// The index of the last occurrence of `c` (`str::rfind`).
pub open spec fn find_last(s: Seq<char>, c: char) -> Option<int>
    decreases s.len(),
{
    if s.len() == 0 {
        None
    } else if s.last() == c {
        Some(s.len() - 1)
    } else {
        find_last(s.drop_last(), c)
    }
}

fn find_last_exec(s: &Vec<char>, c: char) -> (r: Option<usize>)
    ensures
        match r {
            Some(i) => Some(i as int),
            None => None,
        } == find_last(s@, c),
{
    let mut j = s.len();
    assert(s@.take(j as int) =~= s@);
    while j > 0
        invariant
            j <= s.len(),
            find_last(s@, c) == find_last(s@.take(j as int), c),
        decreases j,
    {
        if s[j - 1] == c {
            return Some(j - 1);
        }
        assert(s@.take(j as int).drop_last() =~= s@.take(j - 1));
        j = j - 1;
    }
    None
}

/// Repeatedly removes `prefix` from the front.
pub fn strip_prefix_exec(s: &Vec<char>, prefix: &str) -> (r: Vec<char>)
    ensures
        r@ == strip_prefix_repeat(s@, prefix@),
{
    let p = chars_of(prefix);
    let mut i: usize = 0;
    assert(s@.skip(0) =~= s@);
    while p.len() > 0 && p.len() <= s.len() - i && crate::text::occurs_at_exec(s, &p, i)
        invariant
            i <= s.len(),
            p@ == prefix@,
            strip_prefix_repeat(s@, prefix@) == strip_prefix_repeat(s@.skip(i as int), prefix@),
        decreases s.len() - i,
    {
        assert(s@.skip(i as int).take(p.len() as int) =~= s@.subrange(i as int, i + p.len()));
        assert(s@.skip(i as int).skip(p.len() as int) =~= s@.skip(i + p.len()));
        i = i + p.len();
    }
    proof {
        if p.len() > 0 && p.len() <= s.len() - i {
            assert(s@.skip(i as int).take(p.len() as int) =~= s@.subrange(i as int, i + p.len()));
        }
    }
    slice_chars(s, i, s.len())
}

/// Repeatedly removes `suffix` from the back.
pub fn strip_suffix_exec(s: &Vec<char>, suffix: &str) -> (r: Vec<char>)
    ensures
        r@ == strip_suffix_repeat(s@, suffix@),
{
    let p = chars_of(suffix);
    let mut j: usize = s.len();
    assert(s@.take(j as int) =~= s@);
    while p.len() > 0 && p.len() <= j && crate::text::occurs_at_exec(s, &p, j - p.len())
        invariant
            j <= s.len(),
            p@ == suffix@,
            strip_suffix_repeat(s@, suffix@) == strip_suffix_repeat(s@.take(j as int), suffix@),
        decreases j,
    {
        assert(s@.take(j as int).skip(j - p.len()) =~= s@.subrange(j - p.len(), j as int));
        assert(s@.take(j as int).take(j - p.len()) =~= s@.take(j - p.len()));
        j = j - p.len();
    }
    proof {
        if p.len() > 0 && p.len() <= j {
            assert(s@.take(j as int).skip(j - p.len()) =~= s@.subrange(j - p.len(), j as int));
        }
    }
    slice_chars(s, 0, j)
}

/// The texts to try, in order, as the JSON object of a model reply.
pub fn json_candidates(text: &str) -> (r: Vec<String>)
    ensures
        r@.map_values(|s: String| s@) == spec_json_candidates(text@),
{
    let c = chars_of(text);
    let t = trim_ws(&c);
    let a = strip_prefix_exec(&t, "```json");
    let b = strip_prefix_exec(&a, "```");
    let d = strip_suffix_exec(&b, "```");
    let clean = trim_ws(&d);
    let brace = chars_of("{");
    proof {
        reveal_strlit("{");
    }
    assert(brace@ =~= seq!['{']);
    let start = find_first_exec(&clean, &brace);
    let end = find_last_exec(&clean, '}');
    let mut r: Vec<String> = Vec::new();
    r.push(string_of(&clean));
    match (start, end) {
        (Some(s), Some(e)) => {
            if s < e {
                proof {
                    crate::text::lemma_find_first_bound(clean@, brace@);
                    lemma_find_last_bound(clean@, '}');
                }
                let span = slice_chars(&clean, s, e + 1);
                r.push(string_of(&span));
            }
        },
        _ => {},
    }
    assert(r@.map_values(|s: String| s@) =~= spec_json_candidates(text@));
    r
}

proof fn lemma_find_last_bound(s: Seq<char>, c: char)
    ensures
        find_last(s, c) matches Some(i) ==> 0 <= i < s.len(),
    decreases s.len(),
{
    if s.len() > 0 && s.last() != c {
        lemma_find_last_bound(s.drop_last(), c);
    }
}

/// Where the object opened at or before `i` closes: scanning on from `i`
/// with `depth` braces open, inside a string literal or not, after a
/// backslash or not; braces inside string literals do not count.
pub open spec fn closing_brace(s: Seq<char>, i: nat, depth: int, in_string: bool, escaped: bool) -> Option<int>
    decreases s.len() - i,
{
    if i >= s.len() {
        None
    } else {
        let c = s[i as int];
        if in_string {
            if escaped {
                closing_brace(s, i + 1, depth, true, false)
            } else if c == '\\' {
                closing_brace(s, i + 1, depth, true, true)
            } else if c == '"' {
                closing_brace(s, i + 1, depth, false, false)
            } else {
                closing_brace(s, i + 1, depth, true, false)
            }
        } else if c == '"' {
            closing_brace(s, i + 1, depth, true, false)
        } else if c == '{' {
            closing_brace(s, i + 1, depth + 1, false, false)
        } else if c == '}' {
            if depth - 1 == 0 { Some(i as int) } else { closing_brace(s, i + 1, depth - 1, false, false) }
        } else {
            closing_brace(s, i + 1, depth, false, false)
        }
    }
}

pub proof fn lemma_closing_brace(s: Seq<char>, i: nat, depth: int, in_string: bool, escaped: bool)
    ensures
        closing_brace(s, i, depth, in_string, escaped) matches Some(k) ==> i <= k < s.len(),
    decreases s.len() - i,
{
    if i < s.len() {
        lemma_closing_brace(s, i + 1, depth, in_string, false);
        lemma_closing_brace(s, i + 1, depth, in_string, true);
        lemma_closing_brace(s, i + 1, depth, !in_string, false);
        lemma_closing_brace(s, i + 1, depth + 1, false, false);
        lemma_closing_brace(s, i + 1, depth - 1, false, false);
        lemma_closing_brace(s, i + 1, depth, true, false);
        lemma_closing_brace(s, i + 1, depth, true, true);
        lemma_closing_brace(s, i + 1, depth, false, false);
    }
}

/// The texts tried, in order, as the JSON of a scene director's reply: the
/// trimmed reply, then the first balanced object in it when there is one.
pub open spec fn spec_scene_json_candidates(text: Seq<char>) -> Seq<Seq<char>> {
    let t = trim(text);
    match find_first(t, seq!['{']) {
        Some(start) => match closing_brace(t, start as nat, 0, false, false) {
            Some(end) => seq![t, t.subrange(start, end + 1)],
            None => seq![t],
        },
        None => seq![t],
    }
}

pub fn scene_json_candidates(text: &str) -> (r: Vec<String>)
    ensures
        r@.map_values(|s: String| s@) == spec_scene_json_candidates(text@),
{
    let t = trim_ws(&chars_of(text));
    let brace: Vec<char> = vec!['{'];
    assert(brace@ =~= seq!['{']);
    let mut r: Vec<String> = Vec::new();
    r.push(string_of(&t));
    match find_first_exec(&t, &brace) {
        Some(start) => {
            proof {
                crate::text::lemma_find_first_bound(t@, brace@);
                assert(t@.subrange(start as int, start + 1)[0] == t@[start as int]);
                assert(t@[start as int] == '{');
                lemma_closing_brace(t@, start as nat, 0, false, false);
            }
            let mut i: usize = start;
            let mut depth: usize = 0;
            let mut in_string = false;
            let mut escaped = false;
            let mut end: Option<usize> = None;
            while i < t.len()
                invariant_except_break
                    end is None,
                    closing_brace(t@, start as nat, 0, false, false) == closing_brace(t@, i as nat, depth as int, in_string, escaped),
                    i > start ==> 1 <= depth <= i - start,
                invariant
                    start <= i <= t.len(),
                    start < t.len(),
                    t@[start as int] == '{',
                    i == start ==> (depth == 0 && !in_string && !escaped),
                    escaped ==> in_string,
                ensures
                    end matches Some(e) ==> (e < t.len() && closing_brace(t@, start as nat, 0, false, false) == Some(e as int)),
                    end is None ==> closing_brace(t@, start as nat, 0, false, false) is None,
                decreases t.len() - i,
            {
                let c = t[i];
                let ghost before = closing_brace(t@, i as nat, depth as int, in_string, escaped);
                if in_string {
                    if escaped {
                        escaped = false;
                    } else if c == '\\' {
                        escaped = true;
                    } else if c == '"' {
                        in_string = false;
                    }
                } else if c == '"' {
                    in_string = true;
                } else if c == '{' {
                    depth = depth + 1;
                } else if c == '}' {
                    depth = depth - 1;
                    if depth == 0 {
                        end = Some(i);
                        break;
                    }
                }
                assert(before == closing_brace(t@, (i + 1) as nat, depth as int, in_string, escaped));
                i = i + 1;
            }
            match end {
                Some(e) => {
                    let span = slice_chars(&t, start, e + 1);
                    r.push(string_of(&span));
                },
                None => {},
            }
        },
        None => {},
    }
    assert(r@.map_values(|s: String| s@) =~= spec_scene_json_candidates(text@));
    r
}

} // verus!
