//! Pet behaviour replies: cleaning model text and normalizing the
//! action / mood / look / timing a model asks a pet to perform.

use vstd::prelude::*;
use crate::text::{
    CharClass, ascii_lower, ascii_lower_vec, chars_eq_str, chars_of, string_of, take_chars,
    take_chars_vec, trim, trim_chars, trim_class, trim_ws,
};

verus! {

/// What a pet says and does in reply to a chat, heartbeat or conversation.
#[derive(Clone, Debug)]
pub struct PetBehavior {
    pub say: String,
    pub action: String,
    pub mood: String,
    pub duration: u64,
    pub next_action_after: u64,
    pub look: Option<String>,
}

/// The mathematical content of a `PetBehavior`.
pub struct BehaviorView {
    pub say: Seq<char>,
    pub action: Seq<char>,
    pub mood: Seq<char>,
    pub duration: u64,
    pub next_action_after: u64,
    pub look: Option<Seq<char>>,
}

impl View for PetBehavior {
    type V = BehaviorView;

    open spec fn view(&self) -> BehaviorView {
        BehaviorView {
            say: self.say@,
            action: self.action@,
            mood: self.mood@,
            duration: self.duration,
            next_action_after: self.next_action_after,
            look: match self.look {
                Some(l) => Some(l@),
                None => None,
            },
        }
    }
}

pub open spec fn default_behavior() -> BehaviorView {
    BehaviorView {
        say: Seq::empty(),
        action: "idle"@,
        mood: "calm"@,
        duration: 5_200,
        next_action_after: 1_800,
        look: None,
    }
}

impl Default for PetBehavior {
    fn default() -> (r: Self)
        ensures
            r@ == default_behavior(),
    {
        PetBehavior {
            say: String::new(),
            action: String::from_str("idle"),
            mood: String::from_str("calm"),
            duration: 5_200,
            next_action_after: 1_800,
            look: None,
        }
    }
}

/// Model text made ready to show: surrounding space and backticks removed,
/// at most `max_chars` characters.
pub open spec fn spec_clean_reply(text: Seq<char>, max_chars: nat) -> Seq<char> {
    take_chars(trim(trim_class(trim(text), CharClass::Exactly('`'))), max_chars)
}

/// Cleans a model reply.
pub fn clean_reply(text: String, max_chars: usize) -> (r: String)
    ensures
        r@ == spec_clean_reply(text@, max_chars as nat),
{
    let c = chars_of(text.as_str());
    let a = trim_ws(&c);
    let b = trim_chars(&a, CharClass::Exactly('`'));
    let d = trim_ws(&b);
    let e = take_chars_vec(&d, max_chars);
    string_of(&e)
}

/// The animations a pet can be asked to play.
pub open spec fn known_action(a: Seq<char>) -> bool {
    a == "idle"@ || a == "waving"@ || a == "jumping"@ || a == "waiting"@ || a == "review"@ || a
        == "walk"@ || a == "sleep"@
}

/// The eight named look directions.
pub open spec fn look_name(l: Seq<char>) -> bool {
    l == "up"@ || l == "up-right"@ || l == "right"@ || l == "down-right"@ || l == "down"@ || l
        == "down-left"@ || l == "left"@ || l == "up-left"@
}

pub open spec fn is_digit(c: char) -> bool {
    '0' <= c <= '9'
}

/// The value of a run of decimal digits.
pub open spec fn digits_value(d: Seq<char>) -> nat
    decreases d.len(),
{
    if d.len() == 0 {
        0
    } else {
        digits_value(d.drop_last()) * 10 + ((d.last() as u32) - ('0' as u32)) as nat
    }
}

/// Text that `u8::from_str` accepts with a value below 16: an optional `+`
/// followed by at least one digit.
pub open spec fn look_digits(l: Seq<char>) -> Seq<char> {
    if l.len() > 0 && l[0] == '+' {
        l.drop_first()
    } else {
        l
    }
}

pub open spec fn all_digits(d: Seq<char>) -> bool {
    forall|i: int| 0 <= i < d.len() ==> is_digit(#[trigger] d[i])
}

pub open spec fn look_index(l: Seq<char>) -> bool {
    &&& look_digits(l).len() > 0
    &&& all_digits(look_digits(l))
    &&& digits_value(look_digits(l)) < 16
}

pub open spec fn normalized_look(look: Option<Seq<char>>) -> Option<Seq<char>> {
    match look {
        Some(l) => {
            let n = ascii_lower(trim(l));
            if look_name(n) || look_index(n) {
                Some(n)
            } else {
                None
            }
        },
        None => None,
    }
}

pub open spec fn clamp_u64(v: u64, lo: u64, hi: u64) -> u64 {
    if v < lo {
        lo
    } else if v > hi {
        hi
    } else {
        v
    }
}

/// A behaviour made safe to perform: a known action (else `idle`), a mood
/// of at most 32 characters (else `calm`), a valid look or none, a cleaned
/// line of at most 600 characters, and bounded timings.
pub open spec fn spec_normalize_behavior(b: BehaviorView) -> BehaviorView {
    let action = ascii_lower(trim(b.action));
    let mood = take_chars(trim(b.mood), 32);
    BehaviorView {
        say: spec_clean_reply(b.say, 600),
        action: if known_action(action) { action } else { "idle"@ },
        mood: if mood.len() == 0 { "calm"@ } else { mood },
        duration: clamp_u64(b.duration, 2_500, 12_000),
        next_action_after: clamp_u64(b.next_action_after, 30, 7_200),
        look: normalized_look(b.look),
    }
}

fn is_known_action(a: &Vec<char>) -> (r: bool)
    ensures
        r == known_action(a@),
{
    chars_eq_str(a, "idle") || chars_eq_str(a, "waving") || chars_eq_str(a, "jumping")
        || chars_eq_str(a, "waiting") || chars_eq_str(a, "review") || chars_eq_str(a, "walk")
        || chars_eq_str(a, "sleep")
}

fn is_look_name(l: &Vec<char>) -> (r: bool)
    ensures
        r == look_name(l@),
{
    chars_eq_str(l, "up") || chars_eq_str(l, "up-right") || chars_eq_str(l, "right")
        || chars_eq_str(l, "down-right") || chars_eq_str(l, "down") || chars_eq_str(l, "down-left")
        || chars_eq_str(l, "left") || chars_eq_str(l, "up-left")
}

fn is_look_index(l: &Vec<char>) -> (r: bool)
    ensures
        r == look_index(l@),
{
    let start: usize = if l.len() > 0 && l[0] == '+' { 1 } else { 0 };
    let ghost d = look_digits(l@);
    assert(d =~= l@.skip(start as int));
    if start == l.len() {
        return false;
    }
    let mut value: u64 = 0;
    let mut i: usize = start;
    while i < l.len()
        invariant
            start <= i <= l.len(),
            d == l@.skip(start as int),
            d == look_digits(l@),
            forall|k: int| start <= k < i ==> is_digit(#[trigger] l@[k]),
            value < 16,
            value == digits_value(l@.subrange(start as int, i as int)),
        decreases l.len() - i,
    {
        let c = l[i];
        if !('0' <= c && c <= '9') {
            assert(d[i - start] == l@[i as int]);
            assert(!is_digit(d[i - start]));
            assert(!all_digits(d));
            return false;
        }
        let dv = (c as u32 - '0' as u32) as u64;
        assert(l@.subrange(start as int, i + 1).drop_last() =~= l@.subrange(start as int, i as int));
        value = value * 10 + dv;
        i = i + 1;
        if value >= 16 {
            proof {
                if all_digits(d) {
                    assert(l@.subrange(start as int, i as int) =~= d.take(i - start));
                    lemma_digits_grow(l@.subrange(start as int, i as int), d);
                }
            }
            return false;
        }
    }
    assert(l@.subrange(start as int, l.len() as int) =~= d);
    true
}

/// Appending digits never lowers the value of a digit run.
proof fn lemma_digits_grow(prefix: Seq<char>, whole: Seq<char>)
    requires
        prefix.len() <= whole.len(),
        prefix == whole.take(prefix.len() as int),
        forall|i: int| 0 <= i < whole.len() ==> is_digit(#[trigger] whole[i]),
    ensures
        digits_value(prefix) <= digits_value(whole),
    decreases whole.len(),
{
    if prefix.len() < whole.len() {
        assert(whole.drop_last().take(prefix.len() as int) =~= whole.take(prefix.len() as int));
        lemma_digits_grow(prefix, whole.drop_last());
        assert(digits_value(whole) >= digits_value(whole.drop_last()) * 10);
    } else {
        assert(prefix =~= whole);
    }
}

fn normalize_look(look: Option<String>) -> (r: Option<String>)
    ensures
        match r {
            Some(x) => Some(x@),
            None => None,
        } == normalized_look(match look { Some(l) => Some(l@), None => None }),
{
    match look {
        Some(l) => {
            let c = chars_of(l.as_str());
            let t = trim_ws(&c);
            let n = ascii_lower_vec(&t);
            if is_look_name(&n) || is_look_index(&n) {
                Some(string_of(&n))
            } else {
                None
            }
        },
        None => None,
    }
}

fn clamp_exec(v: u64, lo: u64, hi: u64) -> (r: u64)
    ensures
        r == clamp_u64(v, lo, hi),
{
    if v < lo {
        lo
    } else if v > hi {
        hi
    } else {
        v
    }
}

/// Normalizes a behaviour proposed by a model.
pub fn normalize_behavior(behavior: PetBehavior) -> (r: PetBehavior)
    ensures
        r@ == spec_normalize_behavior(behavior@),
{
    let ac = chars_of(behavior.action.as_str());
    let at = trim_ws(&ac);
    let al = ascii_lower_vec(&at);
    let action = if is_known_action(&al) { string_of(&al) } else { String::from_str("idle") };
    let mc = chars_of(behavior.mood.as_str());
    let mt = trim_ws(&mc);
    let m = take_chars_vec(&mt, 32);
    let mood = if m.len() == 0 { String::from_str("calm") } else { string_of(&m) };
    let look = normalize_look(behavior.look);
    let say = clean_reply(behavior.say, 600);
    PetBehavior {
        say,
        action,
        mood,
        duration: clamp_exec(behavior.duration, 2_500, 12_000),
        next_action_after: clamp_exec(behavior.next_action_after, 30, 7_200),
        look,
    }
}

/// The line and behaviour of a reply. `parsed` is the behaviour read from
/// the JSON object in `raw`, when there was one: it is normalized and its
/// line cut to `max_chars`. Otherwise the whole reply is the line.
pub open spec fn spec_behavior_response(raw: Seq<char>, parsed: Option<BehaviorView>, max_chars: nat) -> (Seq<char>, BehaviorView) {
    match parsed {
        Some(b) => {
            let n = spec_normalize_behavior(b);
            let say = spec_clean_reply(n.say, max_chars);
            (say, BehaviorView { say, ..n })
        },
        None => {
            let say = spec_clean_reply(raw, max_chars);
            (say, spec_normalize_behavior(BehaviorView { say, ..default_behavior() }))
        },
    }
}

pub fn parse_behavior_response(raw: String, parsed: Option<PetBehavior>, max_chars: usize) -> (r: (String, PetBehavior))
    ensures
        (r.0@, r.1@) == spec_behavior_response(raw@, match parsed { Some(b) => Some(b@), None => None }, max_chars as nat),
{
    match parsed {
        Some(b) => {
            let mut n = normalize_behavior(b);
            let say = clean_reply(n.say.clone(), max_chars);
            n.say = say.clone();
            (say, n)
        },
        None => {
            let say = clean_reply(raw, max_chars);
            let mut base = PetBehavior::default();
            base.say = say.clone();
            let b = normalize_behavior(base);
            (say, b)
        },
    }
}

/// A pet-to-pet exchange: both behaviours normalized with lines of at most
/// 100 characters; nothing when neither pet says anything.
pub open spec fn spec_conversation_response(parsed: Option<(BehaviorView, BehaviorView)>) -> Option<(BehaviorView, BehaviorView)> {
    match parsed {
        Some((a, b)) => {
            let na = spec_normalize_behavior(a);
            let nb = spec_normalize_behavior(b);
            let first = BehaviorView { say: spec_clean_reply(na.say, 100), ..na };
            let second = BehaviorView { say: spec_clean_reply(nb.say, 100), ..nb };
            if first.say.len() == 0 && second.say.len() == 0 {
                None
            } else {
                Some((first, second))
            }
        },
        None => None,
    }
}

pub fn parse_pet_conversation_response(parsed: Option<(PetBehavior, PetBehavior)>) -> (r: Option<(PetBehavior, PetBehavior)>)
    ensures
        match r {
            Some((a, b)) => Some((a@, b@)),
            None => None,
        } == spec_conversation_response(match parsed { Some((a, b)) => Some((a@, b@)), None => None }),
{
    match parsed {
        Some((a, b)) => {
            let mut first = normalize_behavior(a);
            let mut second = normalize_behavior(b);
            first.say = clean_reply(first.say.clone(), 100);
            second.say = clean_reply(second.say.clone(), 100);
            if first.say.as_str().is_empty() && second.say.as_str().is_empty() {
                None
            } else {
                Some((first, second))
            }
        },
        None => None,
    }
}

} // verus!
