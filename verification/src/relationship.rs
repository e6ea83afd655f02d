//! Pair relationships between pets: the canonical pair key, affinity levels,
//! and how one finished scene changes a relationship.

use vstd::prelude::*;
use crate::text::{chars_eq, chars_eq_str, chars_of, push_all, push_str_chars, string_of};
use crate::scene::{RelationshipSignal, string_views};
use crate::json::{Json, as_u64, spec_get};

verus! {

/// The longest accepted id.
pub const MAX_ID_CHARS: usize = 64;

pub open spec fn id_char(c: char) -> bool {
    ('a' <= c <= 'z') || ('A' <= c <= 'Z') || ('0' <= c <= '9') || c == '-' || c == '_'
}

/// Pet and instance ids are short, non-empty runs of ASCII letters, digits,
/// `-` and `_`, so that they can name files and windows.
pub open spec fn spec_is_safe_id(id: Seq<char>) -> bool {
    &&& 0 < id.len() <= 64
    &&& forall|i: int| 0 <= i < id.len() ==> id_char(#[trigger] id[i])
}

pub fn is_safe_id(id: &str) -> (r: bool)
    ensures
        r == spec_is_safe_id(id@),
{
    let c = chars_of(id);
    if c.len() == 0 || c.len() > MAX_ID_CHARS {
        return false;
    }
    let mut i: usize = 0;
    while i < c.len()
        invariant
            i <= c.len(),
            c@ == id@,
            0 < c.len() <= 64,
            forall|k: int| 0 <= k < i ==> id_char(#[trigger] c@[k]),
        decreases c.len() - i,
    {
        let x = c[i];
        if !(('a' <= x && x <= 'z') || ('A' <= x && x <= 'Z') || ('0' <= x && x <= '9') || x == '-'
            || x == '_') {
            return false;
        }
        i = i + 1;
    }
    true
}

/// Lexicographic order of character sequences (`<` on `str`: UTF-8 byte
/// order coincides with code point order).
pub open spec fn seq_lt(a: Seq<char>, b: Seq<char>) -> bool
    decreases a.len(),
{
    if b.len() == 0 {
        false
    } else if a.len() == 0 {
        true
    } else if a[0] != b[0] {
        a[0] < b[0]
    } else {
        seq_lt(a.drop_first(), b.drop_first())
    }
}

pub proof fn lemma_seq_lt_total(a: Seq<char>, b: Seq<char>)
    ensures
        a != b ==> (seq_lt(a, b) != seq_lt(b, a)),
        !(seq_lt(a, b) && seq_lt(b, a)),
    decreases a.len(),
{
    if a.len() > 0 && b.len() > 0 {
        if a[0] == b[0] {
            lemma_seq_lt_total(a.drop_first(), b.drop_first());
            if a.drop_first() == b.drop_first() {
                assert(a =~= seq![a[0]] + a.drop_first());
                assert(b =~= seq![b[0]] + b.drop_first());
            }
        }
    } else if a.len() == 0 && b.len() == 0 {
        assert(a =~= b);
    }
}

pub proof fn lemma_seq_lt_transitive(a: Seq<char>, b: Seq<char>, c: Seq<char>)
    requires
        seq_lt(a, b),
        seq_lt(b, c),
    ensures
        seq_lt(a, c),
    decreases a.len(),
{
    if a.len() > 0 && b.len() > 0 && c.len() > 0 && a[0] == b[0] && b[0] == c[0] {
        lemma_seq_lt_transitive(a.drop_first(), b.drop_first(), c.drop_first());
    }
}

pub proof fn lemma_seq_lt_irreflexive(a: Seq<char>)
    ensures
        !seq_lt(a, a),
{
    lemma_seq_lt_total(a, a);
}

pub fn str_lt(a: &str, b: &str) -> (r: bool)
    ensures
        r == seq_lt(a@, b@),
{
    let x = chars_of(a);
    let y = chars_of(b);
    let mut i: usize = 0;
    assert(x@.skip(0) =~= x@);
    assert(y@.skip(0) =~= y@);
    while i < x.len() && i < y.len() && x[i] == y[i]
        invariant
            i <= x.len(),
            i <= y.len(),
            seq_lt(x@, y@) == seq_lt(x@.skip(i as int), y@.skip(i as int)),
        decreases x.len() - i,
    {
        assert(x@.skip(i as int).drop_first() =~= x@.skip(i + 1));
        assert(y@.skip(i as int).drop_first() =~= y@.skip(i + 1));
        i = i + 1;
    }
    if i == y.len() {
        false
    } else if i == x.len() {
        true
    } else {
        x[i] < y[i]
    }
}

/// The canonical `(pair id, first, second)` of two pets: ids ordered, the pair
/// id joining them with `--`. Refused for unsafe ids and for a pet paired with
/// itself.
pub open spec fn spec_pair_key(a: Seq<char>, b: Seq<char>) -> Option<(Seq<char>, Seq<char>, Seq<char>)> {
    if !spec_is_safe_id(a) || !spec_is_safe_id(b) || a == b {
        None
    } else {
        let (f, s) = if seq_lt(a, b) { (a, b) } else { (b, a) };
        Some((f + "--"@ + s, f, s))
    }
}

pub fn pair_key(first: &str, second: &str) -> (r: Result<(String, String, String), String>)
    ensures
        r is Ok <==> spec_pair_key(first@, second@) is Some,
        r matches Ok((k, f, s)) ==> spec_pair_key(first@, second@) == Some((k@, f@, s@)),
        r matches Err(e) ==> e@ == "无效的宠物组合"@,
{
    let a = chars_of(first);
    let b = chars_of(second);
    if !is_safe_id(first) || !is_safe_id(second) || chars_eq(&a, &b) {
        return Err(String::from_str("无效的宠物组合"));
    }
    let (f, s) = if str_lt(first, second) { (a, b) } else { (b, a) };
    let mut key: Vec<char> = Vec::new();
    push_all(&mut key, &f);
    push_str_chars(&mut key, "--");
    push_all(&mut key, &s);
    Ok((string_of(&key), string_of(&f), string_of(&s)))
}

/// The pair key does not depend on the order in which the pets are named.
pub proof fn law_pair_key_symmetric(a: Seq<char>, b: Seq<char>)
    ensures
        spec_pair_key(a, b) == spec_pair_key(b, a),
{
    lemma_seq_lt_total(a, b);
}

/// Affinity bands: 0–19, 20–44, 45–69, 70–89 and 90 up are levels 1 to 5.
pub open spec fn spec_relationship_level(value: u8) -> u8 {
    if value <= 19 {
        1
    } else if value <= 44 {
        2
    } else if value <= 69 {
        3
    } else if value <= 89 {
        4
    } else {
        5
    }
}

pub fn relationship_level(value: u8) -> (r: u8)
    ensures
        r == spec_relationship_level(value),
{
    if value <= 19 {
        1
    } else if value <= 44 {
        2
    } else if value <= 69 {
        3
    } else if value <= 89 {
        4
    } else {
        5
    }
}

/// Relationship levels stay within 1..=5 and never fall as affinity grows.
pub proof fn law_relationship_level_bounded_monotone(a: u8, b: u8)
    ensures
        1 <= spec_relationship_level(a) <= 5,
        a <= b ==> spec_relationship_level(a) <= spec_relationship_level(b),
{
}

/// How one pet feels about the other, each value kept within -100..=100 by
/// the updates below.
#[derive(Clone, Copy, PartialEq, Eq, Structural, Debug)]
pub struct DirectionalFeelings {
    pub trust: i16,
    pub fondness: i16,
    pub attachment: i16,
    pub attraction: i16,
    pub rivalry: i16,
    pub jealousy: i16,
    pub resentment: i16,
}

impl DirectionalFeelings {
    pub open spec fn zero() -> Self {
        DirectionalFeelings {
            trust: 0,
            fondness: 0,
            attachment: 0,
            attraction: 0,
            rivalry: 0,
            jealousy: 0,
            resentment: 0,
        }
    }

    pub fn new() -> (r: Self)
        ensures
            r == Self::zero(),
    {
        DirectionalFeelings {
            trust: 0,
            fondness: 0,
            attachment: 0,
            attraction: 0,
            rivalry: 0,
            jealousy: 0,
            resentment: 0,
        }
    }

    /// Every value leaves room for one more step up.
    pub open spec fn has_room(self) -> bool {
        &&& self.trust <= 32764
        &&& self.fondness <= 32764
        &&& self.attachment <= 32764
        &&& self.attraction <= 32764
        &&& self.rivalry <= 32764
        &&& self.jealousy <= 32764
        &&& self.resentment <= 32764
    }
}

/// One pet's feelings towards its partner in the pair.
#[derive(Clone, Debug)]
pub struct DirectionalEntry {
    pub pet_id: String,
    pub feelings: DirectionalFeelings,
}

/// The stored relationship of a pair of pets.
#[derive(Clone, Debug)]
pub struct Relationship {
    pub pair_id: String,
    pub first_pet_id: String,
    pub second_pet_id: String,
    pub affinity: u8,
    pub peak_affinity: u8,
    pub level: u8,
    pub known_since: u64,
    pub interaction_count: u64,
    pub last_interaction_at: u64,
    pub last_advanced_at: u64,
    pub unlocked_milestones: Vec<String>,
    pub romance_status: String,
    pub directional: Vec<DirectionalEntry>,
}

pub open spec fn dir_view(d: Seq<DirectionalEntry>) -> Seq<(Seq<char>, DirectionalFeelings)> {
    d.map_values(|e: DirectionalEntry| (e.pet_id@, e.feelings))
}

/// One step up, kept within -100..=100.
pub open spec fn bump(v: i16) -> i16 {
    let n = v + 3;
    if n < -100 {
        -100i16
    } else if n > 100 {
        100i16
    } else {
        n as i16
    }
}

pub open spec fn feelings_after(f: DirectionalFeelings, change: Seq<char>) -> DirectionalFeelings {
    if change == "fondness"@ {
        DirectionalFeelings { fondness: bump(f.fondness), ..f }
    } else if change == "trust"@ {
        DirectionalFeelings { trust: bump(f.trust), ..f }
    } else if change == "jealous"@ {
        DirectionalFeelings { jealousy: bump(f.jealousy), ..f }
    } else if change == "rivalry"@ {
        DirectionalFeelings { rivalry: bump(f.rivalry), ..f }
    } else if change == "resentment"@ {
        DirectionalFeelings { resentment: bump(f.resentment), ..f }
    } else {
        f
    }
}

/// How a signal moves the pair's affinity.
pub open spec fn delta_for(change: Seq<char>, allowed: bool) -> int {
    if change == "fondness"@ || change == "trust"@ {
        2
    } else if change == "rivalry"@ {
        -1
    } else if change == "resentment"@ {
        -2
    } else if change == "breakup"@ {
        -3
    } else if change == "reconcile"@ && allowed {
        3
    } else {
        0
    }
}

/// How a signal moves the pair's romance status; romance needs a card that
/// allows it.
pub open spec fn status_after(status: Seq<char>, change: Seq<char>, allowed: bool) -> Seq<char> {
    if (change == "romance"@ || change == "reconcile"@) && allowed {
        "dating"@
    } else if change == "breakup"@ {
        "none"@
    } else {
        status
    }
}

pub open spec fn entry_for(id: Seq<char>) -> spec_fn((Seq<char>, DirectionalFeelings)) -> bool {
    |e: (Seq<char>, DirectionalFeelings)| e.0 == id
}

/// The feelings of `from` after a signal: its existing entry is updated, or a
/// zero entry is added and updated.
pub open spec fn upsert(d: Seq<(Seq<char>, DirectionalFeelings)>, from: Seq<char>, change: Seq<char>) -> Seq<(Seq<char>, DirectionalFeelings)> {
    match crate::text::first_match(d, entry_for(from)) {
        Some(k) => d.update(k, (from, feelings_after(d[k].1, change))),
        None => d.push((from, feelings_after(DirectionalFeelings::zero(), change))),
    }
}

pub open spec fn signal_between(s: RelationshipSignal, first: Seq<char>, second: Seq<char>) -> bool {
    (s.from@ == first && s.to@ == second) || (s.from@ == second && s.to@ == first)
}

/// The feelings, romance status and affinity change after the signals
/// between the pair, taken in order.
pub open spec fn fold_signals(
    d: Seq<(Seq<char>, DirectionalFeelings)>,
    status: Seq<char>,
    delta: int,
    signals: Seq<RelationshipSignal>,
    first: Seq<char>,
    second: Seq<char>,
    allowed: bool,
) -> (Seq<(Seq<char>, DirectionalFeelings)>, Seq<char>, int)
    decreases signals.len(),
{
    if signals.len() == 0 {
        (d, status, delta)
    } else {
        let prev = fold_signals(d, status, delta, signals.drop_last(), first, second, allowed);
        let s = signals.last();
        if signal_between(s, first, second) {
            (upsert(prev.0, s.from@, s.change@), status_after(prev.1, s.change@, allowed), prev.2 + delta_for(s.change@, allowed))
        } else {
            prev
        }
    }
}

/// Each directional value can take one more step up.
pub open spec fn feelings_have_room(d: Seq<(Seq<char>, DirectionalFeelings)>) -> bool {
    forall|k: int| 0 <= k < d.len() ==> (#[trigger] d[k]).1.has_room()
}

pub open spec fn add_milestone(list: Seq<Seq<char>>, id: Seq<char>, unlocked: bool) -> Seq<Seq<char>> {
    if unlocked && !list.contains(id) {
        list.push(id)
    } else {
        list
    }
}

/// Milestones unlocked by the interaction count, in order.
pub open spec fn milestones_after(list: Seq<Seq<char>>, count: u64) -> Seq<Seq<char>> {
    add_milestone(
        add_milestone(add_milestone(list, "first-meet"@, count >= 1), "ten-interactions"@, count >= 10),
        "fifty-interactions"@,
        count >= 50,
    )
}

/// The new affinity: raised by a non-negative change (the change taken
/// modulo 256, as it is narrowed to a byte) and capped at 100, or lowered towards 0.
pub open spec fn affinity_after(affinity: u8, delta: int) -> u8 {
    if delta >= 0 {
        let raised = affinity + delta % 256;
        let sat: u8 = if raised > 255 { 255 } else { raised as u8 };
        if sat > 100 { 100 } else { sat }
    } else {
        let lowered = affinity - (-delta) % 256;
        if lowered < 0 { 0 } else { lowered as u8 }
    }
}

/// The affinity change of an interaction before any signal.
pub const BASE_AFFINITY_DELTA: i16 = 2;

/// The largest signal list an event accepts; it keeps the affinity change
/// inside `i16`.
pub const MAX_SIGNALS: usize = 10_000;

pub open spec fn fold_of(
    old: Relationship,
    first: Seq<char>,
    second: Seq<char>,
    signals: Seq<RelationshipSignal>,
    allowed: bool,
) -> (Seq<(Seq<char>, DirectionalFeelings)>, Seq<char>, int) {
    fold_signals(dir_view(old.directional@), old.romance_status@, 2, signals, first, second, allowed)
}

/// What recording one finished scene does to a relationship.
pub open spec fn event_applied(
    old: Relationship,
    new: Relationship,
    first: Seq<char>,
    second: Seq<char>,
    scene: Seq<char>,
    signals: Seq<RelationshipSignal>,
    allowed: bool,
    now: u64,
    milestones: Seq<Seq<char>>,
) -> bool {
    let f = fold_of(old, first, second, signals, allowed);
    let delta = if scene == "reconcile"@ && f.1 == "none"@ { f.2 + 1 } else { f.2 };
    let count = if old.interaction_count == u64::MAX { u64::MAX } else { (old.interaction_count + 1) as u64 };
    let affinity = affinity_after(old.affinity, delta);
    let peak = if old.peak_affinity >= old.affinity { old.peak_affinity } else { old.affinity };
    let unlocked = milestones_after(string_views(old.unlocked_milestones@), count);
    &&& new.pair_id == old.pair_id
    &&& new.first_pet_id == old.first_pet_id
    &&& new.second_pet_id == old.second_pet_id
    &&& new.known_since == old.known_since
    &&& new.interaction_count == count
    &&& new.last_interaction_at == now
    &&& new.last_advanced_at == now
    &&& dir_view(new.directional@) == f.0
    &&& new.romance_status@ == f.1
    &&& new.affinity == affinity
    &&& new.peak_affinity == (if peak >= affinity { peak } else { affinity })
    &&& new.level == spec_relationship_level(affinity)
    &&& string_views(new.unlocked_milestones@) == unlocked
    &&& milestones == unlocked.skip(old.unlocked_milestones@.len() as int)
}

/// Signals after the last one between the pair change nothing.
proof fn lemma_fold_after_last(
    d: Seq<(Seq<char>, DirectionalFeelings)>,
    status: Seq<char>,
    delta: int,
    signals: Seq<RelationshipSignal>,
    first: Seq<char>,
    second: Seq<char>,
    allowed: bool,
    k: int,
)
    requires
        -1 <= k < signals.len(),
        forall|j: int| k < j < signals.len() ==> !signal_between(#[trigger] signals[j], first, second),
    ensures
        fold_signals(d, status, delta, signals, first, second, allowed)
            == fold_signals(d, status, delta, signals.take(k + 1), first, second, allowed),
    decreases signals.len(),
{
    if signals.len() > k + 1 {
        let shorter = signals.drop_last();
        assert(!signal_between(signals[signals.len() - 1], first, second));
        lemma_fold_after_last(d, status, delta, shorter, first, second, allowed, k);
        assert(shorter.take(k + 1) =~= signals.take(k + 1));
    } else {
        assert(signals.take(k + 1) =~= signals);
    }
}

/// The pair's romance status after a scene follows the last signal between
/// them: a breakup leaves them apart (`none`), a romance or reconciliation
/// that their cards allow leaves them dating, and without any signal
/// between them the status stays as it was.
pub proof fn law_romance_follows_last_signal(
    old: Relationship,
    new: Relationship,
    first: Seq<char>,
    second: Seq<char>,
    scene: Seq<char>,
    signals: Seq<RelationshipSignal>,
    allowed: bool,
    now: u64,
    milestones: Seq<Seq<char>>,
    k: int,
)
    requires
        event_applied(old, new, first, second, scene, signals, allowed, now, milestones),
        -1 <= k < signals.len(),
        k >= 0 ==> signal_between(signals[k], first, second),
        forall|j: int| k < j < signals.len() ==> !signal_between(#[trigger] signals[j], first, second),
    ensures
        k >= 0 && signals[k].change@ == "breakup"@ ==> new.romance_status@ == "none"@,
        k >= 0 && allowed && (signals[k].change@ == "romance"@ || signals[k].change@ == "reconcile"@)
            ==> new.romance_status@ == "dating"@,
        k == -1 ==> new.romance_status@ == old.romance_status@,
{
    reveal_strlit("breakup");
    reveal_strlit("romance");
    reveal_strlit("reconcile");
    let d = dir_view(old.directional@);
    lemma_fold_after_last(d, old.romance_status@, 2, signals, first, second, allowed, k);
    if k >= 0 {
        let t = signals.take(k + 1);
        assert(t.last() == signals[k]);
        assert(t.drop_last() =~= signals.take(k));
        let prev = fold_signals(d, old.romance_status@, 2, t.drop_last(), first, second, allowed);
        assert(fold_signals(d, old.romance_status@, 2, t, first, second, allowed).1
            == status_after(prev.1, signals[k].change@, allowed));
        if signals[k].change@ == "breakup"@ {
            assert("breakup"@[0] != "romance"@[0]);
            assert("breakup"@.len() != "reconcile"@.len());
        }
    } else {
        assert(signals.take(0) =~= Seq::<RelationshipSignal>::empty());
    }
}

fn bump_exec(v: i16) -> (r: i16)
    requires
        v <= 32764,
    ensures
        r == bump(v),
        -100 <= r <= 100,
{
    let n = v + 3;
    if n < -100 {
        -100
    } else if n > 100 {
        100
    } else {
        n
    }
}

fn feelings_after_exec(f: DirectionalFeelings, change: &Vec<char>) -> (r: DirectionalFeelings)
    requires
        f.has_room(),
    ensures
        r == feelings_after(f, change@),
        r.has_room(),
{
    if chars_eq_str(change, "fondness") {
        DirectionalFeelings { fondness: bump_exec(f.fondness), ..f }
    } else if chars_eq_str(change, "trust") {
        DirectionalFeelings { trust: bump_exec(f.trust), ..f }
    } else if chars_eq_str(change, "jealous") {
        DirectionalFeelings { jealousy: bump_exec(f.jealousy), ..f }
    } else if chars_eq_str(change, "rivalry") {
        DirectionalFeelings { rivalry: bump_exec(f.rivalry), ..f }
    } else if chars_eq_str(change, "resentment") {
        DirectionalFeelings { resentment: bump_exec(f.resentment), ..f }
    } else {
        f
    }
}

fn find_entry_index(d: &Vec<DirectionalEntry>, id: &Vec<char>) -> (r: Option<usize>)
    ensures
        r matches Some(k) ==> crate::text::first_match(dir_view(d@), entry_for(id@)) == Some(k as int) && k < d.len(),
        r is None ==> crate::text::first_match(dir_view(d@), entry_for(id@)) is None,
{
    let mut i: usize = 0;
    while i < d.len()
        invariant
            i <= d.len(),
            crate::text::first_match(dir_view(d@), entry_for(id@)) == crate::text::first_match_from(dir_view(d@), entry_for(id@), i as nat),
        decreases d.len() - i,
    {
        let c = chars_of(d[i].pet_id.as_str());
        if chars_eq(&c, id) {
            return Some(i);
        }
        i = i + 1;
    }
    None
}

fn upsert_exec(d: &mut Vec<DirectionalEntry>, from: &String, change: &Vec<char>)
    requires
        feelings_have_room(dir_view(old(d)@)),
    ensures
        dir_view(final(d)@) == upsert(dir_view(old(d)@), from@, change@),
        feelings_have_room(dir_view(final(d)@)),
{
    let id = chars_of(from.as_str());
    match find_entry_index(d, &id) {
        Some(k) => {
            assert(dir_view(d@)[k as int].1.has_room());
            let nf = feelings_after_exec(d[k].feelings, change);
            let entry = DirectionalEntry { pet_id: from.clone(), feelings: nf };
            let ghost before = d@;
            d.set(k, entry);
            assert(dir_view(d@) =~= dir_view(before).update(k as int, (from@, nf)));
        },
        None => {
            let nf = feelings_after_exec(DirectionalFeelings::new(), change);
            let ghost before = d@;
            d.push(DirectionalEntry { pet_id: from.clone(), feelings: nf });
            assert(dir_view(d@) =~= dir_view(before).push((from@, nf)));
        },
    }
}

fn delta_for_exec(change: &Vec<char>, allowed: bool) -> (r: i16)
    ensures
        r == delta_for(change@, allowed),
{
    if chars_eq_str(change, "fondness") || chars_eq_str(change, "trust") {
        2
    } else if chars_eq_str(change, "rivalry") {
        -1
    } else if chars_eq_str(change, "resentment") {
        -2
    } else if chars_eq_str(change, "breakup") {
        -3
    } else if chars_eq_str(change, "reconcile") && allowed {
        3
    } else {
        0
    }
}

fn contains_string(list: &Vec<String>, id: &str) -> (r: bool)
    ensures
        r == string_views(list@).contains(id@),
{
    let want = chars_of(id);
    let mut i: usize = 0;
    while i < list.len()
        invariant
            i <= list.len(),
            want@ == id@,
            forall|k: int| 0 <= k < i ==> list@[k]@ != id@,
        decreases list.len() - i,
    {
        let c = chars_of(list[i].as_str());
        if chars_eq(&c, &want) {
            assert(string_views(list@)[i as int] == id@);
            return true;
        }
        i = i + 1;
    }
    assert(!string_views(list@).contains(id@)) by {
        if string_views(list@).contains(id@) {
            let k = choose|k: int| 0 <= k < list.len() && string_views(list@)[k] == id@;
            assert(list@[k]@ != id@);
        }
    }
    false
}

fn add_milestone_exec(list: &mut Vec<String>, added: &mut Vec<String>, id: &'static str, unlocked: bool)
    ensures
        string_views(final(list)@) == add_milestone(string_views(old(list)@), id@, unlocked),
        string_views(final(added)@) == string_views(old(added)@) + (if unlocked && !string_views(old(list)@).contains(id@) { seq![id@] } else { Seq::empty() }),
{
    if unlocked && !contains_string(list, id) {
        let ghost l0 = list@;
        let ghost a0 = added@;
        list.push(String::from_str(id));
        added.push(String::from_str(id));
        assert(string_views(list@) =~= string_views(l0).push(id@));
        assert(string_views(added@) =~= string_views(a0) + seq![id@]);
    } else {
        assert(string_views(added@) =~= string_views(added@) + Seq::<Seq<char>>::empty());
    }
}

proof fn lemma_fold_step(
    d: Seq<(Seq<char>, DirectionalFeelings)>,
    status: Seq<char>,
    signals: Seq<RelationshipSignal>,
    first: Seq<char>,
    second: Seq<char>,
    allowed: bool,
    i: int,
)
    requires
        0 <= i < signals.len(),
    ensures
        fold_signals(d, status, 2, signals.take(i + 1), first, second, allowed) == ({
            let prev = fold_signals(d, status, 2, signals.take(i), first, second, allowed);
            let s = signals[i];
            if signal_between(s, first, second) {
                (upsert(prev.0, s.from@, s.change@), status_after(prev.1, s.change@, allowed), prev.2 + delta_for(s.change@, allowed))
            } else {
                prev
            }
        }),
{
    assert(signals.take(i + 1).drop_last() =~= signals.take(i));
}

/// Whether every stored feeling can take one more step up, as recording an
/// event needs; a stored value past 32764 could not.
pub fn relationship_has_room(rel: &Relationship) -> (r: bool)
    ensures
        r == feelings_have_room(dir_view(rel.directional@)),
{
    let mut k: usize = 0;
    while k < rel.directional.len()
        invariant
            k <= rel.directional.len(),
            forall|a: int| 0 <= a < k ==> (#[trigger] dir_view(rel.directional@)[a]).1.has_room(),
        decreases rel.directional.len() - k,
    {
        let f = rel.directional[k].feelings;
        if !(f.trust <= 32764 && f.fondness <= 32764 && f.attachment <= 32764 && f.attraction <= 32764
            && f.rivalry <= 32764 && f.jealousy <= 32764 && f.resentment <= 32764) {
            assert(!dir_view(rel.directional@)[k as int].1.has_room());
            return false;
        }
        assert(dir_view(rel.directional@)[k as int].1.has_room());
        k = k + 1;
    }
    true
}

/// Records one finished scene between `first` and `second` in their
/// relationship and returns the milestones it unlocked.
pub fn apply_relationship_event(
    rel: &mut Relationship,
    first: &str,
    second: &str,
    scene: &str,
    signals: &Vec<RelationshipSignal>,
    romance_allowed: bool,
    now: u64,
) -> (milestones: Vec<String>)
    requires
        signals.len() <= MAX_SIGNALS,
        feelings_have_room(dir_view(old(rel).directional@)),
    ensures
        event_applied(*old(rel), *final(rel), first@, second@, scene@, signals@, romance_allowed, now, string_views(milestones@)),
        feelings_have_room(dir_view(final(rel).directional@)),
        forall|k: int| #![trigger signals@[k]]
            0 <= k < signals@.len() && signal_between(signals@[k], first@, second@)
                && signals@[k].change@ == "breakup"@
                && (forall|j: int| k < j < signals@.len() ==> !signal_between(#[trigger] signals@[j], first@, second@))
                ==> final(rel).romance_status@ == "none"@,
{
    let ghost old_rel = *rel;
    let mut delta: i16 = BASE_AFFINITY_DELTA;
    if rel.peak_affinity < rel.affinity {
        rel.peak_affinity = rel.affinity;
    }
    rel.level = relationship_level(rel.affinity);
    rel.interaction_count = rel.interaction_count.saturating_add(1);
    rel.last_interaction_at = now;
    rel.last_advanced_at = now;
    let mut milestones: Vec<String> = Vec::new();
    let count = rel.interaction_count;
    add_milestone_exec(&mut rel.unlocked_milestones, &mut milestones, "first-meet", count >= 1);
    add_milestone_exec(&mut rel.unlocked_milestones, &mut milestones, "ten-interactions", count >= 10);
    add_milestone_exec(&mut rel.unlocked_milestones, &mut milestones, "fifty-interactions", count >= 50);
    let ghost unlocked = milestones_after(string_views(old_rel.unlocked_milestones@), count);
    assert(string_views(milestones@) =~= unlocked.skip(old_rel.unlocked_milestones@.len() as int));
    let a = chars_of(first);
    let b = chars_of(second);
    let mut i: usize = 0;
    let ghost mid = *rel;
    let ghost d0 = dir_view(old_rel.directional@);
    let ghost s0 = old_rel.romance_status@;
    assert(signals@.take(0) =~= Seq::<RelationshipSignal>::empty());
    while i < signals.len()
        invariant
            i <= signals.len() <= MAX_SIGNALS,
            a@ == first@,
            b@ == second@,
            -2 - 3 * i <= delta <= 2 + 3 * i,
            rel.unlocked_milestones == mid.unlocked_milestones,
            rel.affinity == mid.affinity,
            rel.peak_affinity == mid.peak_affinity,
            rel.interaction_count == mid.interaction_count,
            rel.last_interaction_at == mid.last_interaction_at,
            rel.last_advanced_at == mid.last_advanced_at,
            rel.known_since == mid.known_since,
            rel.pair_id == mid.pair_id,
            rel.first_pet_id == mid.first_pet_id,
            rel.second_pet_id == mid.second_pet_id,
            feelings_have_room(dir_view(rel.directional@)),
            (dir_view(rel.directional@), rel.romance_status@, delta as int) == fold_signals(d0, s0, 2, signals@.take(i as int), first@, second@, romance_allowed),
        decreases signals.len() - i,
    {
        proof {
            lemma_fold_step(d0, s0, signals@, first@, second@, romance_allowed, i as int);
        }
        let sig = &signals[i];
        let from = chars_of(sig.from.as_str());
        let to = chars_of(sig.to.as_str());
        if (chars_eq(&from, &a) && chars_eq(&to, &b)) || (chars_eq(&from, &b) && chars_eq(&to, &a)) {
            let change = chars_of(sig.change.as_str());
            upsert_exec(&mut rel.directional, &sig.from, &change);
            if (chars_eq_str(&change, "romance") || chars_eq_str(&change, "reconcile")) && romance_allowed {
                rel.romance_status = String::from_str("dating");
            } else if chars_eq_str(&change, "breakup") {
                rel.romance_status = String::from_str("none");
            }
            delta = delta + delta_for_exec(&change, romance_allowed);
        }
        i = i + 1;
    }
    assert(signals@.take(signals.len() as int) =~= signals@);
    let st = chars_of(rel.romance_status.as_str());
    let sc = chars_of(scene);
    if chars_eq_str(&sc, "reconcile") && chars_eq_str(&st, "none") {
        delta = delta + 1;
    }
    rel.affinity = if delta >= 0 {
        let raised = rel.affinity.saturating_add((delta % 256) as u8);
        if raised > 100 { 100 } else { raised }
    } else {
        rel.affinity.saturating_sub(((-delta) % 256) as u8)
    };
    if rel.peak_affinity < rel.affinity {
        rel.peak_affinity = rel.affinity;
    }
    rel.level = relationship_level(rel.affinity);
    proof {
        assert forall|k: int| #![trigger signals@[k]]
            0 <= k < signals@.len() && signal_between(signals@[k], first@, second@)
                && signals@[k].change@ == "breakup"@
                && (forall|j: int| k < j < signals@.len() ==> !signal_between(#[trigger] signals@[j], first@, second@))
                implies rel.romance_status@ == "none"@ by {
            law_romance_follows_last_signal(old_rel, *rel, first@, second@, scene@, signals@, romance_allowed, now, string_views(milestones@), k);
        }
    }
    milestones
}

/// After an event the relationship is consistent: the level matches the
/// affinity, the peak is at least the affinity, the interaction counted, and
/// the first-meet milestone is unlocked.
pub proof fn law_event_consistent(
    old: Relationship,
    new: Relationship,
    first: Seq<char>,
    second: Seq<char>,
    scene: Seq<char>,
    signals: Seq<RelationshipSignal>,
    allowed: bool,
    now: u64,
    milestones: Seq<Seq<char>>,
)
    requires
        event_applied(old, new, first, second, scene, signals, allowed, now, milestones),
    ensures
        new.level == spec_relationship_level(new.affinity),
        new.peak_affinity >= new.affinity,
        old.affinity <= 100 ==> new.affinity <= 100,
        old.interaction_count < u64::MAX ==> new.interaction_count == old.interaction_count + 1,
        string_views(new.unlocked_milestones@).contains("first-meet"@),
{
    let count = new.interaction_count;
    let l0 = string_views(old.unlocked_milestones@);
    let l1 = add_milestone(l0, "first-meet"@, count >= 1);
    assert(l1.contains("first-meet"@)) by {
        if !l0.contains("first-meet"@) {
            assert(l1[l1.len() - 1] == "first-meet"@);
        }
    }
    let l2 = add_milestone(l1, "ten-interactions"@, count >= 10);
    assert(l2.contains("first-meet"@)) by {
        let k = choose|k: int| 0 <= k < l1.len() && l1[k] == "first-meet"@;
        if l2 != l1 {
            assert(l2[k] == "first-meet"@);
        }
    }
    let l3 = add_milestone(l2, "fifty-interactions"@, count >= 50);
    assert(l3.contains("first-meet"@)) by {
        let k = choose|k: int| 0 <= k < l2.len() && l2[k] == "first-meet"@;
        if l3 != l2 {
            assert(l3[k] == "first-meet"@);
        }
    }
}

/// A milestone is never unlocked twice.
pub proof fn law_milestones_unique(list: Seq<Seq<char>>, count: u64)
    requires
        list.no_duplicates(),
    ensures
        milestones_after(list, count).no_duplicates(),
{
    reveal_strlit("first-meet");
    reveal_strlit("ten-interactions");
    reveal_strlit("fifty-interactions");
    let l1 = add_milestone(list, "first-meet"@, count >= 1);
    let l2 = add_milestone(l1, "ten-interactions"@, count >= 10);
    assert(l1.no_duplicates());
    assert(l2.no_duplicates());
}

/// The relationship of a pair first met at `now`.
pub fn new_relationship(now: u64) -> (r: Relationship)
    ensures
        r.pair_id@.len() == 0,
        r.first_pet_id@.len() == 0,
        r.second_pet_id@.len() == 0,
        r.affinity == 0,
        r.peak_affinity == 0,
        r.level == 1,
        r.known_since == now,
        r.interaction_count == 0,
        r.last_interaction_at == 0,
        r.last_advanced_at == now,
        r.unlocked_milestones@.len() == 0,
        r.romance_status@ == "none"@,
        r.directional@.len() == 0,
{
    Relationship {
        pair_id: String::new(),
        first_pet_id: String::new(),
        second_pet_id: String::new(),
        affinity: 0,
        peak_affinity: 0,
        level: 1,
        known_since: now,
        interaction_count: 0,
        last_interaction_at: 0,
        last_advanced_at: now,
        unlocked_milestones: Vec::new(),
        romance_status: String::from_str("none"),
        directional: Vec::new(),
    }
}

/// A loaded relationship: the stored one, or a new one, under the pair's
/// canonical key and ids, with missing timestamps set to `now` and the level
/// recomputed from the affinity.
pub open spec fn loaded_ok(r: Relationship, base: Relationship, key: (Seq<char>, Seq<char>, Seq<char>), now: u64) -> bool {
    &&& r.pair_id@ == key.0
    &&& r.first_pet_id@ == key.1
    &&& r.second_pet_id@ == key.2
    &&& r.affinity == base.affinity
    &&& r.peak_affinity == base.peak_affinity
    &&& r.level == spec_relationship_level(base.affinity)
    &&& r.known_since == (if base.known_since == 0 { now } else { base.known_since })
    &&& r.interaction_count == base.interaction_count
    &&& r.last_interaction_at == base.last_interaction_at
    &&& r.last_advanced_at == (if base.last_advanced_at == 0 { now } else { base.last_advanced_at })
    &&& r.unlocked_milestones == base.unlocked_milestones
    &&& r.romance_status == base.romance_status
    &&& r.directional == base.directional
}

pub fn load_relationship(first: &str, second: &str, stored: Option<Relationship>, now: u64) -> (r: Result<Relationship, String>)
    ensures
        spec_pair_key(first@, second@) is None ==> (r matches Err(e) && e@ == "无效的宠物组合"@),
        spec_pair_key(first@, second@) matches Some(k) ==> (r matches Ok(rel) && match stored {
            Some(b) => loaded_ok(rel, b, k, now),
            None => rel.affinity == 0 && rel.peak_affinity == 0 && rel.level == 1 && rel.known_since == now
                && rel.interaction_count == 0 && rel.last_interaction_at == 0 && rel.last_advanced_at == now
                && rel.unlocked_milestones@.len() == 0 && rel.romance_status@ == "none"@ && rel.directional@.len() == 0
                && rel.pair_id@ == k.0 && rel.first_pet_id@ == k.1 && rel.second_pet_id@ == k.2,
        }),
{
    let (key, f, s) = match pair_key(first, second) {
        Ok(k) => k,
        Err(e) => return Err(e),
    };
    let mut rel = match stored {
        Some(b) => b,
        None => new_relationship(now),
    };
    rel.pair_id = key;
    rel.first_pet_id = f;
    rel.second_pet_id = s;
    if rel.known_since == 0 {
        rel.known_since = now;
    }
    if rel.last_advanced_at == 0 {
        rel.last_advanced_at = now;
    }
    rel.level = relationship_level(rel.affinity);
    Ok(rel)
}

/// The texts among some JSON values, in order.
pub open spec fn string_items(items: Seq<Json>) -> Seq<Seq<char>>
    decreases items.len(),
{
    if items.len() == 0 {
        Seq::empty()
    } else {
        let rest = string_items(items.drop_last());
        match items.last() {
            Json::Str(s) => rest.push(s@),
            _ => rest,
        }
    }
}

pub open spec fn u64_or(j: Option<Json>, d: u64) -> u64 {
    match as_u64(j) {
        Some(v) => v,
        None => d,
    }
}

pub open spec fn min100(v: u64) -> u8 {
    if v > 100 { 100 } else { v as u8 }
}

/// A relationship kept in the old format, read into the current one: it must
/// name an affinity; the peak defaults to the affinity, the first meeting
/// and the last advance to `now`, the counters to zero; affinities are capped
/// at 100.
pub open spec fn migrated_ok(r: Relationship, legacy: Json, key: (Seq<char>, Seq<char>, Seq<char>), now: u64) -> bool {
    let a = min100(as_u64(spec_get(legacy, "affinity"@))->0);
    &&& r.pair_id@ == key.0
    &&& r.first_pet_id@ == key.1
    &&& r.second_pet_id@ == key.2
    &&& r.affinity == a
    &&& r.peak_affinity == min100(u64_or(spec_get(legacy, "peakAffinity"@), a as u64))
    &&& r.level == spec_relationship_level(a)
    &&& r.known_since == u64_or(spec_get(legacy, "knownSince"@), now)
    &&& r.interaction_count == u64_or(spec_get(legacy, "interactionCount"@), 0)
    &&& r.last_interaction_at == u64_or(spec_get(legacy, "lastInteractionAt"@), 0)
    &&& r.last_advanced_at == u64_or(spec_get(legacy, "lastAdvancedAt"@), now)
    &&& string_views(r.unlocked_milestones@) == match spec_get(legacy, "unlockedMilestones"@) {
        Some(Json::Array(items)) => string_items(items@),
        _ => Seq::empty(),
    }
    &&& r.romance_status@ == "none"@
    &&& r.directional@.len() == 0
}

fn u64_field(legacy: &Json, key: &str, d: u64) -> (r: u64)
    ensures
        r == u64_or(spec_get(*legacy, key@), d),
{
    match legacy.get(key) {
        Some(v) => match v.as_unsigned() {
            Some(n) => n,
            None => d,
        },
        None => d,
    }
}

fn cap100(v: u64) -> (r: u8)
    ensures
        r == min100(v),
{
    if v > 100 { 100 } else { v as u8 }
}

/// Reads a relationship stored in the old format (the JSON of the old
/// file). Nothing comes of an invalid pair or a record without affinity.
pub fn migrate_legacy_relationship(first: &str, second: &str, legacy: &Json, now: u64) -> (r: Option<Relationship>)
    ensures
        r is Some <==> (spec_pair_key(first@, second@) is Some && as_u64(spec_get(*legacy, "affinity"@)) is Some),
        r matches Some(rel) ==> migrated_ok(rel, *legacy, spec_pair_key(first@, second@)->0, now),
{
    let (key, f, s) = match pair_key(first, second) {
        Ok(k) => k,
        Err(_) => return None,
    };
    let a = match legacy.get("affinity") {
        Some(v) => match v.as_unsigned() {
            Some(n) => cap100(n),
            None => return None,
        },
        None => return None,
    };
    let mut rel = new_relationship(now);
    rel.pair_id = key;
    rel.first_pet_id = f;
    rel.second_pet_id = s;
    rel.affinity = a;
    rel.peak_affinity = cap100(u64_field(legacy, "peakAffinity", a as u64));
    rel.level = relationship_level(a);
    rel.known_since = u64_field(legacy, "knownSince", now);
    rel.interaction_count = u64_field(legacy, "interactionCount", 0);
    rel.last_interaction_at = u64_field(legacy, "lastInteractionAt", 0);
    rel.last_advanced_at = u64_field(legacy, "lastAdvancedAt", now);
    let mut ms: Vec<String> = Vec::new();
    match legacy.get("unlockedMilestones") {
        Some(Json::Array(items)) => {
            let mut i: usize = 0;
            while i < items.len()
                invariant
                    i <= items.len(),
                    string_views(ms@) == string_items(items@.take(i as int)),
                decreases items.len() - i,
            {
                assert(items@.take(i + 1).drop_last() =~= items@.take(i as int));
                assert(items@.take(i + 1).last() == items@[i as int]);
                match &items[i] {
                    Json::Str(t) => {
                        let ghost before = string_views(ms@);
                        ms.push(t.clone());
                        assert(string_views(ms@) =~= before.push(t@));
                    },
                    _ => {},
                }
                i = i + 1;
            }
            assert(items@.take(items.len() as int) =~= items@);
        },
        _ => {
            assert(string_views(ms@) =~= Seq::<Seq<char>>::empty());
        },
    }
    rel.unlocked_milestones = ms;
    Some(rel)
}

/// What the settings window shows of a relationship.
#[derive(Clone, Debug)]
pub struct PublicRelationship {
    pub pair_id: String,
    pub first_pet_id: String,
    pub second_pet_id: String,
    pub affinity: u8,
    pub peak_affinity: u8,
    pub level: u8,
    pub interaction_count: u64,
    pub last_interaction_at: u64,
    pub romance_status: String,
    pub unlocked_milestones: Vec<String>,
}

pub fn public_relationship(rel: &Relationship) -> (r: PublicRelationship)
    ensures
        r.pair_id == rel.pair_id,
        r.first_pet_id == rel.first_pet_id,
        r.second_pet_id == rel.second_pet_id,
        r.affinity == rel.affinity,
        r.peak_affinity == rel.peak_affinity,
        r.level == rel.level,
        r.interaction_count == rel.interaction_count,
        r.last_interaction_at == rel.last_interaction_at,
        r.romance_status == rel.romance_status,
        r.unlocked_milestones@ == rel.unlocked_milestones@,
{
    PublicRelationship {
        pair_id: rel.pair_id.clone(),
        first_pet_id: rel.first_pet_id.clone(),
        second_pet_id: rel.second_pet_id.clone(),
        affinity: rel.affinity,
        peak_affinity: rel.peak_affinity,
        level: rel.level,
        interaction_count: rel.interaction_count,
        last_interaction_at: rel.last_interaction_at,
        romance_status: rel.romance_status.clone(),
        unlocked_milestones: crate::social::copy_strings(&rel.unlocked_milestones),
    }
}

} // verus!
