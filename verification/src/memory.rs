//! Memory search: the tokens a text is matched by, and how many tokens of a
//! query a memory shares.

use vstd::prelude::*;
use crate::text::{chars_eq, chars_eq_str, chars_of, decimal, is_ws, is_ws_char, push_all, push_str_chars, string_of, take_chars, take_chars_vec, trim, trim_ws};
use crate::json::{Json, as_str, as_u64, spec_get};
use crate::chat::{numbered_id, numbered_id_exec};

verus! {

/// `str::to_lowercase`: full Unicode lower-casing of a text.
pub uninterp spec fn unicode_lower(s: Seq<char>) -> Seq<char>;

/// The lower-cased text, from `str::to_lowercase`.
#[verifier::external_body]
fn lowercase(s: &str) -> (r: String)
    ensures
        r@ == unicode_lower(s@),
{
    s.to_lowercase()
}

/// The characters of `s` that are not whitespace, in order.
pub open spec fn without_ws(s: Seq<char>) -> Seq<char>
    decreases s.len(),
{
    if s.len() == 0 {
        s
    } else {
        let rest = without_ws(s.drop_last());
        if is_ws(s.last()) { rest } else { rest.push(s.last()) }
    }
}

/// All runs of `k` consecutive characters of `s`, left to right
/// (`slice::windows`).
pub open spec fn windows(s: Seq<char>, k: nat) -> Seq<Seq<char>> {
    Seq::new(if s.len() >= k { (s.len() - k + 1) as nat } else { 0 }, |i: int| s.subrange(i, i + k))
}

/// The words of `s` after the pending word `cur`: maximal runs of
/// non-whitespace characters (`str::split_whitespace`).
pub open spec fn words_after(s: Seq<char>, cur: Seq<char>) -> Seq<Seq<char>>
    decreases s.len(),
{
    if s.len() == 0 {
        if cur.len() > 0 { seq![cur] } else { Seq::empty() }
    } else if is_ws(s[0]) {
        (if cur.len() > 0 { seq![cur] } else { Seq::empty() }) + words_after(s.drop_first(), Seq::empty())
    } else {
        words_after(s.drop_first(), cur.push(s[0]))
    }
}

pub open spec fn words(s: Seq<char>) -> Seq<Seq<char>> {
    words_after(s, Seq::empty())
}

/// The tokens of an already lower-cased text and of its lower-cased words:
/// every run of one, two and three non-whitespace characters, then the
/// words.
pub open spec fn spec_tokens_of(lower: Seq<char>, lower_words: Seq<Seq<char>>) -> Seq<Seq<char>> {
    let c = without_ws(lower);
    windows(c, 1) + windows(c, 2) + windows(c, 3) + lower_words
}

/// The tokens of a text.
pub open spec fn spec_tokens(text: Seq<char>) -> Seq<Seq<char>> {
    spec_tokens_of(unicode_lower(text), words(text).map_values(|w: Seq<char>| unicode_lower(w)))
}

pub open spec fn views(v: Seq<String>) -> Seq<Seq<char>> {
    v.map_values(|s: String| s@)
}

fn strip_ws(s: &Vec<char>) -> (r: Vec<char>)
    ensures
        r@ == without_ws(s@),
{
    let mut r: Vec<char> = Vec::new();
    let mut i: usize = 0;
    while i < s.len()
        invariant
            i <= s.len(),
            r@ == without_ws(s@.take(i as int)),
        decreases s.len() - i,
    {
        assert(s@.take(i + 1).drop_last() =~= s@.take(i as int));
        if !is_ws_char(s[i]) {
            r.push(s[i]);
        }
        i = i + 1;
    }
    assert(s@.take(s.len() as int) =~= s@);
    r
}

fn push_windows(out: &mut Vec<String>, c: &Vec<char>, k: usize)
    requires
        k > 0,
    ensures
        views(final(out)@) == views(old(out)@) + windows(c@, k as nat),
{
    let n: usize = if c.len() >= k { c.len() - k + 1 } else { 0 };
    let mut i: usize = 0;
    while i < n
        invariant
            i <= n,
            n == (if c.len() >= k { (c.len() - k + 1) as nat } else { 0 }),
            k > 0,
            views(out@) == views(old(out)@) + windows(c@, k as nat).take(i as int),
        decreases n - i,
    {
        let w = crate::text::slice_chars(c, i, i + k);
        let ghost before = views(out@);
        out.push(string_of(&w));
        assert(views(out@) =~= before.push(w@));
        assert(windows(c@, k as nat).take(i + 1) =~= windows(c@, k as nat).take(i as int).push(c@.subrange(i as int, i + k)));
        i = i + 1;
    }
    assert(windows(c@, k as nat).take(n as int) =~= windows(c@, k as nat));
}

/// The tokens of a lower-cased text and its lower-cased words.
pub fn tokens_of(lower: &str, lower_words: &Vec<String>) -> (r: Vec<String>)
    ensures
        views(r@) == spec_tokens_of(lower@, views(lower_words@)),
{
    let l = chars_of(lower);
    let c = strip_ws(&l);
    let mut out: Vec<String> = Vec::new();
    push_windows(&mut out, &c, 1);
    push_windows(&mut out, &c, 2);
    push_windows(&mut out, &c, 3);
    let mut i: usize = 0;
    let ghost base = views(out@);
    while i < lower_words.len()
        invariant
            i <= lower_words.len(),
            views(out@) == base + views(lower_words@).take(i as int),
        decreases lower_words.len() - i,
    {
        let ghost before = views(out@);
        out.push(lower_words[i].clone());
        assert(views(out@) =~= before.push(lower_words@[i as int]@));
        assert(views(lower_words@).take(i + 1) =~= views(lower_words@).take(i as int).push(lower_words@[i as int]@));
        i = i + 1;
    }
    assert(views(lower_words@).take(lower_words.len() as int) =~= views(lower_words@));
    assert(views(out@) =~= spec_tokens_of(lower@, views(lower_words@)));
    out
}

/// The words of a text (`str::split_whitespace`).
pub fn split_words(text: &str) -> (r: Vec<String>)
    ensures
        views(r@) == words(text@),
{
    let s = chars_of(text);
    let mut out: Vec<String> = Vec::new();
    let mut cur: Vec<char> = Vec::new();
    let mut i: usize = 0;
    assert(s@.skip(0) =~= s@);
    while i < s.len()
        invariant
            i <= s.len(),
            s@ == text@,
            views(out@) + words_after(s@.skip(i as int), cur@) == words(text@),
        decreases s.len() - i,
    {
        let ghost rest = s@.skip(i as int);
        assert(rest.drop_first() =~= s@.skip(i + 1));
        let ghost before = views(out@);
        if is_ws_char(s[i]) {
            if cur.len() > 0 {
                out.push(string_of(&cur));
                assert(views(out@) =~= before.push(cur@));
                assert(before + (seq![cur@] + words_after(s@.skip(i + 1), Seq::empty())) =~= views(out@) + words_after(s@.skip(i + 1), Seq::empty()));
            } else {
                assert(before + (Seq::<Seq<char>>::empty() + words_after(s@.skip(i + 1), Seq::empty())) =~= views(out@) + words_after(s@.skip(i + 1), Seq::empty()));
            }
            cur = Vec::new();
            assert(cur@ =~= Seq::<char>::empty());
        } else {
            cur.push(s[i]);
        }
        i = i + 1;
    }
    assert(s@.skip(i as int) =~= Seq::<char>::empty());
    if cur.len() > 0 {
        let ghost before = views(out@);
        out.push(string_of(&cur));
        assert(views(out@) =~= before + seq![cur@]);
    } else {
        assert(views(out@) + Seq::<Seq<char>>::empty() =~= views(out@));
    }
    out
}

/// The tokens a text is matched by: runs of one to three non-whitespace
/// characters of the lower-cased text, then its lower-cased words.
pub fn tokens(text: &str) -> (r: Vec<String>)
    ensures
        views(r@) == spec_tokens(text@),
{
    let lower = lowercase(text);
    let ws = split_words(text);
    let mut lower_words: Vec<String> = Vec::new();
    let mut i: usize = 0;
    while i < ws.len()
        invariant
            i <= ws.len(),
            views(lower_words@) == views(ws@).take(i as int).map_values(|w: Seq<char>| unicode_lower(w)),
        decreases ws.len() - i,
    {
        let ghost before = views(lower_words@);
        lower_words.push(lowercase(ws[i].as_str()));
        assert(views(lower_words@) =~= before.push(unicode_lower(ws@[i as int]@)));
        assert(views(ws@).take(i + 1).map_values(|w: Seq<char>| unicode_lower(w)) =~= views(ws@).take(i as int).map_values(|w: Seq<char>| unicode_lower(w)).push(unicode_lower(ws@[i as int]@)));
        i = i + 1;
    }
    assert(views(ws@).take(ws.len() as int) =~= views(ws@));
    tokens_of(lower.as_str(), &lower_words)
}

/// How many of `query` (counted with repeats) occur among `memory`.
pub open spec fn overlap(query: Seq<Seq<char>>, memory: Seq<Seq<char>>) -> nat
    decreases query.len(),
{
    if query.len() == 0 {
        0
    } else {
        overlap(query.drop_last(), memory) + if memory.contains(query.last()) { 1nat } else { 0nat }
    }
}

fn contains_token(list: &Vec<String>, t: &Vec<char>) -> (r: bool)
    ensures
        r == views(list@).contains(t@),
{
    let mut i: usize = 0;
    while i < list.len()
        invariant
            i <= list.len(),
            forall|k: int| 0 <= k < i ==> views(list@)[k] != t@,
        decreases list.len() - i,
    {
        if crate::text::chars_eq(&chars_of(list[i].as_str()), t) {
            assert(views(list@)[i as int] == t@);
            return true;
        }
        i = i + 1;
    }
    false
}

/// The number of query tokens that a memory's tokens contain.
pub fn token_overlap(query: &Vec<String>, memory: &Vec<String>) -> (r: usize)
    ensures
        r == overlap(views(query@), views(memory@)),
{
    let mut n: usize = 0;
    let mut i: usize = 0;
    while i < query.len()
        invariant
            i <= query.len(),
            n == overlap(views(query@).take(i as int), views(memory@)),
            n <= i,
        decreases query.len() - i,
    {
        assert(views(query@).take(i + 1).drop_last() =~= views(query@).take(i as int));
        if contains_token(memory, &chars_of(query[i].as_str())) {
            n = n + 1;
        }
        i = i + 1;
    }
    assert(views(query@).take(query.len() as int) =~= views(query@));
    n
}

/// How many facts a prompt recalls at most.
pub const MAX_RECALLED_MEMORIES: usize = 8;

/// Fact `i` comes before fact `j` in recall order: a higher score first,
/// and of equal scores the one stored first.
pub open spec fn outranks(keys: Seq<u64>, i: int, j: int) -> bool {
    keys[i] > keys[j] || (keys[i] == keys[j] && i < j)
}

/// `r` lists, best first, the `limit` best-ranked of the facts scored by
/// `keys` (all of them where there are fewer).
pub open spec fn is_top_ranked(keys: Seq<u64>, limit: nat, r: Seq<usize>) -> bool {
    &&& r.len() == (if limit < keys.len() { limit } else { keys.len() })
    &&& forall|a: int| 0 <= a < r.len() ==> (r[a] as int) < keys.len()
    &&& forall|a: int, b: int| 0 <= a < b < r.len() ==> outranks(keys, r[a] as int, r[b] as int)
    &&& forall|a: int, j: int|
        0 <= a < r.len() && 0 <= j < keys.len() && !r.contains(j as usize)
            ==> outranks(keys, r[a] as int, j)
}

proof fn lemma_covering_is_long(r: Seq<usize>, n: usize)
    requires
        forall|j: usize| j < n ==> #[trigger] r.contains(j),
    ensures
        r.len() >= n,
{
    broadcast use vstd::seq_lib::seq_to_set_is_finite;
    let s = r.map_values(|x: usize| x as int);
    let full = vstd::set_lib::set_int_range(0, n as int);
    vstd::set_lib::lemma_int_range(0, n as int);
    assert forall|j: int| full.contains(j) implies s.to_set().contains(j) by {
        assert(0 <= j < n);
        let u = j as usize;
        assert(r.contains(u));
        let k = choose|k: int| 0 <= k < r.len() && r[k] == u;
        assert(s[k] == j);
    }
    assert(full.subset_of(s.to_set()));
    s.lemma_cardinality_of_set();
    vstd::set_lib::lemma_len_subset(full, s.to_set());
}

fn contains_index(r: &Vec<usize>, i: usize) -> (b: bool)
    ensures
        b == r@.contains(i),
{
    let mut k: usize = 0;
    while k < r.len()
        invariant
            k <= r.len(),
            forall|a: int| 0 <= a < k ==> r@[a] != i,
        decreases r.len() - k,
    {
        if r[k] == i {
            return true;
        }
        k = k + 1;
    }
    false
}

/// The indices of the `limit` best-scored facts, best first; of equal scores
/// the fact stored first comes first, as a stable sort by descending score
/// followed by `take(limit)` gives them.
pub fn top_ranked(keys: &Vec<u64>, limit: usize) -> (r: Vec<usize>)
    ensures
        is_top_ranked(keys@, limit as nat, r@),
{
    let n = keys.len();
    let target = if limit < n { limit } else { n };
    let mut r: Vec<usize> = Vec::new();
    while r.len() < target
        invariant
            n == keys.len(),
            target == (if limit < n { limit } else { n }),
            r.len() <= target,
            forall|a: int| 0 <= a < r.len() ==> r@[a] < n,
            forall|a: int, b: int| 0 <= a < b < r.len() ==> outranks(keys@, r@[a] as int, r@[b] as int),
            forall|a: int, j: int|
                0 <= a < r.len() && 0 <= j < n && !r@.contains(j as usize)
                    ==> outranks(keys@, r@[a] as int, j),
        decreases target - r.len(),
    {
        let mut best: usize = n;
        let mut i: usize = 0;
        while i < n
            invariant
                n == keys.len(),
                i <= n,
                best == n || (best < i && !r@.contains(best)),
                best == n ==> forall|j: usize| j < i ==> #[trigger] r@.contains(j),
                best < n ==> forall|j: int|
                    0 <= j < i && !r@.contains(j as usize) && j != best
                        ==> outranks(keys@, best as int, j),
            decreases n - i,
        {
            if !contains_index(&r, i) {
                if best == n || keys[i] > keys[best] {
                    let ghost previous = best;
                    best = i;
                    proof {
                        assert forall|j: int|
                            0 <= j < i + 1 && !r@.contains(j as usize) && j != best
                                implies outranks(keys@, best as int, j) by {
                            if previous < n && j != previous {
                                assert(outranks(keys@, previous as int, j));
                            }
                        }
                    }
                }
            }
            i = i + 1;
        }
        if best == n {
            proof {
                lemma_covering_is_long(r@, n);
            }
        }
        let ghost old_r = r@;
        r.push(best);
        proof {
            assert forall|j: usize| j < n && !#[trigger] r@.contains(j) implies !old_r.contains(j) && j != best by {
                if old_r.contains(j) {
                    let k = choose|k: int| 0 <= k < old_r.len() && old_r[k] == j;
                    assert(r@[k] == j);
                }
                if j == best {
                    assert(r@[old_r.len() as int] == best);
                }
            }
        }
    }
    r
}

proof fn lemma_top_ranked_prefix(keys: Seq<u64>, limit: nat, r1: Seq<usize>, r2: Seq<usize>, a: nat)
    requires
        is_top_ranked(keys, limit, r1),
        is_top_ranked(keys, limit, r2),
        a <= r1.len(),
    ensures
        forall|c: int| 0 <= c < a ==> r1[c] == r2[c],
    decreases a,
{
    if a > 0 {
        let p = (a - 1) as int;
        lemma_top_ranked_prefix(keys, limit, r1, r2, (a - 1) as nat);
        let x = r1[p];
        let y = r2[p];
        if x != y {
            if outranks(keys, x as int, y as int) {
                if !r2.contains(x) {
                    assert(outranks(keys, y as int, x as int));
                }
                let b = choose|b: int| 0 <= b < r2.len() && r2[b] == x;
                if b > p {
                    assert(outranks(keys, r2[p] as int, r2[b] as int));
                }
                if b == p {
                    assert(false);
                }
                assert(r1[b] == r2[b]);
                assert(outranks(keys, r1[b] as int, r1[p] as int));
            } else {
                assert(outranks(keys, y as int, x as int));
                if !r1.contains(y) {
                    assert(outranks(keys, x as int, y as int));
                }
                let b = choose|b: int| 0 <= b < r1.len() && r1[b] == y;
                if b > p {
                    assert(outranks(keys, r1[p] as int, r1[b] as int));
                }
                assert(r1[b] == r2[b]);
                assert(outranks(keys, r2[b] as int, r2[p] as int));
            }
        }
    }
}

/// Recall is determined by the scores: two lists that both hold, best
/// first, the `limit` best-ranked facts are the same list.
pub proof fn law_recall_order_is_determined(keys: Seq<u64>, limit: nat, r1: Seq<usize>, r2: Seq<usize>)
    requires
        is_top_ranked(keys, limit, r1),
        is_top_ranked(keys, limit, r2),
    ensures
        r1 == r2,
{
    lemma_top_ranked_prefix(keys, limit, r1, r2, r1.len());
    assert(r1 =~= r2);
}

/// A remembered fact. The scores that rank facts are kept beside it by the
/// application and travel with it through these functions untouched.
#[derive(Debug)]
pub struct MemoryFact {
    pub id: String,
    pub content: String,
    pub kind: String,
    pub scope: String,
    pub created_at: u64,
    pub updated_at: u64,
    pub status: String,
    pub expires_at: Option<u64>,
}

/// A fact that is active and not expired at `now`.
pub open spec fn is_live(f: MemoryFact, now: u64) -> bool {
    f.status@ == "active"@ && match f.expires_at {
        Some(e) => e > now,
        None => true,
    }
}

/// The position of the fact with id `id`.
pub open spec fn id_index<T>(s: Seq<(MemoryFact, T)>, id: Seq<char>) -> Option<int>
    decreases s.len(),
{
    if s.len() == 0 {
        None
    } else if s.last().0.id@ == id {
        Some(s.len() - 1)
    } else {
        id_index(s.drop_last(), id)
    }
}

/// A memory log read back: each record replaces the earlier one with its
/// id, in that one's place; records without id are ignored.
pub open spec fn replay<T>(s: Seq<(MemoryFact, T)>) -> Seq<(MemoryFact, T)>
    decreases s.len(),
{
    if s.len() == 0 {
        s
    } else {
        let acc = replay(s.drop_last());
        let x = s.last();
        if x.0.id@.len() == 0 {
            acc
        } else {
            match id_index(acc, x.0.id@) {
                Some(i) => acc.update(i, x),
                None => acc.push(x),
            }
        }
    }
}

pub open spec fn keep_live<T>(s: Seq<(MemoryFact, T)>, now: u64) -> Seq<(MemoryFact, T)>
    decreases s.len(),
{
    if s.len() == 0 {
        s
    } else {
        let rest = keep_live(s.drop_last(), now);
        if is_live(s.last().0, now) { rest.push(s.last()) } else { rest }
    }
}

/// Inserts `x` after every fact updated no earlier than it.
pub open spec fn insert_newest_first<T>(s: Seq<(MemoryFact, T)>, x: (MemoryFact, T)) -> Seq<(MemoryFact, T)>
    decreases s.len(),
{
    if s.len() == 0 {
        seq![x]
    } else if s.last().0.updated_at >= x.0.updated_at {
        s.push(x)
    } else {
        insert_newest_first(s.drop_last(), x).push(s.last())
    }
}

/// Stable ordering, most recently updated first.
pub open spec fn newest_first<T>(s: Seq<(MemoryFact, T)>) -> Seq<(MemoryFact, T)>
    decreases s.len(),
{
    if s.len() == 0 {
        s
    } else {
        insert_newest_first(newest_first(s.drop_last()), s.last())
    }
}

/// The memories of a pet: its log replayed, the live facts, newest first.
pub open spec fn spec_load<T>(records: Seq<(MemoryFact, T)>, now: u64) -> Seq<(MemoryFact, T)> {
    newest_first(keep_live(replay(records), now))
}

pub proof fn lemma_id_index<T>(s: Seq<(MemoryFact, T)>, id: Seq<char>)
    ensures
        id_index(s, id) matches Some(i) ==> 0 <= i < s.len() && s[i].0.id@ == id,
        id_index(s, id) is None ==> forall|k: int| 0 <= k < s.len() ==> s[k].0.id@ != id,
    decreases s.len(),
{
    if s.len() > 0 && s.last().0.id@ != id {
        lemma_id_index(s.drop_last(), id);
        assert forall|k: int| 0 <= k < s.len() - 1 implies s[k] == s.drop_last()[k] by {}
    }
}

fn find_id<T>(s: &Vec<(MemoryFact, T)>, id: &Vec<char>) -> (r: Option<usize>)
    ensures
        match r {
            Some(i) => Some(i as int),
            None => None,
        } == id_index(s@, id@),
{
    let mut i: usize = s.len();
    assert(s@.take(s.len() as int) =~= s@);
    while i > 0
        invariant
            i <= s.len(),
            id_index(s@, id@) == id_index(s@.take(i as int), id@),
        decreases i,
    {
        assert(s@.take(i as int).drop_last() =~= s@.take(i - 1));
        if chars_eq(&chars_of(s[i - 1].0.id.as_str()), id) {
            return Some(i - 1);
        }
        i = i - 1;
    }
    None
}

fn insert_newest<T>(s: Vec<(MemoryFact, T)>, x: (MemoryFact, T)) -> (r: Vec<(MemoryFact, T)>)
    ensures
        r@ == insert_newest_first(s@, x),
    decreases s.len(),
{
    let mut s = s;
    if s.len() == 0 {
        let mut r: Vec<(MemoryFact, T)> = Vec::new();
        let ghost xv = x;
        r.push(x);
        assert(r@ =~= seq![xv]);
        r
    } else if s[s.len() - 1].0.updated_at >= x.0.updated_at {
        s.push(x);
        s
    } else {
        let ghost sv = s@;
        let last = s.pop().unwrap();
        assert(s@ =~= sv.drop_last());
        let mut r = insert_newest(s, x);
        r.push(last);
        r
    }
}

fn sort_newest<T>(s: Vec<(MemoryFact, T)>) -> (r: Vec<(MemoryFact, T)>)
    ensures
        r@ == newest_first(s@),
    decreases s.len(),
{
    let mut s = s;
    if s.len() == 0 {
        s
    } else {
        let ghost sv = s@;
        let last = s.pop().unwrap();
        assert(s@ =~= sv.drop_last());
        let sorted = sort_newest(s);
        insert_newest(sorted, last)
    }
}

/// The memories of a pet from its log records (in the order they were
/// written): the latest record of each id, only live facts, most recently
/// updated first.
pub fn load_memories<T>(records: Vec<(MemoryFact, T)>, now: u64) -> (r: Vec<(MemoryFact, T)>)
    ensures
        r@ == spec_load(records@, now),
        forall|k: int| #![trigger r@[k]] 0 <= k < r@.len() ==> {
            &&& r@[k].0.status@ == "active"@
            &&& (r@[k].0.expires_at matches Some(e) ==> e > now)
        },
{
    proof {
        assert forall|k: int| #![trigger spec_load(records@, now)[k]] 0 <= k < spec_load(records@, now).len() implies {
            &&& spec_load(records@, now)[k].0.status@ == "active"@
            &&& (spec_load(records@, now)[k].0.expires_at matches Some(e) ==> e > now)
        } by {
            law_loaded_facts_are_live(records@, now, k);
        }
    }
    let ghost orig = records@;
    let total = records.len();
    let mut rest = records;
    let mut acc: Vec<(MemoryFact, T)> = Vec::new();
    let mut n: usize = 0;
    while rest.len() > 0
        invariant
            n <= orig.len(),
            orig.len() == total,
            rest@ == orig.skip(n as int),
            acc@ == replay(orig.take(n as int)),
        decreases rest.len(),
    {
        assert(orig.take(n + 1).drop_last() =~= orig.take(n as int));
        assert(orig.take(n + 1).last() == orig[n as int]);
        let x = rest.remove(0);
        assert(rest@ =~= orig.skip(n + 1));
        let id = chars_of(x.0.id.as_str());
        if id.len() > 0 {
            proof {
                lemma_id_index(acc@, id@);
            }
            match find_id(&acc, &id) {
                Some(i) => {
                    acc.set(i, x);
                },
                None => {
                    acc.push(x);
                },
            }
        }
        n = n + 1;
    }
    assert(orig.take(n as int) =~= orig);
    let ghost replayed = acc@;
    let count = acc.len();
    let mut live: Vec<(MemoryFact, T)> = Vec::new();
    let mut m: usize = 0;
    while acc.len() > 0
        invariant
            m <= replayed.len(),
            replayed.len() == count,
            acc@ == replayed.skip(m as int),
            live@ == keep_live(replayed.take(m as int), now),
        decreases acc.len(),
    {
        assert(replayed.take(m + 1).drop_last() =~= replayed.take(m as int));
        assert(replayed.take(m + 1).last() == replayed[m as int]);
        let x = acc.remove(0);
        assert(acc@ =~= replayed.skip(m + 1));
        let active = chars_eq_str(&chars_of(x.0.status.as_str()), "active");
        let fresh = match x.0.expires_at {
            Some(e) => e > now,
            None => true,
        };
        if active && fresh {
            live.push(x);
        }
        m = m + 1;
    }
    assert(replayed.take(m as int) =~= replayed);
    sort_newest(live)
}

pub open spec fn ids_unique<T>(s: Seq<(MemoryFact, T)>) -> bool {
    forall|i: int, j: int| 0 <= i < j < s.len() ==> (#[trigger] s[i]).0.id@ != (#[trigger] s[j]).0.id@
}

proof fn lemma_replay_unique<T>(s: Seq<(MemoryFact, T)>)
    ensures
        ids_unique(replay(s)),
    decreases s.len(),
{
    if s.len() > 0 {
        let acc = replay(s.drop_last());
        lemma_replay_unique(s.drop_last());
        let x = s.last();
        if x.0.id@.len() > 0 {
            lemma_id_index(acc, x.0.id@);
            match id_index(acc, x.0.id@) {
                Some(i) => {
                    let r = acc.update(i, x);
                    assert forall|a: int, b: int| 0 <= a < b < r.len() implies (#[trigger] r[a]).0.id@ != (#[trigger] r[b]).0.id@ by {
                        if a != i && b != i {
                            assert(r[a] == acc[a] && r[b] == acc[b]);
                        } else if a == i {
                            assert(acc[i].0.id@ == x.0.id@);
                            assert(acc[i].0.id@ != acc[b].0.id@);
                        } else {
                            assert(acc[i].0.id@ == x.0.id@);
                            assert(acc[a].0.id@ != acc[i].0.id@);
                        }
                    }
                },
                None => {
                    let r = acc.push(x);
                    assert forall|a: int, b: int| 0 <= a < b < r.len() implies (#[trigger] r[a]).0.id@ != (#[trigger] r[b]).0.id@ by {
                        if b == acc.len() {
                            assert(r[a] == acc[a]);
                        } else {
                            assert(r[a] == acc[a] && r[b] == acc[b]);
                        }
                    }
                },
            }
        }
    }
}

/// After a record with an id, the replayed log holds that record and no
/// other fact with its id.
proof fn lemma_replay_last<T>(s: Seq<(MemoryFact, T)>, x: (MemoryFact, T))
    requires
        x.0.id@.len() > 0,
    ensures
        replay(s.push(x)).contains(x),
        forall|k: int| 0 <= k < replay(s.push(x)).len() && (#[trigger] replay(s.push(x))[k]).0.id@ == x.0.id@ ==> replay(s.push(x))[k] == x,
{
    let t = s.push(x);
    assert(t.drop_last() =~= s);
    assert(t.last() == x);
    let acc = replay(s);
    lemma_replay_unique(s);
    lemma_id_index(acc, x.0.id@);
    let r = replay(t);
    match id_index(acc, x.0.id@) {
        Some(i) => {
            assert(r[i] == x);
            assert forall|k: int| 0 <= k < r.len() && (#[trigger] r[k]).0.id@ == x.0.id@ implies r[k] == x by {
                if k != i {
                    assert(r[k] == acc[k]);
                    if k < i {
                        assert(acc[k].0.id@ != acc[i].0.id@);
                    } else {
                        assert(acc[i].0.id@ != acc[k].0.id@);
                    }
                }
            }
        },
        None => {
            assert(r[acc.len() as int] == x);
            assert forall|k: int| 0 <= k < r.len() && (#[trigger] r[k]).0.id@ == x.0.id@ implies r[k] == x by {
                if k < acc.len() {
                    assert(r[k] == acc[k]);
                }
            }
        },
    }
}

proof fn lemma_keep_live_contains<T>(s: Seq<(MemoryFact, T)>, now: u64, y: (MemoryFact, T))
    ensures
        keep_live(s, now).contains(y) <==> (s.contains(y) && is_live(y.0, now)),
    decreases s.len(),
{
    if s.len() > 0 {
        lemma_keep_live_contains(s.drop_last(), now, y);
        let rest = keep_live(s.drop_last(), now);
        if s.contains(y) && is_live(y.0, now) {
            let k = choose|k: int| 0 <= k < s.len() && s[k] == y;
            if k < s.len() - 1 {
                assert(s.drop_last()[k] == y);
            }
            if is_live(s.last().0, now) {
                if rest.contains(y) {
                    let m = choose|m: int| 0 <= m < rest.len() && rest[m] == y;
                    assert(rest.push(s.last())[m] == y);
                } else {
                    assert(rest.push(s.last())[rest.len() as int] == y);
                }
            }
        }
        if keep_live(s, now).contains(y) {
            let m = choose|m: int| 0 <= m < keep_live(s, now).len() && keep_live(s, now)[m] == y;
            if is_live(s.last().0, now) && m == rest.len() {
                assert(s[s.len() - 1] == y);
            } else {
                assert(rest[m] == y);
                let k = choose|k: int| 0 <= k < s.drop_last().len() && s.drop_last()[k] == y;
                assert(s[k] == y);
            }
        }
    }
}

proof fn lemma_insert_newest_contains<T>(s: Seq<(MemoryFact, T)>, x: (MemoryFact, T), y: (MemoryFact, T))
    ensures
        insert_newest_first(s, x).contains(y) <==> (s.contains(y) || y == x),
    decreases s.len(),
{
    if s.len() == 0 {
        assert(insert_newest_first(s, x)[0] == x);
    } else if s.last().0.updated_at >= x.0.updated_at {
        let r = s.push(x);
        if s.contains(y) {
            let k = choose|k: int| 0 <= k < s.len() && s[k] == y;
            assert(r[k] == y);
        }
        if y == x {
            assert(r[s.len() as int] == y);
        }
        if r.contains(y) && y != x {
            let k = choose|k: int| 0 <= k < r.len() && r[k] == y;
            assert(s[k] == y);
        }
    } else {
        let d = s.drop_last();
        lemma_insert_newest_contains(d, x, y);
        let inner = insert_newest_first(d, x);
        let r = inner.push(s.last());
        if s.contains(y) {
            let k = choose|k: int| 0 <= k < s.len() && s[k] == y;
            if k == s.len() - 1 {
                assert(r[inner.len() as int] == y);
            } else {
                assert(d[k] == y);
                let m = choose|m: int| 0 <= m < inner.len() && inner[m] == y;
                assert(r[m] == y);
            }
        }
        if y == x {
            let m = choose|m: int| 0 <= m < inner.len() && inner[m] == y;
            assert(r[m] == y);
        }
        if r.contains(y) {
            let k = choose|k: int| 0 <= k < r.len() && r[k] == y;
            if k == inner.len() {
                assert(s[s.len() - 1] == y);
            } else {
                assert(inner[k] == y);
                if d.contains(y) {
                    let j = choose|j: int| 0 <= j < d.len() && d[j] == y;
                    assert(s[j] == y);
                }
            }
        }
    }
}

proof fn lemma_newest_first_contains<T>(s: Seq<(MemoryFact, T)>, y: (MemoryFact, T))
    ensures
        newest_first(s).contains(y) <==> s.contains(y),
    decreases s.len(),
{
    if s.len() > 0 {
        let d = s.drop_last();
        lemma_newest_first_contains(d, y);
        lemma_insert_newest_contains(newest_first(d), s.last(), y);
        if s.contains(y) {
            let k = choose|k: int| 0 <= k < s.len() && s[k] == y;
            if k < s.len() - 1 {
                assert(d[k] == y);
            }
        }
        if d.contains(y) {
            let k = choose|k: int| 0 <= k < d.len() && d[k] == y;
            assert(s[k] == y);
        }
    }
}

/// Only active facts that have not expired are loaded: every loaded fact has
/// status `active`, and an expiry time, where it has one, still ahead of `now`.
pub proof fn law_loaded_facts_are_live<T>(records: Seq<(MemoryFact, T)>, now: u64, k: int)
    requires
        0 <= k < spec_load(records, now).len(),
    ensures
        spec_load(records, now)[k].0.status@ == "active"@,
        spec_load(records, now)[k].0.expires_at matches Some(e) ==> e > now,
{
    let y = spec_load(records, now)[k];
    let r = replay(records);
    assert(spec_load(records, now).contains(y));
    lemma_newest_first_contains(keep_live(r, now), y);
    lemma_keep_live_contains(r, now, y);
}

/// A read gives back a write: a fact just recorded under an id, active and
/// not expired, is among the pet's memories.
pub proof fn law_recorded_fact_is_recalled<T>(records: Seq<(MemoryFact, T)>, x: (MemoryFact, T), now: u64)
    requires
        x.0.id@.len() > 0,
        is_live(x.0, now),
    ensures
        spec_load(records.push(x), now).contains(x),
{
    lemma_replay_last(records, x);
    lemma_keep_live_contains(replay(records.push(x)), now, x);
    lemma_newest_first_contains(keep_live(replay(records.push(x)), now), x);
}

/// Recording a fact as deleted (or otherwise not live) hides every earlier
/// fact with its id.
pub proof fn law_deleted_fact_is_forgotten<T>(records: Seq<(MemoryFact, T)>, x: (MemoryFact, T), now: u64, y: (MemoryFact, T))
    requires
        x.0.id@.len() > 0,
        !is_live(x.0, now),
        spec_load(records.push(x), now).contains(y),
    ensures
        y.0.id@ != x.0.id@,
{
    let r = replay(records.push(x));
    lemma_replay_last(records, x);
    lemma_newest_first_contains(keep_live(r, now), y);
    lemma_keep_live_contains(r, now, y);
    let k = choose|k: int| 0 <= k < r.len() && r[k] == y;
    if y.0.id@ == x.0.id@ {
        assert(r[k] == x);
    }
}

/// A change to memory asked for by the memory extractor. Its scores are
/// read by the application.
#[derive(Debug)]
pub struct MemoryOperation {
    pub action: String,
    pub target: String,
    pub content: String,
    pub kind: String,
    pub scope: String,
    pub expires_in_hours: Option<u64>,
}

pub open spec fn text_or(j: Option<Json>, d: Seq<char>) -> Seq<char> {
    match as_str(j) {
        Some(t) => t,
        None => d,
    }
}

/// The operation an extracted fact asks for: `add`, `update` or `forget`
/// (default `add`); content and target trimmed, a forget without target
/// aiming at its content; refused when the content (or, to forget, the
/// target) is empty; both cut to 300 characters; kind `fact` and scope
/// `pet` by default; a lifetime within 1..=720 hours when given.
pub open spec fn spec_operation(fact: Json) -> Option<(Seq<char>, Seq<char>, Seq<char>, Seq<char>, Seq<char>, Option<u64>)> {
    let action = text_or(spec_get(fact, "action"@), "add"@);
    let content = trim(text_or(spec_get(fact, "content"@), Seq::empty()));
    let target0 = trim(text_or(spec_get(fact, "target"@), Seq::empty()));
    let target = if target0.len() == 0 && action == "forget"@ { content } else { target0 };
    if !(action == "add"@ || action == "update"@ || action == "forget"@) {
        None
    } else if (action != "forget"@ && content.len() == 0) || (action == "forget"@ && target.len() == 0) {
        None
    } else {
        Some((
            action,
            take_chars(target, 300),
            take_chars(content, 300),
            text_or(spec_get(fact, "kind"@), "fact"@),
            text_or(spec_get(fact, "scope"@), "pet"@),
            match as_u64(spec_get(fact, "expiresInHours"@)) {
                Some(h) => Some(if h < 1 { 1 } else if h > 720 { 720 } else { h }),
                None => None,
            },
        ))
    }
}

pub open spec fn op_view(op: MemoryOperation) -> (Seq<char>, Seq<char>, Seq<char>, Seq<char>, Seq<char>, Option<u64>) {
    (op.action@, op.target@, op.content@, op.kind@, op.scope@, op.expires_in_hours)
}

fn text_field(fact: &Json, key: &str, d: &str) -> (r: Vec<char>)
    ensures
        r@ == text_or(spec_get(*fact, key@), d@),
{
    match fact.get(key) {
        Some(v) => match v.as_text() {
            Some(t) => chars_of(t.as_str()),
            None => chars_of(d),
        },
        None => chars_of(d),
    }
}

pub fn memory_operation(fact: &Json) -> (r: Option<MemoryOperation>)
    ensures
        match r {
            Some(op) => Some(op_view(op)),
            None => None,
        } == spec_operation(*fact),
{
    proof {
        reveal_strlit("");
    }
    let action = text_field(fact, "action", "add");
    if !(chars_eq_str(&action, "add") || chars_eq_str(&action, "update") || chars_eq_str(&action, "forget")) {
        return None;
    }
    let forget = chars_eq_str(&action, "forget");
    let content = trim_ws(&text_field(fact, "content", ""));
    let target0 = trim_ws(&text_field(fact, "target", ""));
    let target = if target0.len() == 0 && forget { trim_ws(&text_field(fact, "content", "")) } else { target0 };
    if (!forget && content.len() == 0) || (forget && target.len() == 0) {
        return None;
    }
    let expires = match fact.get("expiresInHours") {
        Some(v) => match v.as_unsigned() {
            Some(h) => Some(if h < 1 { 1 } else if h > 720 { 720 } else { h }),
            None => None,
        },
        None => None,
    };
    Some(MemoryOperation {
        action: string_of(&action),
        target: string_of(&take_chars_vec(&target, 300)),
        content: string_of(&take_chars_vec(&content, 300)),
        kind: string_of(&text_field(fact, "kind", "fact")),
        scope: string_of(&text_field(fact, "scope", "pet")),
        expires_in_hours: expires,
    })
}

/// The operations of the extractor's answer: those of its `facts` array
/// that are valid, in order.
pub open spec fn spec_operations(items: Seq<Json>) -> Seq<(Seq<char>, Seq<char>, Seq<char>, Seq<char>, Seq<char>, Option<u64>)>
    decreases items.len(),
{
    if items.len() == 0 {
        Seq::empty()
    } else {
        let rest = spec_operations(items.drop_last());
        match spec_operation(items.last()) {
            Some(op) => rest.push(op),
            None => rest,
        }
    }
}

pub fn memory_operations(value: &Json) -> (r: Vec<MemoryOperation>)
    ensures
        r@.map_values(|op: MemoryOperation| op_view(op)) == match spec_get(*value, "facts"@) {
            Some(Json::Array(items)) => spec_operations(items@),
            _ => Seq::empty(),
        },
{
    let mut out: Vec<MemoryOperation> = Vec::new();
    match value.get("facts") {
        Some(Json::Array(items)) => {
            let mut i: usize = 0;
            while i < items.len()
                invariant
                    i <= items.len(),
                    out@.map_values(|op: MemoryOperation| op_view(op)) == spec_operations(items@.take(i as int)),
                decreases items.len() - i,
            {
                assert(items@.take(i + 1).drop_last() =~= items@.take(i as int));
                assert(items@.take(i + 1).last() == items@[i as int]);
                let ghost before = out@.map_values(|op: MemoryOperation| op_view(op));
                match memory_operation(&items[i]) {
                    Some(op) => {
                        out.push(op);
                        assert(out@.map_values(|op: MemoryOperation| op_view(op)) =~= before.push(op_view(out@.last())));
                    },
                    None => {},
                }
                i = i + 1;
            }
            assert(items@.take(items.len() as int) =~= items@);
        },
        _ => {
            assert(out@.map_values(|op: MemoryOperation| op_view(op)) =~= Seq::empty());
        },
    }
    out
}

/// The lifetime of a new fact in hours: the operation's, else two days for
/// a temporary fact.
pub open spec fn lifetime_hours(op: MemoryOperation) -> Option<u64> {
    match op.expires_in_hours {
        Some(h) => Some(h),
        None => if op.kind@ == "temporary"@ { Some(48) } else { None },
    }
}

/// The fact an operation stores at `now`: under the given id, else a new
/// `memory-<now>-<sequence>` id; shared only when asked to be.
pub fn memory_from_operation(op: &MemoryOperation, id: Option<String>, now: u64, sequence: u64) -> (r: MemoryFact)
    requires
        op.expires_in_hours matches Some(h) ==> h <= 720,
    ensures
        r.id@ == match id {
            Some(i) => i@,
            None => numbered_id("memory"@, now, sequence),
        },
        r.content == op.content,
        r.kind == op.kind,
        r.scope@ == (if op.scope@ == "shared"@ { "shared"@ } else { "pet"@ }),
        r.created_at == now,
        r.updated_at == now,
        r.status@ == "active"@,
        r.expires_at == match lifetime_hours(*op) {
            Some(h) => Some(if now + h * 3_600_000 > u64::MAX { u64::MAX } else { (now + h * 3_600_000) as u64 }),
            None => None,
        },
{
    let hours = match op.expires_in_hours {
        Some(h) => Some(h),
        None => if chars_eq_str(&chars_of(op.kind.as_str()), "temporary") { Some(48u64) } else { None },
    };
    let expires = match hours {
        Some(h) => {
            let add = h * 3_600_000;
            Some(if add > u64::MAX - now { u64::MAX } else { now + add })
        },
        None => None,
    };
    MemoryFact {
        id: match id {
            Some(i) => i,
            None => numbered_id_exec("memory", now, sequence),
        },
        content: op.content.clone(),
        kind: op.kind.clone(),
        scope: if chars_eq_str(&chars_of(op.scope.as_str()), "shared") { String::from_str("shared") } else { String::from_str("pet") },
        created_at: now,
        updated_at: now,
        status: String::from_str("active"),
        expires_at: expires,
    }
}

/// The first fact an operation's target names, by id or by content.
pub open spec fn target_index<T>(s: Seq<(MemoryFact, T)>, target: Seq<char>, i: nat) -> Option<int>
    decreases s.len() - i,
{
    if i >= s.len() {
        None
    } else if s[i as int].0.id@ == target || s[i as int].0.content@ == target {
        Some(i as int)
    } else {
        target_index(s, target, i + 1)
    }
}

pub proof fn lemma_target_index<T>(s: Seq<(MemoryFact, T)>, target: Seq<char>, i: nat)
    ensures
        target_index(s, target, i) matches Some(k) ==> i <= k < s.len(),
    decreases s.len() - i,
{
    if i < s.len() {
        lemma_target_index(s, target, i + 1);
    }
}

/// The id of the fact an operation's target names, if any.
pub fn existing_memory_id<T>(facts: &Vec<(MemoryFact, T)>, target: &str) -> (r: Option<String>)
    ensures
        match target_index(facts@, target@, 0) {
            Some(k) => r matches Some(id) && id@ == facts@[k].0.id@,
            None => r is None,
        },
{
    proof {
        lemma_target_index(facts@, target@, 0);
    }
    let t = chars_of(target);
    let mut i: usize = 0;
    while i < facts.len()
        invariant
            i <= facts.len(),
            t@ == target@,
            target_index(facts@, target@, 0) == target_index(facts@, target@, i as nat),
        decreases facts.len() - i,
    {
        if chars_eq(&chars_of(facts[i].0.id.as_str()), &t) || chars_eq(&chars_of(facts[i].0.content.as_str()), &t) {
            return Some(facts[i].0.id.clone());
        }
        i = i + 1;
    }
    None
}

/// The shared facts still valid at `now`: with an id and not expired.
pub open spec fn keep_shared<T>(s: Seq<(MemoryFact, T)>, now: u64) -> Seq<(MemoryFact, T)>
    decreases s.len(),
{
    if s.len() == 0 {
        s
    } else {
        let rest = keep_shared(s.drop_last(), now);
        let f = s.last().0;
        if f.id@.len() > 0 && (match f.expires_at { Some(e) => e > now, None => true }) { rest.push(s.last()) } else { rest }
    }
}

pub fn live_shared_memories<T>(facts: Vec<(MemoryFact, T)>, now: u64) -> (r: Vec<(MemoryFact, T)>)
    ensures
        r@ == keep_shared(facts@, now),
{
    let ghost orig = facts@;
    let total = facts.len();
    let mut rest = facts;
    let mut out: Vec<(MemoryFact, T)> = Vec::new();
    let mut n: usize = 0;
    while rest.len() > 0
        invariant
            n <= orig.len(),
            orig.len() == total,
            rest@ == orig.skip(n as int),
            out@ == keep_shared(orig.take(n as int), now),
        decreases rest.len(),
    {
        assert(orig.take(n + 1).drop_last() =~= orig.take(n as int));
        assert(orig.take(n + 1).last() == orig[n as int]);
        let x = rest.remove(0);
        assert(rest@ =~= orig.skip(n + 1));
        let fresh = match x.0.expires_at {
            Some(e) => e > now,
            None => true,
        };
        if !x.0.id.as_str().is_empty() && fresh {
            out.push(x);
        }
        n = n + 1;
    }
    assert(orig.take(n as int) =~= orig);
    out
}

/// The shared profile shown to the model: `- content` of each active fact,
/// one per line.
pub open spec fn profile_lines<T>(s: Seq<(MemoryFact, T)>) -> Seq<char>
    decreases s.len(),
{
    if s.len() == 0 {
        Seq::empty()
    } else {
        let rest = profile_lines(s.drop_last());
        let f = s.last().0;
        if f.status@ == "active"@ {
            (if rest.len() == 0 { Seq::empty() } else { rest + "\n"@ }) + "- "@ + f.content@
        } else {
            rest
        }
    }
}

pub fn load_profile<T>(facts: &Vec<(MemoryFact, T)>) -> (r: String)
    ensures
        r@ == profile_lines(facts@),
{
    let mut v: Vec<char> = Vec::new();
    let mut i: usize = 0;
    while i < facts.len()
        invariant
            i <= facts.len(),
            v@ == profile_lines(facts@.take(i as int)),
        decreases facts.len() - i,
    {
        assert(facts@.take(i + 1).drop_last() =~= facts@.take(i as int));
        assert(facts@.take(i + 1).last() == facts@[i as int]);
        if chars_eq_str(&chars_of(facts[i].0.status.as_str()), "active") {
            let ghost before = v@;
            if v.len() > 0 {
                push_str_chars(&mut v, "\n");
            }
            push_str_chars(&mut v, "- ");
            push_str_chars(&mut v, facts[i].0.content.as_str());
            assert(v@ =~= (if before.len() == 0 { Seq::empty() } else { before + "\n"@ }) + "- "@ + facts@[i as int].0.content@);
        }
        i = i + 1;
    }
    assert(facts@.take(facts.len() as int) =~= facts@);
    string_of(&v)
}

pub open spec fn has_active_content<T>(s: Seq<(MemoryFact, T)>, content: Seq<char>) -> bool {
    exists|k: int| 0 <= k < s.len() && (#[trigger] s[k]).0.status@ == "active"@ && s[k].0.content@ == content
}

/// Adds a shared fact: it replaces the fact with its id; otherwise it is
/// dropped when an active fact already says the same, else appended.
/// Returns whether the facts changed (and must be saved).
pub fn append_shared_memory<T>(facts: &mut Vec<(MemoryFact, T)>, fact: (MemoryFact, T)) -> (changed: bool)
    ensures
        ({
            let s = old(facts)@;
            match id_index(s, fact.0.id@) {
                Some(i) => changed && final(facts)@ == s.update(i, fact),
                None => if has_active_content(s, fact.0.content@) {
                    !changed && final(facts)@ == s
                } else {
                    changed && final(facts)@ == s.push(fact)
                },
            }
        }),
{
    proof {
        lemma_id_index(facts@, fact.0.id@);
    }
    let id = chars_of(fact.0.id.as_str());
    match find_id(facts, &id) {
        Some(i) => {
            facts.set(i, fact);
            true
        },
        None => {
            let content = chars_of(fact.0.content.as_str());
            let mut k: usize = 0;
            while k < facts.len()
                invariant
                    k <= facts.len(),
                    content@ == fact.0.content@,
                    facts@ == old(facts)@,
                    id_index(old(facts)@, fact.0.id@) is None,
                    forall|m: int| 0 <= m < k ==> !((#[trigger] facts@[m]).0.status@ == "active"@ && facts@[m].0.content@ == content@),
                decreases facts.len() - k,
            {
                if chars_eq_str(&chars_of(facts[k].0.status.as_str()), "active") && chars_eq(&chars_of(facts[k].0.content.as_str()), &content) {
                    assert(facts@[k as int].0.status@ == "active"@ && facts@[k as int].0.content@ == content@);
                    assert(has_active_content(old(facts)@, fact.0.content@));
                    return false;
                }
                k = k + 1;
            }
            facts.push(fact);
            true
        },
    }
}

/// Forgets shared facts: every fact whose id or content is the target is
/// marked deleted at `now`.
pub fn forget_shared_memory<T>(facts: &mut Vec<(MemoryFact, T)>, target: &str, now: u64)
    ensures
        final(facts)@.len() == old(facts)@.len(),
        forall|k: int| 0 <= k < old(facts)@.len() ==> {
            let o = #[trigger] old(facts)@[k];
            let n = final(facts)@[k];
            if o.0.id@ == target@ || o.0.content@ == target@ {
                &&& n.0.status@ == "deleted"@
                &&& n.0.updated_at == now
                &&& n.0.id == o.0.id && n.0.content == o.0.content && n.0.kind == o.0.kind && n.0.scope == o.0.scope
                &&& n.0.created_at == o.0.created_at && n.0.expires_at == o.0.expires_at && n.1 == o.1
            } else {
                n == o
            }
        },
{
    let t = chars_of(target);
    let ghost orig = facts@;
    let total = facts.len();
    let mut rest: Vec<(MemoryFact, T)> = Vec::new();
    std::mem::swap(&mut rest, facts);
    let mut k: usize = 0;
    while rest.len() > 0
        invariant
            k <= orig.len(),
            orig.len() == total,
            orig == old(facts)@,
            t@ == target@,
            rest@ == orig.skip(k as int),
            facts@.len() == k,
            forall|m: int| 0 <= m < k ==> {
                let o = #[trigger] orig[m];
                let n = facts@[m];
                if o.0.id@ == target@ || o.0.content@ == target@ {
                    &&& n.0.status@ == "deleted"@
                    &&& n.0.updated_at == now
                    &&& n.0.id == o.0.id && n.0.content == o.0.content && n.0.kind == o.0.kind && n.0.scope == o.0.scope
                    &&& n.0.created_at == o.0.created_at && n.0.expires_at == o.0.expires_at && n.1 == o.1
                } else {
                    n == o
                }
            },
        decreases rest.len(),
    {
        let mut x = rest.remove(0);
        assert(rest@ =~= orig.skip(k + 1));
        if chars_eq(&chars_of(x.0.id.as_str()), &t) || chars_eq(&chars_of(x.0.content.as_str()), &t) {
            x.0.status = String::from_str("deleted");
            x.0.updated_at = now;
        }
        facts.push(x);
        k = k + 1;
    }
}

/// Where a new fact goes: nowhere when its content is blank, to the shared
/// facts when shared, else to the pet's log unless the pet already
/// remembers the same content.
#[derive(Debug, PartialEq, Eq, Structural)]
pub enum StoreTarget {
    Skip,
    Shared,
    PetLog,
}

pub open spec fn has_content<T>(s: Seq<(MemoryFact, T)>, content: Seq<char>) -> bool {
    exists|k: int| 0 <= k < s.len() && (#[trigger] s[k]).0.content@ == content
}

pub fn store_target<T>(fact: &MemoryFact, pet_memories: &Vec<(MemoryFact, T)>) -> (r: StoreTarget)
    ensures
        r == if trim(fact.content@).len() == 0 {
            StoreTarget::Skip
        } else if fact.scope@ == "shared"@ {
            StoreTarget::Shared
        } else if has_content(pet_memories@, fact.content@) {
            StoreTarget::Skip
        } else {
            StoreTarget::PetLog
        },
{
    let content = chars_of(fact.content.as_str());
    if trim_ws(&content).len() == 0 {
        return StoreTarget::Skip;
    }
    if chars_eq_str(&chars_of(fact.scope.as_str()), "shared") {
        return StoreTarget::Shared;
    }
    let mut k: usize = 0;
    while k < pet_memories.len()
        invariant
            k <= pet_memories.len(),
            content@ == fact.content@,
            trim(fact.content@).len() > 0,
            fact.scope@ != "shared"@,
            forall|m: int| 0 <= m < k ==> (#[trigger] pet_memories@[m]).0.content@ != content@,
        decreases pet_memories.len() - k,
    {
        if chars_eq(&chars_of(pet_memories[k].0.content.as_str()), &content) {
            assert(pet_memories@[k as int].0.content@ == content@);
            assert(has_content(pet_memories@, fact.content@));
            return StoreTarget::Skip;
        }
        k = k + 1;
    }
    StoreTarget::PetLog
}

/// A memory as the user edited it, ready to store at `now`: it needs an id
/// (of at most 100 bytes for a pet's own memory) and a content of 1 to 300
/// characters after trimming; it becomes active, trimmed and updated now,
/// and keeps its scope only when shared.
pub open spec fn edit_ok(old: MemoryFact, new: MemoryFact, now: u64) -> bool {
    &&& new.id == old.id
    &&& new.content@ == trim(old.content@)
    &&& new.kind == old.kind
    &&& new.scope@ == (if old.scope@ == "shared"@ { "shared"@ } else { "pet"@ })
    &&& new.created_at == old.created_at
    &&& new.updated_at == now
    &&& new.status@ == "active"@
    &&& new.expires_at == old.expires_at
}

pub open spec fn edit_refused(m: MemoryFact) -> bool {
    ||| m.id@.len() == 0
    ||| (m.scope@ != "shared"@ && m.id@.len() > 0 && vstd::utf8::encode_utf8(m.id@).len() > 100)
    ||| trim(m.content@).len() == 0
    ||| m.content@.len() > 300
}

pub fn edit_memory(memory: MemoryFact, now: u64) -> (r: Result<MemoryFact, String>)
    ensures
        edit_refused(memory) ==> (r matches Err(e) && e@ == "记忆内容不能为空且不能超过 300 个字符"@),
        !edit_refused(memory) ==> (r matches Ok(m) && edit_ok(memory, m, now)),
{
    let content = chars_of(memory.content.as_str());
    let trimmed = trim_ws(&content);
    let shared = chars_eq_str(&chars_of(memory.scope.as_str()), "shared");
    if memory.id.as_str().is_empty() || (!shared && memory.id.as_str().as_bytes().len() > 100) || trimmed.len() == 0
        || content.len() > 300
    {
        return Err(String::from_str("记忆内容不能为空且不能超过 300 个字符"));
    }
    let mut m = memory;
    m.scope = if shared { String::from_str("shared") } else { String::from_str("pet") };
    m.status = String::from_str("active");
    m.content = string_of(&trimmed);
    m.updated_at = now;
    Ok(m)
}

/// Saves an edited shared memory: it replaces the fact with its id, or is
/// appended.
pub fn upsert_shared_memory<T>(facts: &mut Vec<(MemoryFact, T)>, fact: (MemoryFact, T))
    ensures
        match id_index(old(facts)@, fact.0.id@) {
            Some(i) => final(facts)@ == old(facts)@.update(i, fact),
            None => final(facts)@ == old(facts)@.push(fact),
        },
{
    proof {
        lemma_id_index(facts@, fact.0.id@);
    }
    let id = chars_of(fact.0.id.as_str());
    match find_id(facts, &id) {
        Some(i) => facts.set(i, fact),
        None => facts.push(fact),
    }
}

/// Deletes a shared memory: every fact with the id is marked deleted at
/// `now`.
pub fn delete_shared_memory<T>(facts: &mut Vec<(MemoryFact, T)>, id: &str, now: u64)
    ensures
        final(facts)@.len() == old(facts)@.len(),
        forall|k: int| 0 <= k < old(facts)@.len() ==> {
            let o = #[trigger] old(facts)@[k];
            let n = final(facts)@[k];
            if o.0.id@ == id@ {
                &&& n.0.status@ == "deleted"@
                &&& n.0.updated_at == now
                &&& n.0.id == o.0.id && n.0.content == o.0.content && n.0.kind == o.0.kind && n.0.scope == o.0.scope
                &&& n.0.created_at == o.0.created_at && n.0.expires_at == o.0.expires_at && n.1 == o.1
            } else {
                n == o
            }
        },
{
    let t = chars_of(id);
    let ghost orig = facts@;
    let total = facts.len();
    let mut rest: Vec<(MemoryFact, T)> = Vec::new();
    std::mem::swap(&mut rest, facts);
    let mut k: usize = 0;
    while rest.len() > 0
        invariant
            k <= orig.len(),
            orig.len() == total,
            orig == old(facts)@,
            t@ == id@,
            rest@ == orig.skip(k as int),
            facts@.len() == k,
            forall|m: int| 0 <= m < k ==> {
                let o = #[trigger] orig[m];
                let n = facts@[m];
                if o.0.id@ == id@ {
                    &&& n.0.status@ == "deleted"@
                    &&& n.0.updated_at == now
                    &&& n.0.id == o.0.id && n.0.content == o.0.content && n.0.kind == o.0.kind && n.0.scope == o.0.scope
                    &&& n.0.created_at == o.0.created_at && n.0.expires_at == o.0.expires_at && n.1 == o.1
                } else {
                    n == o
                }
            },
        decreases rest.len(),
    {
        let mut x = rest.remove(0);
        assert(rest@ =~= orig.skip(k + 1));
        if chars_eq(&chars_of(x.0.id.as_str()), &t) {
            x.0.status = String::from_str("deleted");
            x.0.updated_at = now;
        }
        facts.push(x);
        k = k + 1;
    }
}

/// A deletion marker for a pet's memory log.
pub fn deletion_marker(id: String, now: u64) -> (r: MemoryFact)
    ensures
        r.id == id,
        r.status@ == "deleted"@,
        r.content@.len() == 0,
        r.created_at == now,
        r.updated_at == now,
{
    MemoryFact {
        id,
        content: String::new(),
        kind: String::from_str("fact"),
        scope: String::from_str("pet"),
        created_at: now,
        updated_at: now,
        status: String::from_str("deleted"),
        expires_at: None,
    }
}

/// The memory a pet keeps of an exchange with another pet:
/// `pet-relationship-<request>-<pet>`, a relationship fact of its own.
pub fn relationship_memory_fact(request_id: &str, pet_id: &str, content: String, timestamp: u64) -> (r: MemoryFact)
    ensures
        r.id@ == "pet-relationship-"@ + request_id@ + "-"@ + pet_id@,
        r.content == content,
        r.kind@ == "relationship"@,
        r.scope@ == "pet"@,
        r.created_at == timestamp,
        r.updated_at == timestamp,
        r.status@ == "active"@,
        r.expires_at is None,
{
    let mut id = chars_of("pet-relationship-");
    push_str_chars(&mut id, request_id);
    push_str_chars(&mut id, "-");
    push_str_chars(&mut id, pet_id);
    MemoryFact {
        id: string_of(&id),
        content,
        kind: String::from_str("relationship"),
        scope: String::from_str("pet"),
        created_at: timestamp,
        updated_at: timestamp,
        status: String::from_str("active"),
        expires_at: None,
    }
}

} // verus!
