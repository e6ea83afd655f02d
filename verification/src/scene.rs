//! The social scene catalogue: which scenes exist for a pair or a group,
//! the props they use, actor roles, stock dialogue and phase presentation.

use vstd::prelude::*;
use crate::text::{chars_eq, first_match, first_match_from, lemma_first_match_bounds, take_chars, take_chars_vec, ascii_lower, ascii_lower_vec, chars_eq_str, chars_of, string_of, trim, trim_ws};
use crate::platform::random_index;
use crate::chat::{numbered_id, numbered_id_exec};

verus! {

pub open spec fn views(s: Seq<&'static str>) -> Seq<Seq<char>> {
    s.map_values(|x: &'static str| x@)
}

/// Scenes for three or more pets.
pub open spec fn group_scenes() -> Seq<Seq<char>> {
    seq![
        "parade"@,
        "chain-chase"@,
        "circle-chat"@,
        "group-pile"@,
        "group-cheer"@,
        "group-nap"@,
        "toy-scramble"@,
        "pass"@,
        "share-snack"@,
    ]
}

/// Scenes for a pair of pets.
pub open spec fn pair_scenes() -> Seq<Seq<char>> {
    seq![
        "greet"@,
        "whisper"@,
        "nuzzle"@,
        "chase"@,
        "tag"@,
        "follow"@,
        "sync-jump"@,
        "stack"@,
        "bump"@,
        "prank"@,
        "tug"@,
        "steal"@,
        "share-snack"@,
        "comfort"@,
        "reconcile"@,
        "group-nap"@,
        "kick-and-chase"@,
        "pass"@,
        "fetch"@,
    ]
}

pub open spec fn spec_scene_options(participant_count: nat) -> Seq<Seq<char>> {
    if participant_count > 2 {
        group_scenes()
    } else {
        pair_scenes()
    }
}

/// The scenes available to `participant_count` pets.
pub fn scene_options(participant_count: usize) -> (r: Vec<&'static str>)
    ensures
        views(r@) == spec_scene_options(participant_count as nat),
{
    let r = if participant_count > 2 {
        vec![
            "parade",
            "chain-chase",
            "circle-chat",
            "group-pile",
            "group-cheer",
            "group-nap",
            "toy-scramble",
            "pass",
            "share-snack",
        ]
    } else {
        vec![
            "greet",
            "whisper",
            "nuzzle",
            "chase",
            "tag",
            "follow",
            "sync-jump",
            "stack",
            "bump",
            "prank",
            "tug",
            "steal",
            "share-snack",
            "comfort",
            "reconcile",
            "group-nap",
            "kick-and-chase",
            "pass",
            "fetch",
        ]
    };
    assert(views(r@) =~= spec_scene_options(participant_count as nat));
    r
}

/// A requested scene name as it is compared against the catalogue.
pub open spec fn normalized_name(value: Seq<char>) -> Seq<char> {
    ascii_lower(trim(value))
}

pub open spec fn spec_valid_scene(value: Seq<char>, count: nat) -> Option<Seq<char>> {
    if spec_scene_options(count).contains(normalized_name(value)) {
        Some(normalized_name(value))
    } else {
        None
    }
}

fn normalize_name(value: &str) -> (r: Vec<char>)
    ensures
        r@ == normalized_name(value@),
{
    let chars = chars_of(value);
    let trimmed = trim_ws(&chars);
    ascii_lower_vec(&trimmed)
}

/// The catalogue scene named by `value` (case and surrounding space are
/// ignored) when it is available to `count` pets.
pub fn valid_scene(value: &str, count: usize) -> (r: Option<String>)
    ensures
        r matches Some(s) ==> spec_valid_scene(value@, count as nat) == Some(s@),
        r is None ==> spec_valid_scene(value@, count as nat) is None,
{
    let name = normalize_name(value);
    let options = scene_options(count);
    let ghost opts = spec_scene_options(count as nat);
    let mut i: usize = 0;
    while i < options.len()
        invariant
            i <= options.len(),
            views(options@) == opts,
            opts == spec_scene_options(count as nat),
            name@ == normalized_name(value@),
            forall|k: int| 0 <= k < i ==> opts[k] != name@,
        decreases options.len() - i,
    {
        if chars_eq_str(&name, options[i]) {
            assert(opts[i as int] == name@);
            assert(opts.contains(name@));
            assert(spec_valid_scene(value@, count as nat) == Some(name@));
            let out = string_of(&name);
            return Some(out);
        }
        i = i + 1;
    }
    assert(!opts.contains(name@)) by {
        if opts.contains(name@) {
            let k = choose|k: int| 0 <= k < opts.len() && opts[k] == name@;
            assert(opts[k] != name@);
        }
    }
    None
}

/// The built-in prop named by a (normalized) value; `ball` and `toy` are the
/// legacy names of `football` and `plush`.
pub open spec fn prop_for_name(n: Seq<char>) -> Option<Seq<char>> {
    if n == "ball"@ || n == "football"@ {
        Some("football"@)
    } else if n == "snack"@ {
        Some("snack"@)
    } else if n == "plush"@ || n == "toy"@ {
        Some("plush"@)
    } else if n == "ribbon"@ {
        Some("ribbon"@)
    } else {
        None
    }
}

pub open spec fn opt_view(value: Option<String>) -> Option<Seq<char>> {
    match value {
        Some(v) => Some(v@),
        None => None,
    }
}

pub open spec fn spec_valid_prop(value: Option<Seq<char>>) -> Option<Seq<char>> {
    match value {
        Some(v) => prop_for_name(normalized_name(v)),
        None => prop_for_name(Seq::empty()),
    }
}

/// A name of lower-case ASCII letters and hyphens.
pub open spec fn plain_name(s: Seq<char>) -> bool {
    s.len() > 0 && forall|i: int| 0 <= i < s.len() ==> ('a' <= #[trigger] s[i] <= 'z' || s[i] == '-')
}

proof fn lemma_plain_name_normalized(s: Seq<char>)
    requires
        plain_name(s),
    ensures
        normalized_name(s) == s,
{
    let ws = crate::text::CharClass::Whitespace;
    assert(!crate::text::in_class(ws, s[0]));
    assert(crate::text::trim_start_class(s, ws) == s);
    assert(!crate::text::in_class(ws, s.last()));
    assert(crate::text::trim_end_class(s, ws) == s);
    assert(ascii_lower(s) =~= s);
}

proof fn lemma_catalogue_plain()
    ensures
        forall|k: int| 0 <= k < group_scenes().len() ==> plain_name(#[trigger] group_scenes()[k]),
        forall|k: int| 0 <= k < pair_scenes().len() ==> plain_name(#[trigger] pair_scenes()[k]),
{
    reveal_strlit("parade");
    reveal_strlit("chain-chase");
    reveal_strlit("circle-chat");
    reveal_strlit("group-pile");
    reveal_strlit("group-cheer");
    reveal_strlit("group-nap");
    reveal_strlit("toy-scramble");
    reveal_strlit("pass");
    reveal_strlit("share-snack");
    reveal_strlit("greet");
    reveal_strlit("whisper");
    reveal_strlit("nuzzle");
    reveal_strlit("chase");
    reveal_strlit("tag");
    reveal_strlit("follow");
    reveal_strlit("sync-jump");
    reveal_strlit("stack");
    reveal_strlit("bump");
    reveal_strlit("prank");
    reveal_strlit("tug");
    reveal_strlit("steal");
    reveal_strlit("comfort");
    reveal_strlit("reconcile");
    reveal_strlit("kick-and-chase");
    reveal_strlit("fetch");
}

/// Every scene of the catalogue, named as the catalogue names it, is
/// accepted as itself.
pub proof fn law_catalogue_names_validate(name: Seq<char>, count: nat)
    requires
        spec_scene_options(count).contains(name),
    ensures
        spec_valid_scene(name, count) == Some(name),
{
    lemma_catalogue_plain();
    let k = choose|k: int| 0 <= k < spec_scene_options(count).len() && spec_scene_options(count)[k] == name;
    assert(plain_name(spec_scene_options(count)[k]));
    lemma_plain_name_normalized(name);
}

/// Validating a prop again keeps it: a validated prop names itself.
pub proof fn law_valid_prop_idempotent(value: Option<Seq<char>>)
    ensures
        spec_valid_prop(value) matches Some(p) ==> spec_valid_prop(Some(p)) == Some(p),
{
    reveal_strlit("football");
    reveal_strlit("snack");
    reveal_strlit("plush");
    reveal_strlit("ribbon");
    reveal_strlit("ball");
    reveal_strlit("toy");
    if let Some(p) = spec_valid_prop(value) {
        assert(plain_name(p));
        lemma_plain_name_normalized(p);
        if p == "football"@ {
            assert(p != "ball"@);
        } else if p == "snack"@ {
            assert(p != "ball"@ && p != "football"@);
        } else if p == "plush"@ {
            assert(p != "ball"@ && p != "football"@ && p != "snack"@);
        } else {
            assert(p == "ribbon"@);
            assert(p != "ball"@ && p != "football"@ && p != "snack"@ && p != "plush"@ && p != "toy"@);
        }
    }
}

fn lit(s: &'static str) -> (r: Option<String>)
    ensures
        r matches Some(x) && x@ == s@,
{
    Some(String::from_str(s))
}

/// The built-in prop named by `value`, if any.
pub fn valid_prop(value: Option<&str>) -> (r: Option<String>)
    ensures
        r matches Some(s) ==> spec_valid_prop(match value { Some(v) => Some(v@), None => None }) == Some(s@),
        r is None ==> spec_valid_prop(match value { Some(v) => Some(v@), None => None }) is None,
{
    let name = match value {
        Some(v) => normalize_name(v),
        None => {
            let e: Vec<char> = Vec::new();
            assert(e@ =~= Seq::<char>::empty());
            e
        },
    };
    if chars_eq_str(&name, "ball") || chars_eq_str(&name, "football") {
        lit("football")
    } else if chars_eq_str(&name, "snack") {
        lit("snack")
    } else if chars_eq_str(&name, "plush") || chars_eq_str(&name, "toy") {
        lit("plush")
    } else if chars_eq_str(&name, "ribbon") {
        lit("ribbon")
    } else {
        None
    }
}

pub open spec fn spec_prop_scene(scene: Seq<char>) -> bool {
    ||| scene == "kick-and-chase"@
    ||| scene == "pass"@
    ||| scene == "fetch"@
    ||| scene == "share-snack"@
    ||| scene == "tug"@
    ||| scene == "steal"@
    ||| scene == "prank"@
    ||| scene == "toy-scramble"@
}

/// Scenes that are played out with a prop window.
pub fn prop_scene(scene: &str) -> (r: bool)
    ensures
        r == spec_prop_scene(scene@),
{
    let s = chars_of(scene);
    chars_eq_str(&s, "kick-and-chase") || chars_eq_str(&s, "pass") || chars_eq_str(&s, "fetch")
        || chars_eq_str(&s, "share-snack") || chars_eq_str(&s, "tug") || chars_eq_str(&s, "steal")
        || chars_eq_str(&s, "prank") || chars_eq_str(&s, "toy-scramble")
}

pub open spec fn spec_default_prop(scene: Seq<char>) -> Option<Seq<char>> {
    if scene == "kick-and-chase"@ || scene == "pass"@ || scene == "fetch"@ || scene == "chase"@ {
        Some("football"@)
    } else if scene == "share-snack"@ {
        Some("snack"@)
    } else if scene == "tug"@ || scene == "steal"@ || scene == "toy-scramble"@ || scene
        == "prank"@ {
        Some("plush"@)
    } else {
        None
    }
}

/// The prop a scene uses when the director did not name one.
pub fn default_prop(scene: &str) -> (r: Option<String>)
    ensures
        r matches Some(s) ==> spec_default_prop(scene@) == Some(s@),
        r is None ==> spec_default_prop(scene@) is None,
{
    let s = chars_of(scene);
    if chars_eq_str(&s, "kick-and-chase") || chars_eq_str(&s, "pass") || chars_eq_str(&s, "fetch")
        || chars_eq_str(&s, "chase") {
        lit("football")
    } else if chars_eq_str(&s, "share-snack") {
        lit("snack")
    } else if chars_eq_str(&s, "tug") || chars_eq_str(&s, "steal") || chars_eq_str(
        &s,
        "toy-scramble",
    ) || chars_eq_str(&s, "prank") {
        lit("plush")
    } else {
        None
    }
}

pub open spec fn pick(first: bool, a: Seq<char>, b: Seq<char>) -> Seq<char> {
    if first {
        a
    } else {
        b
    }
}

/// The role of the actor at `index` (the first actor leads the scene).
pub open spec fn spec_role_for(scene: Seq<char>, index: nat) -> Seq<char> {
    let first = index == 0;
    if scene == "chase"@ || scene == "tag"@ || scene == "chain-chase"@ {
        pick(first, "chaser"@, "runner"@)
    } else if scene == "stack"@ {
        pick(first, "base"@, "top"@)
    } else if scene == "tug"@ {
        pick(first, "winner"@, "challenger"@)
    } else if scene == "steal"@ {
        pick(first, "thief"@, "owner"@)
    } else if scene == "kick-and-chase"@ {
        pick(first, "kicker"@, "chaser"@)
    } else if scene == "pass"@ {
        pick(first, "passer"@, "receiver"@)
    } else if scene == "fetch"@ {
        pick(first, "thrower"@, "fetcher"@)
    } else if scene == "prank"@ {
        pick(first, "prankster"@, "target"@)
    } else if scene == "comfort"@ {
        pick(first, "comforter"@, "comforted"@)
    } else {
        pick(first, "leader"@, "friend"@)
    }
}

fn pick_str(first: bool, a: &'static str, b: &'static str) -> (r: String)
    ensures
        r@ == pick(first, a@, b@),
{
    if first {
        String::from_str(a)
    } else {
        String::from_str(b)
    }
}

/// The role name of the actor at `index` in `scene`.
pub fn role_for(scene: &str, index: usize) -> (r: String)
    ensures
        r@ == spec_role_for(scene@, index as nat),
{
    let s = chars_of(scene);
    let first = index == 0;
    if chars_eq_str(&s, "chase") || chars_eq_str(&s, "tag") || chars_eq_str(&s, "chain-chase") {
        pick_str(first, "chaser", "runner")
    } else if chars_eq_str(&s, "stack") {
        pick_str(first, "base", "top")
    } else if chars_eq_str(&s, "tug") {
        pick_str(first, "winner", "challenger")
    } else if chars_eq_str(&s, "steal") {
        pick_str(first, "thief", "owner")
    } else if chars_eq_str(&s, "kick-and-chase") {
        pick_str(first, "kicker", "chaser")
    } else if chars_eq_str(&s, "pass") {
        pick_str(first, "passer", "receiver")
    } else if chars_eq_str(&s, "fetch") {
        pick_str(first, "thrower", "fetcher")
    } else if chars_eq_str(&s, "prank") {
        pick_str(first, "prankster", "target")
    } else if chars_eq_str(&s, "comfort") {
        pick_str(first, "comforter", "comforted")
    } else {
        pick_str(first, "leader", "friend")
    }
}

/// The stock lines for `scene` spoken in `role`.
pub open spec fn generic_lines(scene: Seq<char>, role: Seq<char>) -> Seq<Seq<char>> {
    if scene == "greet"@ && role == "leader"@ {
        seq!["你也在这里呀。"@, "要一起待一会儿吗？"@]
    } else if scene == "greet"@ {
        seq!["嗯，来打个招呼。"@, "我看到你啦。"@]
    } else if scene == "whisper"@ && role == "leader"@ {
        seq!["过来一点，小声说。"@, "这件事不要告诉别人哦。"@]
    } else if scene == "whisper"@ {
        seq!["真的吗？我听见啦。"@, "你靠得太近了。"@]
    } else if scene == "nuzzle"@ {
        seq!["靠一下就好。"@, "今天的距离刚刚好。"@]
    } else if scene == "chase"@ && role == "chaser"@ {
        seq!["站住！别跑！"@, "这次我一定抓到你。"@]
    } else if scene == "chase"@ {
        seq!["才不会被你抓到！"@, "追得上再说吧。"@]
    } else if scene == "tag"@ && role == "chaser"@ {
        seq!["轮到我来抓你啦！"@]
    } else if scene == "tag"@ {
        seq!["换我抓你了！"@]
    } else if scene == "follow"@ && role == "leader"@ {
        seq!["跟紧一点，不要走散。"@]
    } else if scene == "follow"@ {
        seq!["好，我跟着你。"@]
    } else if scene == "sync-jump"@ {
        seq!["一、二、跳！"@, "一起跳起来！"@]
    } else if scene == "stack"@ && role == "top"@ {
        seq!["借我站一下嘛。"@]
    } else if scene == "stack"@ {
        seq!["喂，不要压过来。"@]
    } else if scene == "bump"@ {
        seq!["哎呀，撞到啦。"@, "你没事吧？"@]
    } else if scene == "prank"@ && role == "prankster"@ {
        seq!["嘿嘿，被我骗到了。"@]
    } else if scene == "prank"@ {
        seq!["你怎么可以这样！"@]
    } else if scene == "tug"@ && role == "winner"@ {
        seq!["这次是我赢了。"@]
    } else if scene == "tug"@ {
        seq!["我还没有放手呢！"@]
    } else if scene == "steal"@ && role == "thief"@ {
        seq!["这个玩具归我啦。"@]
    } else if scene == "steal"@ {
        seq!["还给我！那是我的。"@]
    } else if scene == "share-snack"@ {
        seq!["一人一半，公平吧？"@]
    } else if scene == "kick-and-chase"@ && role == "kicker"@ {
        seq!["接住！我踢过去了！"@, "快追上它！"@]
    } else if scene == "kick-and-chase"@ {
        seq!["等等我！球滚远了！"@, "这次换我来！"@]
    } else if scene == "pass"@ && role == "passer"@ {
        seq!["传给你！"@, "准备好了吗？"@]
    } else if scene == "pass"@ {
        seq!["接到了！再传回来！"@, "好球！"@]
    } else if scene == "fetch"@ && role == "thrower"@ {
        seq!["去把它捡回来！"@, "看我扔得多远！"@]
    } else if scene == "fetch"@ {
        seq!["我马上回来！"@, "抓到啦！"@]
    } else if scene == "comfort"@ && role == "comforter"@ {
        seq!["别难过，我陪着你。"@]
    } else if scene == "comfort"@ {
        seq!["嗯……谢谢你。"@]
    } else if scene == "reconcile"@ {
        seq!["刚才的事，就算和好啦。"@]
    } else if scene == "group-nap"@ {
        seq!["一起睡一会儿吧。"@]
    } else if scene == "parade"@ && role == "leader"@ {
        seq!["跟上队伍，出发！"@]
    } else if scene == "circle-chat"@ {
        seq!["大家都在听吗？"@]
    } else if scene == "group-pile"@ {
        seq!["不要挤，我也要进来。"@]
    } else if scene == "group-cheer"@ {
        seq!["耶！一起庆祝！"@]
    } else if scene == "chain-chase"@ {
        seq!["接下来轮到你啦！"@]
    } else if scene == "toy-scramble"@ {
        seq!["玩具在这里！快抢！"@]
    } else {
        seq!["我们一起玩吧。"@]
    }
}

/// One of the stock lines for `scene` spoken in `role`, picked at random.
pub fn generic_line(scene: &str, role: &str) -> (r: String)
    ensures
        generic_lines(scene@, role@).contains(r@),
{
    let s = chars_of(scene);
    let ro = chars_of(role);
    let lines: Vec<&'static str> = 
        if chars_eq_str(&s, "greet") && chars_eq_str(&ro, "leader") {
            vec!["你也在这里呀。", "要一起待一会儿吗？"]
        } else if chars_eq_str(&s, "greet") {
            vec!["嗯，来打个招呼。", "我看到你啦。"]
        } else if chars_eq_str(&s, "whisper") && chars_eq_str(&ro, "leader") {
            vec!["过来一点，小声说。", "这件事不要告诉别人哦。"]
        } else if chars_eq_str(&s, "whisper") {
            vec!["真的吗？我听见啦。", "你靠得太近了。"]
        } else if chars_eq_str(&s, "nuzzle") {
            vec!["靠一下就好。", "今天的距离刚刚好。"]
        } else if chars_eq_str(&s, "chase") && chars_eq_str(&ro, "chaser") {
            vec!["站住！别跑！", "这次我一定抓到你。"]
        } else if chars_eq_str(&s, "chase") {
            vec!["才不会被你抓到！", "追得上再说吧。"]
        } else if chars_eq_str(&s, "tag") && chars_eq_str(&ro, "chaser") {
            vec!["轮到我来抓你啦！"]
        } else if chars_eq_str(&s, "tag") {
            vec!["换我抓你了！"]
        } else if chars_eq_str(&s, "follow") && chars_eq_str(&ro, "leader") {
            vec!["跟紧一点，不要走散。"]
        } else if chars_eq_str(&s, "follow") {
            vec!["好，我跟着你。"]
        } else if chars_eq_str(&s, "sync-jump") {
            vec!["一、二、跳！", "一起跳起来！"]
        } else if chars_eq_str(&s, "stack") && chars_eq_str(&ro, "top") {
            vec!["借我站一下嘛。"]
        } else if chars_eq_str(&s, "stack") {
            vec!["喂，不要压过来。"]
        } else if chars_eq_str(&s, "bump") {
            vec!["哎呀，撞到啦。", "你没事吧？"]
        } else if chars_eq_str(&s, "prank") && chars_eq_str(&ro, "prankster") {
            vec!["嘿嘿，被我骗到了。"]
        } else if chars_eq_str(&s, "prank") {
            vec!["你怎么可以这样！"]
        } else if chars_eq_str(&s, "tug") && chars_eq_str(&ro, "winner") {
            vec!["这次是我赢了。"]
        } else if chars_eq_str(&s, "tug") {
            vec!["我还没有放手呢！"]
        } else if chars_eq_str(&s, "steal") && chars_eq_str(&ro, "thief") {
            vec!["这个玩具归我啦。"]
        } else if chars_eq_str(&s, "steal") {
            vec!["还给我！那是我的。"]
        } else if chars_eq_str(&s, "share-snack") {
            vec!["一人一半，公平吧？"]
        } else if chars_eq_str(&s, "kick-and-chase") && chars_eq_str(&ro, "kicker") {
            vec!["接住！我踢过去了！", "快追上它！"]
        } else if chars_eq_str(&s, "kick-and-chase") {
            vec!["等等我！球滚远了！", "这次换我来！"]
        } else if chars_eq_str(&s, "pass") && chars_eq_str(&ro, "passer") {
            vec!["传给你！", "准备好了吗？"]
        } else if chars_eq_str(&s, "pass") {
            vec!["接到了！再传回来！", "好球！"]
        } else if chars_eq_str(&s, "fetch") && chars_eq_str(&ro, "thrower") {
            vec!["去把它捡回来！", "看我扔得多远！"]
        } else if chars_eq_str(&s, "fetch") {
            vec!["我马上回来！", "抓到啦！"]
        } else if chars_eq_str(&s, "comfort") && chars_eq_str(&ro, "comforter") {
            vec!["别难过，我陪着你。"]
        } else if chars_eq_str(&s, "comfort") {
            vec!["嗯……谢谢你。"]
        } else if chars_eq_str(&s, "reconcile") {
            vec!["刚才的事，就算和好啦。"]
        } else if chars_eq_str(&s, "group-nap") {
            vec!["一起睡一会儿吧。"]
        } else if chars_eq_str(&s, "parade") && chars_eq_str(&ro, "leader") {
            vec!["跟上队伍，出发！"]
        } else if chars_eq_str(&s, "circle-chat") {
            vec!["大家都在听吗？"]
        } else if chars_eq_str(&s, "group-pile") {
            vec!["不要挤，我也要进来。"]
        } else if chars_eq_str(&s, "group-cheer") {
            vec!["耶！一起庆祝！"]
        } else if chars_eq_str(&s, "chain-chase") {
            vec!["接下来轮到你啦！"]
        } else if chars_eq_str(&s, "toy-scramble") {
            vec!["玩具在这里！快抢！"]
        } else {
            vec!["我们一起玩吧。"]
        };
    assert(views(lines@) =~= generic_lines(scene@, role@));
    let i = random_index(lines.len());
    let out = String::from_str(lines[i]);
    assert(views(lines@)[i as int] == out@);
    out
}

/// Dialogue lines a character card provides for one scene key.
#[derive(Clone, Debug)]
pub struct DialogueEntry {
    pub key: String,
    pub lines: Vec<String>,
}

/// What a character card says about one particular partner pet.
#[derive(Clone, Debug)]
pub struct PartnerCard {
    pub partner_id: String,
    pub romance_allowed: bool,
    pub dialogue: Vec<DialogueEntry>,
}

/// The social part of a character card: its own scene dialogue and the
/// per-partner relationship notes. Keys are unique within each list.
#[derive(Clone, Debug)]
pub struct SocialCard {
    pub dialogue: Vec<DialogueEntry>,
    pub relationships: Vec<PartnerCard>,
}

pub open spec fn key_is(key: Seq<char>) -> spec_fn(DialogueEntry) -> bool {
    |e: DialogueEntry| e.key@ == key
}

pub open spec fn partner_is(partner: Seq<char>) -> spec_fn(PartnerCard) -> bool {
    |c: PartnerCard| c.partner_id@ == partner
}

/// The longest line a character may say in a scene.
pub const SOCIAL_EVENT_MAX_CHARS: usize = 240;

/// The (truncated) lines stored under `key`, empty when there are none.
pub open spec fn entry_lines(entries: Seq<DialogueEntry>, key: Seq<char>) -> Seq<Seq<char>> {
    match first_match(entries, key_is(key)) {
        Some(k) => entries[k].lines@.map_values(|l: String| take_chars(l@, 240)),
        None => Seq::empty(),
    }
}

/// Scene dialogue is looked up under the scene name, except that the winner
/// of a tug uses `tug-win`.
pub open spec fn dialogue_key(scene: Seq<char>, role: Seq<char>) -> Seq<char> {
    if role == "winner"@ {
        "tug-win"@
    } else {
        scene
    }
}

pub open spec fn partner_lines(social: SocialCard, partner: Option<Seq<char>>, key: Seq<char>) -> Seq<Seq<char>> {
    match partner {
        Some(p) => match first_match(social.relationships@, partner_is(p)) {
            Some(k) => entry_lines(social.relationships@[k].dialogue@, key),
            None => Seq::empty(),
        },
        None => Seq::empty(),
    }
}

/// The lines a pet may say in `scene` as `role`: its own card's lines, else
/// the lines its card keeps for `partner`, else the stock lines.
pub open spec fn dialogue_choices(
    social: SocialCard,
    scene: Seq<char>,
    role: Seq<char>,
    partner: Option<Seq<char>>,
) -> Seq<Seq<char>> {
    let key = dialogue_key(scene, role);
    let own = entry_lines(social.dialogue@, key);
    let rel = partner_lines(social, partner, key);
    if own.len() > 0 {
        own
    } else if rel.len() > 0 {
        rel
    } else {
        generic_lines(scene, role)
    }
}

fn find_entry(entries: &Vec<DialogueEntry>, key: &Vec<char>) -> (r: Option<usize>)
    ensures
        r matches Some(k) ==> first_match(entries@, key_is(key@)) == Some(k as int),
        r is None ==> first_match(entries@, key_is(key@)) is None,
{
    let mut i: usize = 0;
    while i < entries.len()
        invariant
            i <= entries.len(),
            first_match(entries@, key_is(key@)) == first_match_from(entries@, key_is(key@), i as nat),
        decreases entries.len() - i,
    {
        let k = chars_of(entries[i].key.as_str());
        if chars_eq(&k, key) {
            return Some(i);
        }
        i = i + 1;
    }
    None
}

fn find_partner(cards: &Vec<PartnerCard>, partner: &Vec<char>) -> (r: Option<usize>)
    ensures
        r matches Some(k) ==> first_match(cards@, partner_is(partner@)) == Some(k as int),
        r is None ==> first_match(cards@, partner_is(partner@)) is None,
{
    let mut i: usize = 0;
    while i < cards.len()
        invariant
            i <= cards.len(),
            first_match(cards@, partner_is(partner@)) == first_match_from(cards@, partner_is(partner@), i as nat),
        decreases cards.len() - i,
    {
        let k = chars_of(cards[i].partner_id.as_str());
        if chars_eq(&k, partner) {
            return Some(i);
        }
        i = i + 1;
    }
    None
}

/// A random line of `lines`, cut to the scene line limit.
fn pick_line(lines: &Vec<String>) -> (r: String)
    requires
        lines.len() > 0,
    ensures
        lines@.map_values(|l: String| take_chars(l@, 240)).contains(r@),
{
    let i = random_index(lines.len());
    let c = chars_of(lines[i].as_str());
    let t = take_chars_vec(&c, SOCIAL_EVENT_MAX_CHARS);
    let out = string_of(&t);
    assert(lines@.map_values(|l: String| take_chars(l@, 240))[i as int] == out@);
    out
}

/// What a pet says in a locally chosen scene.
pub fn local_dialogue(social: &SocialCard, scene: &str, role: &str, partner: Option<&str>) -> (r: String)
    ensures
        dialogue_choices(*social, scene@, role@, match partner { Some(p) => Some(p@), None => None }).contains(r@),
{
    let ghost gp: Option<Seq<char>> = match partner { Some(p) => Some(p@), None => None };
    let ghost key = dialogue_key(scene@, role@);
    let role_chars = chars_of(role);
    let key_chars = if chars_eq_str(&role_chars, "winner") {
        chars_of("tug-win")
    } else {
        chars_of(scene)
    };
    assert(key_chars@ == key);
    proof {
        lemma_first_match_bounds(social.dialogue@, key_is(key));
        lemma_first_match_bounds(social.relationships@, partner_is(gp.unwrap_or(Seq::empty())));
    }
    if let Some(k) = find_entry(&social.dialogue, &key_chars) {
        if social.dialogue[k].lines.len() > 0 {
            return pick_line(&social.dialogue[k].lines);
        }
    }
    if let Some(p) = partner {
        let pc = chars_of(p);
        if let Some(j) = find_partner(&social.relationships, &pc) {
            let card = &social.relationships[j];
            proof {
                lemma_first_match_bounds(card.dialogue@, key_is(key));
            }
            if let Some(k) = find_entry(&card.dialogue, &key_chars) {
                if card.dialogue[k].lines.len() > 0 {
                    return pick_line(&card.dialogue[k].lines);
                }
            }
        }
    }
    generic_line(scene, role)
}

/// Whether either card allows romance between the two pets.
pub open spec fn spec_romance_allowed(first_id: Seq<char>, first: SocialCard, second_id: Seq<char>, second: SocialCard) -> bool {
    ||| (first_match(first.relationships@, partner_is(second_id)) matches Some(k) && first.relationships@[k].romance_allowed)
    ||| (first_match(second.relationships@, partner_is(first_id)) matches Some(k) && second.relationships@[k].romance_allowed)
}

/// Whether the cards of `first_id` and `second_id` allow them to date.
pub fn romance_allowed(first_id: &str, first: &SocialCard, second_id: &str, second: &SocialCard) -> (r: bool)
    ensures
        r == spec_romance_allowed(first_id@, *first, second_id@, *second),
{
    let a = chars_of(second_id);
    let b = chars_of(first_id);
    proof {
        lemma_first_match_bounds(first.relationships@, partner_is(second_id@));
        lemma_first_match_bounds(second.relationships@, partner_is(first_id@));
    }
    let one = match find_partner(&first.relationships, &a) {
        Some(k) => first.relationships[k].romance_allowed,
        None => false,
    };
    let two = match find_partner(&second.relationships, &b) {
        Some(k) => second.relationships[k].romance_allowed,
        None => false,
    };
    one || two
}

/// One pet's part in a scene: who, in which role, saying what.
#[derive(Clone, Debug)]
pub struct ActorLine {
    pub pet_id: String,
    pub role: String,
    pub say: String,
}

/// A directed change in how one pet feels about another.
#[derive(Clone, Debug)]
pub struct RelationshipSignal {
    pub from: String,
    pub to: String,
    pub change: String,
}

/// A scene proposed by the AI director, before validation.
#[derive(Clone, Debug)]
pub struct SceneDecision {
    pub scene: String,
    pub participants: Vec<ActorLine>,
    pub prop: Option<String>,
    pub relationship_signals: Vec<RelationshipSignal>,
}

/// A validated scene: catalogue name, prop, signals and the actors in order.
#[derive(Clone, Debug)]
pub struct CompiledScene {
    pub scene: String,
    pub prop: Option<String>,
    pub relationship_signals: Vec<RelationshipSignal>,
    pub actors: Vec<ActorLine>,
}

pub open spec fn line_view(a: ActorLine) -> (Seq<char>, Seq<char>, Seq<char>) {
    (a.pet_id@, a.role@, a.say@)
}

pub open spec fn lines_view(s: Seq<ActorLine>) -> Seq<(Seq<char>, Seq<char>, Seq<char>)> {
    s.map_values(|a: ActorLine| line_view(a))
}

pub open spec fn string_views(s: Seq<String>) -> Seq<Seq<char>> {
    s.map_values(|x: String| x@)
}

/// The role a director-chosen actor keeps: trimmed, `friend` when blank, at
/// most 32 characters.
pub open spec fn director_role(role: Seq<char>) -> Seq<char> {
    let t = trim(role);
    take_chars(if t.len() == 0 { "friend"@ } else { t }, 32)
}

/// Whether `id` is already the pet of one of `acc`.
pub open spec fn has_pet(acc: Seq<(Seq<char>, Seq<char>, Seq<char>)>, id: Seq<char>) -> bool {
    exists|k: int| 0 <= k < acc.len() && acc[k].0 == id
}

/// The director's actors that survive validation: candidates only, each pet
/// once (first mention wins), roles cleaned, lines cut to 80 characters.
pub open spec fn director_actors(candidates: Seq<Seq<char>>, parts: Seq<ActorLine>) -> Seq<(Seq<char>, Seq<char>, Seq<char>)>
    decreases parts.len(),
{
    if parts.len() == 0 {
        Seq::empty()
    } else {
        let acc = director_actors(candidates, parts.drop_last());
        let a = parts.last();
        if candidates.contains(a.pet_id@) && !has_pet(acc, a.pet_id@) {
            acc.push((a.pet_id@, director_role(a.role@), take_chars(a.say@, 80)))
        } else {
            acc
        }
    }
}

/// The director can only cast candidates, and each at most once: every
/// validated actor is one of the candidates, and no pet plays twice.
pub proof fn law_director_casts_only_candidates(candidates: Seq<Seq<char>>, parts: Seq<ActorLine>)
    ensures
        forall|k: int| 0 <= k < director_actors(candidates, parts).len()
            ==> candidates.contains(#[trigger] director_actors(candidates, parts)[k].0),
        forall|j: int, k: int| 0 <= j < k < director_actors(candidates, parts).len()
            ==> #[trigger] director_actors(candidates, parts)[j].0 != #[trigger] director_actors(candidates, parts)[k].0,
    decreases parts.len(),
{
    if parts.len() > 0 {
        law_director_casts_only_candidates(candidates, parts.drop_last());
        let acc = director_actors(candidates, parts.drop_last());
        let a = parts.last();
        if candidates.contains(a.pet_id@) && !has_pet(acc, a.pet_id@) {
            let r = acc.push((a.pet_id@, director_role(a.role@), take_chars(a.say@, 80)));
            assert forall|j: int, k: int| 0 <= j < k < r.len() implies #[trigger] r[j].0 != #[trigger] r[k].0 by {
                if k == acc.len() {
                    assert(r[j] == acc[j]);
                }
            }
        }
    }
}

/// The scene the director's decision validates to, if it does.
pub open spec fn spec_director_scene(candidates: Seq<Seq<char>>, d: SceneDecision) -> Option<Seq<char>> {
    let acts = director_actors(candidates, d.participants@);
    if acts.len() >= 2 {
        spec_valid_scene(d.scene@, acts.len())
    } else {
        None
    }
}

fn contains_id(ids: &Vec<String>, id: &Vec<char>) -> (r: bool)
    ensures
        r == string_views(ids@).contains(id@),
{
    let mut i: usize = 0;
    while i < ids.len()
        invariant
            i <= ids.len(),
            forall|k: int| 0 <= k < i ==> ids@[k]@ != id@,
        decreases ids.len() - i,
    {
        let c = chars_of(ids[i].as_str());
        if chars_eq(&c, id) {
            assert(string_views(ids@)[i as int] == id@);
            return true;
        }
        i = i + 1;
    }
    assert(!string_views(ids@).contains(id@)) by {
        if string_views(ids@).contains(id@) {
            let k = choose|k: int| 0 <= k < ids.len() && string_views(ids@)[k] == id@;
            assert(ids@[k]@ != id@);
        }
    }
    false
}

fn has_pet_exec(acc: &Vec<ActorLine>, id: &Vec<char>) -> (r: bool)
    ensures
        r == has_pet(lines_view(acc@), id@),
{
    let mut i: usize = 0;
    while i < acc.len()
        invariant
            i <= acc.len(),
            forall|k: int| 0 <= k < i ==> acc@[k].pet_id@ != id@,
        decreases acc.len() - i,
    {
        let c = chars_of(acc[i].pet_id.as_str());
        if chars_eq(&c, id) {
            assert(lines_view(acc@)[i as int].0 == id@);
            return true;
        }
        i = i + 1;
    }
    assert(!has_pet(lines_view(acc@), id@)) by {
        if has_pet(lines_view(acc@), id@) {
            let k = choose|k: int| 0 <= k < acc.len() && lines_view(acc@)[k].0 == id@;
            assert(acc@[k].pet_id@ != id@);
        }
    }
    false
}

/// Validates the director's decision against the candidate pets. `Some`
/// exactly when at least two distinct candidates take part and the scene is
/// in the catalogue for that many pets.
pub fn compile_director_decision(candidates: &Vec<String>, decision: SceneDecision) -> (r: Option<CompiledScene>)
    ensures
        r is Some <==> spec_director_scene(string_views(candidates@), decision) is Some,
        r matches Some(c) ==> {
            &&& spec_director_scene(string_views(candidates@), decision) == Some(c.scene@)
            &&& lines_view(c.actors@) == director_actors(string_views(candidates@), decision.participants@)
            &&& c.relationship_signals@ == decision.relationship_signals@
            &&& (c.prop matches Some(p) ==> spec_valid_prop(opt_view(decision.prop)) == Some(p@))
            &&& (c.prop is None ==> spec_valid_prop(opt_view(decision.prop)) is None)
        },
        r matches Some(c) ==> c.actors@.len() >= 2 && forall|k: int| 0 <= k < c.actors@.len()
            ==> string_views(candidates@).contains(#[trigger] c.actors@[k].pet_id@),
{
    let ghost cands = string_views(candidates@);
    let mut actors: Vec<ActorLine> = Vec::new();
    let mut i: usize = 0;
    let parts = &decision.participants;
    while i < parts.len()
        invariant
            i <= parts.len(),
            cands == string_views(candidates@),
            lines_view(actors@) == director_actors(cands, parts@.take(i as int)),
        decreases parts.len() - i,
    {
        let a = &parts[i];
        let id = chars_of(a.pet_id.as_str());
        assert(parts@.take(i + 1).drop_last() =~= parts@.take(i as int));
        assert(parts@.take(i + 1).last() == parts@[i as int]);
        if contains_id(candidates, &id) && !has_pet_exec(&actors, &id) {
            let rc = chars_of(a.role.as_str());
            let rt = trim_ws(&rc);
            let base = if rt.len() == 0 { chars_of("friend") } else { rt };
            let role = take_chars_vec(&base, 32);
            let sc = chars_of(a.say.as_str());
            let say = take_chars_vec(&sc, 80);
            let line = ActorLine { pet_id: a.pet_id.clone(), role: string_of(&role), say: string_of(&say) };
            let ghost before = actors@;
            actors.push(line);
            assert(lines_view(actors@) =~= lines_view(before).push(line_view(line)));
        }
        i = i + 1;
    }
    assert(parts@.take(parts.len() as int) =~= parts@);
    proof {
        law_director_casts_only_candidates(cands, decision.participants@);
    }
    assert(lines_view(actors@) == director_actors(cands, decision.participants@));
    assert forall|k: int| 0 <= k < actors@.len() implies cands.contains(#[trigger] actors@[k].pet_id@) by {
        assert(lines_view(actors@)[k] == line_view(actors@[k]));
        assert(director_actors(cands, decision.participants@)[k].0 == actors@[k].pet_id@);
    }
    if actors.len() < 2 {
        return None;
    }
    let scene = valid_scene(decision.scene.as_str(), actors.len());
    match scene {
        Some(scene) => {
            let prop = match &decision.prop {
                Some(p) => valid_prop(Some(p.as_str())),
                None => valid_prop(None),
            };
            Some(CompiledScene { scene, prop, relationship_signals: decision.relationship_signals, actors })
        },
        None => None,
    }
}

/// The scenes a proximity meeting can start with.
pub open spec fn proximity_scenes() -> Seq<Seq<char>> {
    seq!["greet"@, "whisper"@, "nuzzle"@, "bump"@]
}

pub open spec fn not_previous(previous: Option<Seq<char>>) -> spec_fn(Seq<char>) -> bool {
    |s: Seq<char>| Some(s) != previous
}

/// The locally chosen scene's possible values: a proximity meeting avoids
/// repeating the pair's previous proximity scene; any other trigger draws
/// from the catalogue for the group size.
pub open spec fn fallback_choices(count: nat, trigger: Seq<char>, previous: Option<Seq<char>>) -> Seq<Seq<char>> {
    if trigger == "proximity"@ {
        proximity_scenes().filter(not_previous(previous))
    } else {
        spec_scene_options(count)
    }
}

/// A scene chosen without the director.
pub fn fallback_scene(count: usize, trigger: &str, previous: Option<&str>) -> (r: String)
    ensures
        fallback_choices(count as nat, trigger@, match previous { Some(p) => Some(p@), None => None }).contains(r@),
{
    let ghost gp: Option<Seq<char>> = match previous { Some(p) => Some(p@), None => None };
    let t = chars_of(trigger);
    if chars_eq_str(&t, "proximity") {
        let all: Vec<&'static str> = vec!["greet", "whisper", "nuzzle", "bump"];
        assert(views(all@) =~= proximity_scenes());
        let prev: Option<Vec<char>> = match previous { Some(p) => Some(chars_of(p)), None => None };
        let mut choices: Vec<&'static str> = Vec::new();
        let mut i: usize = 0;
        while i < all.len()
            invariant
                i <= all.len(),
                views(all@) == proximity_scenes(),
                gp == match prev { Some(p) => Some(p@), None => None::<Seq<char>> },
                views(choices@) == views(all@).take(i as int).filter(not_previous(gp)),
            decreases all.len() - i,
        {
            let keep = match &prev {
                Some(p) => !chars_eq_str(p, all[i]),
                None => true,
            };
            let ghost before = choices@;
            assert(views(all@).take(i + 1) =~= views(all@).take(i as int).push(all@[i as int]@));
            proof {
                views(all@).take(i as int).lemma_filter_push(all@[i as int]@, not_previous(gp));
            }
            if keep {
                choices.push(all[i]);
                assert(views(choices@) =~= views(before).push(all@[i as int]@));
            }
            i = i + 1;
        }
        assert(views(all@).take(4) =~= views(all@));
        proof {
            reveal_strlit("greet");
            reveal_strlit("whisper");
            assert("greet"@.len() != "whisper"@.len());
            if not_previous(gp)(proximity_scenes()[0]) {
                proximity_scenes().lemma_filter_contains(not_previous(gp), 0);
            } else {
                proximity_scenes().lemma_filter_contains(not_previous(gp), 1);
            }
        }
        let k = random_index(choices.len());
        let out = String::from_str(choices[k]);
        assert(views(choices@)[k as int] == out@);
        out
    } else {
        let options = scene_options(count);
        assert(views(options@).len() == options@.len());
        assert(spec_scene_options(count as nat).len() > 0);
        let k = random_index(options.len());
        let out = String::from_str(options[k]);
        assert(views(options@)[k as int] == out@);
        out
    }
}

pub open spec fn differs_from(id: Seq<char>) -> spec_fn(Seq<char>) -> bool {
    |c: Seq<char>| c != id
}

/// The partner a candidate talks to in a local scene: the first other pet.
pub open spec fn partner_of(cands: Seq<Seq<char>>, i: int) -> Option<Seq<char>> {
    match first_match(cands, differs_from(cands[i])) {
        Some(k) => Some(cands[k]),
        None => None,
    }
}

/// What a locally compiled scene promises for the candidates.
pub open spec fn local_scene_ok(
    cands: Seq<Seq<char>>,
    socials: Seq<SocialCard>,
    trigger: Seq<char>,
    previous: Option<Seq<char>>,
    c: CompiledScene,
) -> bool {
    &&& fallback_choices(cands.len(), trigger, previous).contains(c.scene@)
    &&& opt_view(c.prop) == spec_default_prop(c.scene@)
    &&& c.relationship_signals@.len() == 0
    &&& c.actors@.len() == cands.len()
    &&& forall|i: int| #![trigger c.actors@[i]] 0 <= i < cands.len() ==> {
        &&& c.actors@[i].pet_id@ == cands[i]
        &&& c.actors@[i].role@ == spec_role_for(c.scene@, i as nat)
        &&& dialogue_choices(socials[i], c.scene@, c.actors@[i].role@, partner_of(cands, i)).contains(c.actors@[i].say@)
    }
}

fn partner_index(cands: &Vec<String>, i: usize) -> (r: Option<usize>)
    requires
        i < cands.len(),
    ensures
        r matches Some(k) ==> k < cands.len() && partner_of(string_views(cands@), i as int) == Some(cands@[k as int]@),
        r is None ==> partner_of(string_views(cands@), i as int) is None,
{
    let ghost v = string_views(cands@);
    let me = chars_of(cands[i].as_str());
    let mut j: usize = 0;
    while j < cands.len()
        invariant
            j <= cands.len(),
            i < cands.len(),
            v == string_views(cands@),
            me@ == v[i as int],
            first_match(v, differs_from(v[i as int])) == first_match_from(v, differs_from(v[i as int]), j as nat),
        decreases cands.len() - j,
    {
        let c = chars_of(cands[j].as_str());
        if !chars_eq(&c, &me) {
            return Some(j);
        }
        j = j + 1;
    }
    None
}

/// The scene that is played: the director's decision when it validates,
/// otherwise a locally chosen scene with catalogue roles, card dialogue and
/// the scene's default prop.
pub fn compile_decision(
    candidates: &Vec<String>,
    socials: &Vec<SocialCard>,
    decision: Option<SceneDecision>,
    trigger: &str,
    previous: Option<&str>,
) -> (r: CompiledScene)
    requires
        socials.len() == candidates.len(),
    ensures
        match decision {
            Some(d) if spec_director_scene(string_views(candidates@), d) is Some => {
                &&& spec_director_scene(string_views(candidates@), d) == Some(r.scene@)
                &&& lines_view(r.actors@) == director_actors(string_views(candidates@), d.participants@)
                &&& r.relationship_signals@ == d.relationship_signals@
                &&& opt_view(r.prop) == spec_valid_prop(opt_view(d.prop))
            },
            _ => local_scene_ok(
                string_views(candidates@),
                socials@,
                trigger@,
                match previous { Some(p) => Some(p@), None => None },
                r,
            ),
        },
        forall|k: int| 0 <= k < r.actors@.len() ==> string_views(candidates@).contains(#[trigger] r.actors@[k].pet_id@),
{
    let ghost cands = string_views(candidates@);
    if let Some(d) = decision {
        let ghost gd = d;
        if let Some(c) = compile_director_decision(candidates, d) {
            return c;
        }
        assert(spec_director_scene(cands, gd) is None);
    }
    let scene = fallback_scene(candidates.len(), trigger, previous);
    let mut actors: Vec<ActorLine> = Vec::new();
    let mut i: usize = 0;
    while i < candidates.len()
        invariant
            i <= candidates.len(),
            socials.len() == candidates.len(),
            cands == string_views(candidates@),
            actors@.len() == i,
            forall|k: int| #![trigger actors@[k]] 0 <= k < i ==> {
                &&& actors@[k].pet_id@ == cands[k]
                &&& actors@[k].role@ == spec_role_for(scene@, k as nat)
                &&& dialogue_choices(socials@[k], scene@, actors@[k].role@, partner_of(cands, k)).contains(actors@[k].say@)
            },
        decreases candidates.len() - i,
    {
        let role = role_for(scene.as_str(), i);
        let partner = partner_index(candidates, i);
        let say = match partner {
            Some(k) => local_dialogue(&socials[i], scene.as_str(), role.as_str(), Some(candidates[k].as_str())),
            None => local_dialogue(&socials[i], scene.as_str(), role.as_str(), None),
        };
        actors.push(ActorLine { pet_id: candidates[i].clone(), role, say });
        i = i + 1;
    }
    assert forall|k: int| 0 <= k < actors@.len() implies cands.contains(#[trigger] actors@[k].pet_id@) by {
        assert(cands[k] == actors@[k].pet_id@);
    }
    let prop = default_prop(scene.as_str());
    CompiledScene { scene, prop, relationship_signals: Vec::new(), actors }
}

pub open spec fn spec_phase_animation(phase: Seq<char>, scene: Seq<char>, actor_count: nat) -> Seq<char> {
    if phase == "approach"@ {
        if actor_count == 2 { "running"@ } else { "walking"@ }
    } else if phase == "face"@ {
        "idle"@
    } else if phase == "interaction"@ {
        if scene == "sync-jump"@ || scene == "group-cheer"@ || scene == "kick-and-chase"@ || scene
            == "pass"@ || scene == "fetch"@ {
            "jumping"@
        } else if scene == "group-nap"@ {
            "waiting"@
        } else {
            "waving"@
        }
    } else {
        "idle"@
    }
}

/// The animation every actor plays in a scene phase.
pub fn phase_animation(phase: &str, scene: &str, actor_count: usize) -> (r: &'static str)
    ensures
        r@ == spec_phase_animation(phase@, scene@, actor_count as nat),
{
    let p = chars_of(phase);
    let s = chars_of(scene);
    if chars_eq_str(&p, "approach") {
        if actor_count == 2 { "running" } else { "walking" }
    } else if chars_eq_str(&p, "face") {
        "idle"
    } else if chars_eq_str(&p, "interaction") {
        if chars_eq_str(&s, "sync-jump") || chars_eq_str(&s, "group-cheer") || chars_eq_str(
            &s,
            "kick-and-chase",
        ) || chars_eq_str(&s, "pass") || chars_eq_str(&s, "fetch") {
            "jumping"
        } else if chars_eq_str(&s, "group-nap") {
            "waiting"
        } else {
            "waving"
        }
    } else {
        "idle"
    }
}

pub open spec fn spec_scene_effect(scene: Seq<char>) -> Seq<char> {
    if scene == "nuzzle"@ || scene == "comfort"@ || scene == "reconcile"@ {
        "heart"@
    } else if scene == "sync-jump"@ || scene == "group-cheer"@ || scene == "kick-and-chase"@
        || scene == "pass"@ || scene == "fetch"@ {
        "star"@
    } else if scene == "chase"@ || scene == "tag"@ || scene == "toy-scramble"@ {
        "dust"@
    } else if scene == "share-snack"@ {
        "food"@
    } else {
        "sparkle"@
    }
}

/// The effect shown over a speaking actor.
pub fn scene_effect(scene: &str) -> (r: &'static str)
    ensures
        r@ == spec_scene_effect(scene@),
{
    let s = chars_of(scene);
    if chars_eq_str(&s, "nuzzle") || chars_eq_str(&s, "comfort") || chars_eq_str(&s, "reconcile") {
        "heart"
    } else if chars_eq_str(&s, "sync-jump") || chars_eq_str(&s, "group-cheer") || chars_eq_str(
        &s,
        "kick-and-chase",
    ) || chars_eq_str(&s, "pass") || chars_eq_str(&s, "fetch") {
        "star"
    } else if chars_eq_str(&s, "chase") || chars_eq_str(&s, "tag") || chars_eq_str(
        &s,
        "toy-scramble",
    ) {
        "dust"
    } else if chars_eq_str(&s, "share-snack") {
        "food"
    } else {
        "sparkle"
    }
}

/// Scenes played as a moving pursuit rather than a glide to fixed spots.
pub open spec fn spec_chase_scene(scene: Seq<char>) -> bool {
    scene == "chase"@ || scene == "tag"@ || scene == "chain-chase"@ || scene == "follow"@ || scene
        == "kick-and-chase"@
}

pub fn chase_scene(scene: &str) -> (r: bool)
    ensures
        r == spec_chase_scene(scene@),
{
    let s = chars_of(scene);
    chars_eq_str(&s, "chase") || chars_eq_str(&s, "tag") || chars_eq_str(&s, "chain-chase")
        || chars_eq_str(&s, "follow") || chars_eq_str(&s, "kick-and-chase")
}

/// The id of the `sequence`-th social scene, planned at `now`:
/// `social-<now>-<sequence>`.
pub fn next_scene_id(now: u64, sequence: u64) -> (r: String)
    ensures
        r@ == numbered_id("social"@, now, sequence),
{
    numbered_id_exec("social", now, sequence)
}

/// The first of `lines` spoken by `id`.
pub open spec fn line_of_from(lines: Seq<ActorLine>, id: Seq<char>, i: nat) -> Option<int>
    decreases lines.len() - i,
{
    if i >= lines.len() {
        None
    } else if lines[i as int].pet_id@ == id {
        Some(i as int)
    } else {
        line_of_from(lines, id, i + 1)
    }
}

pub proof fn lemma_line_of_from(lines: Seq<ActorLine>, id: Seq<char>, i: nat)
    ensures
        line_of_from(lines, id, i) matches Some(k) ==> i <= k < lines.len() && lines[k].pet_id@ == id,
        line_of_from(lines, id, i) is None ==> forall|k: int| i <= k < lines.len() ==> lines[k].pet_id@ != id,
    decreases lines.len() - i,
{
    if i < lines.len() && lines[i as int].pet_id@ != id {
        lemma_line_of_from(lines, id, i + 1);
    }
}

/// The candidates (by index) that have a line, in candidate order.
pub open spec fn with_lines(cands: Seq<Seq<char>>, lines: Seq<ActorLine>, n: nat) -> Seq<int>
    decreases n,
{
    if n == 0 {
        Seq::empty()
    } else {
        let rest = with_lines(cands, lines, (n - 1) as nat);
        if line_of_from(lines, cands[n - 1], 0) is Some { rest.push(n - 1) } else { rest }
    }
}

/// Who acts in a planned scene: the candidates the scene has lines for, or
/// every candidate when fewer than two have one.
pub open spec fn plan_cast(cands: Seq<Seq<char>>, lines: Seq<ActorLine>) -> Seq<int> {
    let w = with_lines(cands, lines, cands.len());
    if w.len() >= 2 { w } else { Seq::new(cands.len(), |i: int| i) }
}

/// An actor of a planned scene, at position `k` of the cast: its own line
/// with its role (the catalogue role when the line gives none), or, without
/// a line, the catalogue role and a line from its card.
pub open spec fn planned_actor_ok(a: ActorLine, k: int, c: int, cands: Seq<Seq<char>>, socials: Seq<SocialCard>, compiled: CompiledScene) -> bool {
    let role = spec_role_for(compiled.scene@, k as nat);
    &&& a.pet_id@ == cands[c]
    &&& match line_of_from(compiled.actors@, cands[c], 0) {
        Some(j) => {
            &&& a.role@ == (if compiled.actors@[j].role@.len() == 0 { role } else { compiled.actors@[j].role@ })
            &&& a.say@ == compiled.actors@[j].say@
        },
        None => {
            &&& a.role@ == role
            &&& dialogue_choices(socials[c], compiled.scene@, role, partner_of(cands, c)).contains(a.say@)
        },
    }
}

fn line_of(lines: &Vec<ActorLine>, id: &Vec<char>) -> (r: Option<usize>)
    ensures
        match r {
            Some(i) => Some(i as int),
            None => None,
        } == line_of_from(lines@, id@, 0),
        r matches Some(i) ==> i < lines.len(),
{
    proof {
        lemma_line_of_from(lines@, id@, 0);
    }
    let mut i: usize = 0;
    while i < lines.len()
        invariant
            i <= lines.len(),
            line_of_from(lines@, id@, 0) == line_of_from(lines@, id@, i as nat),
        decreases lines.len() - i,
    {
        if chars_eq(&chars_of(lines[i].pet_id.as_str()), id) {
            return Some(i);
        }
        i = i + 1;
    }
    None
}

/// The actors of a planned scene.
pub fn plan_actors(candidates: &Vec<String>, socials: &Vec<SocialCard>, compiled: &CompiledScene) -> (r: Vec<ActorLine>)
    requires
        socials.len() == candidates.len(),
    ensures
        ({
            let cast = plan_cast(string_views(candidates@), compiled.actors@);
            &&& r@.len() == cast.len()
            &&& forall|k: int| 0 <= k < cast.len() ==> #[trigger] planned_actor_ok(r@[k], k, cast[k], string_views(candidates@), socials@, *compiled)
        }),
{
    let ghost cands = string_views(candidates@);
    let mut cast: Vec<usize> = Vec::new();
    let mut i: usize = 0;
    while i < candidates.len()
        invariant
            i <= candidates.len(),
            cands == string_views(candidates@),
            cast@.len() == with_lines(cands, compiled.actors@, i as nat).len(),
            forall|k: int| 0 <= k < cast@.len() ==> #[trigger] cast@[k] as int == with_lines(cands, compiled.actors@, i as nat)[k] && cast@[k] < i,
        decreases candidates.len() - i,
    {
        if line_of(&compiled.actors, &chars_of(candidates[i].as_str())).is_some() {
            cast.push(i);
        }
        i = i + 1;
    }
    if cast.len() < 2 {
        cast = Vec::new();
        let mut j: usize = 0;
        while j < candidates.len()
            invariant
                j <= candidates.len(),
                cast@.len() == j,
                forall|k: int| 0 <= k < j ==> #[trigger] cast@[k] as int == k,
            decreases candidates.len() - j,
        {
            cast.push(j);
            j = j + 1;
        }
    }
    let ghost cs = plan_cast(cands, compiled.actors@);
    assert(cast@.len() == cs.len());
    assert(forall|k: int| 0 <= k < cs.len() ==> #[trigger] cast@[k] as int == cs[k] && cast@[k] < candidates.len());
    let mut actors: Vec<ActorLine> = Vec::new();
    let mut k: usize = 0;
    while k < cast.len()
        invariant
            k <= cast.len(),
            cands == string_views(candidates@),
            socials.len() == candidates.len(),
            cs == plan_cast(cands, compiled.actors@),
            cast@.len() == cs.len(),
            forall|m: int| 0 <= m < cs.len() ==> #[trigger] cast@[m] as int == cs[m] && cast@[m] < candidates.len(),
            actors@.len() == k,
            forall|m: int| 0 <= m < k ==> #[trigger] planned_actor_ok(actors@[m], m, cs[m], cands, socials@, *compiled),
        decreases cast.len() - k,
    {
        let c = cast[k];
        assert(cast@[k as int] as int == cs[k as int]);
        let id = chars_of(candidates[c].as_str());
        let role = role_for(compiled.scene.as_str(), k);
        let actor = match line_of(&compiled.actors, &id) {
            Some(j) => {
                let line = &compiled.actors[j];
                let r = if line.role.as_str().is_empty() { role } else { line.role.clone() };
                ActorLine { pet_id: candidates[c].clone(), role: r, say: line.say.clone() }
            },
            None => {
                let partner = partner_index(candidates, c);
                let say = match partner {
                    Some(p) => local_dialogue(&socials[c], compiled.scene.as_str(), role.as_str(), Some(candidates[p].as_str())),
                    None => local_dialogue(&socials[c], compiled.scene.as_str(), role.as_str(), None),
                };
                ActorLine { pet_id: candidates[c].clone(), role, say }
            },
        };
        actors.push(actor);
        k = k + 1;
    }
    actors
}

/// The prop of a planned scene: none while props are off, else the
/// compiled prop or the scene's default one.
pub fn plan_prop(props_enabled: bool, compiled_prop: Option<String>, scene: &str) -> (r: Option<String>)
    ensures
        opt_view(r) == if !props_enabled {
            None
        } else {
            match compiled_prop {
                Some(p) => Some(p@),
                None => spec_default_prop(scene@),
            }
        },
{
    if !props_enabled {
        return None;
    }
    match compiled_prop {
        Some(p) => Some(p),
        None => default_prop(scene),
    }
}

/// One beat of a scene after its actors arrived: the phase shown, how long
/// it is held, whether a cancelled scene skips it, and whether it is shown
/// only when the previous hold ran to its end.
#[derive(Clone, Copy, Debug)]
pub struct SceneBeat {
    pub phase: &'static str,
    pub hold_ms: u64,
    pub skip_when_cancelled: bool,
    pub after_full_hold: bool,
}

pub open spec fn beat_is(b: SceneBeat, phase: Seq<char>, hold_ms: u64, skip: bool, after: bool) -> bool {
    b.phase@ == phase && b.hold_ms == hold_ms && b.skip_when_cancelled == skip && b.after_full_hold == after
}

/// The beats after arrival: a chase or a played prop only settles (longer
/// after a chase); other scenes face each other, interact once the facing
/// beat was held through, and settle.
pub fn scene_beats(scene: &str, prop_played: bool) -> (r: Vec<SceneBeat>)
    ensures
        prop_played ==> r@.len() == 1 && beat_is(r@[0], "settle"@, 600, true, false),
        !prop_played && spec_chase_scene(scene@) ==> r@.len() == 1 && beat_is(r@[0], "settle"@, 900, true, false),
        !prop_played && !spec_chase_scene(scene@) ==> r@.len() == 3 && beat_is(r@[0], "face"@, 360, false, false)
            && beat_is(r@[1], "interaction"@, 2_400, true, true) && beat_is(r@[2], "settle"@, 600, true, false),
{
    let mut r: Vec<SceneBeat> = Vec::new();
    if prop_played {
        r.push(SceneBeat { phase: "settle", hold_ms: 600, skip_when_cancelled: true, after_full_hold: false });
    } else if chase_scene(scene) {
        r.push(SceneBeat { phase: "settle", hold_ms: 900, skip_when_cancelled: true, after_full_hold: false });
    } else {
        r.push(SceneBeat { phase: "face", hold_ms: 360, skip_when_cancelled: false, after_full_hold: false });
        r.push(SceneBeat { phase: "interaction", hold_ms: 2_400, skip_when_cancelled: true, after_full_hold: true });
        r.push(SceneBeat { phase: "settle", hold_ms: 600, skip_when_cancelled: true, after_full_hold: false });
    }
    r
}

/// How many hand-overs a prop makes among `m` places (at least two): a
/// football goes back and forth twice in `fetch` and round the group twice
/// otherwise; a plush or ribbon is tugged six times in `tug` and goes round
/// the group twice otherwise; other props are not handed over.
pub open spec fn pass_rounds(scene: Seq<char>, prop: Seq<char>, m: int) -> int {
    if prop == "football"@ {
        if scene == "fetch"@ { 2 } else { 2 * m }
    } else if prop == "plush"@ || prop == "ribbon"@ {
        if scene == "tug"@ { 6 } else { 2 * m }
    } else {
        0
    }
}

/// Who hands the prop to whom in `round`: in `fetch` the ball goes between
/// the first two places, otherwise round the `m` places in order; the
/// receiver is the next place, wrapping to the first.
pub open spec fn pass_pair(scene: Seq<char>, prop: Seq<char>, m: int, round: int) -> (int, int) {
    let from = if prop == "football"@ && scene == "fetch"@ { round % 2 } else { round % m };
    (from, if from + 1 < m { from + 1 } else { 0 })
}

/// The hand-overs of the first `k` rounds among `n` actors, leaving out
/// those that name a place with no actor.
pub open spec fn passes_upto(scene: Seq<char>, prop: Seq<char>, n: nat, k: nat) -> Seq<(usize, usize)>
    decreases k,
{
    if k == 0 {
        Seq::empty()
    } else {
        let before = passes_upto(scene, prop, n, (k - 1) as nat);
        let m = if n < 2 { 2 } else { n as int };
        let p = pass_pair(scene, prop, m, k - 1);
        if p.0 < n && p.1 < n {
            before.push((p.0 as usize, p.1 as usize))
        } else {
            before
        }
    }
}

/// The moves of a prop played with by `n` actors: a snack visits each
/// actor in turn (written `(i, i)`); a football, plush or ribbon is handed
/// from one actor to the next as `pass_rounds` and `pass_pair` say.
pub open spec fn prop_schedule(scene: Seq<char>, prop: Seq<char>, n: nat) -> Seq<(usize, usize)> {
    if prop == "snack"@ {
        Seq::new(n, |i: int| (i as usize, i as usize))
    } else {
        let m = if n < 2 { 2 } else { n as int };
        passes_upto(scene, prop, n, pass_rounds(scene, prop, m) as nat)
    }
}

/// The moves of a prop in a prop scene, in order.
pub fn prop_pass_schedule(scene: &str, prop: &str, actor_count: usize) -> (r: Vec<(usize, usize)>)
    requires
        actor_count <= usize::MAX / 2,
    ensures
        r@ == prop_schedule(scene@, prop@, actor_count as nat),
{
    let s = chars_of(scene);
    let p = chars_of(prop);
    let mut r: Vec<(usize, usize)> = Vec::new();
    if chars_eq_str(&p, "snack") {
        let mut i: usize = 0;
        while i < actor_count
            invariant
                i <= actor_count,
                r@ =~= Seq::new(i as nat, |k: int| (k as usize, k as usize)),
            decreases actor_count - i,
        {
            r.push((i, i));
            i = i + 1;
        }
        return r;
    }
    let m: usize = if actor_count < 2 { 2 } else { actor_count };
    let football = chars_eq_str(&p, "football");
    let fetch = chars_eq_str(&s, "fetch");
    let rounds: usize = if football {
        if fetch { 2 } else { m * 2 }
    } else if chars_eq_str(&p, "plush") || chars_eq_str(&p, "ribbon") {
        if chars_eq_str(&s, "tug") { 6 } else { m * 2 }
    } else {
        0
    };
    assert(rounds == pass_rounds(scene@, prop@, m as int));
    let mut round: usize = 0;
    while round < rounds
        invariant
            round <= rounds,
            m == (if actor_count < 2 { 2 } else { actor_count as int }),
            football == (prop@ == "football"@),
            fetch == (scene@ == "fetch"@),
            r@ == passes_upto(scene@, prop@, actor_count as nat, round as nat),
        decreases rounds - round,
    {
        let from: usize = if football && fetch { round % 2 } else { round % m };
        let to: usize = if from + 1 < m { from + 1 } else { 0 };
        assert((from as int, to as int) == pass_pair(scene@, prop@, m as int, round as int));
        if from < actor_count && to < actor_count {
            r.push((from, to));
        }
        round = round + 1;
    }
    r
}

/// The index pairs `(i, j)`, `i < j < n`, row by row.
pub open spec fn index_pairs(n: nat, i: nat) -> Seq<(usize, usize)>
    decreases n - i,
{
    if i >= n {
        Seq::empty()
    } else {
        Seq::new((n - i - 1) as nat, |k: int| (i as usize, (i + 1 + k) as usize)) + index_pairs(n, i + 1)
    }
}

/// The actor pairs whose relationship a finished scene records.
pub fn scene_pairs(n: usize) -> (r: Vec<(usize, usize)>)
    ensures
        r@ == index_pairs(n as nat, 0),
{
    let mut r: Vec<(usize, usize)> = Vec::new();
    let mut i: usize = 0;
    while i < n
        invariant
            i <= n,
            r@ + index_pairs(n as nat, i as nat) == index_pairs(n as nat, 0),
        decreases n - i,
    {
        let ghost before = r@;
        let ghost row = Seq::new((n - i - 1) as nat, |k: int| (i as usize, (i + 1 + k) as usize));
        let mut j: usize = i + 1;
        while j < n
            invariant
                i < j <= n,
                row == Seq::new((n - i - 1) as nat, |k: int| (i as usize, (i + 1 + k) as usize)),
                r@ == before + row.take(j - i - 1),
            decreases n - j,
        {
            r.push((i, j));
            assert(row.take(j - i) =~= row.take(j - i - 1).push((i, j)));
            j = j + 1;
        }
        assert(row.take(j - i - 1) =~= row);
        assert(before + row + index_pairs(n as nat, (i + 1) as nat) =~= before + index_pairs(n as nat, i as nat));
        i = i + 1;
    }
    assert(r@ + index_pairs(n as nat, n as nat) =~= r@);
    r
}

} // verus!
