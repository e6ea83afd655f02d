//! Interactions with other desktop windows: scene ids, the permission gates
//! of this platform, and the checks a window scene request must pass.

use vstd::prelude::*;
use crate::chat::{numbered_id, numbered_id_exec};
use crate::relationship::{is_safe_id, spec_is_safe_id};
use crate::text::{chars_eq_str, chars_of};

verus! {

/// The id of the `sequence`-th window scene, started at `now`:
/// `window-scene-<now>-<sequence>`.
pub fn next_scene_id(now: u64, sequence: u64) -> (r: String)
    ensures
        r@ == numbered_id("window-scene"@, now, sequence),
{
    numbered_id_exec("window-scene", now, sequence)
}

/// Moving other windows needs no accessibility grant on this platform.
pub fn accessibility_granted() -> (r: bool)
    ensures
        r,
{
    true
}

/// Capturing the screen needs no recording grant on this platform.
pub fn screen_recording_granted() -> (r: bool)
    ensures
        r,
{
    true
}

/// The permission panes that can be asked for; on this platform neither
/// exists, so a valid request is answered with that.
pub fn open_permission_settings(kind: &str) -> (r: Result<(), String>)
    ensures
        (kind@ == "screen-recording"@ || kind@ == "accessibility"@) ==> (r matches Err(e) && e@ == "当前平台不需要这组 macOS 权限"@),
        !(kind@ == "screen-recording"@ || kind@ == "accessibility"@) ==> (r matches Err(e) && e@ == "无效的权限类型"@),
{
    let k = chars_of(kind);
    if !(chars_eq_str(&k, "screen-recording") || chars_eq_str(&k, "accessibility")) {
        return Err(String::from_str("无效的权限类型"));
    }
    Err(String::from_str("当前平台不需要这组 macOS 权限"))
}

/// Why a window scene cannot start, checked in this order: the request
/// itself, the pet instance, the pet's settings, the target window.
pub open spec fn spec_window_scene_refusal(
    instance_id: Seq<char>,
    mode: Seq<char>,
    instance_visible: bool,
    interaction_enabled: bool,
    paused: bool,
    quiet_mode: bool,
    target_exists: bool,
) -> Option<Seq<char>> {
    if !spec_is_safe_id(instance_id) || !(mode == "crawl"@ || mode == "sit"@) {
        Some("无效的窗口互动参数"@)
    } else if !instance_visible {
        Some("宠物实例不可用"@)
    } else if !interaction_enabled {
        Some("请先在这只宠物的独立设置中开启窗口互动"@)
    } else if paused || quiet_mode {
        Some("暂停或安静模式下不能进行窗口互动"@)
    } else if !target_exists {
        Some("目标窗口已经不存在"@)
    } else {
        None
    }
}

pub fn window_scene_refusal(
    instance_id: &str,
    mode: &str,
    instance_visible: bool,
    interaction_enabled: bool,
    paused: bool,
    quiet_mode: bool,
    target_exists: bool,
) -> (r: Option<String>)
    ensures
        match r {
            Some(e) => Some(e@),
            None => None,
        } == spec_window_scene_refusal(instance_id@, mode@, instance_visible, interaction_enabled, paused, quiet_mode, target_exists),
{
    let m = chars_of(mode);
    if !is_safe_id(instance_id) || !(chars_eq_str(&m, "crawl") || chars_eq_str(&m, "sit")) {
        Some(String::from_str("无效的窗口互动参数"))
    } else if !instance_visible {
        Some(String::from_str("宠物实例不可用"))
    } else if !interaction_enabled {
        Some(String::from_str("请先在这只宠物的独立设置中开启窗口互动"))
    } else if paused || quiet_mode {
        Some(String::from_str("暂停或安静模式下不能进行窗口互动"))
    } else if !target_exists {
        Some(String::from_str("目标窗口已经不存在"))
    } else {
        None
    }
}

} // verus!
