use sakipet::json::scene_json_candidates;
use sakipet::relationship::relationship_level;
use sakipet::scene::{default_prop, prop_scene, scene_options, valid_prop};

#[test]
fn scene_catalog_supports_pair_and_group_interactions() {
    assert!(scene_options(2).contains(&"chase"));
    assert!(scene_options(2).contains(&"kick-and-chase"));
    assert!(scene_options(2).contains(&"pass"));
    assert!(scene_options(4).contains(&"group-pile"));
    assert!(scene_options(4).contains(&"share-snack"));
    assert!(!scene_options(2).contains(&"group-pile"));
}

#[test]
fn built_in_props_keep_legacy_aliases_but_use_named_resources() {
    assert_eq!(valid_prop(Some("ball")), Some("football".to_string()));
    assert_eq!(valid_prop(Some("football")), Some("football".to_string()));
    assert_eq!(valid_prop(Some("toy")), Some("plush".to_string()));
    assert_eq!(valid_prop(Some("snack")), Some("snack".to_string()));
    assert_eq!(valid_prop(Some("unknown")), None);
}

#[test]
fn prop_scene_defaults_match_the_built_in_interactions() {
    assert_eq!(default_prop("kick-and-chase"), Some("football".to_string()));
    assert_eq!(default_prop("share-snack"), Some("snack".to_string()));
    assert_eq!(default_prop("tug"), Some("plush".to_string()));
    assert!(prop_scene("pass"));
    assert!(!prop_scene("whisper"));
}

#[test]
fn relationship_levels_are_bounded() {
    assert_eq!(relationship_level(19), 1);
    assert_eq!(relationship_level(90), 5);
}

#[test]
fn model_json_is_extracted_from_fenced_output() {
    let value = scene_json_candidates("{\"scene\":\"greet\"}")
        .iter()
        .find_map(|candidate| serde_json::from_str::<serde_json::Value>(candidate).ok())
        .unwrap();
    assert_eq!(value["scene"], "greet");
}
