use singularity_world::npc::brain_path::{
    accept_path, brain_max_dist, brain_targets_with, filter_rooms_within_dist, nearest_room, wander_room, wander_room_with,
    TargetQuery,
};
use singularity_world::npc::decision::{DecisionContext, Intent, IntentType};

fn ctx(venues: &[&str], taverns: &[&str]) -> DecisionContext {
    DecisionContext {
        room_tags: vec![],
        venue_room_ids_in_range: venues.iter().map(|s| s.to_string()).collect(),
        social_or_gate_in_range: vec![],
        wilderness_outdoor_in_range: vec![],
        tavern_in_range: taverns.iter().map(|s| s.to_string()).collect(),
    }
}

fn intent(ty: IntentType, target: &str) -> Intent {
    Intent { ty, target_room_id: target.to_string() }
}

fn show(v: &[TargetQuery]) -> Vec<String> {
    v.iter()
        .map(|q| match q {
            TargetQuery::Room { room, need_steps } => format!("room:{room}:{need_steps}"),
            TargetQuery::Nearest { tags } => format!("nearest:{}", tags.join(",")),
            TargetQuery::Wander => "wander".to_string(),
        })
        .collect()
}

#[test]
fn explicit_target_comes_first() {
    let p = brain_targets_with(&intent(IntentType::Beg, "r9"), "r1", &ctx(&[], &[]), 0);
    assert_eq!(show(&p), vec!["room:r9:true", "nearest:gate,social"]);
    let p = brain_targets_with(&intent(IntentType::Beg, "r1"), "r1", &ctx(&[], &[]), 0);
    assert_eq!(show(&p), vec!["nearest:gate,social"]);
}

#[test]
fn each_intent_has_its_fallbacks() {
    let c = ctx(&["v1", "v2"], &["t1", "t2"]);
    assert_eq!(show(&brain_targets_with(&intent(IntentType::SeekJob, ""), "r1", &c, 1)), vec!["room:v2:true", "nearest:social"]);
    assert_eq!(show(&brain_targets_with(&intent(IntentType::SeekJob, ""), "v1", &c, 2)), vec!["nearest:social"]);
    assert_eq!(show(&brain_targets_with(&intent(IntentType::Trade, ""), "r1", &c, 0)), vec!["nearest:social,gate"]);
    assert_eq!(show(&brain_targets_with(&intent(IntentType::Gather, ""), "r1", &c, 0)), vec!["nearest:wilderness,outdoor"]);
    assert_eq!(show(&brain_targets_with(&intent(IntentType::Work, ""), "r1", &c, 1)), vec!["room:v1:true"]);
    assert_eq!(
        show(&brain_targets_with(&intent(IntentType::Socialize, ""), "r1", &c, 0)),
        vec!["room:t1:true", "nearest:tavern", "nearest:inn", "nearest:social"]
    );
    assert_eq!(show(&brain_targets_with(&intent(IntentType::Wander, ""), "r1", &c, 0)), vec!["wander"]);
    assert!(brain_targets_with(&intent(IntentType::Idle, ""), "r1", &c, 0).is_empty());
}

#[test]
fn answers_pick_the_target_and_path() {
    let found = vec![Some("r1".to_string()), None, Some("r5".to_string())];
    assert_eq!(nearest_room("r1", &found), Some("r5".to_string()));
    assert_eq!(nearest_room("r5", &vec![Some("r5".to_string())]), None);
    let cands = vec!["r1".to_string(), "r2".to_string(), "r3".to_string()];
    assert_eq!(wander_room_with("r1", &cands, 3), Some("r3".to_string()));
    let w = wander_room("r1", &cands).unwrap();
    assert!(w == "r2" || w == "r3");
    assert_eq!(wander_room("r1", &vec!["r1".to_string()]), None);
    assert_eq!(accept_path(true, Some(vec![])), None);
    assert_eq!(accept_path(false, Some(vec![])), Some(vec![]));
    assert_eq!(accept_path(true, Some(vec!["r2".to_string()])), Some(vec!["r2".to_string()]));
    assert_eq!(accept_path(true, None), None);
    assert_eq!(brain_max_dist(0), 25);
    assert_eq!(brain_max_dist(7), 7);
}

#[test]
fn rooms_within_reach() {
    let c: Vec<String> = vec!["here".into(), "near".into(), "far".into(), "none".into(), "same".into()];
    let lens = vec![None, Some(2), Some(9), None, Some(0)];
    assert_eq!(filter_rooms_within_dist("here", &c, &lens, 5), vec!["here".to_string(), "near".to_string()]);
    assert!(filter_rooms_within_dist("here", &c, &lens, 0).is_empty());
    assert!(filter_rooms_within_dist("here", &vec![], &vec![], 5).is_empty());
}
