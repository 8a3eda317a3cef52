use singularity_world::npcnpc::state::{canonical_pair_key, rumor_from_room_event, SocialState};
use singularity_world::npcnpc::types::{DialogueScore, LastSocialChoice};

fn stat(s: &SocialState, key: &str) -> i64 {
    s.stats_snapshot().into_iter().find(|(k, _)| k == key).map(|(_, v)| v).unwrap_or(-1)
}

#[test]
fn pair_key_is_order_free() {
    assert_eq!(canonical_pair_key("b", "a"), "a|b");
    assert_eq!(canonical_pair_key("a", "b"), "a|b");
}

#[test]
fn pair_talk_reads_back_either_way() {
    let mut s = SocialState::new();
    assert_eq!(s.get_pair_last_talk("a", "b"), 0);
    s.set_pair_last_talk("b", "a", 100);
    assert_eq!(s.get_pair_last_talk("a", "b"), 100);
    assert_eq!(s.get_pair_last_talk("b", "a"), 100);
    assert_eq!(s.get_pair_last_talk("a", "c"), 0);
    s.set_pair_last_talk("a", "b", 150);
    assert_eq!(s.get_pair_last_talk("b", "a"), 150);
}

#[test]
fn stats_count_and_reset() {
    let mut s = SocialState::new();
    assert_eq!(stat(&s, "attempt"), 0);
    s.inc_stat("attempt");
    s.inc_stat("attempt");
    s.inc_stat("fail_quality_custom");
    assert_eq!(stat(&s, "attempt"), 2);
    assert_eq!(stat(&s, "fail_quality_custom"), 1);
    s.reset_stats();
    assert_eq!(stat(&s, "attempt"), 0);
    assert_eq!(stat(&s, "fail_quality_custom"), -1);
    assert_eq!(stat(&s, "skip_npc_npc_archival_dup"), 0);
}

#[test]
fn room_events_window_and_rumor() {
    let mut s = SocialState::new();
    let r = s.push_room_event("r1", "talk", " 老王 ", "買了酒 ", "東區", 1000).expect("rumor");
    assert_eq!(r.text, "老王：買了酒");
    assert_eq!(r.id, "evt|r1|talk|老王：買了酒");
    assert_eq!(r.zone, "東區");
    assert_eq!(r.source, "room_event");
    assert_eq!(r.source_score, 2);
    assert_eq!(r.weight, 1);
    assert_eq!(r.expires_at, 1000 + 1800);
    assert_eq!(s.recent_room_events("r1", 3), vec!["老王，買了酒".to_string()]);
    assert!(s.recent_room_events("r1", 0).is_empty());
    assert!(s.recent_room_events("r2", 3).is_empty());
}

#[test]
fn room_event_window_keeps_five_and_drops_old() {
    let mut s = SocialState::new();
    for i in 0..7 {
        s.push_room_event("r", "k", &format!("s{i}"), "", "", 1000 + i);
    }
    let ev = s.recent_room_events("r", 10);
    assert_eq!(ev, vec!["s2", "s3", "s4", "s5", "s6"]);
    s.push_room_event("r", "k", "late", "d", "", 1200);
    assert_eq!(s.recent_room_events("r", 10), vec!["late，d".to_string()]);
}

#[test]
fn empty_room_or_detail_spreads_no_rumor() {
    let mut s = SocialState::new();
    assert!(s.push_room_event("", "k", "a", "b", "", 10).is_none());
    assert!(s.push_room_event("r", "k", "a", "  ", "", 10).is_none());
    assert!(rumor_from_room_event("r", "k", "a", "", "", 10).is_none());
    let long = "一二三四五六七八九十一二三四五六七八九十一二三四五六七八九十";
    let r = rumor_from_room_event("r", "k", "甲", long, "z", 5).expect("rumor");
    assert_eq!(r.text.chars().count(), 28);
    assert_eq!(r.id.chars().count(), "evt|r|k|".chars().count() + 24);
}

#[test]
fn last_choice_set_and_clear() {
    let mut s = SocialState::new();
    assert!(s.last_choice_snapshot().is_none());
    s.set_last_choice(LastSocialChoice {
        at: 5,
        room_id: "r".into(),
        a_id: "a".into(),
        b_id: "b".into(),
        score_total: 7,
        topic_hint: "h".into(),
        topic_id: "t".into(),
        topic_reason: "weighted_mask_pick".into(),
        anchors_used: vec![],
        anchors_written: vec![],
        anchor_conflict: false,
        anchor_conflict_reason: String::new(),
        dialogue_score: Some(DialogueScore { total: 42 }),
    });
    assert_eq!(s.last_choice_snapshot().map(|c| c.score_total), Some(7));
    assert_eq!(s.last_choice_snapshot().and_then(|c| c.dialogue_score), Some(DialogueScore { total: 42 }));
    s.clear_last_choice();
    assert!(s.last_choice_snapshot().is_none());
}
