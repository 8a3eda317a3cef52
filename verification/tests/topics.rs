use singularity_world::npc::topics::{
    normalize_npc_npc_topic_hint, pair_relation_weight_adj, room_has_tag, topic_mask_base_weight,
    NpcNpcTopic, NpcTopicMask, TopicStore,
};

fn topic(id: &str, hint: &str) -> NpcNpcTopic {
    NpcNpcTopic {
        id: id.to_string(),
        hint: hint.to_string(),
        lines: vec![],
        requires_work: false,
        night_only: false,
        follow_up: false,
    }
}

fn loaded_store() -> TopicStore {
    let mut s = TopicStore::new(vec![]);
    s.load_npc_npc_topics(vec![
        topic("交班", "換班、交接時的情境，簡短交代或叮囑"),
        topic("閒聊", "隨口閒聊，天氣、見聞、抱怨"),
        topic(
            "城外聞",
            "鎮上傳聞城外惡地、霜林、游離輻射或富態化巨獸（非荒蕪末世，而是生機過剩的危險）",
        ),
    ]);
    s
}

fn mask(work: bool, night: bool, event: bool, tags: &[&str]) -> NpcTopicMask {
    NpcTopicMask {
        is_work_venue: work,
        is_night_time: night,
        has_room_event: event,
        room_tags: tags.iter().map(|t| t.to_string()).collect(),
    }
}

#[test]
fn find_topic_id_by_hint_matches_go() {
    let s = loaded_store();
    assert_eq!(s.find_npc_npc_topic_id_by_hint("換班、交接時的情境，簡短交代或叮囑"), "交班");
    assert_eq!(
        s.find_npc_npc_topic_id_by_hint("隨口閒聊，天氣、見聞、抱怨（路人在旁，兩句務必極短。）"),
        "閒聊"
    );
    assert_eq!(
        s.find_npc_npc_topic_id_by_hint(
            "鎮上傳聞城外惡地、霜林、游離輻射或富態化巨獸（非荒蕪末世，而是生機過剩的危險）"
        ),
        "城外聞"
    );
    assert_eq!(s.find_npc_npc_topic_id_by_hint(""), "");
}

#[test]
fn get_by_id_after_load() {
    let s = loaded_store();
    assert_eq!(
        s.get_npc_npc_topic_by_id("閒聊").map(|t| t.hint.contains("隨口")),
        Some(true)
    );
}

#[test]
fn hint_prefix_picks_longest_matching_topic() {
    let s = loaded_store();
    assert_eq!(s.find_npc_npc_topic_id_by_hint("隨口閒聊，天氣、見聞、抱怨，還有物價"), "閒聊");
    assert_eq!(s.find_npc_npc_topic_id_by_hint("完全無關的話題"), "");
}

#[test]
fn unknown_topic_id_is_none() {
    assert!(loaded_store().get_npc_npc_topic_by_id("不存在").is_none());
}

#[test]
fn normalize_cuts_bystander_note() {
    assert_eq!(normalize_npc_npc_topic_hint("  閒聊（路人在旁，短一點） "), "閒聊");
    assert_eq!(normalize_npc_npc_topic_hint(" 交班 "), "交班");
}

#[test]
fn base_weight_sums_matching_bonuses() {
    let mut t = topic("城外聞", "x");
    t.requires_work = true;
    t.follow_up = true;
    t.night_only = true;
    assert_eq!(topic_mask_base_weight(&mask(true, true, true, &["outdoor"]), &t), 1 + 4 + 3 + 2 + 5);
    assert_eq!(topic_mask_base_weight(&mask(false, false, false, &[]), &t), 1);
    assert_eq!(topic_mask_base_weight(&mask(false, false, false, &["social"]), &topic("閒聊", "x")), 3);
    assert_eq!(topic_mask_base_weight(&mask(false, false, false, &["outdoor"]), &topic("天候", "x")), 4);
}

#[test]
fn relation_adjustments() {
    let tags = vec!["同職場".to_string()];
    assert_eq!(pair_relation_weight_adj(&topic("閒聊", "x"), 50, 0, &[]), 2);
    assert_eq!(pair_relation_weight_adj(&topic("閒聊", "x"), 49, 0, &[]), 0);
    assert_eq!(pair_relation_weight_adj(&topic("交班", "x"), 0, 0, &tags), 3);
    assert_eq!(pair_relation_weight_adj(&topic("打聽", "x"), 0, -20, &[]), 2);
    assert!(room_has_tag(&tags, "同職場"));
    assert!(!room_has_tag(&tags, "social"));
}

#[test]
fn random_pick_respects_exclusion() {
    let s = loaded_store();
    for _ in 0..20 {
        let t = s.pick_random_npc_npc_topic_exclude("交班").expect("a topic");
        assert_ne!(t.id, "交班");
    }
    assert!(TopicStore::new(vec![]).pick_random_npc_npc_topic().is_none());
}

#[test]
fn masked_pick_skips_ineligible_topics() {
    let mut work = topic("工作", "w");
    work.requires_work = true;
    let s = TopicStore::new(vec![work, topic("閒聊", "隨口")]);
    for _ in 0..20 {
        let t = s.pick_random_npc_npc_topic_by_mask(&mask(false, false, false, &[]), "").expect("topic");
        assert_eq!(t.id, "閒聊");
    }
    let only_work = {
        let mut w = topic("工作", "w");
        w.requires_work = true;
        TopicStore::new(vec![w])
    };
    // nothing eligible: falls back to any topic not excluded
    let t = only_work.pick_random_npc_npc_topic_for_pair(&mask(false, false, false, &[]), "", 0, 0, &[]).expect("fallback");
    assert_eq!(t.id, "工作");
}

#[test]
fn weighted_choice_is_by_running_weight() {
    let s = TopicStore::new(vec![topic("a", "1"), topic("閒聊", "2")]);
    let m = mask(false, false, false, &["social"]);
    // weights: a = 1, 閒聊 = 3
    assert_eq!(s.choose_weighted_topic(&m, "", false, 0, 0, &[], 0).map(|t| t.id), Some("a".to_string()));
    assert_eq!(s.choose_weighted_topic(&m, "", false, 0, 0, &[], 1).map(|t| t.id), Some("閒聊".to_string()));
    assert_eq!(s.choose_weighted_topic(&m, "", false, 0, 0, &[], 3).map(|t| t.id), Some("閒聊".to_string()));
    assert!(s.choose_weighted_topic(&m, "", false, 0, 0, &[], 4).is_none());
}

#[test]
fn debug_weights_list_every_topic() {
    let mut night = topic("夜談", "n");
    night.night_only = true;
    let s = TopicStore::new(vec![night, topic("閒聊", "隨口")]);
    let d = s.debug_topic_weights_for_pair(&mask(false, false, false, &[]), "", 60, 0, &[]);
    assert_eq!(d.len(), 2);
    assert!(!d[0].eligible);
    assert!(d[1].eligible);
    assert_eq!(d[1].weight, 3);
}
