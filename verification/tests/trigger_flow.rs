use singularity_world::npc::topics::{NpcNpcTopic, TopicStore};
use singularity_world::npcnpc::state::SocialState;
use singularity_world::npcnpc::trigger_flow::{
    choose_topic, stats_fit, trigger_step, ChoiceBasis, LineChecks, TriggerAction, TriggerEvent, TriggerState,
};

fn stat(s: &SocialState, k: &str) -> i64 {
    s.stats_snapshot().into_iter().find(|(n, _)| n == k).map(|(_, v)| v).unwrap_or(0)
}

fn basis(anchors: &[&str]) -> ChoiceBasis {
    ChoiceBasis {
        at: 100,
        room_id: "r1".into(),
        a_id: "a".into(),
        b_id: "b".into(),
        score_total: 12,
        topic_hint: "天氣".into(),
        topic_id: "weather".into(),
        topic_reason: "weighted_mask_pick".into(),
        anchors_used: anchors.iter().map(|s| s.to_string()).collect(),
    }
}

fn checks() -> LineChecks {
    LineChecks { max_runes: 0, bad_meta: vec![], dialogue_markers: "「」".into(), negators: vec!["不是".into()] }
}

fn reply(a: &str, b: &str) -> Option<(String, String, Vec<String>)> {
    Some((a.into(), b.into(), vec!["老橋".into()]))
}

#[test]
fn attempt_counts_and_stops_without_model() {
    let mut s = SocialState::new();
    let (st, act) = trigger_step(TriggerState::Start, TriggerEvent::Begin { has_model: false, recent_player_talk: false }, &mut s);
    assert!(matches!(st, TriggerState::Done(false)) && matches!(act, TriggerAction::Stop));
    assert_eq!((stat(&s, "attempt"), stat(&s, "fail_no_model")), (1, 1));
    let (st, _) = trigger_step(TriggerState::Start, TriggerEvent::Begin { has_model: true, recent_player_talk: true }, &mut s);
    assert!(matches!(st, TriggerState::Done(false)));
    assert_eq!((stat(&s, "attempt"), stat(&s, "fail_recent_player_talk")), (2, 1));
}

#[test]
fn gates_in_order() {
    let mut s = SocialState::new();
    let (st, act) = trigger_step(TriggerState::Start, TriggerEvent::Begin { has_model: true, recent_player_talk: false }, &mut s);
    assert!(matches!(st, TriggerState::AwaitNpcs) && matches!(act, TriggerAction::CountNpcs));
    let (st2, _) = trigger_step(TriggerState::AwaitNpcs, TriggerEvent::NpcsFound(1), &mut s);
    assert!(matches!(st2, TriggerState::Done(false)));
    assert_eq!(stat(&s, "fail_not_enough_npc"), 1);
    let (st, act) = trigger_step(st, TriggerEvent::NpcsFound(3), &mut s);
    assert!(matches!(st, TriggerState::AwaitPair) && matches!(act, TriggerAction::PickPair));
    let (st2, _) = trigger_step(TriggerState::AwaitPair, TriggerEvent::PairFound(false), &mut s);
    assert!(matches!(st2, TriggerState::Done(false)));
    assert_eq!(stat(&s, "fail_no_pair"), 1);
    let (st, act) = trigger_step(st, TriggerEvent::PairFound(true), &mut s);
    assert!(matches!(st, TriggerState::AwaitReply) && matches!(act, TriggerAction::AskModel));
    let (st2, _) = trigger_step(TriggerState::AwaitReply, TriggerEvent::Replied { reply: None, basis: basis(&[]), checks: checks() }, &mut s);
    assert!(matches!(st2, TriggerState::Done(false)));
    assert_eq!(stat(&s, "fail_llm_empty"), 1);
    let (st2, _) = trigger_step(TriggerState::AwaitReply, TriggerEvent::Replied { reply: reply("", "好"), basis: basis(&[]), checks: checks() }, &mut s);
    assert!(matches!(st2, TriggerState::Done(false)));
    assert_eq!(stat(&s, "fail_quality_gate"), 1);
    assert_eq!(stat(&s, "fail_quality_empty"), 1);
    assert_eq!(stat(&s, "fail_quality_too_short"), 1);
    assert!(s.last_choice_snapshot().is_none());
}

#[test]
fn conflict_low_score_and_success() {
    let mut s = SocialState::new();
    let good_a = "「老橋那邊今天很熱鬧。」";
    let good_b = "「是啊，人來人往的。」";
    let (st, act) = trigger_step(
        TriggerState::AwaitReply,
        TriggerEvent::Replied { reply: reply(good_a, good_b), basis: basis(&[]), checks: checks() },
        &mut s,
    );
    assert!(matches!(st, TriggerState::AwaitScore { .. }) && matches!(act, TriggerAction::ScoreDialogue));
    let (st2, act2) = trigger_step(st, TriggerEvent::Scored(Some((20, 35))), &mut s);
    assert!(matches!(st2, TriggerState::Done(false)) && matches!(act2, TriggerAction::Stop));
    assert_eq!((stat(&s, "score_total_20"), stat(&s, "fail_score_too_low")), (1, 1));
    let c = s.last_choice_snapshot().unwrap();
    assert_eq!((c.dialogue_score.map(|d| d.total), c.anchors_written.len(), c.anchor_conflict), (Some(20), 0, false));
    assert_eq!(s.get_pair_last_talk("a", "b"), 0);

    let (st, _) = trigger_step(
        TriggerState::AwaitReply,
        TriggerEvent::Replied { reply: reply(good_a, good_b), basis: basis(&[]), checks: checks() },
        &mut s,
    );
    let (st, act) = trigger_step(st, TriggerEvent::Scored(Some((150, 35))), &mut s);
    assert!(matches!(st, TriggerState::AwaitStore) && matches!(act, TriggerAction::StoreExchange));
    assert_eq!((stat(&s, "score_total_100"), stat(&s, "score_pass")), (1, 1));
    assert_eq!(s.last_choice_snapshot().unwrap().anchors_written, vec!["老橋".to_string()]);
    assert_eq!(s.get_pair_last_talk("b", "a"), 100);
    assert!(stats_fit(&s));
    let (st, act) = trigger_step(
        st,
        TriggerEvent::Stored { summary_skipped: true, archival_dup_a: true, archival_dup_b: true, recent_player_talk: false },
        &mut s,
    );
    assert!(matches!(st, TriggerState::Done(true)) && matches!(act, TriggerAction::Broadcast));
    assert_eq!((stat(&s, "skip_npc_npc_summary_dup"), stat(&s, "skip_npc_npc_archival_dup"), stat(&s, "success")), (1, 2, 1));
    let (_, act) = trigger_step(TriggerState::AwaitStore, TriggerEvent::Stored {
        summary_skipped: false, archival_dup_a: false, archival_dup_b: false, recent_player_talk: true,
    }, &mut s);
    assert!(matches!(act, TriggerAction::Stop));
    assert_eq!(stat(&s, "success"), 1);
    let (st, _) = trigger_step(
        TriggerState::AwaitScore { basis: basis(&[]), anchors_written: vec![] },
        TriggerEvent::Scored(None),
        &mut s,
    );
    assert!(matches!(st, TriggerState::AwaitStore));
    assert_eq!(stat(&s, "score_disabled_skip"), 1);
}

#[test]
fn anchor_conflict_records_choice() {
    let mut s = SocialState::new();
    let (st, act) = trigger_step(
        TriggerState::AwaitReply,
        TriggerEvent::Replied {
            reply: reply("「那座不是老橋，是新的。」", "「你記錯了吧。」"),
            basis: basis(&["老橋"]),
            checks: checks(),
        },
        &mut s,
    );
    assert!(matches!(st, TriggerState::Done(false)));
    assert!(matches!(act, TriggerAction::PenalizeAnchors(ref r) if r.starts_with("anchor negated: ")));
    assert_eq!(stat(&s, "fail_anchor_conflict"), 1);
    let c = s.last_choice_snapshot().unwrap();
    assert!(c.anchor_conflict);
    assert_eq!(c.anchors_used, vec!["老橋".to_string()]);
}

#[test]
fn mismatched_event_changes_nothing() {
    let mut s = SocialState::new();
    let (st, act) = trigger_step(TriggerState::AwaitNpcs, TriggerEvent::PairFound(true), &mut s);
    assert!(matches!(st, TriggerState::AwaitNpcs) && matches!(act, TriggerAction::Stop));
    assert_eq!(stat(&s, "attempt"), 0);
}

fn topic(id: &str, hint: &str) -> NpcNpcTopic {
    NpcNpcTopic { id: id.into(), hint: hint.into(), lines: vec![], requires_work: false, night_only: false, follow_up: false }
}

#[test]
fn topic_choice_order() {
    let store = TopicStore::new(vec![topic("weather", "天氣"), topic("gossip", "八卦")]);
    let mask = topic("weather", "天氣");
    let gossip = topic("gossip", "八卦");
    let t = |h: &str, th: Option<&str>, m: Option<&NpcNpcTopic>, pir: bool, roll: i32| {
        choose_topic(&store, h, th, m, Some(&gossip), "（玩家在場）", pir, roll, 30)
    };
    assert_eq!(t("工作", Some("x"), Some(&mask), true, 0), ("工作".into(), String::new(), "input_or_thread".into()));
    assert_eq!(t("天氣", None, None, false, 0), ("天氣".into(), "weather".into(), "input_or_thread".into()));
    assert_eq!(t("", Some("舊事"), Some(&mask), true, 0), ("舊事".into(), String::new(), "thread_topic".into()));
    assert_eq!(t("", None, Some(&mask), false, 0), ("天氣".into(), "weather".into(), "weighted_mask_pick".into()));
    assert_eq!(t("", None, Some(&mask), true, 50), ("天氣".into(), "weather".into(), "weighted_mask_pick".into()));
    assert_eq!(
        t("", None, Some(&mask), true, 29),
        ("八卦（玩家在場）".into(), "gossip".into(), "player_room_gossip_bias".into())
    );
    assert_eq!(t("", None, None, true, 0), (String::new(), String::new(), "input_or_thread".into()));
}
