use singularity_world::npcnpc::helpers::{should_skip_npc_npc_summary_update, SentimentLexicon};
use singularity_world::npcnpc::trigger::{
    advance_thread, best_pair, check_pair_thread, dialogue_anchor_rumors, dialogue_score_threshold, join_strings,
    pair_noise_bound, pair_score, score_bucket, social_context_lines, sprintf_s, trunc_rune, update_dyad_after_exchange,
    AnchorRumorParams, DyadStanding, DyadUpdateParams, ExchangeSummary, PairPickParams, SocialTexts,
};
use singularity_world::npcnpc::types::{NpcDyad, NpcThread};

fn pp() -> PairPickParams {
    PairPickParams {
        score_base_noise: 0,
        familiarity_score_divisor: 0,
        thread_stale_sec: 600,
        thread_cooldown_sec: 300,
        dyad_sentiment_penalty_threshold: -20,
        dyad_sentiment_penalty: 5,
        same_dyad_venue_tag_bonus: 3,
        same_venue_score_bonus: 4,
        pair_last_talk_penalty_sec: 900,
        pair_last_talk_penalty: 10,
        same_display_name_penalty: 50,
    }
}

fn thread(phase: &str, turns: i32, cooldown: i64, updated: i64) -> NpcThread {
    NpcThread {
        key: "a|b".into(),
        topic_type: "閒聊".into(),
        phase: phase.into(),
        anchors: vec!["酒".into()],
        turn_count: turns,
        cooldown_until: cooldown,
        updated_at: updated,
    }
}

fn strings(v: &[&str]) -> Vec<String> {
    v.iter().map(|s| s.to_string()).collect()
}

#[test]
fn templates_fill_in_turn() {
    assert_eq!(sprintf_s("%s對%s說", &strings(&["甲", "乙"])), "甲對乙說");
    assert_eq!(sprintf_s("%s", &strings(&["%s", "x"])), "x");
    assert_eq!(sprintf_s("無", &strings(&["x"])), "無");
    assert_eq!(trunc_rune("一二三", 2), "一二");
    assert_eq!(join_strings(&strings(&["a", "b", "c"]), "；"), "a；b；c");
    assert_eq!(join_strings(&[], "；"), "");
}

#[test]
fn pair_scores() {
    let p = pp();
    assert_eq!(pair_noise_bound(&p), 4);
    let d = DyadStanding { familiarity: 45, sentiment: -20, same_venue_tag: true };
    // 2 + 100 + (45/20 = 2) - 5 + 3 + 4 - 10 - 50
    assert_eq!(pair_score(2, true, Some(d), true, 950, 1000, true, &p), 2 + 100 + 2 - 5 + 3 + 4 - 10 - 50);
    let neg = DyadStanding { familiarity: -45, sentiment: 0, same_venue_tag: false };
    assert_eq!(pair_score(0, false, Some(neg), false, 0, 1000, false, &p), -2);
    assert_eq!(pair_score(1, false, None, false, 10, 1000, false, &p), 1);
    assert_eq!(best_pair(&[Some(3), None, Some(7), Some(7)]), Some(2));
    assert_eq!(best_pair(&[None, Some(i32::MIN as i64)]), None);
}

#[test]
fn stale_threads_cool_and_expire() {
    let p = pp();
    let r = check_pair_thread(Some(thread("elaborate", 2, 0, 0)), 1000, &p);
    assert!(r.write && r.skip && !r.delete);
    let t = r.thread.unwrap();
    assert_eq!((t.phase.as_str(), t.cooldown_until, t.updated_at), ("cooling", 1300, 1000));
    let r = check_pair_thread(Some(thread("cooling", 3, 900, 0)), 1000, &p);
    assert!(r.delete && r.thread.is_none() && !r.skip);
    let r = check_pair_thread(Some(thread("elaborate", 1, 0, 900)), 1000, &p);
    assert!(!r.write && !r.skip && !r.delete);
    assert!(check_pair_thread(None, 1000, &p).thread.is_none());
}

#[test]
fn threads_advance_to_cooling() {
    let t = advance_thread(None, "閒聊", 50, &strings(&[" 酒 ", ""]));
    assert_eq!((t.phase.as_str(), t.turn_count, t.topic_type.as_str()), ("elaborate", 1, "閒聊"));
    assert_eq!(t.anchors, strings(&["酒"]));
    let t = advance_thread(Some(thread("elaborate", 2, 0, 0)), "x", 50, &strings(&["菜"]));
    assert_eq!((t.phase.as_str(), t.turn_count, t.cooldown_until), ("cooling", 3, 350));
    assert_eq!(t.anchors, strings(&["酒", "菜"]));
}

#[test]
fn anchors_become_rumors() {
    let p = AnchorRumorParams { min_anchor_runes: 0, source_score: 0, weight: 0, ttl_sec: 0 };
    let out = dialogue_anchor_rumors(&strings(&[" 北門失火了 ", "短", "npc_7 說謊", "Zone 三區有事", "鐵匠鋪關門"]), "r1", "東區", 100, &p);
    let texts: Vec<&str> = out.iter().map(|r| r.text.as_str()).collect();
    assert_eq!(texts, vec!["北門失火了", "鐵匠鋪關門"]);
    assert_eq!(out[0].id, "r1|東區|北門失火了");
    assert_eq!((out[0].source.as_str(), out[0].source_score, out[0].weight, out[0].expires_at), ("dialogue_anchor", 1, 2, 3700));
}

#[test]
fn standing_after_exchange() {
    let lex = SentimentLexicon {
        shift_or_chat_substrings: strings(&["閒聊"]),
        pry_substring: String::new(),
        outside_wild_substrings: vec![],
        weather_substring: String::new(),
        neg_words: strings(&["滾"]),
        pos_words: vec![],
    };
    let x = ExchangeSummary {
        topic_hint: "閒聊".into(),
        topic_id: String::new(),
        line_a: "滾開".into(),
        line_b: "哼".into(),
        outside_topic_id: "城外聞".into(),
        weather_topic_id: "天候".into(),
    };
    let d = NpcDyad { key: "a|b".into(), a_id: "a".into(), b_id: "b".into(), familiarity: 99, sentiment: -29, tags: vec![], updated_at: 0 };
    let p = DyadUpdateParams { sentiment_cap: 0, familiarity_delta_per_exchange: 5, quarrel_tag_sentiment_max: 0, clear_quarrel_sentiment_min: 0 };
    let d2 = update_dyad_after_exchange(d, &p, &x, &lex, true, "同職場", "吵過架", 77);
    assert_eq!(d2.familiarity, 100);
    assert_eq!(d2.sentiment, -30);
    assert_eq!(d2.tags, strings(&["同職場", "吵過架"]));
    assert_eq!(d2.updated_at, 77);
}

#[test]
fn score_thresholds() {
    assert_eq!(dialogue_score_threshold(0, 0), Some(35));
    assert_eq!(dialogue_score_threshold(40, 0), Some(40));
    assert_eq!(dialogue_score_threshold(40, 50), Some(50));
    assert_eq!(dialogue_score_threshold(40, -1), None);
    assert_eq!(score_bucket(-15), 0);
    assert_eq!(score_bucket(47), 40);
    assert_eq!(score_bucket(250), 100);
}

#[test]
fn context_lines_in_order() {
    let t = SocialTexts {
        rumor_prefix: "傳聞：".into(),
        player_present_context_line: "有玩家在場".into(),
        known_anchors_prefix: "已知：".into(),
        tone_seed_prefix: "語氣：".into(),
        rumor_echo_line_fmt: "有人說「%s」".into(),
    };
    let out = social_context_lines(strings(&["老王，買了酒"]), &strings(&["北門失火"]), true, Some("  "), &strings(&["酒", "菜"]), Some(" 輕鬆 "), "你好", &t);
    assert_eq!(out, strings(&["有玩家在場", "老王，買了酒", "傳聞：北門失火", "已知：酒；菜", "語氣：輕鬆", "有人說「你好」"]));
    let out = social_context_lines(strings(&["A", "a"]), &[], false, Some("摘要"), &[], None, "", &t);
    assert_eq!(out, strings(&["A", "摘要"]));
}

#[test]
fn summary_update_skips() {
    assert!(!should_skip_npc_npc_summary_update("  ", "新", "a", "b", true, true, true));
    assert!(should_skip_npc_npc_summary_update(" 舊 ", "舊", "a", "b", false, false, false));
    assert!(should_skip_npc_npc_summary_update("舊", "新", "", "", true, false, false));
    assert!(!should_skip_npc_npc_summary_update("舊", "新", " ", "b", false, true, false));
    assert!(should_skip_npc_npc_summary_update("舊", "新", " ", "b", false, false, true));
}
