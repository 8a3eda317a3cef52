use singularity_world::npcnpc::helpers::{
    add_tag, anchor_consistency_check, dedupe_social_context_lines, dyad_relation_hint, has_tag, merge_thread_anchors,
    npc_pair_same_venue, quality_gate_npc_line, remove_tag, sentiment_delta_from_dialogue,
    topic_contains_any, SentimentLexicon,
};
use singularity_world::npcnpc::types::NpcDyad;

fn s(v: &[&str]) -> Vec<String> {
    v.iter().map(|x| x.to_string()).collect()
}

#[test]
fn merge_anchors_cap_four() {
    let old: Vec<String> = vec!["a".into(), "b".into(), "c".into(), "d".into(), "e".into()];
    let fresh: Vec<String> = vec!["f".into()];
    let m = merge_thread_anchors(&old, &fresh);
    assert_eq!(m.len(), 4);
    assert_eq!(m.last().map(String::as_str), Some("f"));
}

#[test]
fn dedupe_lines_casefold() {
    let v: Vec<String> = vec!["Hi".into(), "hi".into(), "x".into()];
    assert_eq!(dedupe_social_context_lines(&v).len(), 2);
}

#[test]
fn merge_anchors_trims_and_dedupes() {
    let m = merge_thread_anchors(&s(&[" 井 ", "", "市集"]), &s(&["井", "  ", "橋"]));
    assert_eq!(m, s(&["井", "市集", "橋"]));
}

#[test]
fn dedupe_keeps_first_trimmed() {
    let v = s(&["  Hello ", "HELLO", "", "  ", "world"]);
    assert_eq!(dedupe_social_context_lines(&v), s(&["Hello", "world"]));
}

#[test]
fn tags_add_remove() {
    let tags = s(&["同職場", "鄰居"]);
    assert!(has_tag(&tags, "鄰居"));
    assert!(!has_tag(&tags, "仇人"));
    assert_eq!(add_tag(&tags, "仇人"), s(&["同職場", "鄰居", "仇人"]));
    assert_eq!(add_tag(&tags, "鄰居"), tags);
    assert_eq!(add_tag(&tags, ""), tags);
    assert_eq!(remove_tag(&s(&["a", "b", "a"]), "a"), s(&["b"]));
    assert_eq!(remove_tag(&tags, ""), tags);
}

#[test]
fn quality_gate_reasons() {
    let none: Vec<String> = vec![];
    assert_eq!(quality_gate_npc_line("   ", 0, &none, "「」"), (false, "empty"));
    assert_eq!(quality_gate_npc_line("壞\u{fffd}字", 0, &none, ""), (false, "unicode_garbage"));
    assert_eq!(quality_gate_npc_line("{ab", 0, &none, ""), (false, "json_residue"));
    assert_eq!(quality_gate_npc_line("看那個 NPC_3", 0, &none, ""), (false, "leaked_id"));
    assert_eq!(quality_gate_npc_line("去 Street 口", 0, &none, ""), (false, "leaked_id"));
    assert_eq!(quality_gate_npc_line("好的---再見", 0, &none, ""), (false, "markdown_residue"));
    assert_eq!(quality_gate_npc_line("嗯", 0, &none, ""), (false, "too_short"));
    assert_eq!(quality_gate_npc_line("一二三四五六", 5, &none, ""), (false, "too_long"));
    assert_eq!(
        quality_gate_npc_line("身為AI我不能說", 0, &s(&["身為AI"]), ""),
        (false, "meta_text")
    );
    assert_eq!(
        quality_gate_npc_line("「一」「二」「三」", 0, &none, ""),
        (false, "nested_quotes")
    );
    assert_eq!(quality_gate_npc_line("哈哈哈哈真好笑呀", 0, &none, ""), (false, "repetition"));
    assert_eq!(
        quality_gate_npc_line("他慢慢走進了酒館坐下。", 0, &none, "「」"),
        (false, "suspicious_narration")
    );
    assert_eq!(quality_gate_npc_line("「今天真冷」", 0, &none, "「」"), (true, ""));
}

#[test]
fn anchor_negation_detected() {
    let anchors = s(&["井水乾了"]);
    let neg = s(&["沒"]);
    let (ok, why) = anchor_consistency_check(&anchors, "井水沒乾", "是嗎", &neg);
    assert!(!ok);
    assert_eq!(why, "anchor negated: 井水");
    let (ok2, why2) = anchor_consistency_check(&anchors, "天氣好", "是啊", &neg);
    assert!(ok2);
    assert_eq!(why2, "");
    let empty: Vec<String> = vec![];
    assert_eq!(anchor_consistency_check(&empty, "a", "b", &neg), (true, String::new()));
    assert_eq!(anchor_consistency_check(&anchors, " ", "", &neg), (true, String::new()));
}

#[test]
fn sentiment_delta_counts() {
    let sen = SentimentLexicon {
        shift_or_chat_substrings: s(&["閒聊"]),
        pry_substring: "打聽".into(),
        outside_wild_substrings: s(&["城外"]),
        weather_substring: "天氣".into(),
        neg_words: s(&["滾"]),
        pos_words: s(&["謝謝"]),
    };
    assert_eq!(sentiment_delta_from_dialogue("閒聊", "謝謝", "好", 0, "", &sen, "城外聞", "天候"), 2);
    assert_eq!(sentiment_delta_from_dialogue("打聽", "滾", "哼", 10, "", &sen, "城外聞", "天候"), -3);
    assert_eq!(sentiment_delta_from_dialogue("打聽", "嗯", "哼", 30, "天候", &sen, "城外聞", "天候"), 1);
    assert_eq!(sentiment_delta_from_dialogue("城外的事", "嗯", "哼", 30, "", &sen, "城外聞", "天候"), 1);
    assert!(topic_contains_any("天氣真好", &s(&["", "天氣"])));
    assert!(!topic_contains_any("天氣真好", &s(&[""])));
}

#[test]
fn same_venue_pairs() {
    assert!(npc_pair_same_venue(&s(&["v1", "v2"]), &s(&["v3", "v2"])));
    assert!(!npc_pair_same_venue(&s(&["v1"]), &s(&["v3"])));
    assert!(!npc_pair_same_venue(&s(&[""]), &s(&[""])));
    assert!(!npc_pair_same_venue(&s(&[]), &s(&["v1"])));
}

#[test]
fn dyad_relation_hint_writes_from_the_standing() {
    let text = |is_new: bool, sentiment: i32, familiarity: i32| {
        if is_new {
            "初識".to_string()
        } else {
            format!("情感{sentiment}熟悉{familiarity}")
        }
    };
    assert_eq!(dyad_relation_hint(None, text), "初識");
    let d = NpcDyad {
        key: "a|b".into(),
        a_id: "a".into(),
        b_id: "b".into(),
        familiarity: 12,
        sentiment: -3,
        tags: vec![],
        updated_at: 0,
    };
    assert_eq!(dyad_relation_hint(Some(&d), text), "情感-3熟悉12");
}
