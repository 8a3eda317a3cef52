use singularity_world::npc::brain_arrival::{beg_amount, fmt_beg, fmt_one_s, fmt_two_s};
use singularity_world::npc::decision::IntentType;
use singularity_world::npc::social::{micro_with, pick_micro_interaction};

#[test]
fn event_texts() {
    assert_eq!(fmt_beg("在%s乞得%d鎂", "市集", 7), "在市集乞得7鎂");
    assert_eq!(fmt_one_s("在%s採集", "林地"), "在林地採集");
    assert_eq!(fmt_two_s("在%s當%s", "酒館", "服務生"), "在酒館當服務生");
}

#[test]
fn beg_amount_in_range() {
    for _ in 0..50 {
        let a = beg_amount(-5, 0);
        assert!((0..8).contains(&a));
        let b = beg_amount(10, 3);
        assert!((10..13).contains(&b));
    }
}

#[test]
fn micro_interactions() {
    let names = vec!["甲".to_string(), "乙".to_string()];
    assert_eq!(pick_micro_interaction(&names[..1], 100), "");
    assert_eq!(pick_micro_interaction(&names, 0), "");
    for _ in 0..20 {
        let s = pick_micro_interaction(&names, 100);
        assert!(s.starts_with("【甲】") || s.starts_with("【乙】"), "{s}");
        assert!(s.contains("【甲】") && s.contains("【乙】"), "{s}");
    }
}

#[test]
fn intent_keys() {
    assert_eq!(IntentType::SeekJob.as_key(), "seek_job");
    assert_eq!(IntentType::Socialize.as_key(), "socialize");
}

#[test]
fn micro_line_for_given_draws() {
    let names: Vec<String> = vec!["阿明".into(), "老李".into(), "小花".into()];
    assert_eq!(micro_with(&names, 30, 29, 0, 0, 0), "【阿明】朝【老李】點了點頭。");
    assert_eq!(micro_with(&names, 30, 30, 0, 0, 0), "");
    // the second draw skips the first NPC
    assert_eq!(micro_with(&names, 100, 0, 1, 1, 3), "【老李】對【小花】笑了笑。");
    assert_eq!(micro_with(&names, 100, 0, 2, 0, 7), "【小花】拍了拍【阿明】的肩膀。");
    assert_eq!(micro_with(&names[..1], 100, 0, 0, 0, 0), "");
}
