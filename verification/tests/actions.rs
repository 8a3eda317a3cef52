use singularity_world::server::action::borrow::{borrow_outcome, borrow_roll, BorrowRoll};
use singularity_world::server::action::combat::{
    append_reaction, attack_narrative, combat_followup, death_notices, FightFavor,
};
use singularity_world::server::action::dispatch::{
    check_action_request, check_sockets, entity_action, verb_from_action, ActionRequestRefusal,
    EntityAction, SocketFacts, SocketRefusal,
};
use singularity_world::server::action::look::{build_look_narrative, LookTarget};
use singularity_world::server::action::object::{object_action_narrative, object_followup_buttons, RoomObjectRef};
use singularity_world::server::action::talk::{
    build_talk_fallback, fallback_index, fallback_line, player_talk_input, shift_fallback_index,
    talk_disposition_hint, talk_reply_narrative, talk_sensitivity_hint, SensitivityBand,
};

fn target() -> LookTarget {
    LookTarget {
        id: "npc_1".into(),
        display_title: "老李".into(),
        female: false,
        vit: 15,
        dex: 9,
        qi: 20,
        has_equipment: true,
        equipment_names: vec!["布衣".into(), "草鞋".into(), "斗笠".into(), "腰帶".into()],
        current_activity: "在擦桌子".into(),
    }
}

#[test]
fn look_describes_build_gear_and_activity() {
    assert_eq!(
        build_look_narrative(&target()),
        "你仔細打量了【老李】。他體格健壯，行動略顯遲緩，周身隱隱有氣勁流轉。 身上穿戴著布衣、草鞋、斗笠。 他目前在擦桌子。"
    );
    let t = LookTarget {
        display_title: String::new(),
        female: true,
        vit: 20,
        dex: 10,
        qi: 10,
        has_equipment: false,
        current_activity: String::new(),
        ..target()
    };
    assert_eq!(build_look_narrative(&t), "你仔細打量了【npc_1】。她體格異常魁梧，步履平穩。");
}

#[test]
fn borrow_texts() {
    assert_eq!(borrow_outcome("老李", None, BorrowRoll::Took, "").0, "【老李】身無長物可借，你只得作罷。");
    let (t, e) = borrow_outcome("老李", Some("藥草"), BorrowRoll::Took, "他沒發覺。");
    assert_eq!(t, "你悄聲「借」得一物——「藥草」已入你手。\n他沒發覺。");
    assert_eq!(e.as_deref(), Some("borrow"));
    let (t, e) = borrow_outcome("老李", Some("藥草"), BorrowRoll::Caught, "");
    assert_eq!(t, "你伸手的瞬間被【老李】察覺。");
    assert_eq!(e.as_deref(), Some("borrow_fail"));
    assert_eq!(borrow_outcome("老李", Some("藥草"), BorrowRoll::Missed, "x").0, "你試探了一番，未能得手，悻悻收回。");
    let r = borrow_roll();
    assert!(matches!(r, BorrowRoll::Took | BorrowRoll::Caught | BorrowRoll::Missed));
}

#[test]
fn talk_texts() {
    assert_eq!(player_talk_input("  "), "（搭話）");
    assert_eq!(player_talk_input("你好"), "你好");
    assert_eq!(talk_disposition_hint(-31), "此角色心境低落，語氣較冷漠沉鬱。");
    assert_eq!(talk_disposition_hint(31), "此角色心情愉快，語氣較活潑熱情。");
    assert_eq!(talk_disposition_hint(30), "");
    assert_eq!(talk_reply_narrative("老李", "來了"), "你向【老李】搭話。老李說道：「來了」");
}

#[test]
fn object_texts_and_followups() {
    assert_eq!(object_action_narrative("門開了。", "門", "Use"), "門開了。");
    assert_eq!(object_action_narrative("", "門", "Use"), "你對【門】執行了「Use」，但似乎沒有什麼特別的反應。");
    let socks = vec!["Look".to_string(), "Use".to_string()];
    assert_eq!(object_followup_buttons(&socks, "Look", true, "o1", None), (vec!["Use".to_string()], String::new()));
    let objs = vec![
        RoomObjectRef { id: "d0".into(), movable: true },
        RoomObjectRef { id: "o1".into(), movable: false },
        RoomObjectRef { id: "o2".into(), movable: false },
        RoomObjectRef { id: "d3".into(), movable: true },
    ];
    let look = vec!["Look".to_string()];
    assert_eq!(object_followup_buttons(&look, "Look", true, "o1", Some(&objs)), (vec!["Move".to_string()], "d3".to_string()));
    assert_eq!(object_followup_buttons(&look, "Look", true, "zz", Some(&objs)), (vec!["Move".to_string()], "d0".to_string()));
    assert_eq!(object_followup_buttons(&look, "Look", false, "o1", Some(&objs)), (vec![], String::new()));
    assert_eq!(object_followup_buttons(&look, "Look", true, "o1", Some(&objs[1..3])), (vec![], String::new()));
}

#[test]
fn action_request_is_checked_and_attack_is_slay() {
    assert_eq!(check_action_request("me", "npc_1", "Attack").ok(), Some("Slay".to_string()));
    assert_eq!(check_action_request("me", "npc_1", "Talk").ok(), Some("Talk".to_string()));
    assert!(matches!(check_action_request("me", "", "Talk"), Err(ActionRequestRefusal::MissingTargetOrAction)));
    assert!(matches!(check_action_request("me", "npc_1", ""), Err(ActionRequestRefusal::MissingTargetOrAction)));
    assert!(matches!(check_action_request("me", "me", "Look"), Err(ActionRequestRefusal::SelfAction)));
    assert_eq!(ActionRequestRefusal::MissingTargetOrAction.text_key(), "missing_target_or_action");
    assert_eq!(ActionRequestRefusal::SelfAction.text_key(), "cannot_self_action");
}

#[test]
fn entity_actions_dispatch_by_name() {
    assert!(matches!(entity_action("Look"), EntityAction::Look));
    assert!(matches!(entity_action("Talk"), EntityAction::Talk));
    assert!(matches!(entity_action("Subdue"), EntityAction::Combat));
    assert!(matches!(entity_action("Slay"), EntityAction::Combat));
    assert!(matches!(entity_action("Borrow"), EntityAction::Borrow));
    assert!(matches!(entity_action("Trade"), EntityAction::Trade));
    assert!(matches!(entity_action("Dance"), EntityAction::Unknown));
    assert!(verb_from_action("Trade"));
    assert!(!verb_from_action("Attack"));
}

#[test]
fn sockets_decide_whether_an_action_is_taken() {
    let npc = |sockets: &[&str], default_socket: bool, in_venue: bool| SocketFacts {
        is_npc: true,
        sockets: sockets.iter().map(|s| s.to_string()).collect(),
        default_socket,
        in_venue,
    };
    assert!(check_sockets(&npc(&["Talk", "Trade"], true, false), "Talk").is_none());
    assert!(matches!(check_sockets(&npc(&["Talk"], true, true), "Trade"), Some(SocketRefusal::CannotAction)));
    assert!(matches!(check_sockets(&npc(&["Talk", "Trade"], false, false), "Trade"), Some(SocketRefusal::NotAtWorkplace)));
    assert!(check_sockets(&npc(&["Talk", "Trade"], false, true), "Trade").is_none());
    let player = SocketFacts { is_npc: false, sockets: vec!["Look".into(), "Talk".into()], default_socket: false, in_venue: false };
    assert!(check_sockets(&player, "Look").is_none());
    assert!(matches!(check_sockets(&player, "Dance"), Some(SocketRefusal::UnknownAction)));
    assert!(matches!(check_sockets(&player, "Slay"), Some(SocketRefusal::CannotAction)));
    assert_eq!(SocketRefusal::CannotAction.text_key(), "cannot_action_fmt");
    assert_eq!(SocketRefusal::NotAtWorkplace.text_key(), "target_not_at_workplace_fmt");
    assert_eq!(SocketRefusal::UnknownAction.text_key(), "unknown_action_fmt");
}

#[test]
fn attack_narrative_names_both_sides() {
    assert_eq!(
        attack_narrative("攻方揮拳，守方閃避。攻方再擊！", "阿明", "老李", true, "attacker"),
        "你對【老李】出手，意在留人！【阿明】揮拳，【老李】閃避。【阿明】再擊！\n你留住了對方。"
    );
    assert_eq!(
        attack_narrative("守方反擊。", "阿明", "老李", false, "attacker"),
        "你對【老李】出手，意在送行！【老李】反擊。\n你取得了勝利。"
    );
    assert_eq!(
        attack_narrative("", "阿明", "老李", false, "defender"),
        "你對【老李】出手，意在送行！\n你敗下陣來。"
    );
}

#[test]
fn combat_followup_by_outcome() {
    let f = combat_followup(true, true, "attacker", 5);
    assert_eq!(f.out_action, "Subdue");
    assert_eq!(f.reaction.as_deref(), Some("subdue_victim"));
    assert!(matches!(f.favor, Some(FightFavor::Subdue)));
    assert!(f.subdued && !f.npc_died);
    let f = combat_followup(true, true, "defender", 5);
    assert_eq!(f.reaction.as_deref(), Some("lost_subdue"));
    assert!(!f.subdued);
    let f = combat_followup(true, false, "attacker", 0);
    assert_eq!(f.out_action, "Slay");
    assert!(f.reaction.is_none());
    assert!(matches!(f.favor, Some(FightFavor::Slay)));
    assert!(f.npc_died);
    let f = combat_followup(true, false, "attacker", 1);
    assert!(!f.npc_died);
    let f = combat_followup(false, false, "attacker", 0);
    assert!(f.favor.is_none() && !f.npc_died && f.reaction.is_none());
    assert_eq!(append_reaction("打完了".to_string(), "他瞪著你。"), "打完了\n他瞪著你。");
    assert_eq!(append_reaction("打完了".to_string(), ""), "打完了");
    let (p, n) = death_notices("h_1_2", "老李");
    assert_eq!(p, "在h_1_2倒下");
    assert_eq!(n, "傳來消息：【老李】倒下了。");
}

#[test]
fn talk_fallback_line_by_time_id_and_personality() {
    // "npc_1" sums to 465, and 465 mod 8 is 1
    assert_eq!(fallback_index("npc_1", 0), 1);
    assert_eq!(fallback_index("npc_1", 1_700_000_000), 1);
    assert_eq!(fallback_index("npc_1", -1), 1);
    assert_eq!(fallback_index("npc_1", i64::MAX), 7);
    assert_eq!(fallback_index("", 3), 0);
    assert_eq!(shift_fallback_index(1, 3, SensitivityBand::High), 6);
    assert_eq!(shift_fallback_index(1, 0, SensitivityBand::Low), 7);
    assert_eq!(shift_fallback_index(5, 4, SensitivityBand::Middle), 1);
    assert_eq!(fallback_line(2), "「嗯？」");
    let (n, r) = build_talk_fallback("老李", fallback_line(2), "");
    assert_eq!(n, "你向【老李】搭話。老李說道：「嗯？」");
    assert_eq!(r, "「嗯？」");
    let (_, r) = build_talk_fallback("老李", fallback_line(2), "（搭話）");
    assert_eq!(r, "「嗯？」");
    let (n, r) = build_talk_fallback("老李", fallback_line(0), "你好");
    assert_eq!(r, n);
}

#[test]
fn talk_sensitivity_hint_by_band() {
    assert_eq!(talk_sensitivity_hint(Some(SensitivityBand::High)), "此角色較熱絡，可多說一兩句。");
    assert_eq!(talk_sensitivity_hint(Some(SensitivityBand::Low)), "此角色較冷淡，回覆簡短。");
    assert_eq!(talk_sensitivity_hint(Some(SensitivityBand::Middle)), "");
    assert_eq!(talk_sensitivity_hint(None), "");
}
