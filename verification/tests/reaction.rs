use singularity_world::npc::reaction::{npc_behavior_reaction_line, reaction_line, short_name, ReactionTraits};

fn traits() -> ReactionTraits {
    ReactionTraits {
        very_orderly: false,
        very_bold: false,
        very_sensitive: false,
        bold: false,
        orderly: false,
        somewhat_orderly: false,
    }
}

#[test]
fn subdued_npc_reacts_by_temperament() {
    let t = ReactionTraits { very_orderly: true, very_bold: true, ..traits() };
    assert_eq!(reaction_line("subdue_victim", "老李", &t, 9), "【老李】咬牙道：「今日算你留手……」");
    let t = ReactionTraits { very_bold: true, ..traits() };
    assert_eq!(reaction_line("subdue_victim", "老李", &t, 0), "【老李】雖倒地，仍怒目瞪你。");
    let t = ReactionTraits { very_sensitive: true, ..traits() };
    assert_eq!(reaction_line("subdue_victim", "老李", &t, 4), "【老李】喘息著，一時說不出話。");
    assert_eq!(reaction_line("subdue_victim", "老李", &t, 5), "【老李】倒地不起，暫難起身。");
    assert_eq!(reaction_line("subdue_victim", "老李", &traits(), 0), "【老李】倒地不起，暫難起身。");
}

#[test]
fn other_reactions() {
    let bold = ReactionTraits { bold: true, ..traits() };
    assert_eq!(reaction_line("lost_subdue", "阿花", &bold, 3), "【阿花】哼了一聲：「還站得住？」");
    assert_eq!(reaction_line("lost_subdue", "阿花", &traits(), 3), "【阿花】收勢而立。");
    let so = ReactionTraits { somewhat_orderly: true, ..traits() };
    assert_eq!(reaction_line("borrow_ok", "阿花", &so, 3), "【阿花】似乎尚未察覺身上少了一物。");
    assert_eq!(reaction_line("borrow_ok", "阿花", &so, 4), "");
    assert_eq!(reaction_line("borrow_caught", "阿花", &bold, 0), "【阿花】厲聲喝道：「住手！你這算哪門子的借！」");
    let ord = ReactionTraits { orderly: true, ..traits() };
    assert_eq!(reaction_line("borrow_caught", "阿花", &ord, 0), "【阿花】皺眉盯著你：「不告而取，豈是君子？」");
    assert_eq!(reaction_line("borrow_caught", "阿花", &traits(), 0), "【阿花】一把按住你的手：「想借？先問過我。」");
    assert_eq!(reaction_line("slay_victim", "阿花", &bold, 0), "");
    assert_eq!(reaction_line("dance", "阿花", &bold, 0), "");
}

#[test]
fn random_reaction_is_one_of_the_draws() {
    let t = ReactionTraits { very_sensitive: true, ..traits() };
    for _ in 0..20 {
        let l = npc_behavior_reaction_line("subdue_victim", "老李", &t);
        assert!(l == "【老李】喘息著，一時說不出話。" || l == "【老李】倒地不起，暫難起身。");
    }
}

#[test]
fn short_names() {
    assert_eq!(short_name("npc_1", true, Some("李四"), "掌櫃"), "李四");
    assert_eq!(short_name("npc_1", true, None, "掌櫃"), "npc_1");
    assert_eq!(short_name("p1", false, None, "俠客"), "俠客");
    assert_eq!(short_name("p1", false, None, ""), "p1");
}
