use singularity_world::server::action::trade::{
    is_trade_reject_input, item_display_name, trade_settled_reply, trade_step, TradePending, TradeQuote, TradeStep,
};
use singularity_world::server::action::{action_result_msg, client_err_fmt, display_target_name};

fn pending() -> TradePending {
    TradePending { npc_id: "npc_1".into(), item_id: "herb".into(), item_qty: 1, ask_mg: 30, floor_mg: 20, expires_unix: 0 }
}

fn quote() -> TradeQuote {
    TradeQuote { item_id: "herb".into(), item_name: Some("藥草".into()), ask_mg: 30, floor_mg: 20 }
}

fn reply_text(s: TradeStep) -> (String, bool) {
    match s {
        TradeStep::Reply { narrative, cancel } => (narrative, cancel),
        _ => panic!("expected a reply"),
    }
}

#[test]
fn reject_words() {
    for w in ["拒絕", " 取消 ", "算了", "不要", "NO", "n"] {
        assert!(is_trade_reject_input(w), "{w}");
    }
    assert!(!is_trade_reject_input("好"));
    let (t, cancel) = reply_text(trade_step("npc_1", "阿明", " no ", Some(&pending()), None, Some(100)));
    assert_eq!(t, "你中止了與【阿明】的交易。");
    assert!(cancel);
}

#[test]
fn first_contact_quotes_an_item() {
    match trade_step("npc_1", "阿明", "", None, Some(quote()), None) {
        TradeStep::Quote { pending, narrative } => {
            assert_eq!(pending.npc_id, "npc_1");
            assert_eq!(pending.item_id, "herb");
            assert_eq!((pending.item_qty, pending.ask_mg, pending.floor_mg, pending.expires_unix), (1, 30, 20, 0));
            assert_eq!(
                narrative,
                "【阿明】願意向你賣出「藥草」一份，開價 30 鎂（議價底線約 20 鎂）。請再點【交易】，在欄位輸入你願付的鎂數；達開價則一口價成交，介於底線與開價之間則以你的出價成交。輸入「拒絕」可取消。"
            );
        },
        _ => panic!("expected a quote"),
    }
    let (t, _) = reply_text(trade_step("npc_1", "阿明", "", None, None, None));
    assert_eq!(t, "你向【阿明】提出交易，對方表示目前暫無可交易之物。");
    let (t, _) = reply_text(trade_step("npc_1", "阿明", "25", None, Some(quote()), None));
    assert_eq!(t, "對方尚未開價。請先點【交易】取得報價，再在輸入欄填寫出價（鎂）。");
}

#[test]
fn offers_are_judged_against_ask_and_floor() {
    let p = pending();
    assert!(matches!(trade_step("npc_1", "阿明", "30", Some(&p), None, Some(100)), TradeStep::Settle { paid: 30, at_ask: true }));
    assert!(matches!(trade_step("npc_1", "阿明", "99", Some(&p), None, Some(100)), TradeStep::Settle { paid: 30, at_ask: true }));
    assert!(matches!(trade_step("npc_1", "阿明", "25", Some(&p), None, Some(100)), TradeStep::Settle { paid: 25, at_ask: false }));
    assert_eq!(reply_text(trade_step("npc_1", "阿明", "19", Some(&p), None, Some(100))).0, "【阿明】搖頭：至少要 20 鎂才肯點頭。");
    assert_eq!(reply_text(trade_step("npc_1", "阿明", "25", Some(&p), None, Some(24))).0, "你的鎂不足，無法成交。");
    assert_eq!(reply_text(trade_step("npc_1", "阿明", "-1", Some(&p), None, Some(100))).0, "請輸入有效的鎂數（非負整數），或「拒絕」。");
    assert_eq!(reply_text(trade_step("npc_1", "阿明", "abc", Some(&p), None, Some(100))).0, "請輸入有效的鎂數（非負整數），或「拒絕」。");
    assert_eq!(reply_text(trade_step("npc_1", "阿明", "  ", Some(&p), None, Some(100))).0, "請輸入你願付的鎂數（整數），或輸入「拒絕」取消交易。");
    assert!(matches!(trade_step("npc_1", "阿明", "25", Some(&p), None, None), TradeStep::BuyerMissing));
}

#[test]
fn settlement_texts() {
    assert_eq!(trade_settled_reply(true, 30, true, &Some("藥草".into()), "herb"), ("你以開價 30 鎂買下「藥草」。".to_string(), true));
    assert_eq!(trade_settled_reply(true, 25, false, &Some(String::new()), "herb"), ("一番議價後，你以 25 鎂買下「herb」。".to_string(), true));
    assert_eq!(trade_settled_reply(false, 25, false, &None, "herb"), ("成交時鎂轉帳失敗，請稍後再試。".to_string(), false));
    assert_eq!(item_display_name(&None, "x"), "x");
}

#[test]
fn action_helpers() {
    assert_eq!(display_target_name("", "npc_1"), "npc_1");
    assert_eq!(display_target_name("掌櫃", "npc_1"), "掌櫃");
    assert_eq!(client_err_fmt("不能%s，%s", "Talk"), "不能Talk，%s");
    let m = action_result_msg("Trade", "npc_1", "掌櫃", "好".to_string(), true);
    assert_eq!(m.msg_type, "action_result");
    assert_eq!(m.action, "Trade");
    assert!(m.actions.is_empty() && m.move_target_id.is_empty() && m.success);
}
