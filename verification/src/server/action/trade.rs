//! Trading with an NPC: the NPC quotes an item with an asking price and a floor;
//! the player answers with an offer. An offer at the asking price buys at that
//! price, one between floor and asking price buys at the offer, a lower one is
//! refused; "no" and its kin cancel.
use vstd::prelude::*;

use crate::text::{
    concat3, decimal, i64_to_decimal, lowercase, parse_i32, parsed_i32, str_eq,
    to_lower, to_string, trim, trim_str,
};

verus! {

/// The offer an NPC has made to a player.
pub struct TradePending {
    pub npc_id: String,
    pub item_id: String,
    pub item_qty: i32,
    pub ask_mg: i32,
    pub floor_mg: i32,
    pub expires_unix: i64,
}

/// What an NPC would offer: the item, its catalogue name (if any), the asking
/// price and the floor.
pub struct TradeQuote {
    pub item_id: String,
    pub item_name: Option<String>,
    pub ask_mg: i32,
    pub floor_mg: i32,
}

/// The next step of a trade.
pub enum TradeStep {
    /// Answer with the narrative; when `cancel`, the pending offer is withdrawn first.
    Reply { narrative: String, cancel: bool },
    /// Record the offer, then answer with the narrative.
    Quote { pending: TradePending, narrative: String },
    /// The buyer's record could not be read.
    BuyerMissing,
    /// Pay `paid` magnesium and hand the item over; `at_ask` when the asking price was met.
    Settle { paid: i32, at_ask: bool },
}

/// Inputs that cancel a trade.
pub open spec fn is_reject_word(s: Seq<char>) -> bool {
    s == "拒絕"@ || s == "取消"@ || s == "算了"@ || s == "不要"@ || s == "no"@ || s == "n"@
}

/// The input (trimmed, lower-cased) cancels the trade.
pub open spec fn is_trade_reject(s: Seq<char>) -> bool {
    is_reject_word(lowercase(trim(s)))
}

/// An item's name: its catalogue name when non-empty, else its id.
pub open spec fn item_name_or_id(name: Option<String>, id: Seq<char>) -> Seq<char> {
    match name {
        Some(n) => if n@.len() > 0 {
            n@
        } else {
            id
        },
        None => id,
    }
}

pub open spec fn cancel_text(name: Seq<char>) -> Seq<char> {
    "你中止了與【"@ + name + "】的交易。"@
}

pub open spec fn not_quoted_text() -> Seq<char> {
    "對方尚未開價。請先點【交易】取得報價，再在輸入欄填寫出價（鎂）。"@
}

pub open spec fn no_goods_text(name: Seq<char>) -> Seq<char> {
    "你向【"@ + name + "】提出交易，對方表示目前暫無可交易之物。"@
}

pub open spec fn quote_text(name: Seq<char>, item: Seq<char>, ask: int, floor: int) -> Seq<char> {
    "【"@ + name + "】願意向你賣出「"@ + item + "」一份，開價 "@ + decimal(ask) + " 鎂（議價底線約 "@ + decimal(floor)
        + " 鎂）。請再點【交易】，在欄位輸入你願付的鎂數；達開價則一口價成交，介於底線與開價之間則以你的出價成交。輸入「拒絕」可取消。"@
}

pub open spec fn ask_offer_text() -> Seq<char> {
    "請輸入你願付的鎂數（整數），或輸入「拒絕」取消交易。"@
}

pub open spec fn invalid_offer_text() -> Seq<char> {
    "請輸入有效的鎂數（非負整數），或「拒絕」。"@
}

pub open spec fn below_floor_text(name: Seq<char>, floor: int) -> Seq<char> {
    "【"@ + name + "】搖頭：至少要 "@ + decimal(floor) + " 鎂才肯點頭。"@
}

pub open spec fn short_of_mg_text() -> Seq<char> {
    "你的鎂不足，無法成交。"@
}

pub open spec fn transfer_failed_text() -> Seq<char> {
    "成交時鎂轉帳失敗，請稍後再試。"@
}

pub open spec fn bought_text(paid: int, item: Seq<char>, at_ask: bool) -> Seq<char> {
    if at_ask {
        "你以開價 "@ + decimal(paid) + " 鎂買下「"@ + item + "」。"@
    } else {
        "一番議價後，你以 "@ + decimal(paid) + " 鎂買下「"@ + item + "」。"@
    }
}

/// `step` is a reply with `text`, withdrawing the offer when `cancel`.
pub open spec fn replies(step: TradeStep, text: Seq<char>, cancel: bool) -> bool {
    step matches TradeStep::Reply { narrative, cancel: c } && narrative@ == text && c == cancel
}

/// The step a trade takes (see the module documentation): `pending` is the
/// player's open offer from this NPC, `quote` what the NPC would offer, and
/// `buyer_mg` the buyer's magnesium (`None` when the buyer cannot be read).
pub open spec fn trade_step_ok(
    step: TradeStep,
    target_id: Seq<char>,
    name: Seq<char>,
    input: Seq<char>,
    pending: Option<TradePending>,
    quote: Option<TradeQuote>,
    buyer_mg: Option<i32>,
) -> bool {
    let t = trim(input);
    if is_trade_reject(t) {
        replies(step, cancel_text(name), true)
    } else {
        match pending {
            None => if t.len() > 0 {
                replies(step, not_quoted_text(), false)
            } else {
                match quote {
                    None => replies(step, no_goods_text(name), false),
                    Some(q) => step matches TradeStep::Quote { pending: p, narrative } && {
                        &&& p.npc_id@ == target_id
                        &&& p.item_id@ == q.item_id@
                        &&& p.item_qty == 1
                        &&& p.ask_mg == q.ask_mg
                        &&& p.floor_mg == q.floor_mg
                        &&& p.expires_unix == 0
                        &&& narrative@ == quote_text(name, item_name_or_id(q.item_name, q.item_id@), q.ask_mg as int, q.floor_mg as int)
                    },
                }
            },
            Some(p) => if t.len() == 0 {
                replies(step, ask_offer_text(), false)
            } else {
                match parsed_i32(t) {
                    None => replies(step, invalid_offer_text(), false),
                    Some(o) => if o < 0 {
                        replies(step, invalid_offer_text(), false)
                    } else {
                        match buyer_mg {
                            None => step is BuyerMissing,
                            Some(mg) => if o < p.ask_mg && o < p.floor_mg {
                                replies(step, below_floor_text(name, p.floor_mg as int), false)
                            } else {
                                let paid = if o >= p.ask_mg {
                                    p.ask_mg
                                } else {
                                    o
                                };
                                if mg < paid {
                                    replies(step, short_of_mg_text(), false)
                                } else {
                                    step matches TradeStep::Settle { paid: pd, at_ask } && pd == paid && at_ask == (o
                                        >= p.ask_mg)
                                }
                            },
                        }
                    },
                }
            },
        }
    }
}

/// Whether the input cancels a trade: trimmed and lower-cased, it is one of
/// 拒絕, 取消, 算了, 不要, no, n.
pub fn is_trade_reject_input(s: &str) -> (b: bool)
    ensures
        b == is_trade_reject(s@),
{
    let t = trim_str(s);
    let low = to_lower(t.as_str());
    let w = low.as_str();
    str_eq(w, "拒絕") || str_eq(w, "取消") || str_eq(w, "算了") || str_eq(w, "不要") || str_eq(w, "no") || str_eq(w, "n")
}

/// An item's name: its catalogue name when non-empty, else its id.
pub fn item_display_name(name: &Option<String>, id: &str) -> (out: String)
    ensures
        out@ == item_name_or_id(*name, id@),
{
    match name {
        Some(n) => if n.as_str().is_empty() {
            to_string(id)
        } else {
            n.clone()
        },
        None => to_string(id),
    }
}

fn reply(narrative: String) -> (s: TradeStep)
    ensures
        s matches TradeStep::Reply { narrative: n, cancel } && n@ == narrative@ && !cancel,
{
    TradeStep::Reply { narrative, cancel: false }
}

fn join5(a: &str, b: &str, c: &str, d: &str, e: &str) -> (out: String)
    ensures
        out@ == a@ + b@ + c@ + d@ + e@,
{
    let mut out = concat3(a, b, c);
    out.append(d);
    out.append(e);
    out
}

/// Decides the next step of a trade (see `trade_step_ok`).
pub fn trade_step(
    target_id: &str,
    target_name: &str,
    player_input: &str,
    pending: Option<&TradePending>,
    quote: Option<TradeQuote>,
    buyer_mg: Option<i32>,
) -> (step: TradeStep)
    ensures
        trade_step_ok(step, target_id@, target_name@, player_input@, match pending {
            Some(p) => Some(*p),
            None => None,
        }, quote, buyer_mg),
{
    let input = trim_str(player_input);
    if is_trade_reject_input(input.as_str()) {
        return TradeStep::Reply { narrative: concat3("你中止了與【", target_name, "】的交易。"), cancel: true };
    }
    let p = match pending {
        None => {
            if !input.as_str().is_empty() {
                return reply(to_string("對方尚未開價。請先點【交易】取得報價，再在輸入欄填寫出價（鎂）。"));
            }
            match quote {
                None => {
                    return reply(concat3("你向【", target_name, "】提出交易，對方表示目前暫無可交易之物。"));
                },
                Some(q) => {
                    let item = item_display_name(&q.item_name, q.item_id.as_str());
                    let ask = i64_to_decimal(q.ask_mg as i64);
                    let floor = i64_to_decimal(q.floor_mg as i64);
                    let mut narrative = join5("【", target_name, "】願意向你賣出「", item.as_str(), "」一份，開價 ");
                    narrative.append(ask.as_str());
                    narrative.append(" 鎂（議價底線約 ");
                    narrative.append(floor.as_str());
                    narrative.append(
                        " 鎂）。請再點【交易】，在欄位輸入你願付的鎂數；達開價則一口價成交，介於底線與開價之間則以你的出價成交。輸入「拒絕」可取消。",
                    );
                    let p = TradePending {
                        npc_id: to_string(target_id),
                        item_id: q.item_id,
                        item_qty: 1,
                        ask_mg: q.ask_mg,
                        floor_mg: q.floor_mg,
                        expires_unix: 0,
                    };
                    return TradeStep::Quote { pending: p, narrative };
                },
            }
        },
        Some(p) => p,
    };
    if input.as_str().is_empty() {
        return reply(to_string("請輸入你願付的鎂數（整數），或輸入「拒絕」取消交易。"));
    }
    let offer = match parse_i32(input.as_str()) {
        None => {
            return reply(to_string("請輸入有效的鎂數（非負整數），或「拒絕」。"));
        },
        Some(o) => o,
    };
    if offer < 0 {
        return reply(to_string("請輸入有效的鎂數（非負整數），或「拒絕」。"));
    }
    let mg = match buyer_mg {
        None => {
            return TradeStep::BuyerMissing;
        },
        Some(m) => m,
    };
    let paid = if offer >= p.ask_mg {
        p.ask_mg
    } else if offer >= p.floor_mg {
        offer
    } else {
        let floor = i64_to_decimal(p.floor_mg as i64);
        return reply(join5("【", target_name, "】搖頭：至少要 ", floor.as_str(), " 鎂才肯點頭。"));
    };
    if mg < paid {
        return reply(to_string("你的鎂不足，無法成交。"));
    }
    TradeStep::Settle { paid, at_ask: offer >= p.ask_mg }
}

/// The answer once a settlement was attempted: a failed transfer is reported
/// (and is no success); otherwise the purchase, at the asking price or bargained.
pub fn trade_settled_reply(transfer_ok: bool, paid: i32, at_ask: bool, item_name: &Option<String>, item_id: &str) -> (r: (String, bool))
    ensures
        !transfer_ok ==> r.0@ == transfer_failed_text() && !r.1,
        transfer_ok ==> r.0@ == bought_text(paid as int, item_name_or_id(*item_name, item_id@), at_ask) && r.1,
{
    if !transfer_ok {
        return (to_string("成交時鎂轉帳失敗，請稍後再試。"), false);
    }
    let item = item_display_name(item_name, item_id);
    let amount = i64_to_decimal(paid as i64);
    let text = if at_ask {
        join5("你以開價 ", amount.as_str(), " 鎂買下「", item.as_str(), "」。")
    } else {
        join5("一番議價後，你以 ", amount.as_str(), " 鎂買下「", item.as_str(), "」。")
    };
    (text, true)
}


/// A trade settles at no more than the asking price and no more than the buyer
/// has: at the asking price when the offer met it, otherwise at the offer, which
/// is at least the floor.
pub proof fn law_settled_price_in_bounds(
    step: TradeStep,
    target_id: Seq<char>,
    name: Seq<char>,
    input: Seq<char>,
    pending: TradePending,
    quote: Option<TradeQuote>,
    buyer_mg: i32,
)
    requires
        trade_step_ok(step, target_id, name, input, Some(pending), quote, Some(buyer_mg)),
    ensures
        step matches TradeStep::Settle { paid, at_ask } ==> {
            &&& paid <= pending.ask_mg
            &&& paid <= buyer_mg
            &&& at_ask ==> paid == pending.ask_mg
            &&& !at_ask ==> pending.floor_mg <= paid < pending.ask_mg
        },
{
}

} // verus!
