//! Talking to an NPC: the words that stand for a silent approach, the mood hint
//! given to the reply writer, and the narrative of the reply.
use vstd::prelude::*;

use crate::text::{chars_of, concat3, str_eq, to_string, trim, trim_str};

verus! {

/// The input of a talk: the player's words, or `（搭話）` when they said nothing.
pub open spec fn talk_input(s: Seq<char>) -> Seq<char> {
    if trim(s).len() == 0 { "（搭話）"@ } else { s }
}

/// The input of a talk (see `talk_input`).
pub fn player_talk_input(s: &str) -> (out: String)
    ensures
        out@ == talk_input(s@),
{
    let t = trim_str(s);
    if t.as_str().is_empty() { to_string("（搭話）") } else { to_string(s) }
}

/// The mood hint for an NPC's disposition: gloomy below −30, cheerful above 30.
pub open spec fn disposition_hint(d: i32) -> Seq<char> {
    if d < -30 {
        "此角色心境低落，語氣較冷漠沉鬱。"@
    } else if d > 30 {
        "此角色心情愉快，語氣較活潑熱情。"@
    } else {
        Seq::empty()
    }
}

/// The mood hint for an NPC's disposition (see `disposition_hint`).
pub fn talk_disposition_hint(disposition: i32) -> (out: String)
    ensures
        out@ == disposition_hint(disposition),
{
    if disposition < -30 {
        to_string("此角色心境低落，語氣較冷漠沉鬱。")
    } else if disposition > 30 {
        to_string("此角色心情愉快，語氣較活潑熱情。")
    } else {
        String::new()
    }
}

/// The narrative of an NPC's reply: `你向【name】搭話。name說道：「reply」`.
pub fn talk_reply_narrative(name: &str, reply: &str) -> (out: String)
    ensures
        out@ == "你向【"@ + name@ + "】搭話。"@ + name@ + "說道：「"@ + reply@ + "」"@,
{
    let mut out = concat3("你向【", name, "】搭話。");
    out.append(name);
    out.append("說道：「");
    out.append(reply);
    out.append("」");
    out
}

/// The lines an NPC falls back on when no reply writer answers.
pub open spec fn fallback_pool() -> Seq<Seq<char>> {
    seq![
        "「你好，有什麼事嗎？」"@,
        "「這裡最近不太平靜，你小心點。」"@,
        "「嗯？」"@,
        "「有事快說，我還有活要幹。」"@,
        "「沒見過你，新來的？」"@,
        "「天快黑了，早點找地方落腳。」"@,
        "「……你誰啊？」"@,
        "「路過就路過，別瞎瞧。」"@,
    ]
}

/// The fallback line at `i`; see `fallback_pool`.
pub fn fallback_line(i: usize) -> (line: &'static str)
    requires
        i < 8,
    ensures
        line@ == fallback_pool()[i as int],
{
    if i == 0 {
        "「你好，有什麼事嗎？」"
    } else if i == 1 {
        "「這裡最近不太平靜，你小心點。」"
    } else if i == 2 {
        "「嗯？」"
    } else if i == 3 {
        "「有事快說，我還有活要幹。」"
    } else if i == 4 {
        "「沒見過你，新來的？」"
    } else if i == 5 {
        "「天快黑了，早點找地方落腳。」"
    } else if i == 6 {
        "「……你誰啊？」"
    } else {
        "「路過就路過，別瞎瞧。」"
    }
}

/// The sum of the code points of `s`.
pub open spec fn code_sum(s: Seq<char>) -> int
    decreases s.len(),
{
    if s.len() == 0 {
        0
    } else {
        code_sum(s.drop_last()) + (s.last() as u32) as int
    }
}

/// `x` held to the range of `i64`.
pub open spec fn clamp_i64(x: int) -> int {
    if x > i64::MAX {
        i64::MAX as int
    } else if x < i64::MIN {
        i64::MIN as int
    } else {
        x
    }
}

/// The fallback line an NPC picks by the time and its id: the time in
/// milliseconds (saturating) plus the code-point sum of the id, taken modulo
/// the pool's size.
pub open spec fn base_fallback_index(npc_id: Seq<char>, now_unix: i64) -> int {
    clamp_i64(clamp_i64(now_unix * 1000) + code_sum(npc_id)) % 8
}

/// The fallback line index by time and id; see `base_fallback_index`. The
/// code-point sum of the id must fit in `i32`.
pub fn fallback_index(npc_id: &str, now_unix: i64) -> (i: usize)
    requires
        code_sum(npc_id@) <= i32::MAX,
    ensures
        i == base_fallback_index(npc_id@, now_unix),
        i < 8,
{
    let cs = chars_of(npc_id);
    let mut h: i32 = 0;
    let mut k: usize = 0;
    while k < cs.len()
        invariant
            cs@ == npc_id@,
            k <= cs@.len(),
            h == code_sum(cs@.take(k as int)),
            code_sum(npc_id@) <= i32::MAX,
        decreases cs@.len() - k,
    {
        let c: u32 = cs[k] as u32;
        proof {
            let t = cs@.take(k as int + 1);
            assert(t.drop_last() =~= cs@.take(k as int));
            assert(t.last() == cs@[k as int]);
            assert(code_sum(t) == code_sum(cs@.take(k as int)) + c);
            lemma_code_sum_prefix(cs@, k as int + 1);
            lemma_code_sum_prefix(cs@, k as int);
            assert(c <= i32::MAX);
            assert(h + c <= i32::MAX);
        }
        h = h + c as i32;
        k += 1;
    }
    proof {
        assert(cs@.take(k as int) =~= cs@);
    }
    let ms: i128 = now_unix as i128 * 1000;
    let ms_sat: i128 = if ms > i64::MAX as i128 {
        i64::MAX as i128
    } else if ms < i64::MIN as i128 {
        i64::MIN as i128
    } else {
        ms
    };
    let s: i128 = ms_sat + h as i128;
    let seed: i128 = if s > i64::MAX as i128 {
        i64::MAX as i128
    } else if s < i64::MIN as i128 {
        i64::MIN as i128
    } else {
        s
    };
    let r: i128 = seed % 8;
    let r2: i128 = if r < 0 {
        r + 8
    } else {
        r
    };
    r2 as usize
}

/// A prefix's code-point sum is at most the whole's (code points are not negative).
proof fn lemma_code_sum_prefix(s: Seq<char>, n: int)
    requires
        0 <= n <= s.len(),
    ensures
        0 <= code_sum(s.take(n)) <= code_sum(s),
    decreases s.len(),
{
    if s.len() > 0 {
        if n == s.len() {
            assert(s.take(n) =~= s);
            lemma_code_sum_prefix(s.drop_last(), n - 1);
            assert(s.drop_last().take(n - 1) =~= s.drop_last());
        } else {
            assert(s.take(n) =~= s.drop_last().take(n));
            lemma_code_sum_prefix(s.drop_last(), n);
        }
    }
}

/// Where an NPC's sensitivity lies: above 0.6, below 0.3, or between.
#[derive(PartialEq, Eq, Structural)]
pub enum SensitivityBand {
    High,
    Low,
    Middle,
}

/// The fallback index moved by personality: by `shift` (boldness times half
/// the pool's size, truncated), two more for a sensitive NPC, two fewer for a
/// cold one, wrapping round the pool.
pub open spec fn shifted_index(base: int, shift: i32, band: SensitivityBand) -> int {
    let adj = shift + match band {
        SensitivityBand::High => 2int,
        SensitivityBand::Low => -2int,
        SensitivityBand::Middle => 0int,
    };
    (base + adj) % 8
}

/// The fallback index moved by personality; see `shifted_index`.
pub fn shift_fallback_index(base: usize, shift: i32, band: SensitivityBand) -> (i: usize)
    requires
        base < 8,
    ensures
        i == shifted_index(base as int, shift, band),
        i < 8,
{
    let adj: i64 = shift as i64 + match band {
        SensitivityBand::High => 2i64,
        SensitivityBand::Low => -2i64,
        SensitivityBand::Middle => 0i64,
    };
    let s: i64 = base as i64 + adj;
    let r: i64 = s % 8;
    let r2: i64 = if r < 0 {
        r + 8
    } else {
        r
    };
    r2 as usize
}

/// The fallback talk: the narrative `你向【name】搭話。name說道：line`, and the
/// reply remembered as the NPC's: the line itself when the player said nothing
/// (or only approached), else the whole narrative.
pub open spec fn fallback_talk(name: Seq<char>, line: Seq<char>, player_input: Seq<char>) -> (
    Seq<char>,
    Seq<char>,
) {
    let narrative = "你向【"@ + name + "】搭話。"@ + name + "說道："@ + line;
    let reply = if trim(player_input).len() == 0 || player_input == "（搭話）"@ {
        line
    } else {
        narrative
    };
    (narrative, reply)
}

/// The fallback talk with line `line`; see `fallback_talk`.
pub fn build_talk_fallback(name: &str, line: &str, player_input: &str) -> (r: (String, String))
    ensures
        (r.0@, r.1@) == fallback_talk(name@, line@, player_input@),
{
    let mut narrative = concat3("你向【", name, "】搭話。");
    narrative.append(name);
    narrative.append("說道：");
    narrative.append(line);
    let t = trim_str(player_input);
    let reply = if t.as_str().is_empty() || str_eq(player_input, "（搭話）") {
        to_string(line)
    } else {
        to_string(narrative.as_str())
    };
    (narrative, reply)
}

/// The hint on how talkative an NPC is, by its sensitivity band (`None` when
/// it has no personality).
pub open spec fn sensitivity_hint(band: Option<SensitivityBand>) -> Seq<char> {
    match band {
        Some(SensitivityBand::High) => "此角色較熱絡，可多說一兩句。"@,
        Some(SensitivityBand::Low) => "此角色較冷淡，回覆簡短。"@,
        _ => Seq::empty(),
    }
}

/// The talkativeness hint; see `sensitivity_hint`.
pub fn talk_sensitivity_hint(band: Option<SensitivityBand>) -> (out: String)
    ensures
        out@ == sensitivity_hint(band),
{
    match band {
        Some(SensitivityBand::High) => to_string("此角色較熱絡，可多說一兩句。"),
        Some(SensitivityBand::Low) => to_string("此角色較冷淡，回覆簡短。"),
        _ => String::new(),
    }
}

} // verus!
