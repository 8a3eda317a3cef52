//! Looking at someone: a description from their build, agility, inner energy,
//! gear and current activity.
use vstd::prelude::*;

use super::{display_target_name, target_name_of};
use crate::npcnpc::trigger::{join_strings, join_with};
use crate::text::{concat2, starts_with, views};

verus! {

/// What a look reads of its target. `equipment_names` are the names of the
/// target's equipped items, in the order they were read.
pub struct LookTarget {
    pub id: String,
    pub display_title: String,
    pub female: bool,
    pub vit: i32,
    pub dex: i32,
    pub qi: i32,
    pub has_equipment: bool,
    pub equipment_names: Vec<String>,
    pub current_activity: String,
}

pub open spec fn pronoun(female: bool) -> Seq<char> {
    if female { "她"@ } else { "他"@ }
}

pub open spec fn physique(vit: i32) -> Seq<char> {
    if vit >= 20 {
        "體格異常魁梧"@
    } else if vit >= 15 {
        "體格健壯"@
    } else if vit >= 10 {
        "身材勻稱"@
    } else {
        "身形消瘦"@
    }
}

pub open spec fn agility(dex: i32) -> Seq<char> {
    if dex >= 20 {
        "舉止間透著驚人的敏捷"@
    } else if dex >= 15 {
        "動作輕靈"@
    } else if dex >= 10 {
        "步履平穩"@
    } else {
        "行動略顯遲緩"@
    }
}

pub open spec fn qi_presence(qi: i32) -> Seq<char> {
    if qi >= 20 {
        "，周身隱隱有氣勁流轉"@
    } else if qi >= 15 {
        "，氣息沉穩"@
    } else if qi >= 10 {
        Seq::empty()
    } else {
        "，氣息微弱"@
    }
}

/// The description of a look: who and how they are built, then up to three
/// pieces of their gear, then what they are doing.
pub open spec fn look_text(t: LookTarget) -> Seq<char> {
    let p = pronoun(t.female);
    let base = "你仔細打量了【"@ + target_name_of(t.display_title@, t.id@) + "】。"@ + p + physique(t.vit) + "，"@
        + agility(t.dex) + qi_presence(t.qi) + "。"@;
    let pieces = views(t.equipment_names@).take(if t.equipment_names@.len() < 3 { t.equipment_names@.len() as int } else { 3 });
    let with_gear = if t.has_equipment && pieces.len() > 0 {
        base + " 身上穿戴著"@ + join_with(pieces, "、"@) + "。"@
    } else {
        base
    };
    if t.current_activity@.len() > 0 {
        with_gear + " "@ + p + "目前"@ + t.current_activity@ + "。"@
    } else {
        with_gear
    }
}

/// The description of a look (see `look_text`).
pub fn build_look_narrative(t: &LookTarget) -> (out: String)
    ensures
        out@ == look_text(*t),
{
    let name = display_target_name(t.display_title.as_str(), t.id.as_str());
    let p = if t.female { "她" } else { "他" };
    let physique = if t.vit >= 20 {
        "體格異常魁梧"
    } else if t.vit >= 15 {
        "體格健壯"
    } else if t.vit >= 10 {
        "身材勻稱"
    } else {
        "身形消瘦"
    };
    let agility = if t.dex >= 20 {
        "舉止間透著驚人的敏捷"
    } else if t.dex >= 15 {
        "動作輕靈"
    } else if t.dex >= 10 {
        "步履平穩"
    } else {
        "行動略顯遲緩"
    };
    let qi = if t.qi >= 20 {
        "，周身隱隱有氣勁流轉"
    } else if t.qi >= 15 {
        "，氣息沉穩"
    } else if t.qi >= 10 {
        ""
    } else {
        "，氣息微弱"
    };
    proof {
        reveal_strlit("");
    }
    let mut desc = concat2("你仔細打量了【", name.as_str());
    desc.append("】。");
    desc.append(p);
    desc.append(physique);
    desc.append("，");
    desc.append(agility);
    desc.append(qi);
    desc.append("。");
    if t.has_equipment {
        let n = if t.equipment_names.len() < 3 { t.equipment_names.len() } else { 3 };
        let mut pieces: Vec<String> = Vec::new();
        let mut i: usize = 0;
        while i < n
            invariant
                i <= n <= t.equipment_names@.len(),
                views(pieces@) == views(t.equipment_names@).take(i as int),
            decreases n - i,
        {
            let x = t.equipment_names[i].clone();
            let ghost prev = views(pieces@);
            pieces.push(x);
            assert(views(pieces@) =~= prev.push(x@));
            assert(views(pieces@) =~= views(t.equipment_names@).take(i + 1));
            i += 1;
        }
        if pieces.len() > 0 {
            let j = join_strings(pieces.as_slice(), "、");
            desc.append(" 身上穿戴著");
            desc.append(j.as_str());
            desc.append("。");
        }
    }
    if !t.current_activity.as_str().is_empty() {
        desc.append(" ");
        desc.append(p);
        desc.append("目前");
        desc.append(t.current_activity.as_str());
        desc.append("。");
    }
    desc
}

/// `p + z` begins with `p`.
proof fn lemma_starts_self(p: Seq<char>, z: Seq<char>)
    ensures
        starts_with(p + z, p),
{
    assert((p + z).subrange(0, p.len() as int) =~= p);
}

/// What begins with `q`, which begins with `p`, begins with `p`; so does it with more appended.
proof fn lemma_starts_trans(s: Seq<char>, q: Seq<char>, p: Seq<char>, z: Seq<char>)
    requires
        starts_with(s, q),
        starts_with(q, p),
    ensures
        starts_with(s, p),
        starts_with(s + z, p),
{
    assert(s.subrange(0, p.len() as int) =~= q.subrange(0, p.len() as int));
    assert((s + z).subrange(0, p.len() as int) =~= s.subrange(0, p.len() as int));
}

/// A look begins with the name, the pronoun and the build: everything up to
/// and including `build`, which is what `physique` gives.
proof fn lemma_look_prefix(t: LookTarget)
    ensures
        starts_with(
            look_text(t),
            "你仔細打量了【"@ + target_name_of(t.display_title@, t.id@) + "】。"@ + pronoun(t.female) + physique(
                t.vit,
            ),
        ),
        starts_with(
            look_text(t),
            "你仔細打量了【"@ + target_name_of(t.display_title@, t.id@) + "】。"@ + pronoun(t.female) + physique(
                t.vit,
            ) + "，"@ + agility(t.dex),
        ),
        starts_with(
            look_text(t),
            "你仔細打量了【"@ + target_name_of(t.display_title@, t.id@) + "】。"@ + pronoun(t.female) + physique(
                t.vit,
            ) + "，"@ + agility(t.dex) + qi_presence(t.qi) + "。"@,
        ),
{
    let p4 = "你仔細打量了【"@ + target_name_of(t.display_title@, t.id@) + "】。"@ + pronoun(t.female) + physique(
        t.vit,
    );
    let p6 = p4 + "，"@ + agility(t.dex);
    let base = p6 + qi_presence(t.qi) + "。"@;
    lemma_starts_self(p4, "，"@ + agility(t.dex) + qi_presence(t.qi) + "。"@);
    assert(base == p4 + ("，"@ + agility(t.dex) + qi_presence(t.qi) + "。"@));
    lemma_starts_self(p6, qi_presence(t.qi) + "。"@);
    assert(base == p6 + (qi_presence(t.qi) + "。"@));
    lemma_starts_self(base, Seq::empty());
    assert(base + Seq::empty() == base);
    let s = look_text(t);
    // the look is the base sentence with possibly gear and activity after it
    let pieces = views(t.equipment_names@).take(
        if t.equipment_names@.len() < 3 {
            t.equipment_names@.len() as int
        } else {
            3
        },
    );
    let with_gear = if t.has_equipment && pieces.len() > 0 {
        base + " 身上穿戴著"@ + join_with(pieces, "、"@) + "。"@
    } else {
        base
    };
    let gear_tail = if t.has_equipment && pieces.len() > 0 {
        " 身上穿戴著"@ + join_with(pieces, "、"@) + "。"@
    } else {
        Seq::empty()
    };
    assert(with_gear =~= base + gear_tail);
    let act_tail = if t.current_activity@.len() > 0 {
        " "@ + pronoun(t.female) + "目前"@ + t.current_activity@ + "。"@
    } else {
        Seq::empty()
    };
    assert(s =~= base + (gear_tail + act_tail));
    lemma_starts_self(base, gear_tail + act_tail);
    lemma_starts_trans(s, base, p4, Seq::empty());
    lemma_starts_trans(s, base, p6, Seq::empty());
}

/// The build a look describes, by vitality: very burly from 20, sturdy from
/// 15, well-proportioned from 10, lean below 10.
pub proof fn law_look_build_bands(t: LookTarget)
    ensures
        ({
            let head = "你仔細打量了【"@ + target_name_of(t.display_title@, t.id@) + "】。"@ + (if t.female {
                "她"@
            } else {
                "他"@
            });
            &&& t.vit >= 20 ==> starts_with(look_text(t), head + "體格異常魁梧"@)
            &&& 15 <= t.vit < 20 ==> starts_with(look_text(t), head + "體格健壯"@)
            &&& 10 <= t.vit < 15 ==> starts_with(look_text(t), head + "身材勻稱"@)
            &&& t.vit < 10 ==> starts_with(look_text(t), head + "身形消瘦"@)
        }),
{
    lemma_look_prefix(t);
}

/// The agility a look describes, after the build: striking from 20, light
/// from 15, steady from 10, somewhat slow below 10.
pub proof fn law_look_agility_bands(t: LookTarget)
    ensures
        ({
            let head = "你仔細打量了【"@ + target_name_of(t.display_title@, t.id@) + "】。"@ + pronoun(t.female)
                + physique(t.vit) + "，"@;
            &&& t.dex >= 20 ==> starts_with(look_text(t), head + "舉止間透著驚人的敏捷"@)
            &&& 15 <= t.dex < 20 ==> starts_with(look_text(t), head + "動作輕靈"@)
            &&& 10 <= t.dex < 15 ==> starts_with(look_text(t), head + "步履平穩"@)
            &&& t.dex < 10 ==> starts_with(look_text(t), head + "行動略顯遲緩"@)
        }),
{
    lemma_look_prefix(t);
}

/// The inner energy a look describes, closing the first sentence: flowing
/// from 20, steady breath from 15, nothing said from 10, weak below 10.
pub proof fn law_look_qi_bands(t: LookTarget)
    ensures
        ({
            let head = "你仔細打量了【"@ + target_name_of(t.display_title@, t.id@) + "】。"@ + pronoun(t.female)
                + physique(t.vit) + "，"@ + agility(t.dex);
            &&& t.qi >= 20 ==> starts_with(look_text(t), head + "，周身隱隱有氣勁流轉。"@)
            &&& 15 <= t.qi < 20 ==> starts_with(look_text(t), head + "，氣息沉穩。"@)
            &&& 10 <= t.qi < 15 ==> starts_with(look_text(t), head + "。"@)
            &&& t.qi < 10 ==> starts_with(look_text(t), head + "，氣息微弱。"@)
        }),
{
    lemma_look_prefix(t);
    let head = "你仔細打量了【"@ + target_name_of(t.display_title@, t.id@) + "】。"@ + pronoun(t.female)
        + physique(t.vit) + "，"@ + agility(t.dex);
    reveal_strlit("，周身隱隱有氣勁流轉");
    reveal_strlit("，周身隱隱有氣勁流轉。");
    reveal_strlit("，氣息沉穩");
    reveal_strlit("，氣息沉穩。");
    reveal_strlit("，氣息微弱");
    reveal_strlit("，氣息微弱。");
    reveal_strlit("。");
    assert(head + qi_presence(t.qi) + "。"@ =~= head + (qi_presence(t.qi) + "。"@));
    if t.qi >= 20 {
        assert(qi_presence(t.qi) + "。"@ =~= "，周身隱隱有氣勁流轉。"@);
    } else if t.qi >= 15 {
        assert(qi_presence(t.qi) + "。"@ =~= "，氣息沉穩。"@);
    } else if t.qi >= 10 {
        assert(qi_presence(t.qi) + "。"@ =~= "。"@);
    } else {
        assert(qi_presence(t.qi) + "。"@ =~= "，氣息微弱。"@);
    }
}

} // verus!
