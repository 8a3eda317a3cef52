use singularity_world::npc::narrative::{NarrativeBehaviors, NarrativeStore};

fn test_store() -> NarrativeStore {
    let mut s = NarrativeStore::new();
    s.set_behaviors(NarrativeBehaviors {
        gather: vec!["A {name} 採集".into(), "B {name} 伐木".into()],
        wander: vec!["{name} 漫遊".into()],
        idle: vec!["{name} 發呆".into()],
        arrive: vec!["{name} 抵達".into()],
        leave: vec!["{name} 離開".into()],
    });
    s
}

#[test]
fn name_substitution() {
    let s = test_store();
    assert_eq!(s.wander("npc_1", "小明", 0), "小明 漫遊");
}

#[test]
fn deterministic_for_same_params() {
    let s = test_store();
    let a = s.gather("npc_42", "老王", 100);
    let b = s.gather("npc_42", "老王", 100);
    assert_eq!(a, b);
}

#[test]
fn empty_templates_returns_empty() {
    let mut s = NarrativeStore::new();
    s.set_behaviors(NarrativeBehaviors {
        gather: vec![],
        wander: vec![],
        idle: vec![],
        arrive: vec![],
        leave: vec![],
    });
    assert!(s.idle("x", "nobody", 0).is_empty());
}

#[test]
fn no_templates_loaded_gives_empty_lines() {
    let s = NarrativeStore::new();
    assert!(s.gather("npc_1", "甲", 3).is_empty());
    assert!(s.leave("npc_1", "甲", 3).is_empty());
}

#[test]
fn gather_pick_index_exact() {
    // "ab": hash = 97*31 + 98*32 = 6143; tick 0 → 6143 % 2 = 1 → second template
    let s = test_store();
    assert_eq!(s.gather("ab", "丙", 0), "B 丙 伐木");
    // tick 1: 6143 ^ 2654435761 is even → first template
    assert_eq!(s.gather("ab", "丙", 1), "A 丙 採集");
}

#[test]
fn fill_replaces_every_placeholder() {
    assert_eq!(singularity_world::npc::narrative::fill("{name}與{name}", "甲"), "甲與甲");
    assert_eq!(singularity_world::npc::narrative::fill("無名", "甲"), "無名");
}
