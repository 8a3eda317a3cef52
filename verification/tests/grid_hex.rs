use singularity_world::npc::decision::IntentType;
use singularity_world::npc::grid_ai::{harvest_payload, move_event, target_search_radius, GridNpcManager, GridTurn, SquareCoord};
use singularity_world::npc::hex_ai::{hex_move_event, HexCoord, HexNpcManager, HexTurn};
use singularity_world::npc::narrative::{NarrativeBehaviors, NarrativeStore};

fn c(x: i32, y: i32) -> SquareCoord {
    SquareCoord { x, y }
}

#[test]
fn fresh_npc_decides_then_walks() {
    let mut m = GridNpcManager::new();
    assert!(matches!(m.begin_turn("n"), GridTurn::Decide { prev: None }));
    m.apply_decision("n", IntentType::Wander, false, Some(vec![c(0, 0), c(1, 0), c(2, 0)]));
    match m.begin_turn("n") {
        GridTurn::Step(s) => assert_eq!(s, c(1, 0)),
        _ => panic!("step expected"),
    }
    assert_eq!(m.step_result("n", true), Some(IntentType::Wander));
    match m.begin_turn("n") {
        GridTurn::Step(s) => assert_eq!(s, c(2, 0)),
        _ => panic!("step expected"),
    }
    assert!(matches!(m.begin_turn("n"), GridTurn::Decide { prev: Some(IntentType::Wander) }));
}

#[test]
fn gathering_rests_then_harvests() {
    let mut m = GridNpcManager::new();
    m.apply_decision("g", IntentType::Gather, true, None);
    assert!(matches!(m.begin_turn("g"), GridTurn::Dwell { harvest: false }));
    assert!(matches!(m.begin_turn("g"), GridTurn::Dwell { harvest: true }));
    assert!(matches!(m.begin_turn("g"), GridTurn::Decide { .. }));
    // reaching the resource by path also starts a rest
    m.apply_decision("g", IntentType::Gather, false, Some(vec![c(0, 0), c(0, 1)]));
    assert!(matches!(m.begin_turn("g"), GridTurn::Step(_)));
    assert_eq!(m.step_result("g", true), Some(IntentType::Gather));
    assert!(matches!(m.begin_turn("g"), GridTurn::Dwell { harvest: false }));
}

#[test]
fn off_grid_step_drops_path_and_idle_rests() {
    let mut m = GridNpcManager::new();
    m.apply_decision("w", IntentType::Work, false, Some(vec![c(0, 0), c(5, 5), c(6, 6)]));
    assert!(matches!(m.begin_turn("w"), GridTurn::Step(_)));
    assert_eq!(m.step_result("w", false), None);
    assert!(matches!(m.begin_turn("w"), GridTurn::Decide { .. }));
    m.apply_decision("w", IntentType::Idle, false, None);
    for _ in 0..3 {
        assert!(matches!(m.begin_turn("w"), GridTurn::Dwell { harvest: false }));
    }
    assert_eq!(target_search_radius(IntentType::Gather), Some(6));
    assert_eq!(target_search_radius(IntentType::Idle), None);
    assert_eq!(target_search_radius(IntentType::Beg), Some(2));
}

#[test]
fn move_events_are_narrated() {
    let mut n = NarrativeStore::new();
    n.set_behaviors(NarrativeBehaviors {
        gather: vec!["{name}採集".into()],
        wander: vec!["{name}閒逛".into()],
        idle: vec!["{name}發呆".into()],
        arrive: vec![],
        leave: vec![],
    });
    let e = move_event(&n, "npc_1", Some(""), c(0, 0), c(1, 0), IntentType::Gather, 5);
    assert_eq!(e.description, "npc_1採集");
    let e = move_event(&n, "npc_1", Some("老李"), c(0, 0), c(1, 0), IntentType::Trade, 5);
    assert_eq!(e.description, "老李閒逛");
    assert_eq!(harvest_payload(c(-3, 4), "藥草"), "在 (-3,4) 採集了藥草");
}

#[test]
fn hex_npcs_idle_or_wander() {
    let mut m = HexNpcManager::new();
    assert!(matches!(m.begin_turn("h"), HexTurn::Decide));
    m.apply_decision("h", true, None);
    for _ in 0..3 {
        assert!(matches!(m.begin_turn("h"), HexTurn::Dwell));
    }
    m.apply_decision("h", false, Some(vec![HexCoord { q: 0, r: 0 }, HexCoord { q: 1, r: 0 }]));
    match m.begin_turn("h") {
        HexTurn::Step(s) => assert_eq!(s, HexCoord { q: 1, r: 0 }),
        _ => panic!(),
    }
    assert_eq!(m.step_result("h", true), Some(IntentType::Wander));
    let e = hex_move_event("h", HexCoord { q: 0, r: 0 }, HexCoord { q: 1, r: 0 }, IntentType::Wander);
    assert_eq!(e.entity_id, "h");
}
