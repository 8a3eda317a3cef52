use singularity_world::npc::behavior::{BehaviorStore, BehaviorsFile, RoleBehavior};
use singularity_world::npc::traveler::{
    moved_step, seed_traveler_manager, MovementDef, MovementType, ScheduledNpc, TravelStep, TravelerManager,
};

fn rooms(v: &[&str]) -> Vec<String> {
    v.iter().map(|s| s.to_string()).collect()
}

#[test]
fn walks_up_to_speed_per_turn() {
    let mut m = TravelerManager::new();
    m.register("npc_a".into(), MovementDef { kind: MovementType::Schedule, speed: 2 });
    match m.begin_step("npc_a", "r0", 8, None) {
        TravelStep::NeedPath(k) => assert_eq!(k, MovementType::Schedule),
        _ => panic!("expected a path request"),
    }
    let walk = m.continue_with_path("npc_a", Some(rooms(&["r1", "r2", "r3"])));
    assert_eq!(walk, rooms(&["r1", "r2"]));
    match m.begin_step("npc_a", "r2", 8, None) {
        TravelStep::Walk(w) => assert_eq!(w, rooms(&["r3"])),
        _ => panic!("expected a walk"),
    }
}

#[test]
fn unknown_or_outside_active_rooms_skip() {
    let mut m = TravelerManager::new();
    m.register("npc_a".into(), MovementDef { kind: MovementType::Brain, speed: 0 });
    assert!(matches!(m.begin_step("ghost", "r0", 8, None), TravelStep::Skip));
    let empty: Vec<String> = vec![];
    assert!(matches!(m.begin_step("npc_a", "r0", 8, Some(&empty)), TravelStep::Skip));
    let other = rooms(&["r9"]);
    assert!(matches!(m.begin_step("npc_a", "r0", 8, Some(&other)), TravelStep::Skip));
    let here = rooms(&["r0"]);
    assert!(matches!(m.begin_step("npc_a", "r0", 8, Some(&here)), TravelStep::NeedPath(MovementType::Brain)));
    // speed below one counts as one
    assert_eq!(m.continue_with_path("npc_a", Some(rooms(&["x", "y"]))), rooms(&["x"]));
}

#[test]
fn no_path_walks_nothing() {
    let mut m = TravelerManager::new();
    m.register("b".into(), MovementDef { kind: MovementType::Schedule, speed: 1 });
    m.register("a".into(), MovementDef { kind: MovementType::Schedule, speed: 1 });
    assert!(m.continue_with_path("a", None).is_empty());
    assert_eq!(m.ids(), rooms(&["a", "b"]));
}

#[test]
fn moved_step_names_the_npc() {
    assert!(moved_step("n", "r1", "r1", "").is_none());
    let s = moved_step("n", "r1", "r2", "").expect("moved");
    assert_eq!((s.entity_id.as_str(), s.old_room.as_str(), s.new_room.as_str(), s.npc_name.as_str()), ("n", "r1", "r2", "n"));
    assert_eq!(moved_step("n", "r1", "r2", "阿明").unwrap().npc_name, "阿明");
}

#[test]
fn seeding_registers_schedules_then_brains() {
    let mut b = BehaviorStore::new();
    b.set_behaviors(BehaviorsFile {
        time_periods: vec![],
        roles: vec![(
            "守衛".into(),
            RoleBehavior {
                enter_reactions: vec![],
                shift_arrive: String::new(),
                shift_leave: String::new(),
                movement_speed: Some(4),
                idle: vec![],
                wander_rooms: vec![],
                wander_leave: String::new(),
                wander_arrive: String::new(),
            },
        )],
    });
    let rows = vec![
        ScheduledNpc { entity_id: "s1".into(), alive: true, title: String::new() },
        ScheduledNpc { entity_id: "dead".into(), alive: false, title: "守衛".into() },
    ];
    let mut m = seed_traveler_manager(&b, "守衛", &rows, &rooms(&["s1", "dead", "w"]));
    assert_eq!(m.ids(), rooms(&["dead", "s1", "w"]));
    match m.begin_step("s1", "r", 0, None) {
        TravelStep::NeedPath(k) => assert_eq!(k, MovementType::Schedule),
        _ => panic!(),
    }
    assert_eq!(m.continue_with_path("s1", Some(rooms(&["1", "2", "3", "4", "5"]))).len(), 4);
    match m.begin_step("dead", "r", 0, None) {
        TravelStep::NeedPath(k) => assert_eq!(k, MovementType::Brain),
        _ => panic!(),
    }
}
