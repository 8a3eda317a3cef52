use singularity_world::npc::behavior::{BehaviorStore, BehaviorsFile, RoleBehavior};

fn guard() -> RoleBehavior {
    RoleBehavior {
        enter_reactions: vec!["{name}抬頭看了一眼。".into(), "{name}點頭。".into()],
        shift_arrive: "{name}來上班了。".into(),
        shift_leave: "{name}下班了。".into(),
        movement_speed: Some(3),
        idle: vec![
            ("morning".into(), vec!["{name}伸懶腰。".into()]),
            ("night".into(), vec!["{name}打哈欠。".into()]),
            ("noon".into(), vec![]),
        ],
        wander_rooms: vec!["gate".into(), "plaza".into()],
        wander_leave: "{name}往{dest}去了。".into(),
        wander_arrive: "{name}從{from}來了。".into(),
    }
}

fn store() -> BehaviorStore {
    let mut s = BehaviorStore::new();
    s.set_behaviors(BehaviorsFile {
        time_periods: vec![("morning".into(), 6, 11), ("noon".into(), 11, 14), ("night".into(), 22, 6)],
        roles: vec![("守衛".into(), guard()), ("閒人".into(), RoleBehavior { movement_speed: Some(0), ..guard() })],
    });
    s
}

#[test]
fn shift_flavor_fills_name() {
    let s = store();
    assert_eq!(s.get_shift_flavor("守衛", "老王", true), "老王來上班了。");
    assert_eq!(s.get_shift_flavor("守衛", "老王", false), "老王下班了。");
    assert_eq!(s.get_shift_flavor("廚師", "老王", true), "");
    assert_eq!(BehaviorStore::new().get_shift_flavor("守衛", "老王", true), "");
}

#[test]
fn movement_speed_defaults_to_one() {
    let s = store();
    assert_eq!(s.movement_speed_for_title("守衛"), 3);
    assert_eq!(s.movement_speed_for_title("閒人"), 1);
    assert_eq!(s.movement_speed_for_title("無"), 1);
}

#[test]
fn time_periods_wrap_midnight() {
    let s = store();
    assert_eq!(s.get_time_period(6), "morning");
    assert_eq!(s.get_time_period(12), "noon");
    assert_eq!(s.get_time_period(23), "night");
    assert_eq!(s.get_time_period(3), "night");
    assert_eq!(s.get_time_period(16), "night");
    assert_eq!(BehaviorStore::new().get_time_period(8), "night");
}

#[test]
fn reactions_and_emotes() {
    let s = store();
    assert_eq!(s.enter_reaction_at("守衛", "阿明", 1), "阿明點頭。");
    assert_eq!(s.enter_reaction_at("守衛", "阿明", 5), "");
    let r = s.pick_enter_reaction("守衛", "阿明");
    assert!(r == "阿明抬頭看了一眼。" || r == "阿明點頭。");
    // bad mood reads the night pool, good mood the morning pool
    assert_eq!(s.idle_emote_at("守衛", "noon", "阿明", -31, 0), "阿明打哈欠。");
    assert_eq!(s.idle_emote_at("守衛", "noon", "阿明", 31, 0), "阿明伸懶腰。");
    assert_eq!(s.pick_idle_emote("守衛", "noon", "阿明", 0), "");
    assert_eq!(s.pick_idle_emote("守衛", "morning", "阿明", 0), "阿明伸懶腰。");
}

#[test]
fn wander_rooms_and_flavor() {
    let s = store();
    assert_eq!(s.get_wander_rooms("守衛"), vec!["gate".to_string(), "plaza".to_string()]);
    assert!(s.get_wander_rooms("無").is_empty());
    assert_eq!(s.get_wander_flavor("守衛", "阿明", "市集", true), "阿明往市集去了。");
    assert_eq!(s.get_wander_flavor("守衛", "阿明", "市集", false), "阿明從市集來了。");
}
