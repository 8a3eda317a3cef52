use singularity_world::npc::unobserved::{
    alms_amount, default_hire_occupation, effect_of_roll, first_open_venue, sample_unobserved_npcs, schedule_step,
    unobserved_effect, UnobservedEffect, UNOBSERVED_MAX_NPCS_PER_TICK,
};

fn ids(n: usize) -> Vec<String> {
    (0..n).map(|i| format!("npc_{i}")).collect()
}

#[test]
fn sample_is_cut_to_the_cap() {
    let s = sample_unobserved_npcs(ids(80), 0);
    assert_eq!(s.len(), UNOBSERVED_MAX_NPCS_PER_TICK);
    let s = sample_unobserved_npcs(ids(80), 7);
    assert_eq!(s.len(), 7);
    let all = ids(80);
    assert!(s.iter().all(|x| all.contains(x)));
    let mut s = sample_unobserved_npcs(ids(5), 10);
    s.sort();
    let mut want = ids(5);
    want.sort();
    assert_eq!(s, want);
}

#[test]
fn scheduled_npcs_follow_their_schedule() {
    assert!(matches!(unobserved_effect(Some("market")), UnobservedEffect::FollowSchedule(t) if t == "market"));
    for _ in 0..20 {
        assert!(!matches!(unobserved_effect(Some("")), UnobservedEffect::FollowSchedule(_)));
        assert!(!matches!(unobserved_effect(None), UnobservedEffect::FollowSchedule(_)));
    }
    let path = vec!["r2".to_string(), "r3".to_string()];
    assert_eq!(schedule_step("r1", "r3", Some(&path)), Some("r2".to_string()));
    assert_eq!(schedule_step("r3", "r3", Some(&path)), None);
    assert_eq!(schedule_step("r1", "r3", None), None);
    assert_eq!(schedule_step("r1", "r3", Some(&Vec::new())), None);
}

#[test]
fn alms_only_for_the_poor() {
    for _ in 0..30 {
        let a = alms_amount(49).unwrap();
        assert!((3..=10).contains(&a));
    }
    assert_eq!(alms_amount(50), None);
    assert_eq!(default_hire_occupation(), "服務生");
}

#[test]
fn first_venue_with_room_to_hire() {
    assert_eq!(first_open_venue(&[Some(2), None, Some(1), Some(0)]), Some(2));
    assert_eq!(first_open_venue(&[Some(3), None]), None);
    assert_eq!(first_open_venue(&[]), None);
    assert_eq!(first_open_venue(&[Some(0)]), Some(0));
}

#[test]
fn rolls_map_to_effects() {
    assert!(matches!(effect_of_roll(0), UnobservedEffect::Alms));
    assert!(matches!(effect_of_roll(1), UnobservedEffect::Herb));
    assert!(matches!(effect_of_roll(2), UnobservedEffect::SeekJob));
    assert!(matches!(effect_of_roll(3), UnobservedEffect::Wander));
}
