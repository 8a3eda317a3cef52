use singularity_world::npc::job_matching::{
    match_nearest, max_per_venue, nearest_candidate, pair_in_order, plan_hire, shuffle_strings, venue_slots,
    wants_job, JobMatchParams, VenueStaffing,
};

fn params(max: i32, th: i32, stable: bool) -> JobMatchParams {
    JobMatchParams { max_per_venue: max, mg_threshold: th, job_match_when_stable: stable }
}

#[test]
fn seeking_jobs() {
    assert!(wants_job(49, &params(0, 0, false), false));
    assert!(!wants_job(50, &params(0, 0, false), true));
    assert!(wants_job(50, &params(0, 0, true), true));
    assert!(wants_job(99, &params(0, 100, false), false));
    assert_eq!(max_per_venue(&params(0, 0, false)), 2);
    assert_eq!(max_per_venue(&params(5, 0, false)), 5);
}

#[test]
fn slots_repeat_open_places() {
    let v = vec![
        VenueStaffing { venue_id: "bar".into(), assigned: 1, limit: 3 },
        VenueStaffing { venue_id: "inn".into(), assigned: 4, limit: 2 },
        VenueStaffing { venue_id: "shop".into(), assigned: 0, limit: 1 },
    ];
    assert_eq!(venue_slots(&v), vec!["bar", "bar", "shop"]);
}

#[test]
fn nearest_is_first_smallest_reachable() {
    assert_eq!(nearest_candidate(&[None, Some(5), Some(3), Some(3), Some(9999)]), Some(2));
    assert_eq!(nearest_candidate(&[Some(9999), None]), None);
    assert_eq!(nearest_candidate(&[]), None);
}

#[test]
fn slots_take_nearest_waiting_npc() {
    // two slots, three NPCs; the second slot's venue has no room
    let dist = vec![
        vec![Some(4), Some(1), None],
        vec![Some(0), Some(0), Some(0)],
        vec![Some(2), Some(7), Some(2)],
    ];
    let has_rooms = vec![true, false, true];
    assert_eq!(match_nearest(&has_rooms, &dist, 3), vec![(0, 1), (2, 0)]);
    assert!(match_nearest(&[true], &vec![vec![Some(9999)]], 1).is_empty());
}

#[test]
fn random_pairing_zips() {
    assert_eq!(pair_in_order(3, 2), vec![(0, 0), (1, 1)]);
    assert!(pair_in_order(0, 4).is_empty());
}

#[test]
fn shuffle_keeps_items() {
    let mut v: Vec<String> = (0..10).map(|i| format!("v{i}")).collect();
    shuffle_strings(&mut v);
    let mut s = v.clone();
    s.sort();
    let mut e: Vec<String> = (0..10).map(|i| format!("v{i}")).collect();
    e.sort();
    assert_eq!(s, e);
}

#[test]
fn hire_plan() {
    let h = plan_hire("", Some(&"bar_1".to_string()), "spawn");
    assert_eq!(h.occupation, "服務生");
    assert_eq!(h.schedule, Some(("bar_1".to_string(), "spawn".to_string(), 6, 19)));
    let h2 = plan_hire("廚師", None, "spawn");
    assert_eq!(h2.occupation, "廚師");
    assert!(h2.schedule.is_none());
    assert!(plan_hire("x", Some(&"w".to_string()), "").schedule.is_none());
}
