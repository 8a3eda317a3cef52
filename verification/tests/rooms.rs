use singularity_world::server::rooms::{
    add_exit, create_room, delete_room, remove_exit, update_room, AddExitReq, CreateRoomReq,
    RoomAdminError, RoomExit, RoomRecord, UpdateRoomReq,
};

fn exit(d: &str, to: &str, name: &str) -> RoomExit {
    RoomExit { direction: d.into(), to_room_id: to.into(), to_room_name: name.into() }
}

fn triples(v: &[RoomExit]) -> Vec<(String, String, String)> {
    v.iter().map(|e| (e.direction.clone(), e.to_room_id.clone(), e.to_room_name.clone())).collect()
}

fn req(id: &str, name: &str) -> CreateRoomReq {
    CreateRoomReq { id: id.into(), name: name.into(), description: "d".into() }
}

#[test]
fn create_room_names_by_id_when_unnamed() {
    let r = create_room(true, req("r1", ""), false).ok().unwrap();
    assert_eq!((r.id.as_str(), r.name.as_str(), r.description.as_str()), ("r1", "r1", "d"));
    assert!(r.tags.is_empty() && r.zone.is_empty() && r.objects.is_empty());
    let r = create_room(true, req("r1", "大廳"), false).ok().unwrap();
    assert_eq!(r.name, "大廳");
}

#[test]
fn create_room_refusals() {
    assert!(matches!(create_room(false, req("r1", ""), false), Err(RoomAdminError::Forbidden)));
    assert!(matches!(create_room(true, req("  ", ""), false), Err(RoomAdminError::MissingId)));
    assert!(matches!(create_room(true, req("r1", ""), true), Err(RoomAdminError::IdTaken)));
    let e = RoomAdminError::MissingId;
    assert_eq!((e.status(), e.message()), (400, "need id, name, description"));
    let e = RoomAdminError::Forbidden;
    assert_eq!((e.status(), e.message()), (403, "未經授權"));
    let e = RoomAdminError::NotFound;
    assert_eq!((e.status(), e.message()), (404, "room not found"));
    assert_eq!(RoomAdminError::IdTaken.message(), "room id already exists");
    assert_eq!(RoomAdminError::SpawnRoom.message(), "cannot delete spawn room (界壁)");
}

#[test]
fn update_room_replaces_fields_but_not_id() {
    let room = RoomRecord {
        id: "r1".into(),
        name: "old".into(),
        description: "old".into(),
        tags: vec!["x".into()],
        zone: "z".into(),
        objects: vec![],
    };
    let up = UpdateRoomReq { name: "新".into(), description: "描述".into(), zone: "北".into(), tags: vec![], objects: vec![] };
    let r = update_room(true, Some(room), up).ok().unwrap();
    assert_eq!((r.id.as_str(), r.name.as_str(), r.description.as_str(), r.zone.as_str()), ("r1", "新", "描述", "北"));
    assert!(r.tags.is_empty());
    let up = UpdateRoomReq { name: "n".into(), description: String::new(), zone: String::new(), tags: vec![], objects: vec![] };
    assert!(matches!(update_room(true, None, up), Err(RoomAdminError::NotFound)));
}

#[test]
fn delete_room_spares_the_spawn_room() {
    assert!(delete_room(true, "r2", "spawn").is_ok());
    assert!(matches!(delete_room(true, "spawn", "spawn"), Err(RoomAdminError::SpawnRoom)));
    assert!(matches!(delete_room(false, "r2", "spawn"), Err(RoomAdminError::Forbidden)));
}

#[test]
fn add_exit_redirects_or_appends() {
    let mut ex = vec![exit("north", "r2", "二"), exit("east", "r3", "三")];
    add_exit(true, true, &mut ex, AddExitReq { direction: "north".into(), to_room_id: "r9".into() }, "九".into()).unwrap();
    assert_eq!(
        triples(&ex),
        vec![("north".into(), "r9".into(), "九".into()), ("east".into(), "r3".into(), "三".into())]
    );
    add_exit(true, true, &mut ex, AddExitReq { direction: "up".into(), to_room_id: "r4".into() }, "四".into()).unwrap();
    assert_eq!(ex.len(), 3);
    assert_eq!(ex[2].direction, "up");
    let before = triples(&ex);
    assert!(matches!(
        add_exit(true, false, &mut ex, AddExitReq { direction: "down".into(), to_room_id: "r5".into() }, String::new()),
        Err(RoomAdminError::NotFound)
    ));
    assert_eq!(triples(&ex), before);
}

#[test]
fn remove_exit_undoes_add() {
    let mut ex = vec![exit("north", "r2", "二"), exit("east", "r3", "三")];
    add_exit(true, true, &mut ex, AddExitReq { direction: "west".into(), to_room_id: "r7".into() }, "七".into()).unwrap();
    remove_exit(true, true, &mut ex, "west").unwrap();
    assert_eq!(triples(&ex), triples(&[exit("north", "r2", "二"), exit("east", "r3", "三")]));
    remove_exit(true, true, &mut ex, "north").unwrap();
    assert_eq!(triples(&ex), triples(&[exit("east", "r3", "三")]));
    assert!(matches!(remove_exit(false, true, &mut ex, "east"), Err(RoomAdminError::Forbidden)));
    assert_eq!(ex.len(), 1);
}
