use singularity_world::server::room_editor::{
    add_or_replace_exit, editor_create, editor_link_forward, editor_link_reverse, editor_update, ensure_move_object_for_exit,
    is_admin_authorized, normalize_id_for_file, remove_exits_to, AdminQuery, CreateReq, EditorError, LinkReq,
    RoomEditorExit, RoomEditorRoomFile, RoomObject, UpdateReq,
};

fn room(id: &str, name: &str) -> RoomEditorRoomFile {
    RoomEditorRoomFile {
        id: id.into(),
        name: name.into(),
        description: format!("{name}的描述"),
        tags: vec!["indoor".into()],
        zone: "東區".into(),
        exits: vec![],
        objects: vec![],
    }
}

fn exit(d: &str, to: &str) -> RoomEditorExit {
    RoomEditorExit { direction: d.into(), to: to.into() }
}

fn exits_of(r: &[RoomEditorExit]) -> Vec<(String, String)> {
    r.iter().map(|e| (e.direction.clone(), e.to.clone())).collect()
}

fn response(o: &RoomObject, key: &str) -> Option<String> {
    o.responses.iter().find(|(k, _)| k == key).map(|(_, v)| v.clone())
}

#[test]
fn admin_key_check() {
    assert!(is_admin_authorized("", &AdminQuery { mg_key: None }));
    assert!(is_admin_authorized("k", &AdminQuery { mg_key: Some("k".into()) }));
    assert!(!is_admin_authorized("k", &AdminQuery { mg_key: Some("x".into()) }));
    assert!(!is_admin_authorized("k", &AdminQuery { mg_key: None }));
}

#[test]
fn file_names() {
    assert_eq!(normalize_id_for_file("  Tavern Back/Room\\1 "), "tavern_back_room_1");
}

#[test]
fn exits_replace_by_direction() {
    let mut v = vec![exit("東", "a"), exit("西", "b")];
    add_or_replace_exit(&mut v, exit("東", "c"));
    add_or_replace_exit(&mut v, exit("北", "d"));
    add_or_replace_exit(&mut v, exit(" ", "e"));
    assert_eq!(exits_of(&v), vec![("東".into(), "c".into()), ("西".into(), "b".into()), ("北".into(), "d".into())]);
    remove_exits_to(&mut v, "b");
    assert_eq!(exits_of(&v), vec![("東".into(), "c".into()), ("北".into(), "d".into())]);
}

#[test]
fn move_object_added_or_completed() {
    let mut r = room("r1", "大廳");
    ensure_move_object_for_exit(&mut r, "r2", "", "");
    assert_eq!(r.objects.len(), 1);
    let o = &r.objects[0];
    assert_eq!((o.id.as_str(), o.name.as_str(), o.move_to_room_id.as_str()), ("r2", "r2", "r2"));
    assert_eq!(o.sockets, vec!["Move".to_string()]);
    assert_eq!(response(o, "Move").as_deref(), Some("你前往「r2」。"));
    // an existing object for the exit is completed, not duplicated
    r.objects[0].responses = vec![("Look".into(), "一扇門".into()), ("Move".into(), "  ".into())];
    r.objects[0].sockets = vec!["Look".into()];
    ensure_move_object_for_exit(&mut r, "r2", "門", "走廊");
    assert_eq!(r.objects.len(), 1);
    let o = &r.objects[0];
    assert_eq!(o.sockets, vec!["Look".to_string(), "Move".to_string()]);
    assert_eq!(response(o, "Move").as_deref(), Some("你前往「走廊」。"));
    assert_eq!(response(o, "Look").as_deref(), Some("一扇門"));
    ensure_move_object_for_exit(&mut r, "  ", "x", "y");
    assert_eq!(r.objects.len(), 1);
}

#[test]
fn create_requests() {
    let req = || CreateReq {
        id: "inn".into(),
        name: String::new(),
        description: "新".into(),
        zone: "z".into(),
        tags: vec![],
        objects: vec![],
        clone_from: String::new(),
    };
    assert!(matches!(editor_create(false, req(), false, None), Err(EditorError::Forbidden)));
    assert!(matches!(editor_create(true, CreateReq { id: " ".into(), ..req() }, false, None), Err(EditorError::BadRequest)));
    assert!(matches!(editor_create(true, req(), true, None), Err(EditorError::Conflict)));
    let (f, path) = editor_create(true, req(), false, None).ok().unwrap();
    assert_eq!((f.id.as_str(), f.name.as_str(), f.description.as_str()), ("inn", "inn", "新"));
    assert_eq!(path, "data/rooms/editor/inn.json");
    let (f, _) = editor_create(true, CreateReq { clone_from: "r1".into(), ..req() }, false, Some(room("r1", "大廳"))).ok().unwrap();
    assert_eq!((f.description.as_str(), f.zone.as_str()), ("大廳的描述", "東區"));
}

#[test]
fn update_keeps_id_and_exits() {
    let mut f = room("r1", "大廳");
    f.exits = vec![exit("東", "r2")];
    editor_update(&mut f, UpdateReq { name: String::new(), description: "d".into(), zone: "z".into(), tags: vec![], objects: vec![] });
    assert_eq!((f.id.as_str(), f.name.as_str(), f.description.as_str(), f.zone.as_str()), ("r1", "r1", "d", "z"));
    assert_eq!(exits_of(&f.exits), vec![("東".into(), "r2".into())]);
}

#[test]
fn link_both_ways() {
    let req = LinkReq { from: "r1".into(), to: "r2".into(), direction: String::new(), reverse: true, reverse_direction: "西".into() };
    assert!(matches!(editor_link_forward(true, &req, None, Some(room("r2", "走廊"))), Err(EditorError::NotFound)));
    assert!(matches!(editor_link_forward(true, &req, Some(room("r1", "大廳")), None), Err(EditorError::TargetNotFound)));
    assert!(matches!(editor_link_forward(false, &req, None, None), Err(EditorError::Forbidden)));
    let from = editor_link_forward(true, &req, Some(room("r1", "大廳")), Some(room("r2", "走廊"))).ok().unwrap();
    assert_eq!(exits_of(&from.exits), vec![("走廊".into(), "r2".into())]);
    assert_eq!(from.objects[0].name, "走廊");
    let back = editor_link_reverse(&req, &from, room("r2", "走廊"));
    assert_eq!(exits_of(&back.exits), vec![("西".into(), "r1".into())]);
    assert_eq!(response(&back.objects[0], "Move").as_deref(), Some("你前往「大廳」。"));
}
