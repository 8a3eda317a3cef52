use singularity_world::server::broadcast::{
    build_room_view_msg, narrate_to_room, RoomView, RoomViewEntity, RoomViewExit, RoomViewObject, RoomViewRoom, SessionPlace,
};
use singularity_world::server::conversation::{consolidate_turns, summary_from_turns, ConversationBuffers, ConversationTurn};
use singularity_world::server::handler::{route_client_msg, ClientRoute};
use singularity_world::server::http_api::{build_topology_edges, build_topology_nodes, node_id, query_credentials};
use singularity_world::server::handler::parse_activated_nodes;

fn view() -> RoomView {
    RoomView {
        room: RoomViewRoom { id: "r1".into(), name: "大廳".into(), description: "…".into() },
        entities: vec![
            RoomViewEntity { id: "p1".into(), kind: "player".into(), is_npc: false, display_char: "我".into(), display_title: String::new(), npc_sockets: vec![] },
            RoomViewEntity { id: "p2".into(), kind: "player".into(), is_npc: false, display_char: "他".into(), display_title: "路人".into(), npc_sockets: vec![] },
            RoomViewEntity { id: "n1".into(), kind: "npc".into(), is_npc: true, display_char: "店".into(), display_title: "掌櫃".into(), npc_sockets: vec!["Talk".into(), "Trade".into()] },
        ],
        exits: vec![RoomViewExit { direction: "東".into(), to_room_id: "r2".into(), to_room_name: "走廊".into() }],
        objects: vec![RoomViewObject { id: "o1".into(), name: "門".into(), sockets: vec!["Look".into()] }],
    }
}

#[test]
fn room_view_for_a_viewer() {
    let verbs = vec!["Talk".to_string(), "Look".to_string()];
    let m = build_room_view_msg(&view(), "p1", &verbs, 1700000000, 3600, 1);
    assert_eq!(m.msg_type, "view");
    assert_eq!((m.room_id.as_str(), m.room_name.as_str()), ("r1", "大廳"));
    assert!(m.entities[0].actions.is_empty());
    assert_eq!(m.entities[1].display_name, "p2");
    assert_eq!(m.entities[1].actions, verbs);
    assert_eq!(m.entities[2].display_name, "掌櫃");
    assert_eq!(m.entities[2].actions, vec!["Talk".to_string(), "Trade".to_string()]);
    assert_eq!(m.exits[0].to_room_name, "走廊");
    assert_eq!(m.objects[0].actions, vec!["Look".to_string()]);
    assert_eq!((m.server_unix, m.game_time_sec_since_midnight, m.game_days_since_epoch), (1700000000, 3600, 1));
}

#[test]
fn narration_reaches_the_room() {
    let places = vec![
        SessionPlace { hex: Some((1, 2)), same_room: false },
        SessionPlace { hex: None, same_room: true },
        SessionPlace { hex: Some((1, 2)), same_room: true },
    ];
    assert!(narrate_to_room("", Some((1, 2)), &places).is_none());
    let (m, to) = narrate_to_room("起風了", Some((1, 2)), &places).unwrap();
    assert_eq!((m.msg_type.as_str(), m.text.as_str()), ("narrate", "起風了"));
    assert_eq!(to, vec![0, 2]);
    assert_eq!(narrate_to_room("x", None, &places).unwrap().1, vec![1, 2]);
}

#[test]
fn client_routes() {
    assert!(matches!(route_client_msg("login"), ClientRoute::Login));
    assert!(matches!(route_client_msg("do_action"), ClientRoute::DoAction));
    match route_client_msg("ping") {
        ClientRoute::Ping(p) => assert_eq!(p.msg_type, "pong"),
        _ => panic!(),
    }
    match route_client_msg("dance") {
        ClientRoute::Unknown(e) => assert_eq!(e, "unknown type: dance"),
        _ => panic!(),
    }
}

fn turn(p: &str, r: &str, at: i64) -> ConversationTurn {
    ConversationTurn { player_input: p.into(), npc_reply: r.into(), at }
}

#[test]
fn conversation_consolidation() {
    let turns = vec![turn("a", "1", 0), turn("b", "2", 1), turn("c", "3", 2), turn("d", "4", 3)];
    assert_eq!(consolidate_turns(&turns), vec!["玩家說：b；NPC回：2", "玩家說：c；NPC回：3", "玩家說：d；NPC回：4"]);
    assert_eq!(summary_from_turns(&turns), "最近聊過：「d」。");
    assert_eq!(summary_from_turns(&[turn("（搭話）", "嗯", 0)]), "最近曾與玩家對話。");
    assert_eq!(summary_from_turns(&[]), "");
    let long = "一二三四五六七八九十一二三四五六七八九十一二三四五六七八九十一";
    assert_eq!(summary_from_turns(&[turn(long, "", 0)]), format!("最近聊過：「{}…」。", &long[..90]));
}

#[test]
fn conversation_flushes_after_a_pause() {
    let mut b = ConversationBuffers::new();
    let f = b.flush_conversation_and_append("p", "n", "你好", "嗯", 100);
    assert!(f.archival.is_empty() && f.summary.is_empty());
    let f = b.flush_conversation_and_append("p", "n", "在嗎", "在", 220);
    assert!(f.archival.is_empty());
    let f = b.flush_conversation_and_append("p", "n", "再見", "慢走", 341);
    assert_eq!(f.archival, vec!["玩家說：你好；NPC回：嗯", "玩家說：在嗎；NPC回：在"]);
    assert_eq!(f.summary, "最近聊過：「在嗎」。");
    let f = b.flush_conversation_and_append("q", "n", "嗨", "嗨", 10_000);
    assert!(f.archival.is_empty());
}

#[test]
fn topology_shape() {
    let nodes = build_topology_nodes();
    assert_eq!(nodes.len(), 361);
    assert_eq!((nodes[0].id.as_str(), nodes[0].name.as_str(), nodes[0].zone), ("N000", "生之奇點", 0));
    assert_eq!((nodes[1].name.as_str(), nodes[1].system.as_str()), ("天極", "體"));
    assert_eq!((nodes[21].id.as_str(), nodes[21].name.as_str(), nodes[21].system.as_str()), ("N021", "起", "體"));
    assert_eq!((nodes[360].id.as_str(), nodes[360].name.as_str(), nodes[360].zone), ("N360", "散", 3));
    let edges = build_topology_edges();
    assert_eq!(edges.len(), 760);
    let e = |k: usize| (edges[k].from.as_str(), edges[k].to.as_str(), edges[k].edge_type, edges[k].cost_index);
    assert_eq!(e(0), ("N000", "N001", 'A', 0));
    assert_eq!(e(20), ("N001", "N021", 'B', 20));
    assert_eq!(e(120), ("N021", "N121", 'C', 120));
    assert_eq!(e(123), ("N022", "N123", 'C', 123));
    assert_eq!(e(431), ("N132", "N121", 'D', 431));
    assert_eq!(e(664), ("N025", "N021", 'E', 664));
    assert_eq!(node_id(7), "N007");
    assert_eq!(node_id(0), "N000");
    assert_eq!(node_id(360), "N360");
    assert_eq!(node_id(1234), "N1234");
    assert_eq!(query_credentials(&Some("a".into()), &None), None);
    assert_eq!(query_credentials(&Some("a".into()), &Some("b".into())), Some(("a".to_string(), "b".to_string())));
}

#[test]
fn activated_nodes_default_to_the_root() {
    assert_eq!(parse_activated_nodes(r#"["N000","N017"]"#), vec!["N000".to_string(), "N017".to_string()]);
    assert_eq!(parse_activated_nodes(""), vec!["N000".to_string()]);
    assert_eq!(parse_activated_nodes("   "), vec!["N000".to_string()]);
    assert_eq!(parse_activated_nodes("[]"), vec!["N000".to_string()]);
    assert_eq!(parse_activated_nodes("{oops"), vec!["N000".to_string()]);
}
