//! The player-facing HTTP queries: the credentials a query carries, the
//! player's room, and the 361-node topology (nodes and the edges between them).
use vstd::prelude::*;

use crate::text::{nat_digits, push_char, to_string, u64_to_decimal};

verus! {

/// A player's room query: id and password.
pub struct PlayerRoomQuery {
    pub id: Option<String>,
    pub pw: Option<String>,
}

/// Where a player is: the room and, when known, the hex cell.
pub struct PlayerRoomResponse {
    pub player_id: String,
    pub room_id: String,
    pub hex_q: Option<i32>,
    pub hex_r: Option<i32>,
}

/// A topology query: id and password.
pub struct TopologyQuery {
    pub id: Option<String>,
    pub pw: Option<String>,
}

/// A node of the topology.
pub struct TopoNode {
    pub id: String,
    pub name: String,
    pub zone: i32,
    pub system: String,
}

/// An edge of the topology; its cost is the `cost_index`-th of the player's costs.
pub struct TopoEdgePlan {
    pub from: String,
    pub to: String,
    pub edge_type: char,
    pub cost_index: usize,
}

/// The number of topology nodes.
pub const TOPOLOGY_NODE_COUNT: usize = 361;
/// The number of topology edges (and of costs they need).
pub const TOPOLOGY_EDGE_COUNT: usize = 760;

/// Both credentials of a query, when both are given.
pub fn query_credentials(id: &Option<String>, pw: &Option<String>) -> (r: Option<(String, String)>)
    ensures
        r matches Some((a, b)) ==> id matches Some(i) && pw matches Some(p) && a@ == i@ && b@ == p@,
        r is None <==> (id is None || pw is None),
{
    match (id, pw) {
        (Some(i), Some(p)) => Some((i.clone(), p.clone())),
        _ => None,
    }
}

/// The name of hub `i` (0-based).
pub open spec fn hub_name(i: int) -> Seq<char> {
    if i == 0 {
        "天極"@
    } else if i == 1 {
        "脈衝"@
    } else if i == 2 {
        "震淵"@
    } else if i == 3 {
        "游離"@
    } else if i == 4 {
        "弦絲"@
    } else if i == 5 {
        "曜核"@
    } else if i == 6 {
        "凜晶"@
    } else if i == 7 {
        "淵流"@
    } else if i == 8 {
        "萬象"@
    } else if i == 9 {
        "解離"@
    } else if i == 10 {
        "鎮閾"@
    } else if i == 11 {
        "衡定"@
    } else if i == 12 {
        "穹壁"@
    } else if i == 13 {
        "重塑"@
    } else if i == 14 {
        "逆熵"@
    } else if i == 15 {
        "神淵"@
    } else if i == 16 {
        "識閾"@
    } else if i == 17 {
        "坍縮"@
    } else if i == 18 {
        "無相"@
    } else {
        "越權"@
    }
}

/// The system of hub `i` (0-based).
pub open spec fn hub_system(i: int) -> Seq<char> {
    if i == 0 {
        "體"@
    } else if i == 1 {
        "敏"@
    } else if i == 2 {
        "體"@
    } else if i == 3 {
        "敏"@
    } else if i == 4 {
        "敏"@
    } else if i == 5 {
        "氣"@
    } else if i == 6 {
        "氣"@
    } else if i == 7 {
        "氣"@
    } else if i == 8 {
        "氣"@
    } else if i == 9 {
        "氣"@
    } else if i == 10 {
        "體"@
    } else if i == 11 {
        "氣"@
    } else if i == 12 {
        "體"@
    } else if i == 13 {
        "體"@
    } else if i == 14 {
        "氣"@
    } else if i == 15 {
        "氣"@
    } else if i == 16 {
        "敏"@
    } else if i == 17 {
        "氣"@
    } else if i == 18 {
        "敏"@
    } else {
        "敏"@
    }
}

/// The name of the logic node `j` (0-based) of a hub.
pub open spec fn logic_name(i: int) -> Seq<char> {
    if i == 0 {
        "起"@
    } else if i == 1 {
        "承"@
    } else if i == 2 {
        "轉"@
    } else if i == 3 {
        "協"@
    } else {
        "合"@
    }
}

/// The name of the peripheral node `s` (0-based) of a hub.
pub open spec fn peripheral_name(i: int) -> Seq<char> {
    if i == 0 {
        "探"@
    } else if i == 1 {
        "觸"@
    } else if i == 2 {
        "納"@
    } else if i == 3 {
        "蓄"@
    } else if i == 4 {
        "濾"@
    } else if i == 5 {
        "析"@
    } else if i == 6 {
        "融"@
    } else if i == 7 {
        "衍"@
    } else if i == 8 {
        "律"@
    } else if i == 9 {
        "束"@
    } else if i == 10 {
        "釋"@
    } else {
        "散"@
    }
}

fn hub_name_of(i: usize) -> (s: &'static str)
    requires
        i < 20,
    ensures
        s@ == hub_name(i as int),
{
    if i == 0 {
        "天極"
    } else if i == 1 {
        "脈衝"
    } else if i == 2 {
        "震淵"
    } else if i == 3 {
        "游離"
    } else if i == 4 {
        "弦絲"
    } else if i == 5 {
        "曜核"
    } else if i == 6 {
        "凜晶"
    } else if i == 7 {
        "淵流"
    } else if i == 8 {
        "萬象"
    } else if i == 9 {
        "解離"
    } else if i == 10 {
        "鎮閾"
    } else if i == 11 {
        "衡定"
    } else if i == 12 {
        "穹壁"
    } else if i == 13 {
        "重塑"
    } else if i == 14 {
        "逆熵"
    } else if i == 15 {
        "神淵"
    } else if i == 16 {
        "識閾"
    } else if i == 17 {
        "坍縮"
    } else if i == 18 {
        "無相"
    } else {
        "越權"
    }
}

fn hub_system_of(i: usize) -> (s: &'static str)
    requires
        i < 20,
    ensures
        s@ == hub_system(i as int),
{
    if i == 0 {
        "體"
    } else if i == 1 {
        "敏"
    } else if i == 2 {
        "體"
    } else if i == 3 {
        "敏"
    } else if i == 4 {
        "敏"
    } else if i == 5 {
        "氣"
    } else if i == 6 {
        "氣"
    } else if i == 7 {
        "氣"
    } else if i == 8 {
        "氣"
    } else if i == 9 {
        "氣"
    } else if i == 10 {
        "體"
    } else if i == 11 {
        "氣"
    } else if i == 12 {
        "體"
    } else if i == 13 {
        "體"
    } else if i == 14 {
        "氣"
    } else if i == 15 {
        "氣"
    } else if i == 16 {
        "敏"
    } else if i == 17 {
        "氣"
    } else if i == 18 {
        "敏"
    } else {
        "敏"
    }
}

fn logic_name_of(i: usize) -> (s: &'static str)
    requires
        i < 5,
    ensures
        s@ == logic_name(i as int),
{
    if i == 0 {
        "起"
    } else if i == 1 {
        "承"
    } else if i == 2 {
        "轉"
    } else if i == 3 {
        "協"
    } else {
        "合"
    }
}

fn peripheral_name_of(i: usize) -> (s: &'static str)
    requires
        i < 12,
    ensures
        s@ == peripheral_name(i as int),
{
    if i == 0 {
        "探"
    } else if i == 1 {
        "觸"
    } else if i == 2 {
        "納"
    } else if i == 3 {
        "蓄"
    } else if i == 4 {
        "濾"
    } else if i == 5 {
        "析"
    } else if i == 6 {
        "融"
    } else if i == 7 {
        "衍"
    } else if i == 8 {
        "律"
    } else if i == 9 {
        "束"
    } else if i == 10 {
        "釋"
    } else {
        "散"
    }
}

/// `d` with `0`s put in front up to three characters (`{:03}`).
pub open spec fn zero_pad3(d: Seq<char>) -> Seq<char> {
    if d.len() >= 3 {
        d
    } else {
        Seq::new((3 - d.len()) as nat, |_i: int| '0') + d
    }
}

/// The id of node `n`: `N` and its decimal digits, padded with zeros to three.
pub open spec fn node_id_text(n: int) -> Seq<char> {
    seq!['N'] + zero_pad3(nat_digits(n as nat))
}

/// The id of node `n` (`format!("N{n:03}")`).
pub fn node_id(n: usize) -> (s: String)
    ensures
        s@ == node_id_text(n as int),
{
    let d = u64_to_decimal(n as u64);
    let dl = d.as_str().unicode_len();
    let mut s = String::new();
    push_char(&mut s, 'N');
    let mut k: usize = dl;
    while k < 3
        invariant
            dl == d@.len(),
            dl <= k <= 3 || (dl > 3 && k == dl),
            s@ == seq!['N'] + Seq::new((k - dl) as nat, |_i: int| '0'),
        decreases 3 - k,
    {
        push_char(&mut s, '0');
        proof {
            assert(Seq::new((k - dl) as nat, |_i: int| '0').push('0') =~= Seq::new((k + 1 - dl) as nat, |_i: int| '0'));
        }
        k += 1;
    }
    s.append(d.as_str());
    proof {
        if dl >= 3 {
            assert(Seq::new(0nat, |_i: int| '0') =~= Seq::<char>::empty());
        }
        assert(s@ =~= seq!['N'] + zero_pad3(nat_digits(n as nat)));
    }
    s
}

/// Node `k`: the singularity; twenty hubs; five logic nodes per hub; twelve
/// peripheral nodes per hub. As `(name, zone, system)`; its id is `node_id_text(k)`.
pub open spec fn node_at(k: int) -> (Seq<char>, i32, Seq<char>) {
    if k == 0 {
        ("生之奇點"@, 0i32, Seq::empty())
    } else if k <= 20 {
        (hub_name(k - 1), 1i32, hub_system(k - 1))
    } else if k <= 120 {
        (logic_name((k - 21) % 5), 2i32, hub_system((k - 21) / 5))
    } else {
        (peripheral_name((k - 121) % 12), 3i32, hub_system((k - 121) / 12))
    }
}

/// The nodes of the topology, `N000` to `N360` (see `node_at`).
pub fn build_topology_nodes() -> (out: Vec<TopoNode>)
    ensures
        out@.len() == TOPOLOGY_NODE_COUNT,
        forall|k: int| 0 <= k < out@.len() ==> (#[trigger] out@[k]).id@ == node_id_text(k) && (out@[k].name@,
            out@[k].zone, out@[k].system@) == node_at(k),
{
    let mut out: Vec<TopoNode> = Vec::new();
    let mut k: usize = 0;
    while k < TOPOLOGY_NODE_COUNT
        invariant
            k <= TOPOLOGY_NODE_COUNT,
            out@.len() == k,
            forall|q: int| 0 <= q < k ==> (#[trigger] out@[q]).id@ == node_id_text(q) && (out@[q].name@,
                out@[q].zone, out@[q].system@) == node_at(q),
        decreases TOPOLOGY_NODE_COUNT - k,
    {
        let node = if k == 0 {
            TopoNode { id: node_id(0), name: to_string("生之奇點"), zone: 0, system: String::new() }
        } else if k <= 20 {
            TopoNode { id: node_id(k), name: to_string(hub_name_of(k - 1)), zone: 1, system: to_string(hub_system_of(k - 1)) }
        } else if k <= 120 {
            TopoNode {
                id: node_id(k),
                name: to_string(logic_name_of((k - 21) % 5)),
                zone: 2,
                system: to_string(hub_system_of((k - 21) / 5)),
            }
        } else {
            TopoNode {
                id: node_id(k),
                name: to_string(peripheral_name_of((k - 121) % 12)),
                zone: 3,
                system: to_string(hub_system_of((k - 121) / 12)),
            }
        };
        out.push(node);
        k += 1;
    }
    out
}

/// The green slots (1-based) that logic node `j` (0-based) of a hub links to.
pub open spec fn green_slot(j: int, t: int) -> int {
    if j == 0 {
        1 + t
    } else if j == 1 {
        3 + t
    } else if j == 2 {
        5 + t
    } else if j == 3 {
        8 + t
    } else {
        10 + t
    }
}

/// Edge `k` as `(from node, to node, type)`: singularity to hubs (`A`), hubs to
/// their logic nodes (`B`), logic nodes to three peripheral nodes each (`C`), the
/// peripheral ring of each hub (`D`) and the logic ring of each hub (`E`).
pub open spec fn edge_at(k: int) -> (int, int, char) {
    if k < 20 {
        (0, k + 1, 'A')
    } else if k < 120 {
        let m = k - 20;
        let i = m / 5;
        (i + 1, 20 + 5 * i + m % 5 + 1, 'B')
    } else if k < 420 {
        let m = k - 120;
        let i = m / 15;
        let r = m % 15;
        (20 + 5 * i + r / 3 + 1, 120 + 12 * i + green_slot(r / 3, r % 3), 'C')
    } else if k < 660 {
        let m = k - 420;
        let i = m / 12;
        let s = m % 12 + 1;
        (120 + 12 * i + s, 120 + 12 * i + s % 12 + 1, 'D')
    } else {
        let m = k - 660;
        let i = m / 5;
        let j = m % 5 + 1;
        (20 + 5 * i + j, 20 + 5 * i + j % 5 + 1, 'E')
    }
}

fn green_slot_of(j: usize, t: usize) -> (g: usize)
    requires
        j < 5,
        t < 3,
    ensures
        g == green_slot(j as int, t as int),
        1 <= g <= 12,
{
    if j == 0 {
        1 + t
    } else if j == 1 {
        3 + t
    } else if j == 2 {
        5 + t
    } else if j == 3 {
        8 + t
    } else {
        10 + t
    }
}

fn edge_ends(k: usize) -> (r: (usize, usize, char))
    requires
        k < TOPOLOGY_EDGE_COUNT,
    ensures
        (r.0 as int, r.1 as int, r.2) == edge_at(k as int),
        r.0 < TOPOLOGY_NODE_COUNT,
        r.1 < TOPOLOGY_NODE_COUNT,
{
    if k < 20 {
        (0, k + 1, 'A')
    } else if k < 120 {
        let m = k - 20;
        let i = m / 5;
        (i + 1, 20 + 5 * i + m % 5 + 1, 'B')
    } else if k < 420 {
        let m = k - 120;
        let i = m / 15;
        let r = m % 15;
        (20 + 5 * i + r / 3 + 1, 120 + 12 * i + green_slot_of(r / 3, r % 3), 'C')
    } else if k < 660 {
        let m = k - 420;
        let i = m / 12;
        let s = m % 12 + 1;
        (120 + 12 * i + s, 120 + 12 * i + s % 12 + 1, 'D')
    } else {
        let m = k - 660;
        let i = m / 5;
        let j = m % 5 + 1;
        (20 + 5 * i + j, 20 + 5 * i + j % 5 + 1, 'E')
    }
}

/// The edges of the topology, in the order their costs come (see `edge_at`);
/// edge `k` takes cost `k`.
pub fn build_topology_edges() -> (out: Vec<TopoEdgePlan>)
    ensures
        out@.len() == TOPOLOGY_EDGE_COUNT,
        forall|k: int| 0 <= k < out@.len() ==> (#[trigger] out@[k]).from@ == node_id_text(edge_at(k).0)
            && out@[k].to@ == node_id_text(edge_at(k).1) && out@[k].edge_type == edge_at(k).2 && out@[k].cost_index == k,
{
    let mut out: Vec<TopoEdgePlan> = Vec::new();
    let mut k: usize = 0;
    while k < TOPOLOGY_EDGE_COUNT
        invariant
            k <= TOPOLOGY_EDGE_COUNT,
            out@.len() == k,
            forall|q: int| 0 <= q < k ==> (#[trigger] out@[q]).from@ == node_id_text(edge_at(q).0)
                && out@[q].to@ == node_id_text(edge_at(q).1) && out@[q].edge_type == edge_at(q).2 && out@[q].cost_index == q,
        decreases TOPOLOGY_EDGE_COUNT - k,
    {
        let (a, b, t) = edge_ends(k);
        out.push(TopoEdgePlan { from: node_id(a), to: node_id(b), edge_type: t, cost_index: k });
        k += 1;
    }
    out
}


/// Every edge of the topology joins two of its nodes.
pub proof fn law_edges_join_nodes(k: int)
    requires
        0 <= k < TOPOLOGY_EDGE_COUNT,
    ensures
        0 <= edge_at(k).0 < TOPOLOGY_NODE_COUNT,
        0 <= edge_at(k).1 < TOPOLOGY_NODE_COUNT,
{
}

} // verus!
