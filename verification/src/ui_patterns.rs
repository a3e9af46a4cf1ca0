//! Patterns drawn in the node editor: the graph of nodes and edges, and the
//! rules that turn it into a trigger.
//!
//! A node is held here by its id and its type; what its free-form data says is
//! read by the caller and passed in as plain values where a rule needs it.
use vstd::prelude::*;

use crate::pattern_engine::{BurstConfig, GameEvent};
use crate::text::{after_first, before_first, chars_of, split_first_two, string_from_chars};
use crate::wt_telemetry::str_eq;

verus! {

/// An edge of the editor's graph, from `source` to `target` (node ids).
pub struct UIEdge {
    pub source: String,
    pub target: String,
}

/// A node of the editor's graph: its id, its type ("input", "event",
/// "condition", "logic", "vibration", ...), and the two settings of its data
/// that the graph rules read: the indicator of an input node and the operator
/// of a logic node ("AND" where the setting is there but not text).
pub struct UINode {
    pub id: String,
    pub type_: String,
    pub indicator: Option<String>,
    pub logic: Option<String>,
}

/// The cooldown of a pattern that does not give one.
pub fn default_cooldown() -> (r: u64)
    ensures
        r == 1000,
{
    1000
}

/// The node found under `id` among the first `n` nodes: the last one with that id.
pub open spec fn node_index_upto(nodes: Seq<UINode>, id: Seq<char>, n: int) -> Option<int>
    decreases n,
{
    if n <= 0 {
        None
    } else if nodes[n - 1].id@ == id {
        Some(n - 1)
    } else {
        node_index_upto(nodes, id, n - 1)
    }
}

/// The node found under `id`: the last one with that id.
pub open spec fn node_index(nodes: Seq<UINode>, id: Seq<char>) -> Option<int> {
    node_index_upto(nodes, id, nodes.len() as int)
}

/// The targets of the first `n` edges that leave `id`, in edge order.
pub open spec fn targets_upto(edges: Seq<UIEdge>, id: Seq<char>, n: int) -> Seq<Seq<char>>
    decreases n,
{
    if n <= 0 {
        Seq::empty()
    } else if edges[n - 1].source@ == id {
        targets_upto(edges, id, n - 1).push(edges[n - 1].target@)
    } else {
        targets_upto(edges, id, n - 1)
    }
}

/// The targets of the edges that leave `id`, in edge order.
pub open spec fn targets(edges: Seq<UIEdge>, id: Seq<char>) -> Seq<Seq<char>> {
    targets_upto(edges, id, edges.len() as int)
}

/// Node types that make a pattern's output.
pub open spec fn is_output_type(t: Seq<char>) -> bool {
    t == "vibration"@ || t == "linear"@ || t == "rotate"@
}

/// Depth-first search for an output node from `start`, with the ids already
/// visited, going at most `fuel` edges deep: the node found (if any) and the
/// ids visited afterwards. An id is marked visited before its node is looked up.
pub open spec fn dfs(
    nodes: Seq<UINode>,
    edges: Seq<UIEdge>,
    fuel: nat,
    start: Seq<char>,
    visited: Set<Seq<char>>,
) -> (Option<int>, Set<Seq<char>>)
    decreases fuel, 0int, 0int,
{
    if visited.contains(start) {
        (None, visited)
    } else {
        let v2 = visited.insert(start);
        match node_index(nodes, start) {
            None => (None, v2),
            Some(i) => if is_output_type(nodes[i].type_@) {
                (Some(i), v2)
            } else if fuel == 0 {
                (None, v2)
            } else {
                dfs_list(nodes, edges, (fuel - 1) as nat, targets(edges, start), 0, v2)
            },
        }
    }
}

/// The search from each of `nexts`, from position `k` on, until one finds an
/// output node.
pub open spec fn dfs_list(
    nodes: Seq<UINode>,
    edges: Seq<UIEdge>,
    fuel: nat,
    nexts: Seq<Seq<char>>,
    k: int,
    visited: Set<Seq<char>>,
) -> (Option<int>, Set<Seq<char>>)
    decreases fuel, 1int, nexts.len() - k,
{
    if k < 0 || k >= nexts.len() {
        (None, visited)
    } else {
        let (r, v2) = dfs(nodes, edges, fuel, nexts[k], visited);
        if r is Some {
            (r, v2)
        } else {
            dfs_list(nodes, edges, fuel, nexts, k + 1, v2)
        }
    }
}

/// The ids in a list of strings, as a set.
pub open spec fn id_set(v: Seq<String>) -> Set<Seq<char>> {
    Set::new(|k: Seq<char>| exists|i: int| 0 <= i < v.len() && #[trigger] v[i]@ == k)
}

fn contains_id(v: &Vec<String>, id: &str) -> (r: bool)
    ensures
        r == id_set(v@).contains(id@),
{
    let n = v.len();
    for i in 0..n
        invariant
            n == v.len(),
            forall|j: int| 0 <= j < i ==> #[trigger] v@[j]@ != id@,
    {
        if str_eq(v[i].as_str(), id) {
            assert(v@[i as int]@ == id@);
            return true;
        }
    }
    false
}

fn find_node(nodes: &Vec<UINode>, id: &str) -> (r: Option<usize>)
    ensures
        match r {
            Some(i) => i < nodes.len() && node_index(nodes@, id@) == Some(i as int),
            None => node_index(nodes@, id@) is None,
        },
{
    let mut k = nodes.len();
    while k > 0
        invariant
            k <= nodes.len(),
            node_index(nodes@, id@) == node_index_upto(nodes@, id@, k as int),
        decreases k,
    {
        if str_eq(nodes[k - 1].id.as_str(), id) {
            return Some(k - 1);
        }
        k = k - 1;
    }
    None
}

fn targets_of(edges: &Vec<UIEdge>, id: &str) -> (r: Vec<String>)
    ensures
        r.deep_view() == targets(edges@, id@),
{
    let mut r: Vec<String> = Vec::new();
    let n = edges.len();
    for i in 0..n
        invariant
            n == edges.len(),
            r.deep_view() == targets_upto(edges@, id@, i as int),
    {
        if str_eq(edges[i].source.as_str(), id) {
            let t = edges[i].target.clone();
            let ghost before = r.deep_view();
            r.push(t);
            assert(r.deep_view() =~= before.push(t@));
        }
    }
    r
}

fn is_output(t: &str) -> (r: bool)
    ensures
        r == is_output_type(t@),
{
    str_eq(t, "vibration") || str_eq(t, "linear") || str_eq(t, "rotate")
}

fn search(
    nodes: &Vec<UINode>,
    edges: &Vec<UIEdge>,
    fuel: usize,
    start: &str,
    visited: &mut Vec<String>,
) -> (r: Option<usize>)
    ensures
        ({
            let (res, seen) = dfs(nodes@, edges@, fuel as nat, start@, id_set(old(visited)@));
            &&& id_set(final(visited)@) == seen
            &&& match r {
                Some(i) => res == Some(i as int),
                None => res is None,
            }
        }),
    decreases fuel, 0int, 0int,
{
    let ghost v0 = id_set(visited@);
    if contains_id(visited, start) {
        return None;
    }
    let ghost before = visited@;
    visited.push(String::from_str(start));
    assert(id_set(visited@) =~= v0.insert(start@)) by {
        assert(visited@[before.len() as int]@ == start@);
        assert forall|k: Seq<char>| id_set(visited@).contains(k) implies v0.insert(start@).contains(k) by {
            let i = choose|i: int| 0 <= i < visited@.len() && #[trigger] visited@[i]@ == k;
            if i < before.len() {
                assert(before[i]@ == k);
            }
        }
        assert forall|k: Seq<char>| v0.insert(start@).contains(k) implies id_set(visited@).contains(k) by {
            if k != start@ {
                let i = choose|i: int| 0 <= i < before.len() && #[trigger] before[i]@ == k;
                assert(visited@[i]@ == k);
            }
        }
    }
    match find_node(nodes, start) {
        None => None,
        Some(i) => {
            if is_output(nodes[i].type_.as_str()) {
                Some(i)
            } else if fuel == 0 {
                None
            } else {
                let nexts = targets_of(edges, start);
                search_list(nodes, edges, fuel - 1, &nexts, visited)
            }
        },
    }
}

fn search_list(
    nodes: &Vec<UINode>,
    edges: &Vec<UIEdge>,
    fuel: usize,
    nexts: &Vec<String>,
    visited: &mut Vec<String>,
) -> (r: Option<usize>)
    ensures
        ({
            let (res, seen) = dfs_list(
                nodes@,
                edges@,
                fuel as nat,
                nexts.deep_view(),
                0,
                id_set(old(visited)@),
            );
            &&& id_set(final(visited)@) == seen
            &&& match r {
                Some(i) => res == Some(i as int),
                None => res is None,
            }
        }),
    decreases fuel, 1int, nexts.len(),
{
    let ghost target = dfs_list(nodes@, edges@, fuel as nat, nexts.deep_view(), 0, id_set(visited@));
    let n = nexts.len();
    let mut k: usize = 0;
    while k < n
        invariant
            n == nexts.len(),
            k <= n,
            dfs_list(nodes@, edges@, fuel as nat, nexts.deep_view(), k as int, id_set(visited@))
                == target,
            target == dfs_list(
                nodes@,
                edges@,
                fuel as nat,
                nexts.deep_view(),
                0,
                id_set(old(visited)@),
            ),
        decreases n - k,
    {
        let ghost vk = id_set(visited@);
        let r = search(nodes, edges, fuel, nexts[k].as_str(), visited);
        assert(nexts.deep_view()[k as int] == nexts@[k as int]@);
        if r.is_some() {
            assert(target == dfs(nodes@, edges@, fuel as nat, nexts.deep_view()[k as int], vk));
            return r;
        }
        k = k + 1;
    }
    None
}

/// The output node that the pattern's chain reaches from `start`: depth first,
/// following edges in their order, never visiting an id twice, and going no
/// deeper than there are nodes.
pub fn find_output_node(nodes: &Vec<UINode>, edges: &Vec<UIEdge>, start: &str) -> (r: Option<usize>)
    ensures
        match r {
            Some(i) => dfs(nodes@, edges@, nodes.len() as nat, start@, Set::empty()).0 == Some(
                i as int,
            ),
            None => dfs(nodes@, edges@, nodes.len() as nat, start@, Set::empty()).0 is None,
        },
{
    let mut visited: Vec<String> = Vec::new();
    assert(id_set(visited@) =~= Set::<Seq<char>>::empty());
    search(nodes, edges, nodes.len(), start, &mut visited)
}

/// The ids of the nodes.
pub open spec fn node_ids(nodes: Seq<UINode>) -> Set<Seq<char>> {
    nodes.map_values(|n: UINode| n.id@).to_set()
}

proof fn lemma_node_index_upto(nodes: Seq<UINode>, id: Seq<char>, n: int)
    requires
        n <= nodes.len(),
    ensures
        node_index_upto(nodes, id, n) matches Some(i) ==> 0 <= i < n && nodes[i].id@ == id,
    decreases n,
{
    if n > 0 && nodes[n - 1].id@ != id {
        lemma_node_index_upto(nodes, id, n - 1);
    }
}

proof fn lemma_found_node_is_known(nodes: Seq<UINode>, id: Seq<char>)
    requires
        node_index(nodes, id) is Some,
    ensures
        node_ids(nodes).contains(id),
{
    lemma_node_index_upto(nodes, id, nodes.len() as int);
    let i = node_index(nodes, id)->0;
    assert(nodes.map_values(|n: UINode| n.id@)[i] == id);
}

/// With at least as much fuel as there are unvisited node ids, one more unit of
/// fuel changes nothing, and the search only adds to the visited ids.
proof fn lemma_dfs_fuel(
    nodes: Seq<UINode>,
    edges: Seq<UIEdge>,
    f: nat,
    s: Seq<char>,
    v: Set<Seq<char>>,
)
    requires
        node_ids(nodes).difference(v).len() <= f,
    ensures
        dfs(nodes, edges, f, s, v) == dfs(nodes, edges, f + 1, s, v),
        v.subset_of(dfs(nodes, edges, f, s, v).1),
    decreases f, 0int, 0int,
{
    let ids = node_ids(nodes);
    if !v.contains(s) {
        let v2 = v.insert(s);
        if let Some(i) = node_index(nodes, s) {
            if !is_output_type(nodes[i].type_@) {
                lemma_found_node_is_known(nodes, s);
                nodes.map_values(|n: UINode| n.id@).lemma_cardinality_of_set();
                vstd::set_lib::lemma_len_subset(ids.difference(v), ids);
                assert(ids.difference(v).contains(s));
                assert(ids.difference(v2) =~= ids.difference(v).remove(s));
                assert(f >= 1);
                lemma_dfs_list_fuel(nodes, edges, (f - 1) as nat, targets(edges, s), 0, v2);
            }
        }
    }
}

proof fn lemma_dfs_list_fuel(
    nodes: Seq<UINode>,
    edges: Seq<UIEdge>,
    f: nat,
    nexts: Seq<Seq<char>>,
    k: int,
    v: Set<Seq<char>>,
)
    requires
        node_ids(nodes).difference(v).len() <= f,
    ensures
        dfs_list(nodes, edges, f, nexts, k, v) == dfs_list(nodes, edges, f + 1, nexts, k, v),
        v.subset_of(dfs_list(nodes, edges, f, nexts, k, v).1),
    decreases f, 1int, nexts.len() - k,
{
    let ids = node_ids(nodes);
    if 0 <= k < nexts.len() {
        lemma_dfs_fuel(nodes, edges, f, nexts[k], v);
        let (r, v2) = dfs(nodes, edges, f, nexts[k], v);
        if r is None {
            nodes.map_values(|n: UINode| n.id@).lemma_cardinality_of_set();
            vstd::set_lib::lemma_len_subset(ids.difference(v), ids);
            vstd::set_lib::lemma_len_subset(ids.difference(v2), ids.difference(v));
            lemma_dfs_list_fuel(nodes, edges, f, nexts, k + 1, v2);
        }
    }
}

proof fn lemma_dfs_more_fuel(
    nodes: Seq<UINode>,
    edges: Seq<UIEdge>,
    f: nat,
    g: nat,
    s: Seq<char>,
    v: Set<Seq<char>>,
)
    requires
        node_ids(nodes).difference(v).len() <= f,
        f <= g,
    ensures
        dfs(nodes, edges, f, s, v) == dfs(nodes, edges, g, s, v),
    decreases g - f,
{
    if f < g {
        lemma_dfs_fuel(nodes, edges, f, s, v);
        lemma_dfs_more_fuel(nodes, edges, f + 1, g, s, v);
    }
}

/// The depth bound of the output search never cuts it short: allowed as many
/// levels as there are nodes, it finds what it would find with any more.
pub proof fn law_output_search_depth_suffices(
    nodes: Seq<UINode>,
    edges: Seq<UIEdge>,
    start: Seq<char>,
    g: nat,
)
    requires
        g >= nodes.len(),
    ensures
        dfs(nodes, edges, nodes.len() as nat, start, Set::empty()) == dfs(
            nodes,
            edges,
            g,
            start,
            Set::empty(),
        ),
{
    let ids = node_ids(nodes);
    nodes.map_values(|n: UINode| n.id@).lemma_cardinality_of_set();
    assert(ids.difference(Set::empty()) =~= ids);
    lemma_dfs_more_fuel(nodes, edges, nodes.len() as nat, g, start, Set::empty());
}

/// The event an event node names, for the event names the editor offers.
pub open spec fn ui_event_spec(name: Seq<char>) -> Option<GameEvent> {
    if name == "Hit"@ {
        Some(GameEvent::Hit)
    } else if name == "CriticalHit"@ {
        Some(GameEvent::CriticalHit)
    } else if name == "PenetrationHit"@ {
        Some(GameEvent::PenetrationHit)
    } else if name == "TargetDestroyed"@ {
        Some(GameEvent::TargetDestroyed)
    } else if name == "Overspeed"@ {
        Some(GameEvent::Overspeed)
    } else if name == "OverG"@ {
        Some(GameEvent::OverG)
    } else if name == "HighAOA"@ {
        Some(GameEvent::HighAOA)
    } else if name == "CriticalAOA"@ {
        Some(GameEvent::CriticalAOA)
    } else if name == "Mach1"@ {
        Some(GameEvent::Mach1)
    } else if name == "LowFuel"@ {
        Some(GameEvent::LowFuel)
    } else if name == "CriticalFuel"@ {
        Some(GameEvent::CriticalFuel)
    } else if name == "LowAmmo"@ {
        Some(GameEvent::LowAmmo)
    } else if name == "LowAltitude"@ {
        Some(GameEvent::LowAltitude)
    } else if name == "EngineDamaged"@ {
        Some(GameEvent::EngineDamaged)
    } else if name == "EngineDestroyed"@ {
        Some(GameEvent::EngineDestroyed)
    } else if name == "Crashed"@ {
        Some(GameEvent::Crashed)
    } else if name == "EngineOverheat"@ {
        Some(GameEvent::EngineOverheat)
    } else if name == "OilOverheated"@ {
        Some(GameEvent::OilOverheated)
    } else if name == "EnemySetAfire"@ {
        Some(GameEvent::EnemySetAfire)
    } else if name == "TakingDamage"@ {
        Some(GameEvent::TakingDamage)
    } else if name == "SeverelyDamaged"@ {
        Some(GameEvent::SeverelyDamaged)
    } else if name == "ShotDown"@ {
        Some(GameEvent::ShotDown)
    } else if name == "Achievement"@ {
        Some(GameEvent::Achievement)
    } else if name == "ChatMessage"@ {
        Some(GameEvent::ChatMessage)
    } else {
        None
    }
}

/// The event an event node names; `None` for a name the editor does not offer.
pub fn ui_event(name: &str) -> (r: Option<GameEvent>)
    ensures
        r == ui_event_spec(name@),
{
    if str_eq(name, "Hit") {
        Some(GameEvent::Hit)
    } else if str_eq(name, "CriticalHit") {
        Some(GameEvent::CriticalHit)
    } else if str_eq(name, "PenetrationHit") {
        Some(GameEvent::PenetrationHit)
    } else if str_eq(name, "TargetDestroyed") {
        Some(GameEvent::TargetDestroyed)
    } else if str_eq(name, "Overspeed") {
        Some(GameEvent::Overspeed)
    } else if str_eq(name, "OverG") {
        Some(GameEvent::OverG)
    } else if str_eq(name, "HighAOA") {
        Some(GameEvent::HighAOA)
    } else if str_eq(name, "CriticalAOA") {
        Some(GameEvent::CriticalAOA)
    } else if str_eq(name, "Mach1") {
        Some(GameEvent::Mach1)
    } else if str_eq(name, "LowFuel") {
        Some(GameEvent::LowFuel)
    } else if str_eq(name, "CriticalFuel") {
        Some(GameEvent::CriticalFuel)
    } else if str_eq(name, "LowAmmo") {
        Some(GameEvent::LowAmmo)
    } else if str_eq(name, "LowAltitude") {
        Some(GameEvent::LowAltitude)
    } else if str_eq(name, "EngineDamaged") {
        Some(GameEvent::EngineDamaged)
    } else if str_eq(name, "EngineDestroyed") {
        Some(GameEvent::EngineDestroyed)
    } else if str_eq(name, "Crashed") {
        Some(GameEvent::Crashed)
    } else if str_eq(name, "EngineOverheat") {
        Some(GameEvent::EngineOverheat)
    } else if str_eq(name, "OilOverheated") {
        Some(GameEvent::OilOverheated)
    } else if str_eq(name, "EnemySetAfire") {
        Some(GameEvent::EnemySetAfire)
    } else if str_eq(name, "TakingDamage") {
        Some(GameEvent::TakingDamage)
    } else if str_eq(name, "SeverelyDamaged") {
        Some(GameEvent::SeverelyDamaged)
    } else if str_eq(name, "ShotDown") {
        Some(GameEvent::ShotDown)
    } else if str_eq(name, "Achievement") {
        Some(GameEvent::Achievement)
    } else if str_eq(name, "ChatMessage") {
        Some(GameEvent::ChatMessage)
    } else {
        None
    }
}

/// The repetition of a vibration node's mode: "once" plays once with a short
/// pause, "continuous" once with none, "repeat" the node's count of times,
/// "while_true" practically without end; any other mode is taken as "once".
pub open spec fn burst_for_mode(mode: Seq<char>, repeat_count: u32) -> BurstConfig {
    if mode == "once"@ {
        BurstConfig { repeat_count: 1, pause_between_ms: 100 }
    } else if mode == "continuous"@ {
        BurstConfig { repeat_count: 1, pause_between_ms: 0 }
    } else if mode == "repeat"@ {
        BurstConfig { repeat_count: repeat_count, pause_between_ms: 100 }
    } else if mode == "while_true"@ {
        BurstConfig { repeat_count: 9999, pause_between_ms: 0 }
    } else {
        BurstConfig { repeat_count: 1, pause_between_ms: 100 }
    }
}

/// The repetition of a vibration node from its mode and repeat count.
pub fn vibration_burst(mode: &str, repeat_count: u32) -> (r: BurstConfig)
    ensures
        r == burst_for_mode(mode@, repeat_count),
{
    if str_eq(mode, "once") {
        BurstConfig { repeat_count: 1, pause_between_ms: 100 }
    } else if str_eq(mode, "continuous") {
        BurstConfig { repeat_count: 1, pause_between_ms: 0 }
    } else if str_eq(mode, "repeat") {
        BurstConfig { repeat_count: repeat_count, pause_between_ms: 100 }
    } else if str_eq(mode, "while_true") {
        BurstConfig { repeat_count: 9999, pause_between_ms: 0 }
    } else {
        BurstConfig { repeat_count: 1, pause_between_ms: 100 }
    }
}

/// The attack, hold and decay durations (milliseconds) of a vibration node
/// lasting `duration_s` seconds: a quarter, a half and a quarter of it.
pub fn envelope_durations(duration_s: u64) -> (r: (u64, u64, u64))
    requires
        duration_s * 1000 <= u64::MAX,
    ensures
        r.0 == (duration_s * 1000) / 4,
        r.1 == (duration_s * 1000) / 2,
        r.2 == (duration_s * 1000) / 4,
{
    let ms = duration_s * 1000;
    (ms / 4, ms / 2, ms / 4)
}

/// Where a pattern's chain starts.
pub enum PatternStart {
    /// The first event node: the pattern is an event trigger.
    Event(usize),
    /// The first input node and the node its first edge leads to.
    Input { input: usize, next: usize },
}

/// The first node at or after `s` of type `t`.
pub open spec fn first_of_type(nodes: Seq<UINode>, t: Seq<char>, s: int) -> Option<int>
    decreases nodes.len() - s,
{
    if s < 0 || s >= nodes.len() {
        None
    } else if nodes[s].type_@ == t {
        Some(s)
    } else {
        first_of_type(nodes, t, s + 1)
    }
}

/// Where a pattern starts: its first event node if it has one; else its first
/// input node and the node that the input's first edge leads to, when that edge
/// and node exist.
pub open spec fn pattern_start_spec(nodes: Seq<UINode>, edges: Seq<UIEdge>) -> Option<PatternStart> {
    match first_of_type(nodes, "event"@, 0) {
        Some(e) => Some(PatternStart::Event(e as usize)),
        None => match first_of_type(nodes, "input"@, 0) {
            None => None,
            Some(i) => {
                let ts = targets(edges, nodes[i].id@);
                if ts.len() == 0 {
                    None
                } else {
                    match node_index(nodes, ts[0]) {
                        None => None,
                        Some(j) => Some(PatternStart::Input { input: i as usize, next: j as usize }),
                    }
                }
            },
        },
    }
}

fn find_first_of_type(nodes: &Vec<UINode>, t: &str) -> (r: Option<usize>)
    ensures
        match r {
            Some(i) => i < nodes.len() && first_of_type(nodes@, t@, 0) == Some(i as int),
            None => first_of_type(nodes@, t@, 0) is None,
        },
{
    let n = nodes.len();
    let mut k: usize = 0;
    while k < n
        invariant
            n == nodes@.len(),
            k <= n,
            first_of_type(nodes@, t@, 0) == first_of_type(nodes@, t@, k as int),
        decreases n - k,
    {
        if str_eq(nodes[k].type_.as_str(), t) {
            return Some(k);
        }
        k = k + 1;
    }
    None
}

/// Where the pattern drawn as `nodes` and `edges` starts; `None` when it has no
/// event node and no input node leading anywhere.
pub fn pattern_start(nodes: &Vec<UINode>, edges: &Vec<UIEdge>) -> (r: Option<PatternStart>)
    ensures
        r == pattern_start_spec(nodes@, edges@),
{
    if let Some(e) = find_first_of_type(nodes, "event") {
        return Some(PatternStart::Event(e));
    }
    match find_first_of_type(nodes, "input") {
        None => None,
        Some(i) => {
            let ts = targets_of(edges, nodes[i].id.as_str());
            if ts.len() == 0 {
                None
            } else {
                assert(ts.deep_view()[0] == ts@[0]@);
                match find_node(nodes, ts[0].as_str()) {
                    None => None,
                    Some(j) => Some(PatternStart::Input { input: i, next: j }),
                }
            }
        },
    }
}

/// The kind of condition an indicator and an operator make; the threshold is
/// attached by the caller. `Stabilizer` is active above one half and inactive
/// otherwise; `DrivingDirection` is forward at zero and backward otherwise.
#[derive(Debug, Clone, Copy, PartialEq, Eq, Structural)]
pub enum ConditionShape {
    SpeedDroppedBy,
    AltitudeDroppedBy,
    SpeedIncreasedBy,
    AltitudeGainedBy,
    GLoadSpiked,
    AccelerationAbove,
    ClimbRateAbove,
    AccelerationBelow,
    AverageSpeedAbove,
    AverageGLoadAbove,
    SpeedAbove,
    SpeedBelow,
    AltitudeAbove,
    AltitudeBelow,
    RPMAbove,
    TempAbove,
    GLoadAbove,
    GLoadBelow,
    AOAAbove,
    AOABelow,
    IASAbove,
    TASAbove,
    MachAbove,
    FuelBelow,
    AmmoBelow,
    Stabilizer,
    CrewLost,
    GunnerDead,
    DriverDead,
    CruiseControlAbove,
    CruiseControlBelow,
    DrivingDirection,
    GearAbove,
    GearBelow,
    GearEquals,
}

/// Indicators that stand for the vehicle's speed in the change conditions.
pub open spec fn speedlike(i: Seq<char>) -> bool {
    i == "speed"@ || i == "ias"@ || i == "tas"@
}

/// The condition an indicator and an operator make, if they make one: the
/// operators over a time window first, then the comparisons.
pub open spec fn condition_shape_spec(ind: Seq<char>, op: Seq<char>) -> Option<ConditionShape> {
    let above = op == ">"@;
    let below = op == "<"@;
    let above_eq = op == ">"@ || op == ">="@;
    let below_eq = op == "<"@ || op == "<="@;
    let equal = op == "=="@;
    if op == "dropped_by"@ {
        if speedlike(ind) {
            Some(ConditionShape::SpeedDroppedBy)
        } else if ind == "altitude"@ {
            Some(ConditionShape::AltitudeDroppedBy)
        } else {
            None
        }
    } else if op == "increased_by"@ {
        if speedlike(ind) {
            Some(ConditionShape::SpeedIncreasedBy)
        } else if ind == "altitude"@ {
            Some(ConditionShape::AltitudeGainedBy)
        } else if ind == "g_load"@ {
            Some(ConditionShape::GLoadSpiked)
        } else {
            None
        }
    } else if op == "accel_above"@ {
        if speedlike(ind) {
            Some(ConditionShape::AccelerationAbove)
        } else if ind == "altitude"@ {
            Some(ConditionShape::ClimbRateAbove)
        } else {
            None
        }
    } else if op == "accel_below"@ {
        if speedlike(ind) {
            Some(ConditionShape::AccelerationBelow)
        } else {
            None
        }
    } else if op == "avg_above"@ {
        if speedlike(ind) {
            Some(ConditionShape::AverageSpeedAbove)
        } else if ind == "g_load"@ {
            Some(ConditionShape::AverageGLoadAbove)
        } else {
            None
        }
    } else if ind == "speed"@ && above_eq {
        Some(ConditionShape::SpeedAbove)
    } else if ind == "speed"@ && below_eq {
        Some(ConditionShape::SpeedBelow)
    } else if ind == "altitude"@ && above_eq {
        Some(ConditionShape::AltitudeAbove)
    } else if ind == "altitude"@ && below_eq {
        Some(ConditionShape::AltitudeBelow)
    } else if ind == "rpm"@ && above_eq {
        Some(ConditionShape::RPMAbove)
    } else if ind == "temperature"@ && above {
        Some(ConditionShape::TempAbove)
    } else if (ind == "g_load"@ || ind == "G"@) && above {
        Some(ConditionShape::GLoadAbove)
    } else if (ind == "g_load"@ || ind == "G"@) && below {
        Some(ConditionShape::GLoadBelow)
    } else if ind == "aoa"@ && above {
        Some(ConditionShape::AOAAbove)
    } else if ind == "aoa"@ && below {
        Some(ConditionShape::AOABelow)
    } else if ind == "ias"@ && above {
        Some(ConditionShape::IASAbove)
    } else if ind == "tas"@ && above {
        Some(ConditionShape::TASAbove)
    } else if ind == "mach"@ && above {
        Some(ConditionShape::MachAbove)
    } else if ind == "fuel"@ && below {
        Some(ConditionShape::FuelBelow)
    } else if ind == "ammo"@ && below {
        Some(ConditionShape::AmmoBelow)
    } else if ind == "stabilizer"@ && (above || equal) {
        Some(ConditionShape::Stabilizer)
    } else if ind == "crew_current"@ && below {
        Some(ConditionShape::CrewLost)
    } else if ind == "gunner_state"@ && above {
        Some(ConditionShape::GunnerDead)
    } else if ind == "driver_state"@ && above {
        Some(ConditionShape::DriverDead)
    } else if ind == "cruise_control"@ && above {
        Some(ConditionShape::CruiseControlAbove)
    } else if ind == "cruise_control"@ && below {
        Some(ConditionShape::CruiseControlBelow)
    } else if ind == "driving_direction_mode"@ && equal {
        Some(ConditionShape::DrivingDirection)
    } else if ind == "gear"@ && above {
        Some(ConditionShape::GearAbove)
    } else if ind == "gear"@ && below {
        Some(ConditionShape::GearBelow)
    } else if ind == "gear"@ && equal {
        Some(ConditionShape::GearEquals)
    } else {
        None
    }
}

/// Conditions that hold when a reading is above a threshold.
pub open spec fn shape_is_above(c: ConditionShape) -> bool {
    ||| c is SpeedAbove
    ||| c is AltitudeAbove
    ||| c is RPMAbove
    ||| c is TempAbove
    ||| c is GLoadAbove
    ||| c is AOAAbove
    ||| c is IASAbove
    ||| c is TASAbove
    ||| c is MachAbove
    ||| c is CruiseControlAbove
    ||| c is GearAbove
    ||| c is AccelerationAbove
    ||| c is ClimbRateAbove
    ||| c is AverageSpeedAbove
    ||| c is AverageGLoadAbove
}

/// Conditions that hold when a reading is below a threshold.
pub open spec fn shape_is_below(c: ConditionShape) -> bool {
    ||| c is SpeedBelow
    ||| c is AltitudeBelow
    ||| c is GLoadBelow
    ||| c is AOABelow
    ||| c is FuelBelow
    ||| c is AmmoBelow
    ||| c is CruiseControlBelow
    ||| c is GearBelow
    ||| c is AccelerationBelow
    ||| c is CrewLost
}

/// Whether `c` is the condition of comparing the indicator `ind` with a value.
pub open spec fn compares_indicator(c: ConditionShape, ind: Seq<char>) -> bool {
    match c {
        ConditionShape::SpeedAbove | ConditionShape::SpeedBelow => ind == "speed"@,
        ConditionShape::AltitudeAbove | ConditionShape::AltitudeBelow => ind == "altitude"@,
        ConditionShape::RPMAbove => ind == "rpm"@,
        ConditionShape::TempAbove => ind == "temperature"@,
        ConditionShape::GLoadAbove | ConditionShape::GLoadBelow => ind == "g_load"@ || ind == "G"@,
        ConditionShape::AOAAbove | ConditionShape::AOABelow => ind == "aoa"@,
        ConditionShape::IASAbove => ind == "ias"@,
        ConditionShape::TASAbove => ind == "tas"@,
        ConditionShape::MachAbove => ind == "mach"@,
        ConditionShape::FuelBelow => ind == "fuel"@,
        ConditionShape::AmmoBelow => ind == "ammo"@,
        ConditionShape::Stabilizer => ind == "stabilizer"@,
        ConditionShape::CrewLost => ind == "crew_current"@,
        ConditionShape::GunnerDead => ind == "gunner_state"@,
        ConditionShape::DriverDead => ind == "driver_state"@,
        ConditionShape::CruiseControlAbove | ConditionShape::CruiseControlBelow => ind == "cruise_control"@,
        ConditionShape::DrivingDirection => ind == "driving_direction_mode"@,
        ConditionShape::GearAbove | ConditionShape::GearBelow | ConditionShape::GearEquals => ind == "gear"@,
        _ => false,
    }
}

/// A comparison keeps its direction and its indicator: "<" and "<=" never make a
/// condition on a reading being above its threshold, ">" and ">=" never one on a
/// reading being below it, "==" neither, for any indicator; the condition a
/// comparison makes reads the indicator compared; speed and altitude compared
/// either way give the condition on that same quantity in that direction.
pub proof fn law_comparison_keeps_direction(ind: Seq<char>, op: Seq<char>)
    ensures
        (op == "<"@ || op == "<="@) && condition_shape_spec(ind, op) is Some
            ==> !shape_is_above(condition_shape_spec(ind, op)->0),
        (op == ">"@ || op == ">="@) && condition_shape_spec(ind, op) is Some
            ==> !shape_is_below(condition_shape_spec(ind, op)->0),
        (op == "<"@ || op == "<="@) && ind == "altitude"@ ==> condition_shape_spec(ind, op) == Some(
            ConditionShape::AltitudeBelow,
        ),
        (op == ">"@ || op == ">="@) && ind == "altitude"@ ==> condition_shape_spec(ind, op) == Some(
            ConditionShape::AltitudeAbove,
        ),
        (op == "<"@ || op == "<="@) && ind == "speed"@ ==> condition_shape_spec(ind, op) == Some(
            ConditionShape::SpeedBelow,
        ),
        (op == ">"@ || op == ">="@) && ind == "speed"@ ==> condition_shape_spec(ind, op) == Some(
            ConditionShape::SpeedAbove,
        ),
        (op == "<"@ || op == "<="@ || op == ">"@ || op == ">="@ || op == "=="@) && condition_shape_spec(
            ind,
            op,
        ) is Some ==> compares_indicator(condition_shape_spec(ind, op)->0, ind),
        op == "=="@ && condition_shape_spec(ind, op) is Some ==> !shape_is_above(
            condition_shape_spec(ind, op)->0,
        ) && !shape_is_below(condition_shape_spec(ind, op)->0),
{
    reveal_strlit("<");
    reveal_strlit("<=");
    reveal_strlit(">");
    reveal_strlit(">=");
    reveal_strlit("==");
    reveal_strlit("dropped_by");
    reveal_strlit("increased_by");
    reveal_strlit("accel_above");
    reveal_strlit("accel_below");
    reveal_strlit("avg_above");
    reveal_strlit("speed");
    reveal_strlit("altitude");
    assert("altitude"@.len() != "speed"@.len());
    if op == "<"@ || op == "<="@ {
        assert(op[0] == '<');
        assert(op != ">"@ && op != ">="@ && op != "=="@);
        assert(op != "dropped_by"@ && op != "increased_by"@ && op != "accel_above"@ && op != "accel_below"@
            && op != "avg_above"@);
    }
    if op == "=="@ {
        assert(op[0] == '=');
        assert(op != "<"@ && op != "<="@ && op != ">"@ && op != ">="@);
        assert(op != "dropped_by"@ && op != "increased_by"@ && op != "accel_above"@ && op != "accel_below"@
            && op != "avg_above"@);
    }
    if op == ">"@ || op == ">="@ {
        assert(op[0] == '>');
        assert(op != "<"@ && op != "<="@ && op != "=="@);
        assert(op != "dropped_by"@ && op != "increased_by"@ && op != "accel_above"@ && op != "accel_below"@
            && op != "avg_above"@);
    }
}

/// The condition an indicator and an operator make; `None` for a pair that makes
/// none.
pub fn condition_shape(ind: &str, op: &str) -> (r: Option<ConditionShape>)
    ensures
        r == condition_shape_spec(ind@, op@),
{
    let above = str_eq(op, ">");
    let below = str_eq(op, "<");
    let above_eq = above || str_eq(op, ">=");
    let below_eq = below || str_eq(op, "<=");
    let equal = str_eq(op, "==");
    let speedlike = str_eq(ind, "speed") || str_eq(ind, "ias") || str_eq(ind, "tas");
    let altitude = str_eq(ind, "altitude");
    let g_load = str_eq(ind, "g_load");
    if str_eq(op, "dropped_by") {
        if speedlike {
            Some(ConditionShape::SpeedDroppedBy)
        } else if altitude {
            Some(ConditionShape::AltitudeDroppedBy)
        } else {
            None
        }
    } else if str_eq(op, "increased_by") {
        if speedlike {
            Some(ConditionShape::SpeedIncreasedBy)
        } else if altitude {
            Some(ConditionShape::AltitudeGainedBy)
        } else if g_load {
            Some(ConditionShape::GLoadSpiked)
        } else {
            None
        }
    } else if str_eq(op, "accel_above") {
        if speedlike {
            Some(ConditionShape::AccelerationAbove)
        } else if altitude {
            Some(ConditionShape::ClimbRateAbove)
        } else {
            None
        }
    } else if str_eq(op, "accel_below") {
        if speedlike {
            Some(ConditionShape::AccelerationBelow)
        } else {
            None
        }
    } else if str_eq(op, "avg_above") {
        if speedlike {
            Some(ConditionShape::AverageSpeedAbove)
        } else if g_load {
            Some(ConditionShape::AverageGLoadAbove)
        } else {
            None
        }
    } else if str_eq(ind, "speed") && above_eq {
        Some(ConditionShape::SpeedAbove)
    } else if str_eq(ind, "speed") && below_eq {
        Some(ConditionShape::SpeedBelow)
    } else if altitude && above_eq {
        Some(ConditionShape::AltitudeAbove)
    } else if altitude && below_eq {
        Some(ConditionShape::AltitudeBelow)
    } else if str_eq(ind, "rpm") && above_eq {
        Some(ConditionShape::RPMAbove)
    } else if str_eq(ind, "temperature") && above {
        Some(ConditionShape::TempAbove)
    } else if (g_load || str_eq(ind, "G")) && above {
        Some(ConditionShape::GLoadAbove)
    } else if (g_load || str_eq(ind, "G")) && below {
        Some(ConditionShape::GLoadBelow)
    } else if str_eq(ind, "aoa") && above {
        Some(ConditionShape::AOAAbove)
    } else if str_eq(ind, "aoa") && below {
        Some(ConditionShape::AOABelow)
    } else if str_eq(ind, "ias") && above {
        Some(ConditionShape::IASAbove)
    } else if str_eq(ind, "tas") && above {
        Some(ConditionShape::TASAbove)
    } else if str_eq(ind, "mach") && above {
        Some(ConditionShape::MachAbove)
    } else if str_eq(ind, "fuel") && below {
        Some(ConditionShape::FuelBelow)
    } else if str_eq(ind, "ammo") && below {
        Some(ConditionShape::AmmoBelow)
    } else if str_eq(ind, "stabilizer") && (above || equal) {
        Some(ConditionShape::Stabilizer)
    } else if str_eq(ind, "crew_current") && below {
        Some(ConditionShape::CrewLost)
    } else if str_eq(ind, "gunner_state") && above {
        Some(ConditionShape::GunnerDead)
    } else if str_eq(ind, "driver_state") && above {
        Some(ConditionShape::DriverDead)
    } else if str_eq(ind, "cruise_control") && above {
        Some(ConditionShape::CruiseControlAbove)
    } else if str_eq(ind, "cruise_control") && below {
        Some(ConditionShape::CruiseControlBelow)
    } else if str_eq(ind, "driving_direction_mode") && equal {
        Some(ConditionShape::DrivingDirection)
    } else if str_eq(ind, "gear") && above {
        Some(ConditionShape::GearAbove)
    } else if str_eq(ind, "gear") && below {
        Some(ConditionShape::GearBelow)
    } else if str_eq(ind, "gear") && equal {
        Some(ConditionShape::GearEquals)
    } else {
        None
    }
}

/// The condition a condition node's operator makes for an indicator: the four
/// comparisons as they are, "=" and "==" as equality, any other operator none.
pub open spec fn operator_shape_spec(ind: Seq<char>, op: Seq<char>) -> Option<ConditionShape> {
    if op == ">"@ || op == "<"@ || op == ">="@ || op == "<="@ {
        condition_shape_spec(ind, op)
    } else if op == "="@ || op == "=="@ {
        condition_shape_spec(ind, "=="@)
    } else {
        None
    }
}

/// The condition a condition node's operator makes for an indicator.
pub fn operator_shape(ind: &str, op: &str) -> (r: Option<ConditionShape>)
    ensures
        r == operator_shape_spec(ind@, op@),
{
    if str_eq(op, ">") || str_eq(op, "<") || str_eq(op, ">=") || str_eq(op, "<=") {
        condition_shape(ind, op)
    } else if str_eq(op, "=") || str_eq(op, "==") {
        condition_shape(ind, "==")
    } else {
        None
    }
}

/// What a condition node does to its input's condition.
pub enum Reshape {
    /// The input's condition is replaced by this one, with the node's threshold.
    To(ConditionShape),
    /// The input's condition is kept as it is.
    Keep,
}

/// The indicator a condition node re-reads from its input's condition, for the
/// conditions it can change.
pub open spec fn base_indicator(base: ConditionShape) -> Option<Seq<char>> {
    match base {
        ConditionShape::IASAbove => Some("speed"@),
        ConditionShape::SpeedAbove => Some("speed"@),
        ConditionShape::TASAbove => Some("tas"@),
        ConditionShape::AltitudeAbove => Some("altitude"@),
        ConditionShape::AltitudeBelow => Some("altitude"@),
        ConditionShape::GLoadAbove => Some("g_load"@),
        ConditionShape::GLoadBelow => Some("g_load"@),
        ConditionShape::FuelBelow => Some("fuel_percent"@),
        ConditionShape::RPMAbove => Some("rpm"@),
        ConditionShape::AOAAbove => Some("aoa"@),
        ConditionShape::AOABelow => Some("aoa"@),
        _ => None,
    }
}

/// What a condition node with operator `op` does to its input's condition
/// `base`: the re-read indicator with the node's operator (none when they make
/// no condition), or the input's condition kept when it is not one that can be
/// changed.
pub open spec fn reshape_spec(base: ConditionShape, op: Seq<char>) -> Option<Reshape> {
    match base_indicator(base) {
        Some(ind) => match operator_shape_spec(ind, op) {
            Some(c) => Some(Reshape::To(c)),
            None => None,
        },
        None => Some(Reshape::Keep),
    }
}

/// What a condition node with operator `op` does to its input's condition.
pub fn apply_condition_to_input(base: ConditionShape, op: &str) -> (r: Option<Reshape>)
    ensures
        r == reshape_spec(base, op@),
{
    let ind = match base {
        ConditionShape::IASAbove => "speed",
        ConditionShape::SpeedAbove => "speed",
        ConditionShape::TASAbove => "tas",
        ConditionShape::AltitudeAbove => "altitude",
        ConditionShape::AltitudeBelow => "altitude",
        ConditionShape::GLoadAbove => "g_load",
        ConditionShape::GLoadBelow => "g_load",
        ConditionShape::FuelBelow => "fuel_percent",
        ConditionShape::RPMAbove => "rpm",
        ConditionShape::AOAAbove => "aoa",
        ConditionShape::AOABelow => "aoa",
        _ => {
            return Some(Reshape::Keep);
        },
    };
    match operator_shape(ind, op) {
        Some(c) => Some(Reshape::To(c)),
        None => None,
    }
}

/// A condition built of leaf conditions with and, or and not.
pub enum CondTree {
    Leaf(ConditionShape),
    And(Box<CondTree>, Box<CondTree>),
    Or(Box<CondTree>, Box<CondTree>),
    Not(Box<CondTree>),
}

/// The condition that one condition of a multi-condition node, with operator
/// `op`, makes of the input's condition `base`: the input's indicator with that
/// operator, or `base` itself when its condition cannot be changed; none for an
/// operator that makes no condition.
pub open spec fn multi_leaf(base: ConditionShape, op: Seq<char>) -> Option<ConditionShape> {
    match reshape_spec(base, op) {
        Some(Reshape::To(c)) => Some(c),
        Some(Reshape::Keep) => Some(base),
        None => None,
    }
}

/// The conditions `shapes` combined left to right with or (`is_or`) or else
/// with and: ((c0 op c1) op c2) ...
pub open spec fn multi_chain(shapes: Seq<ConditionShape>, is_or: bool) -> CondTree
    decreases shapes.len(),
{
    if shapes.len() <= 1 {
        CondTree::Leaf(shapes[0])
    } else if is_or {
        CondTree::Or(Box::new(multi_chain(shapes.drop_last(), is_or)), Box::new(CondTree::Leaf(shapes.last())))
    } else {
        CondTree::And(Box::new(multi_chain(shapes.drop_last(), is_or)), Box::new(CondTree::Leaf(shapes.last())))
    }
}

/// The leaf conditions of the first `k` conditions with operators `ops`.
pub open spec fn leaf_shapes(base: ConditionShape, ops: Seq<Seq<char>>, k: int) -> Seq<ConditionShape> {
    Seq::new(k as nat, |j: int| multi_leaf(base, ops[j])->0)
}

/// The condition of a multi-condition node whose conditions have operators
/// `ops`, in order, over the input's condition `base`: each condition's own
/// condition of the input's indicator, combined left to right with or when the
/// node's logic is "OR" and with and otherwise; `base` alone when the node has
/// no conditions; none when an operator makes no condition. The caller attaches
/// each condition's threshold to the leaf in the same position.
pub open spec fn multi_spec(base: ConditionShape, ops: Seq<Seq<char>>, is_or: bool) -> Option<CondTree> {
    if ops.len() == 0 {
        Some(CondTree::Leaf(base))
    } else if forall|i: int| 0 <= i < ops.len() ==> (#[trigger] multi_leaf(base, ops[i])) is Some {
        Some(multi_chain(leaf_shapes(base, ops, ops.len() as int), is_or))
    } else {
        None
    }
}

/// The condition of a multi-condition node with conditions of operators `ops`
/// and logic `logic` over the input's condition `base`.
pub fn multi_condition(base: ConditionShape, ops: &Vec<String>, logic: &str) -> (r: Option<CondTree>)
    ensures
        r == multi_spec(base, ops.deep_view(), logic@ == "OR"@),
{
    let ghost os = ops.deep_view();
    let n = ops.len();
    if n == 0 {
        return Some(CondTree::Leaf(base));
    }
    let is_or = str_eq(logic, "OR");
    let mut r = CondTree::Leaf(base);
    for i in 0..n
        invariant
            n == os.len() == ops@.len(),
            os == ops.deep_view(),
            n > 0,
            forall|j: int| 0 <= j < i ==> (#[trigger] multi_leaf(base, os[j])) is Some,
            i > 0 ==> r == multi_chain(leaf_shapes(base, os, i as int), is_or),
    {
        let shape = match apply_condition_to_input(base, ops[i].as_str()) {
            Some(Reshape::To(c)) => c,
            Some(Reshape::Keep) => base,
            None => {
                assert(multi_leaf(base, os[i as int]) is None);
                return None;
            },
        };
        assert(multi_leaf(base, os[i as int]) == Some(shape));
        let ghost next = leaf_shapes(base, os, i + 1);
        assert(next.drop_last() =~= leaf_shapes(base, os, i as int));
        assert(next.last() == shape);
        r = if i == 0 {
            CondTree::Leaf(shape)
        } else if is_or {
            CondTree::Or(Box::new(r), Box::new(CondTree::Leaf(shape)))
        } else {
            CondTree::And(Box::new(r), Box::new(CondTree::Leaf(shape)))
        };
    }
    Some(r)
}

/// The node id in an edge's source: what precedes its first `|`.
pub open spec fn source_node_id(src: Seq<char>) -> Seq<char> {
    before_first(src, "|"@)
}

/// The handle in an edge's source: what follows its first `|` (up to a second
/// one), empty when there is none.
pub open spec fn source_handle(src: Seq<char>) -> Seq<char> {
    match after_first(src, "|"@) {
        Some(h) => h,
        None => Seq::empty(),
    }
}

/// The node feeding the handle `handle` of node `id`: from the first edge into
/// `id`, among the first `n`, whose source has that handle.
pub open spec fn input_source_upto(edges: Seq<UIEdge>, id: Seq<char>, handle: Seq<char>, n: int) -> Option<
    Seq<char>,
>
    decreases n,
{
    if n <= 0 {
        None
    } else {
        match input_source_upto(edges, id, handle, n - 1) {
            Some(s) => Some(s),
            None => if edges[n - 1].target@ == id && source_handle(edges[n - 1].source@) == handle {
                Some(source_node_id(edges[n - 1].source@))
            } else {
                None
            },
        }
    }
}

/// The node feeding the handle `handle` of node `id`.
pub open spec fn input_source(edges: Seq<UIEdge>, id: Seq<char>, handle: Seq<char>) -> Option<Seq<char>> {
    input_source_upto(edges, id, handle, edges.len() as int)
}

/// The condition of an input node: its indicator compared with ">".
pub open spec fn input_leaf(n: UINode) -> Option<ConditionShape> {
    match n.indicator {
        Some(ind) => condition_shape_spec(ind@, ">"@),
        None => None,
    }
}

/// The condition of the logic node at position `i`, going at most `fuel` logic
/// nodes deeper: "NOT" of its input A, or "AND", "OR", "XOR" of its inputs A and
/// B (XOR as (A and not B) or (not A and B)).
pub open spec fn logic_tree(nodes: Seq<UINode>, edges: Seq<UIEdge>, fuel: nat, i: int) -> Option<CondTree>
    decreases fuel, 1int,
{
    if i < 0 || i >= nodes.len() {
        None
    } else {
        match nodes[i].logic {
            None => None,
            Some(op) => {
                let id = nodes[i].id@;
                if op@ == "NOT"@ {
                    match input_source(edges, id, "input-a"@) {
                        None => None,
                        Some(a) => match sub_condition(nodes, edges, fuel, a) {
                            Some(ca) => Some(CondTree::Not(Box::new(ca))),
                            None => None,
                        },
                    }
                } else if op@ == "AND"@ || op@ == "OR"@ || op@ == "XOR"@ {
                    match (input_source(edges, id, "input-a"@), input_source(edges, id, "input-b"@)) {
                        (Some(a), Some(b)) => match (
                            sub_condition(nodes, edges, fuel, a),
                            sub_condition(nodes, edges, fuel, b),
                        ) {
                            (Some(ca), Some(cb)) => Some(combine(op@, ca, cb)),
                            _ => None,
                        },
                        _ => None,
                    }
                } else {
                    None
                }
            },
        }
    }
}

/// The condition that the node `src` feeds into a logic node: an input node's
/// own, or a logic node's (which takes one unit of `fuel`).
pub open spec fn sub_condition(nodes: Seq<UINode>, edges: Seq<UIEdge>, fuel: nat, src: Seq<char>) -> Option<
    CondTree,
>
    decreases fuel, 0int,
{
    match node_index(nodes, src) {
        None => None,
        Some(j) => if nodes[j].type_@ == "input"@ {
            match input_leaf(nodes[j]) {
                Some(c) => Some(CondTree::Leaf(c)),
                None => None,
            }
        } else if nodes[j].type_@ == "logic"@ && fuel > 0 {
            logic_tree(nodes, edges, (fuel - 1) as nat, j)
        } else {
            None
        },
    }
}

/// Two conditions joined by "AND", "OR" or "XOR".
pub open spec fn combine(op: Seq<char>, a: CondTree, b: CondTree) -> CondTree {
    if op == "AND"@ {
        CondTree::And(Box::new(a), Box::new(b))
    } else if op == "OR"@ {
        CondTree::Or(Box::new(a), Box::new(b))
    } else {
        CondTree::Or(
            Box::new(CondTree::And(Box::new(a), Box::new(CondTree::Not(Box::new(b))))),
            Box::new(CondTree::And(Box::new(CondTree::Not(Box::new(a))), Box::new(b))),
        )
    }
}

fn find_input_source(edges: &Vec<UIEdge>, id: &str, handle: &str) -> (r: Option<String>)
    ensures
        match r {
            Some(s) => input_source(edges@, id@, handle@) == Some(s@),
            None => input_source(edges@, id@, handle@) is None,
        },
{
    proof {
        reveal_strlit("|");
    }
    let bar = chars_of("|");
    let n = edges.len();
    for i in 0..n
        invariant
            n == edges.len(),
            bar@ == "|"@,
            bar@.len() == 1,
            input_source_upto(edges@, id@, handle@, i as int) is None,
    {
        let src = chars_of(edges[i].source.as_str());
        let (first, second, _) = split_first_two(&src, &bar);
        let h = match second {
            Some(p) => p,
            None => Vec::new(),
        };
        assert(h@ == source_handle(edges@[i as int].source@));
        let hs = string_from_chars(&h);
        if str_eq(edges[i].target.as_str(), id) && str_eq(hs.as_str(), handle) {
            let f = string_from_chars(&first);
            assert(input_source_upto(edges@, id@, handle@, i + 1) == Some(f@));
            assert forall|m: int| i + 1 <= m <= n implies input_source_upto(edges@, id@, handle@, m)
                == Some(f@) by {
                lemma_input_source_stays(edges@, id@, handle@, i + 1, m);
            }
            return Some(f);
        }
    }
    None
}

proof fn lemma_input_source_stays(edges: Seq<UIEdge>, id: Seq<char>, handle: Seq<char>, a: int, b: int)
    requires
        a <= b,
        input_source_upto(edges, id, handle, a) is Some,
    ensures
        input_source_upto(edges, id, handle, b) == input_source_upto(edges, id, handle, a),
    decreases b - a,
{
    if a < b {
        lemma_input_source_stays(edges, id, handle, a, b - 1);
    }
}

fn condition_of_input(n: &UINode) -> (r: Option<ConditionShape>)
    ensures
        r == input_leaf(*n),
{
    match &n.indicator {
        Some(ind) => condition_shape(ind.as_str(), ">"),
        None => None,
    }
}

fn logic_condition(nodes: &Vec<UINode>, edges: &Vec<UIEdge>, fuel: usize, i: usize) -> (r: Option<CondTree>)
    ensures
        r == logic_tree(nodes@, edges@, fuel as nat, i as int),
    decreases fuel, 1int,
{
    if i >= nodes.len() {
        return None;
    }
    let op = match &nodes[i].logic {
        None => {
            return None;
        },
        Some(op) => op.as_str(),
    };
    let id = nodes[i].id.as_str();
    if str_eq(op, "NOT") {
        match find_input_source(edges, id, "input-a") {
            None => None,
            Some(a) => match source_condition(nodes, edges, fuel, a.as_str()) {
                Some(ca) => Some(CondTree::Not(Box::new(ca))),
                None => None,
            },
        }
    } else if str_eq(op, "AND") || str_eq(op, "OR") || str_eq(op, "XOR") {
        let a = find_input_source(edges, id, "input-a");
        let b = find_input_source(edges, id, "input-b");
        match (a, b) {
            (Some(a), Some(b)) => {
                let ca = source_condition(nodes, edges, fuel, a.as_str());
                let cb = source_condition(nodes, edges, fuel, b.as_str());
                match (ca, cb) {
                    (Some(ca), Some(cb)) => {
                        if str_eq(op, "AND") {
                            Some(CondTree::And(Box::new(ca), Box::new(cb)))
                        } else if str_eq(op, "OR") {
                            Some(CondTree::Or(Box::new(ca), Box::new(cb)))
                        } else {
                            let na = CondTree::Not(Box::new(copy_tree(&ca)));
                            let nb = CondTree::Not(Box::new(copy_tree(&cb)));
                            Some(
                                CondTree::Or(
                                    Box::new(CondTree::And(Box::new(ca), Box::new(nb))),
                                    Box::new(CondTree::And(Box::new(na), Box::new(cb))),
                                ),
                            )
                        }
                    },
                    _ => None,
                }
            },
            _ => None,
        }
    } else {
        None
    }
}

fn source_condition(nodes: &Vec<UINode>, edges: &Vec<UIEdge>, fuel: usize, src: &str) -> (r: Option<CondTree>)
    ensures
        r == sub_condition(nodes@, edges@, fuel as nat, src@),
    decreases fuel, 0int,
{
    match find_node(nodes, src) {
        None => None,
        Some(j) => {
            if str_eq(nodes[j].type_.as_str(), "input") {
                match condition_of_input(&nodes[j]) {
                    Some(c) => Some(CondTree::Leaf(c)),
                    None => None,
                }
            } else if str_eq(nodes[j].type_.as_str(), "logic") && fuel > 0 {
                logic_condition(nodes, edges, fuel - 1, j)
            } else {
                None
            }
        },
    }
}

/// A copy of a condition tree.
pub fn copy_tree(t: &CondTree) -> (r: CondTree)
    ensures
        r == *t,
    decreases t,
{
    match t {
        CondTree::Leaf(c) => CondTree::Leaf(*c),
        CondTree::And(a, b) => CondTree::And(Box::new(copy_tree(a)), Box::new(copy_tree(b))),
        CondTree::Or(a, b) => CondTree::Or(Box::new(copy_tree(a)), Box::new(copy_tree(b))),
        CondTree::Not(a) => CondTree::Not(Box::new(copy_tree(a))),
    }
}

/// The condition of the logic node at position `i`, following logic nodes that
/// feed it at most as many levels deep as there are nodes; `None` when an input
/// is missing, is not an input or logic node, or makes no condition.
pub fn parse_logic_node(nodes: &Vec<UINode>, edges: &Vec<UIEdge>, i: usize) -> (r: Option<CondTree>)
    ensures
        r == logic_tree(nodes@, edges@, nodes.len() as nat, i as int),
{
    logic_condition(nodes, edges, nodes.len(), i)
}

/// Whether a condition tree holds when each leaf condition holds as `v` says.
pub open spec fn tree_holds(t: CondTree, v: spec_fn(ConditionShape) -> bool) -> bool
    decreases t,
{
    match t {
        CondTree::Leaf(c) => v(c),
        CondTree::And(a, b) => tree_holds(*a, v) && tree_holds(*b, v),
        CondTree::Or(a, b) => tree_holds(*a, v) || tree_holds(*b, v),
        CondTree::Not(a) => !tree_holds(*a, v),
    }
}

/// A logic node holds as its gate says of its inputs, whatever the inputs'
/// conditions: AND when both hold, OR when either holds, XOR when exactly one
/// holds.
pub proof fn law_logic_gates_evaluate(op: Seq<char>, a: CondTree, b: CondTree, v: spec_fn(ConditionShape) -> bool)
    requires
        op == "AND"@ || op == "OR"@ || op == "XOR"@,
    ensures
        tree_holds(combine(op, a, b), v) == if op == "AND"@ {
            tree_holds(a, v) && tree_holds(b, v)
        } else if op == "OR"@ {
            tree_holds(a, v) || tree_holds(b, v)
        } else {
            tree_holds(a, v) != tree_holds(b, v)
        },
{
    reveal_with_fuel(tree_holds, 3);
}

/// A logic node fed by input nodes parses to a condition that holds exactly as
/// its gate says of the inputs' conditions, whatever each of them is worth:
/// "AND" when both hold, "OR" when either holds, "XOR" when exactly one holds,
/// and "NOT" (which reads input A alone) when A's does not.
pub proof fn law_logic_node_evaluates(
    nodes: Seq<UINode>,
    edges: Seq<UIEdge>,
    fuel: nat,
    i: int,
    a: Seq<char>,
    b: Seq<char>,
    ja: int,
    jb: int,
    ca: ConditionShape,
    cb: ConditionShape,
    v: spec_fn(ConditionShape) -> bool,
)
    requires
        0 <= i < nodes.len(),
        nodes[i].logic is Some,
        nodes[i].logic->0@ == "AND"@ || nodes[i].logic->0@ == "OR"@ || nodes[i].logic->0@ == "XOR"@
            || nodes[i].logic->0@ == "NOT"@,
        input_source(edges, nodes[i].id@, "input-a"@) == Some(a),
        node_index(nodes, a) == Some(ja),
        nodes[ja].type_@ == "input"@,
        input_leaf(nodes[ja]) == Some(ca),
        nodes[i].logic->0@ != "NOT"@ ==> {
            &&& input_source(edges, nodes[i].id@, "input-b"@) == Some(b)
            &&& node_index(nodes, b) == Some(jb)
            &&& nodes[jb].type_@ == "input"@
            &&& input_leaf(nodes[jb]) == Some(cb)
        },
    ensures
        logic_tree(nodes, edges, fuel, i) is Some,
        tree_holds(logic_tree(nodes, edges, fuel, i)->0, v) == {
            let op = nodes[i].logic->0@;
            if op == "NOT"@ {
                !v(ca)
            } else if op == "AND"@ {
                v(ca) && v(cb)
            } else if op == "OR"@ {
                v(ca) || v(cb)
            } else {
                v(ca) != v(cb)
            }
        },
{
    reveal_strlit("AND");
    reveal_strlit("OR");
    reveal_strlit("XOR");
    reveal_strlit("NOT");
    let op = nodes[i].logic->0@;
    assert(sub_condition(nodes, edges, fuel, a) == Some(CondTree::Leaf(ca)));
    assert(tree_holds(CondTree::Leaf(ca), v) == v(ca));
    if op == "NOT"@ {
        assert(logic_tree(nodes, edges, fuel, i) == Some(CondTree::Not(Box::new(CondTree::Leaf(ca)))));
        reveal_with_fuel(tree_holds, 2);
    } else {
        assert(sub_condition(nodes, edges, fuel, b) == Some(CondTree::Leaf(cb)));
        assert(tree_holds(CondTree::Leaf(cb), v) == v(cb));
        assert(logic_tree(nodes, edges, fuel, i) == Some(combine(op, CondTree::Leaf(ca), CondTree::Leaf(cb))));
        law_logic_gates_evaluate(op, CondTree::Leaf(ca), CondTree::Leaf(cb), v);
    }
}

/// A multi-condition node holds when any of its conditions holds (logic "OR")
/// or when all of them hold (any other logic).
pub proof fn law_multi_condition_evaluates(shapes: Seq<ConditionShape>, is_or: bool, v: spec_fn(ConditionShape) -> bool)
    requires
        shapes.len() >= 1,
    ensures
        tree_holds(multi_chain(shapes, is_or), v) == if is_or {
            exists|i: int| 0 <= i < shapes.len() && v(#[trigger] shapes[i])
        } else {
            forall|i: int| 0 <= i < shapes.len() ==> v(#[trigger] shapes[i])
        },
    decreases shapes.len(),
{
    if shapes.len() > 1 {
        let init = shapes.drop_last();
        law_multi_condition_evaluates(init, is_or, v);
        assert(tree_holds(CondTree::Leaf(shapes.last()), v) == v(shapes.last()));
        if is_or {
            if exists|i: int| 0 <= i < shapes.len() && v(#[trigger] shapes[i]) {
                let i = choose|i: int| 0 <= i < shapes.len() && v(#[trigger] shapes[i]);
                if i < shapes.len() - 1 {
                    assert(init[i] == shapes[i]);
                }
            }
            if exists|i: int| 0 <= i < init.len() && v(#[trigger] init[i]) {
                let i = choose|i: int| 0 <= i < init.len() && v(#[trigger] init[i]);
                assert(shapes[i] == init[i]);
            }
        } else {
            if forall|i: int| 0 <= i < init.len() ==> v(#[trigger] init[i]) {
                if v(shapes.last()) {
                    assert forall|i: int| 0 <= i < shapes.len() implies v(#[trigger] shapes[i]) by {
                        if i < shapes.len() - 1 {
                            assert(init[i] == shapes[i]);
                        }
                    }
                }
            }
            if forall|i: int| 0 <= i < shapes.len() ==> v(#[trigger] shapes[i]) {
                assert forall|i: int| 0 <= i < init.len() implies v(#[trigger] init[i]) by {
                    assert(init[i] == shapes[i]);
                }
                assert(v(shapes[shapes.len() - 1]));
            }
        }
    }
}

} // verus!
