use tailgunner::pattern_engine::{BurstConfig, GameEvent};
use tailgunner::ui_patterns::{
    apply_condition_to_input, condition_shape, default_cooldown, envelope_durations,
    find_output_node, multi_condition, operator_shape, parse_logic_node, pattern_start, ui_event,
    vibration_burst, CondTree, ConditionShape, PatternStart, Reshape, UIEdge, UINode,
};

fn node(id: &str, t: &str) -> UINode {
    UINode { id: id.to_string(), type_: t.to_string(), indicator: None, logic: None }
}

fn input(id: &str, indicator: &str) -> UINode {
    UINode { id: id.to_string(), type_: "input".to_string(), indicator: Some(indicator.to_string()), logic: None }
}

fn logic(id: &str, op: &str) -> UINode {
    UINode { id: id.to_string(), type_: "logic".to_string(), indicator: None, logic: Some(op.to_string()) }
}

fn edge(s: &str, t: &str) -> UIEdge {
    UIEdge { source: s.to_string(), target: t.to_string() }
}

#[test]
fn pattern_cooldown_defaults_to_one_second() {
    assert_eq!(default_cooldown(), 1000);
}

#[test]
fn output_search_follows_edges_through_passthrough_nodes() {
    let nodes = vec![
        node("in", "input"),
        node("cond", "condition"),
        node("out", "output"),
        node("vib", "vibration"),
    ];
    let edges = vec![edge("in", "cond"), edge("cond", "out"), edge("out", "vib")];
    assert_eq!(find_output_node(&nodes, &edges, "in"), Some(3));
}

#[test]
fn output_search_survives_cycles_and_dead_ends() {
    let nodes = vec![node("a", "condition"), node("b", "condition"), node("r", "rotate")];
    let cyclic = vec![edge("a", "b"), edge("b", "a")];
    assert_eq!(find_output_node(&nodes, &cyclic, "a"), None);
    let later = vec![edge("a", "b"), edge("b", "a"), edge("a", "missing"), edge("a", "r")];
    assert_eq!(find_output_node(&nodes, &later, "a"), Some(2));
    assert_eq!(find_output_node(&nodes, &later, "nowhere"), None);
}

#[test]
fn pattern_start_prefers_event_nodes() {
    let nodes = vec![input("in", "speed"), node("ev", "event"), node("c", "condition")];
    let edges = vec![edge("in", "c")];
    assert!(matches!(pattern_start(&nodes, &edges), Some(PatternStart::Event(1))));
    let nodes = vec![input("in", "speed"), node("c", "condition")];
    assert!(matches!(
        pattern_start(&nodes, &edges),
        Some(PatternStart::Input { input: 0, next: 1 })
    ));
    assert!(pattern_start(&nodes, &Vec::new()).is_none());
}

#[test]
fn ui_event_names() {
    assert_eq!(ui_event("Hit"), Some(GameEvent::Hit));
    assert_eq!(ui_event("ChatMessage"), Some(GameEvent::ChatMessage));
    assert_eq!(ui_event("OverG"), Some(GameEvent::OverG));
    assert_eq!(ui_event("Stall"), None);
}

#[test]
fn vibration_modes() {
    assert_eq!(vibration_burst("once", 7), BurstConfig { repeat_count: 1, pause_between_ms: 100 });
    assert_eq!(vibration_burst("continuous", 7), BurstConfig { repeat_count: 1, pause_between_ms: 0 });
    assert_eq!(vibration_burst("repeat", 7), BurstConfig { repeat_count: 7, pause_between_ms: 100 });
    assert_eq!(vibration_burst("while_true", 7), BurstConfig { repeat_count: 9999, pause_between_ms: 0 });
    assert_eq!(vibration_burst("pulse", 7), BurstConfig { repeat_count: 1, pause_between_ms: 100 });
}

#[test]
fn envelope_splits_quarter_half_quarter() {
    assert_eq!(envelope_durations(2), (500, 1000, 500));
    assert_eq!(envelope_durations(1), (250, 500, 250));
    assert_eq!(envelope_durations(0), (0, 0, 0));
}

#[test]
fn condition_shapes() {
    assert_eq!(condition_shape("speed", ">="), Some(ConditionShape::SpeedAbove));
    assert_eq!(condition_shape("G", "<"), Some(ConditionShape::GLoadBelow));
    assert_eq!(condition_shape("ias", "dropped_by"), Some(ConditionShape::SpeedDroppedBy));
    assert_eq!(condition_shape("g_load", "avg_above"), Some(ConditionShape::AverageGLoadAbove));
    assert_eq!(condition_shape("tas", "<"), None);
    assert_eq!(condition_shape("stabilizer", "=="), Some(ConditionShape::Stabilizer));
    assert_eq!(operator_shape("gear", "="), Some(ConditionShape::GearEquals));
    assert_eq!(operator_shape("speed", "!="), None);
}

#[test]
fn condition_nodes_reshape_their_input() {
    assert!(matches!(
        apply_condition_to_input(ConditionShape::IASAbove, "<"),
        Some(Reshape::To(ConditionShape::SpeedBelow))
    ));
    assert!(matches!(apply_condition_to_input(ConditionShape::CrewLost, ">"), Some(Reshape::Keep)));
    assert!(apply_condition_to_input(ConditionShape::FuelBelow, "<").is_none());
    assert!(apply_condition_to_input(ConditionShape::TASAbove, "<").is_none());
}

#[test]
fn multi_condition_keeps_each_threshold() {
    let ops = |v: &[&str]| -> Vec<String> { v.iter().map(|s| s.to_string()).collect() };
    // Critical G-load: g_load > 8 OR g_load < -3.
    match multi_condition(ConditionShape::GLoadAbove, &ops(&[">", "<"]), "OR") {
        Some(CondTree::Or(a, b)) => {
            assert!(matches!(*a, CondTree::Leaf(ConditionShape::GLoadAbove)));
            assert!(matches!(*b, CondTree::Leaf(ConditionShape::GLoadBelow)));
        },
        _ => panic!("expected an or"),
    }
    match multi_condition(ConditionShape::SpeedAbove, &ops(&[">", "<", ">"]), "AND") {
        Some(CondTree::And(a, b)) => {
            assert!(matches!(*b, CondTree::Leaf(ConditionShape::SpeedAbove)));
            match *a {
                CondTree::And(x, y) => {
                    assert!(matches!(*x, CondTree::Leaf(ConditionShape::SpeedAbove)));
                    assert!(matches!(*y, CondTree::Leaf(ConditionShape::SpeedBelow)));
                },
                _ => panic!("expected an and"),
            }
        },
        _ => panic!("expected an and"),
    }
    assert!(matches!(multi_condition(ConditionShape::SpeedAbove, &vec![], "AND"), Some(CondTree::Leaf(ConditionShape::SpeedAbove))));
    assert!(matches!(multi_condition(ConditionShape::CrewLost, &ops(&["<", ">"]), "OR"), Some(CondTree::Or(_, _))));
    assert!(multi_condition(ConditionShape::SpeedAbove, &ops(&[">", "!!"]), "OR").is_none());
}

#[test]
fn logic_nodes_build_trees() {
    let nodes = vec![input("a", "speed"), input("b", "altitude"), logic("x", "XOR"), logic("n", "NOT")];
    let edges = vec![
        edge("a|input-a", "x"),
        edge("b|input-b", "x"),
        edge("x|input-a", "n"),
    ];
    let t = parse_logic_node(&nodes, &edges, 3).expect("a tree");
    match t {
        CondTree::Not(inner) => match *inner {
            CondTree::Or(l, r) => {
                assert!(matches!(*l, CondTree::And(_, _)));
                assert!(matches!(*r, CondTree::And(_, _)));
            },
            _ => panic!("expected the xor expansion"),
        },
        _ => panic!("expected a not"),
    }
    let and_nodes = vec![input("a", "speed"), input("b", "altitude"), logic("x", "AND")];
    let t = parse_logic_node(&and_nodes, &edges, 2).expect("a tree");
    match t {
        CondTree::And(l, r) => {
            assert!(matches!(*l, CondTree::Leaf(ConditionShape::SpeedAbove)));
            assert!(matches!(*r, CondTree::Leaf(ConditionShape::AltitudeAbove)));
        },
        _ => panic!("expected an and"),
    }
}

#[test]
fn logic_nodes_missing_inputs_give_none() {
    let nodes = vec![input("a", "speed"), logic("x", "AND")];
    let edges = vec![edge("a|input-a", "x")];
    assert!(parse_logic_node(&nodes, &edges, 1).is_none());
    let looped = vec![logic("x", "NOT")];
    let self_edge = vec![edge("x|input-a", "x")];
    assert!(parse_logic_node(&looped, &self_edge, 0).is_none());
}

fn holds(t: &CondTree, speed: bool, altitude: bool) -> bool {
    match t {
        CondTree::Leaf(ConditionShape::SpeedAbove) => speed,
        CondTree::Leaf(ConditionShape::AltitudeAbove) => altitude,
        CondTree::Leaf(_) => panic!("unexpected leaf"),
        CondTree::And(a, b) => holds(a, speed, altitude) && holds(b, speed, altitude),
        CondTree::Or(a, b) => holds(a, speed, altitude) || holds(b, speed, altitude),
        CondTree::Not(a) => !holds(a, speed, altitude),
    }
}

#[test]
fn logic_node_gates_evaluate_on_their_inputs() {
    let edges = vec![edge("a|input-a", "x"), edge("b|input-b", "x")];
    for (op, gate) in [
        ("AND", (|s: bool, a: bool| s && a) as fn(bool, bool) -> bool),
        ("OR", |s: bool, a: bool| s || a),
        ("XOR", |s: bool, a: bool| s != a),
        ("NOT", |s: bool, _a: bool| !s),
    ] {
        let nodes = vec![input("a", "speed"), input("b", "altitude"), logic("x", op)];
        let t = parse_logic_node(&nodes, &edges, 2).expect("a tree");
        for speed in [false, true] {
            for altitude in [false, true] {
                assert_eq!(holds(&t, speed, altitude), gate(speed, altitude), "{} {} {}", op, speed, altitude);
            }
        }
    }
}
