use uuid::Uuid;
use vkawaii::events::Event;
use vkawaii::scripting::action_executor::{node_action, ActionExecutor, NodeAction};
use vkawaii::scripting::node_graph::{Connection, Node, NodeGraph, Pin};

fn new_id() -> u128 {
    Uuid::new_v4().as_u128()
}

fn pos(x: f32, y: f32) -> [u32; 2] {
    [x.to_bits(), y.to_bits()]
}

#[test]
fn test_action_executor_execution_flow() {
    let trigger_out = Pin {
        id: new_id(),
        name: "Out".to_string(),
    };
    let action_in = Pin {
        id: new_id(),
        name: "In".to_string(),
    };
    let action_out = Pin {
        id: new_id(),
        name: "Out".to_string(),
    };
    let second_action_in = Pin {
        id: new_id(),
        name: "In".to_string(),
    };

    let trigger_node = Node {
        id: new_id(),
        node_type: "HotkeyTrigger".to_string(),
        inputs: vec![],
        outputs: vec![trigger_out.clone()],
        position: pos(0.0, 0.0),
    };

    let action_node = Node {
        id: new_id(),
        node_type: "LogMessage".to_string(),
        inputs: vec![action_in.clone()],
        outputs: vec![action_out.clone()],
        position: pos(150.0, 0.0),
    };

    let second_action_node = Node {
        id: new_id(),
        node_type: "PlayAnimation".to_string(),
        inputs: vec![second_action_in.clone()],
        outputs: vec![],
        position: pos(300.0, 0.0),
    };

    let conn1 = Connection {
        id: new_id(),
        from_pin: trigger_out.id,
        to_pin: action_in.id,
    };

    let conn2 = Connection {
        id: new_id(),
        from_pin: action_out.id,
        to_pin: second_action_in.id,
    };

    let graph = NodeGraph {
        nodes: vec![
            trigger_node.clone(),
            action_node.clone(),
            second_action_node.clone(),
        ],
        connections: vec![conn1, conn2],
    };

    let mut executor = ActionExecutor::new(graph);

    // Kicking off Execution
    executor.trigger("HotkeyTrigger");
    assert_eq!(executor.execution_queue.len(), 1);
    assert_eq!(executor.execution_queue[0], trigger_node.id);

    // Update 1: Running Trigger, queuing Action 1
    executor.update();
    assert_eq!(executor.execution_queue.len(), 1);
    assert_eq!(executor.execution_queue[0], action_node.id);

    // Update 2: Running Action 1, Queuing Action 2
    executor.update();
    assert_eq!(executor.execution_queue.len(), 1);
    assert_eq!(executor.execution_queue[0], second_action_node.id);

    // Update 3: Running Action 2, queue Empty
    executor.update();
    assert!(executor.execution_queue.is_empty());
}

fn node(id: u128, kind: &str, inputs: Vec<Pin>, outputs: Vec<Pin>) -> Node {
    Node {
        id,
        node_type: kind.to_string(),
        inputs,
        outputs,
        position: pos(0.0, 0.0),
    }
}

fn pin(id: u128) -> Pin {
    Pin { id, name: "p".to_string() }
}

#[test]
fn update_returns_the_action_of_each_node() {
    let graph = NodeGraph {
        nodes: vec![
            node(1, "HotkeyTrigger", vec![], vec![pin(10)]),
            node(2, "LogMessage", vec![pin(20)], vec![pin(21)]),
            node(3, "SetBlendshape", vec![pin(30)], vec![]),
        ],
        connections: vec![
            Connection { id: 100, from_pin: 10, to_pin: 20 },
            Connection { id: 101, from_pin: 21, to_pin: 30 },
        ],
    };
    let mut ex = ActionExecutor::new(graph);
    assert_eq!(ex.update(), None);
    ex.trigger("HotkeyTrigger");
    assert_eq!(ex.update(), Some(NodeAction::HotkeyTrigger));
    assert_eq!(ex.update(), Some(NodeAction::LogMessage));
    assert_eq!(ex.update(), Some(NodeAction::SetBlendshape));
    assert_eq!(ex.update(), None);
    assert!(ex.execution_queue.is_empty());
}

#[test]
fn fan_out_queues_targets_in_connection_order() {
    let graph = NodeGraph {
        nodes: vec![
            node(1, "HotkeyTrigger", vec![], vec![pin(10), pin(11)]),
            node(2, "LogMessage", vec![pin(20)], vec![]),
            node(3, "PlayAnimation", vec![pin(30)], vec![]),
            node(4, "Custom", vec![pin(40)], vec![]),
        ],
        connections: vec![
            Connection { id: 100, from_pin: 11, to_pin: 40 },
            Connection { id: 101, from_pin: 10, to_pin: 30 },
            Connection { id: 102, from_pin: 10, to_pin: 20 },
            Connection { id: 103, from_pin: 10, to_pin: 999 },
        ],
    };
    let mut ex = ActionExecutor::new(graph);
    ex.trigger("HotkeyTrigger");
    ex.update();
    let queued: Vec<u128> = ex.execution_queue.iter().copied().collect();
    assert_eq!(queued, vec![3, 2, 4]);
    assert_eq!(ex.update(), Some(NodeAction::PlayAnimation));
    assert_eq!(ex.update(), Some(NodeAction::LogMessage));
    assert_eq!(ex.update(), Some(NodeAction::Other));
}

#[test]
fn unknown_queued_id_is_dropped() {
    let mut ex = ActionExecutor::new(NodeGraph::default());
    ex.execution_queue.push_back(77);
    assert_eq!(ex.update(), None);
    assert!(ex.execution_queue.is_empty());
}

#[test]
fn trigger_queues_every_node_of_the_type_in_order() {
    let graph = NodeGraph {
        nodes: vec![
            node(5, "HotkeyTrigger", vec![], vec![]),
            node(6, "LogMessage", vec![], vec![]),
            node(7, "HotkeyTrigger", vec![], vec![]),
        ],
        connections: vec![],
    };
    let mut ex = ActionExecutor::new(graph);
    ex.trigger("Nothing");
    assert!(ex.execution_queue.is_empty());
    ex.trigger("HotkeyTrigger");
    let queued: Vec<u128> = ex.execution_queue.iter().copied().collect();
    assert_eq!(queued, vec![5, 7]);
}

#[test]
fn pin_map_indexes_input_pins() {
    let graph = NodeGraph {
        nodes: vec![
            node(1, "A", vec![pin(10), pin(11)], vec![pin(12)]),
            node(2, "B", vec![pin(20)], vec![]),
        ],
        connections: vec![],
    };
    let ex = ActionExecutor::new(graph);
    assert_eq!(ex.pin_to_node_map.len(), 3);
    assert_eq!(ex.pin_to_node_map.get(&10), Some(&1));
    assert_eq!(ex.pin_to_node_map.get(&11), Some(&1));
    assert_eq!(ex.pin_to_node_map.get(&20), Some(&2));
    assert_eq!(ex.pin_to_node_map.get(&12), None);
}

#[test]
fn dispatch_event_triggers_on_hotkeys_only() {
    let graph = NodeGraph {
        nodes: vec![node(1, "HotkeyTrigger", vec![], vec![])],
        connections: vec![],
    };
    let mut ex = ActionExecutor::new(graph);
    ex.dispatch_event(&Event::WebSocketMessage("hi".to_string()));
    assert!(ex.execution_queue.is_empty());
    ex.dispatch_event(&Event::Hotkey(3));
    assert_eq!(ex.execution_queue.len(), 1);
    assert_eq!(ex.execution_queue[0], 1);
}

#[test]
fn node_action_by_type_name() {
    assert_eq!(node_action(&"LogMessage".to_string()), NodeAction::LogMessage);
    assert_eq!(node_action(&"PlayAnimation".to_string()), NodeAction::PlayAnimation);
    assert_eq!(node_action(&"SetBlendshape".to_string()), NodeAction::SetBlendshape);
    assert_eq!(node_action(&"HotkeyTrigger".to_string()), NodeAction::HotkeyTrigger);
    assert_eq!(node_action(&"logmessage".to_string()), NodeAction::Other);
}

#[test]
fn connect_replaces_the_feed_of_an_input() {
    let mut g = NodeGraph::default();
    g.connect(1, 10, 20);
    g.connect(2, 11, 21);
    g.connect(3, 12, 20);
    assert_eq!(
        g.connections,
        vec![
            Connection { id: 2, from_pin: 11, to_pin: 21 },
            Connection { id: 3, from_pin: 12, to_pin: 20 },
        ]
    );
}

#[test]
fn disconnect_after_connect_gives_back_the_source() {
    let mut g = NodeGraph::default();
    g.connect(1, 10, 20);
    g.connect(2, 11, 21);
    let before = g.connections.clone();
    g.connect(3, 12, 22);
    assert_eq!(g.disconnect_input(22), Some(12));
    assert_eq!(g.connections, before);
    assert_eq!(g.disconnect_input(22), None);
    assert_eq!(g.disconnect_input(20), Some(10));
    assert_eq!(g.connections, vec![Connection { id: 2, from_pin: 11, to_pin: 21 }]);
}

#[test]
fn without_connections_each_update_consumes_one_entry() {
    let graph = NodeGraph {
        nodes: vec![
            node(1, "LogMessage", vec![pin(10)], vec![pin(11)]),
            node(2, "PlayAnimation", vec![pin(20)], vec![pin(21)]),
        ],
        connections: vec![],
    };
    let mut ex = ActionExecutor::new(graph);
    ex.trigger("LogMessage");
    ex.trigger("PlayAnimation");
    ex.trigger("LogMessage");
    assert_eq!(ex.execution_queue.len(), 3);
    assert_eq!(ex.update(), Some(NodeAction::LogMessage));
    assert_eq!(ex.execution_queue.len(), 2);
    assert_eq!(ex.update(), Some(NodeAction::PlayAnimation));
    assert_eq!(ex.execution_queue.len(), 1);
    assert_eq!(ex.update(), Some(NodeAction::LogMessage));
    assert!(ex.execution_queue.is_empty());
}

#[test]
fn connect_on_free_input_appends() {
    let mut g = NodeGraph::default();
    g.connect(1, 10, 20);
    g.connect(2, 11, 21);
    assert_eq!(
        g.connections,
        vec![
            Connection { id: 1, from_pin: 10, to_pin: 20 },
            Connection { id: 2, from_pin: 11, to_pin: 21 },
        ]
    );
}

#[test]
fn edits_keep_one_feed_per_input() {
    let mut graph = NodeGraph::default();
    graph.connect(1, 10, 100);
    graph.connect(2, 11, 101);
    graph.connect(3, 12, 100);
    graph.connect(4, 13, 101);
    graph.connect(5, 14, 102);
    let mut targets: Vec<u128> = graph.connections.iter().map(|c| c.to_pin).collect();
    targets.sort();
    targets.dedup();
    assert_eq!(targets.len(), graph.connections.len());
    assert_eq!(graph.disconnect_input(101), Some(13));
    assert_eq!(graph.disconnect_input(101), None);
    let ids: Vec<u128> = graph.connections.iter().map(|c| c.id).collect();
    assert_eq!(ids, vec![3, 5]);
}
