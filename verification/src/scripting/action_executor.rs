use crate::events::Event;
use crate::scripting::node_graph::{Connection, Node, NodeGraph, Pin};
use std::collections::{HashMap, VecDeque};
use vstd::prelude::*;

verus! {

broadcast use vstd::std_specs::hash::group_hash_axioms;

/// What running a node does, decided by its type name.
#[derive(Debug, Clone, Copy, PartialEq, Eq, Structural)]
pub enum NodeAction {
    LogMessage,
    PlayAnimation,
    SetBlendshape,
    /// Triggers only pass the flow on.
    HotkeyTrigger,
    /// Any other type: nothing happens besides passing the flow on.
    Other,
}

/// The action of a node with type name `node_type`.
pub open spec fn action_of(node_type: Seq<char>) -> NodeAction {
    if node_type == "LogMessage"@ {
        NodeAction::LogMessage
    } else if node_type == "PlayAnimation"@ {
        NodeAction::PlayAnimation
    } else if node_type == "SetBlendshape"@ {
        NodeAction::SetBlendshape
    } else if node_type == "HotkeyTrigger"@ {
        NodeAction::HotkeyTrigger
    } else {
        NodeAction::Other
    }
}

/// Decides what running a node of type `node_type` does.
pub fn node_action(node_type: &String) -> (a: NodeAction)
    ensures
        a == action_of(node_type@),
{
    if *node_type == "LogMessage".to_owned() {
        NodeAction::LogMessage
    } else if *node_type == "PlayAnimation".to_owned() {
        NodeAction::PlayAnimation
    } else if *node_type == "SetBlendshape".to_owned() {
        NodeAction::SetBlendshape
    } else if *node_type == "HotkeyTrigger".to_owned() {
        NodeAction::HotkeyTrigger
    } else {
        NodeAction::Other
    }
}

/// `pins` entered into `m`, in order, each mapped to `node_id`.
pub open spec fn insert_input_pins(m: Map<u128, u128>, pins: Seq<Pin>, node_id: u128) -> Map<u128, u128>
    decreases pins.len(),
{
    if pins.len() == 0 {
        m
    } else {
        insert_input_pins(m, pins.drop_last(), node_id).insert(pins.last().id, node_id)
    }
}

/// The map from each input pin to the node that owns it, built node by node;
/// a pin listed twice belongs to the last node that lists it.
pub open spec fn input_pin_map(nodes: Seq<Node>) -> Map<u128, u128>
    decreases nodes.len(),
{
    if nodes.len() == 0 {
        Map::empty()
    } else {
        insert_input_pins(input_pin_map(nodes.drop_last()), nodes.last().inputs@, nodes.last().id)
    }
}

/// Some node of `nodes` has id `id`.
pub open spec fn has_node_with_id(nodes: Seq<Node>, id: u128) -> bool {
    exists|k: int| 0 <= k < nodes.len() && #[trigger] nodes[k].id == id
}

/// `k` is the first index of `nodes` with id `id`.
pub open spec fn is_first_with_id(nodes: Seq<Node>, id: u128, k: int) -> bool {
    &&& 0 <= k < nodes.len()
    &&& nodes[k].id == id
    &&& forall|j: int| 0 <= j < k ==> #[trigger] nodes[j].id != id
}

/// The ids of the nodes of type `node_type`, in graph order.
pub open spec fn nodes_of_type(nodes: Seq<Node>, node_type: Seq<char>) -> Seq<u128>
    decreases nodes.len(),
{
    if nodes.len() == 0 {
        Seq::empty()
    } else {
        let prev = nodes_of_type(nodes.drop_last(), node_type);
        if nodes.last().node_type@ == node_type {
            prev.push(nodes.last().id)
        } else {
            prev
        }
    }
}

/// The nodes queued through the connections of `conns` (in order) that leave
/// output pin `from`: each one whose input pin belongs to a node present in
/// the graph.
pub open spec fn connection_targets(
    nodes: Seq<Node>,
    pin_map: Map<u128, u128>,
    conns: Seq<Connection>,
    from: u128,
) -> Seq<u128>
    decreases conns.len(),
{
    if conns.len() == 0 {
        Seq::empty()
    } else {
        let prev = connection_targets(nodes, pin_map, conns.drop_last(), from);
        let c = conns.last();
        if c.from_pin == from && pin_map.contains_key(c.to_pin) && has_node_with_id(nodes, pin_map[c.to_pin]) {
            prev.push(pin_map[c.to_pin])
        } else {
            prev
        }
    }
}

/// The nodes queued after running a node with output pins `outs`:
/// output by output, the targets of its connections.
pub open spec fn output_targets(
    nodes: Seq<Node>,
    pin_map: Map<u128, u128>,
    conns: Seq<Connection>,
    outs: Seq<Pin>,
) -> Seq<u128>
    decreases outs.len(),
{
    if outs.len() == 0 {
        Seq::empty()
    } else {
        output_targets(nodes, pin_map, conns, outs.drop_last()) + connection_targets(
            nodes,
            pin_map,
            conns,
            outs.last().id,
        )
    }
}

/// Runs node graphs without blocking: one node per `update`.
pub struct ActionExecutor {
    pub graph: NodeGraph,
    /// Ids of the nodes waiting to run, oldest first.
    pub execution_queue: VecDeque<u128>,
    /// Input pin id to the id of the node that owns it, built by `new`.
    pub pin_to_node_map: HashMap<u128, u128>,
}

/// Index of the first node with id `id`, if any.
fn find_node_index(nodes: &Vec<Node>, id: u128) -> (r: Option<usize>)
    ensures
        match r {
            Some(k) => is_first_with_id(nodes@, id, k as int),
            None => !has_node_with_id(nodes@, id),
        },
{
    let n = nodes.len();
    let mut i: usize = 0;
    while i < n
        invariant
            n == nodes.len(),
            i <= n,
            forall|j: int| 0 <= j < i ==> #[trigger] nodes@[j].id != id,
        decreases n - i,
    {
        if nodes[i].id == id {
            return Some(i);
        }
        i += 1;
    }
    None
}

impl ActionExecutor {
    /// Takes ownership of a graph and indexes the input pins of its nodes.
    pub fn new(graph: NodeGraph) -> (ex: Self)
        ensures
            ex.graph == graph,
            ex.execution_queue@ == Seq::<u128>::empty(),
            ex.pin_to_node_map@ == input_pin_map(graph.nodes@),
    {
        let mut pin_to_node_map: HashMap<u128, u128> = HashMap::new();
        let n = graph.nodes.len();
        let mut i: usize = 0;
        while i < n
            invariant
                n == graph.nodes.len(),
                i <= n,
                pin_to_node_map@ == input_pin_map(graph.nodes@.take(i as int)),
            decreases n - i,
        {
            let node = &graph.nodes[i];
            let ghost base = input_pin_map(graph.nodes@.take(i as int));
            let m = node.inputs.len();
            let mut j: usize = 0;
            while j < m
                invariant
                    n == graph.nodes.len(),
                    i < n,
                    node == &graph.nodes@[i as int],
                    m == node.inputs.len(),
                    j <= m,
                    base == input_pin_map(graph.nodes@.take(i as int)),
                    pin_to_node_map@ == insert_input_pins(base, node.inputs@.take(j as int), node.id),
                decreases m - j,
            {
                assert(node.inputs@.take(j as int + 1).drop_last() =~= node.inputs@.take(j as int));
                pin_to_node_map.insert(node.inputs[j].id, node.id);
                j += 1;
            }
            assert(node.inputs@.take(m as int) =~= node.inputs@);
            assert(graph.nodes@.take(i as int + 1).drop_last() =~= graph.nodes@.take(i as int));
            i += 1;
        }
        assert(graph.nodes@.take(n as int) =~= graph.nodes@);
        ActionExecutor { graph, execution_queue: VecDeque::new(), pin_to_node_map }
    }

    /// Starts execution from every node of type `trigger_type`: their ids are
    /// queued in graph order.
    pub fn trigger(&mut self, trigger_type: &str)
        ensures
            final(self).graph == old(self).graph,
            final(self).pin_to_node_map == old(self).pin_to_node_map,
            final(self).execution_queue@ == old(self).execution_queue@ + nodes_of_type(
                old(self).graph.nodes@,
                trigger_type@,
            ),
    {
        let wanted = trigger_type.to_owned();
        let ghost q0 = self.execution_queue@;
        let n = self.graph.nodes.len();
        let mut i: usize = 0;
        while i < n
            invariant
                n == self.graph.nodes.len(),
                i <= n,
                self.graph == old(self).graph,
                self.pin_to_node_map == old(self).pin_to_node_map,
                wanted@ == trigger_type@,
                q0 == old(self).execution_queue@,
                self.execution_queue@ == q0 + nodes_of_type(self.graph.nodes@.take(i as int), trigger_type@),
            decreases n - i,
        {
            assert(self.graph.nodes@.take(i as int + 1).drop_last() =~= self.graph.nodes@.take(i as int));
            if self.graph.nodes[i].node_type == wanted {
                let id = self.graph.nodes[i].id;
                self.execution_queue.push_back(id);
            }
            i += 1;
        }
        assert(self.graph.nodes@.take(n as int) =~= self.graph.nodes@);
    }

    /// The main loop's reaction to an event: a hotkey starts execution from
    /// the `HotkeyTrigger` nodes; other events leave the executor alone.
    pub fn dispatch_event(&mut self, event: &Event)
        ensures
            final(self).graph == old(self).graph,
            final(self).pin_to_node_map == old(self).pin_to_node_map,
            event is Hotkey ==> final(self).execution_queue@ == old(self).execution_queue@ + nodes_of_type(
                old(self).graph.nodes@,
                "HotkeyTrigger"@,
            ),
            !(event is Hotkey) ==> final(self).execution_queue@ == old(self).execution_queue@,
    {
        match event {
            Event::Hotkey(_) => self.trigger("HotkeyTrigger"),
            _ => {},
        }
    }

    /// The node that owns input pin `pin_id`, if the pin is indexed and a node
    /// with the indexed id is in the graph (the first such node).
    fn find_node_by_input_pin(&self, pin_id: u128) -> (r: Option<usize>)
        ensures
            match r {
                Some(k) => self.pin_to_node_map@.contains_key(pin_id) && is_first_with_id(
                    self.graph.nodes@,
                    self.pin_to_node_map@[pin_id],
                    k as int,
                ),
                None => !(self.pin_to_node_map@.contains_key(pin_id) && has_node_with_id(
                    self.graph.nodes@,
                    self.pin_to_node_map@[pin_id],
                )),
            },
    {
        match self.pin_to_node_map.get(&pin_id) {
            Some(node_id) => find_node_index(&self.graph.nodes, *node_id),
            None => None,
        }
    }

    /// Runs node `k`: decides its action and queues the nodes hooked into its outputs.
    fn execute_node(&mut self, k: usize) -> (action: NodeAction)
        requires
            k < old(self).graph.nodes.len(),
        ensures
            final(self).graph == old(self).graph,
            final(self).pin_to_node_map == old(self).pin_to_node_map,
            action == action_of(old(self).graph.nodes@[k as int].node_type@),
            final(self).execution_queue@ == old(self).execution_queue@ + output_targets(
                old(self).graph.nodes@,
                old(self).pin_to_node_map@,
                old(self).graph.connections@,
                old(self).graph.nodes@[k as int].outputs@,
            ),
    {
        let action = node_action(&self.graph.nodes[k].node_type);
        let ghost q0 = self.execution_queue@;
        let ghost nodes = self.graph.nodes@;
        let ghost map = self.pin_to_node_map@;
        let ghost conns = self.graph.connections@;
        let ghost outs = self.graph.nodes@[k as int].outputs@;
        let n_out = self.graph.nodes[k].outputs.len();
        let n_conn = self.graph.connections.len();
        let mut o: usize = 0;
        while o < n_out
            invariant
                k < self.graph.nodes.len(),
                self.graph == old(self).graph,
                self.pin_to_node_map == old(self).pin_to_node_map,
                nodes == self.graph.nodes@,
                map == self.pin_to_node_map@,
                conns == self.graph.connections@,
                outs == self.graph.nodes@[k as int].outputs@,
                n_out == outs.len(),
                n_conn == conns.len(),
                o <= n_out,
                q0 == old(self).execution_queue@,
                self.execution_queue@ == q0 + output_targets(nodes, map, conns, outs.take(o as int)),
            decreases n_out - o,
        {
            let out_id = self.graph.nodes[k].outputs[o].id;
            let ghost q1 = self.execution_queue@;
            let mut c: usize = 0;
            while c < n_conn
                invariant
                    k < self.graph.nodes.len(),
                    self.graph == old(self).graph,
                    self.pin_to_node_map == old(self).pin_to_node_map,
                    nodes == self.graph.nodes@,
                    map == self.pin_to_node_map@,
                    conns == self.graph.connections@,
                    n_conn == conns.len(),
                    c <= n_conn,
                    self.execution_queue@ == q1 + connection_targets(nodes, map, conns.take(c as int), out_id),
                decreases n_conn - c,
            {
                assert(conns.take(c as int + 1).drop_last() =~= conns.take(c as int));
                let from_pin = self.graph.connections[c].from_pin;
                let to_pin = self.graph.connections[c].to_pin;
                if from_pin == out_id {
                    if let Some(t) = self.find_node_by_input_pin(to_pin) {
                        let target_id = self.graph.nodes[t].id;
                        let ghost before = self.execution_queue@;
                        self.execution_queue.push_back(target_id);
                        assert(before.push(target_id) =~= q1 + connection_targets(nodes, map, conns.take(c as int), out_id).push(target_id));
                    }
                }
                c += 1;
            }
            assert(conns.take(n_conn as int) =~= conns);
            assert(outs.take(o as int + 1).drop_last() =~= outs.take(o as int));
            assert(q0 + output_targets(nodes, map, conns, outs.take(o as int + 1)) =~=
                q0 + output_targets(nodes, map, conns, outs.take(o as int)) + connection_targets(nodes, map, conns, out_id));
            o += 1;
        }
        assert(outs.take(n_out as int) =~= outs);
        action
    }

    /// Advances execution by one node: the oldest queued id is taken off the
    /// queue; if a node with that id is in the graph (the first such node), it
    /// runs, its action is returned, and the nodes hooked into its outputs are
    /// queued behind the rest.
    pub fn update(&mut self) -> (r: Option<NodeAction>)
        ensures
            final(self).graph == old(self).graph,
            final(self).pin_to_node_map == old(self).pin_to_node_map,
            old(self).execution_queue@.len() == 0 ==> r is None && final(self).execution_queue@
                == old(self).execution_queue@,
            old(self).execution_queue@.len() > 0 ==> {
                let id = old(self).execution_queue@[0];
                let rest = old(self).execution_queue@.subrange(1, old(self).execution_queue@.len() as int);
                let nodes = old(self).graph.nodes@;
                &&& !has_node_with_id(nodes, id) ==> r is None && final(self).execution_queue@ == rest
                &&& forall|k: int| is_first_with_id(nodes, id, k) ==> {
                    &&& r == Some(action_of(nodes[k].node_type@))
                    &&& final(self).execution_queue@ == rest + output_targets(
                        nodes,
                        old(self).pin_to_node_map@,
                        old(self).graph.connections@,
                        nodes[k].outputs@,
                    )
                }
            },
    {
        match self.execution_queue.pop_front() {
            Some(node_id) => {
                match find_node_index(&self.graph.nodes, node_id) {
                    Some(k) => {
                        let action = self.execute_node(k);
                        proof {
                            assert forall|k2: int| is_first_with_id(old(self).graph.nodes@, node_id, k2) implies k2 == k by {
                                if k2 < k {
                                    assert(old(self).graph.nodes@[k2].id != node_id);
                                } else if k2 > k {
                                    assert(old(self).graph.nodes@[k as int].id != node_id);
                                }
                            }
                        }
                        Some(action)
                    },
                    None => None,
                }
            },
            None => None,
        }
    }
}

} // verus!

verus! {

/// No two input pins of the graph (over all nodes) share an id.
pub open spec fn input_pins_distinct(nodes: Seq<Node>) -> bool {
    forall|k1: int, j1: int, k2: int, j2: int|
        0 <= k1 < nodes.len() && 0 <= k2 < nodes.len() && 0 <= j1 < nodes[k1].inputs@.len() && 0 <= j2
            < nodes[k2].inputs@.len() && (k1 != k2 || j1 != j2) ==> #[trigger] nodes[k1].inputs@[j1].id
            != #[trigger] nodes[k2].inputs@[j2].id
}

/// Entering pins into a map: a listed pin maps to the node; others keep their entry.
pub proof fn lemma_insert_input_pins(m: Map<u128, u128>, pins: Seq<Pin>, node_id: u128, p: u128)
    ensures
        (exists|j: int| 0 <= j < pins.len() && #[trigger] pins[j].id == p) ==> insert_input_pins(
            m,
            pins,
            node_id,
        ).contains_key(p) && insert_input_pins(m, pins, node_id)[p] == node_id,
        !(exists|j: int| 0 <= j < pins.len() && #[trigger] pins[j].id == p) ==> (insert_input_pins(
            m,
            pins,
            node_id,
        ).contains_key(p) == m.contains_key(p) && (m.contains_key(p) ==> insert_input_pins(m, pins, node_id)[p]
            == m[p])),
    decreases pins.len(),
{
    if pins.len() > 0 {
        lemma_insert_input_pins(m, pins.drop_last(), node_id, p);
        if exists|j: int| 0 <= j < pins.len() && #[trigger] pins[j].id == p {
            let j = choose|j: int| 0 <= j < pins.len() && #[trigger] pins[j].id == p;
            if j < pins.len() - 1 {
                assert(pins.drop_last()[j].id == p);
            }
        } else {
            assert forall|j: int| 0 <= j < pins.drop_last().len() implies #[trigger] pins.drop_last()[j].id != p by {
                assert(pins.drop_last()[j] == pins[j]);
            }
        }
    }
}

/// Law: when no two input pins share an id, the executor's pin index maps
/// every input pin to the node that owns it.
pub proof fn law_pin_map_finds_owner(nodes: Seq<Node>, k: int, j: int)
    requires
        input_pins_distinct(nodes),
        0 <= k < nodes.len(),
        0 <= j < nodes[k].inputs@.len(),
    ensures
        input_pin_map(nodes).contains_key(nodes[k].inputs@[j].id),
        input_pin_map(nodes)[nodes[k].inputs@[j].id] == nodes[k].id,
    decreases nodes.len(),
{
    let p = nodes[k].inputs@[j].id;
    let last = nodes.last();
    let prefix = nodes.drop_last();
    lemma_insert_input_pins(input_pin_map(prefix), last.inputs@, last.id, p);
    if k == nodes.len() - 1 {
        assert(last.inputs@[j].id == p);
    } else {
        assert(input_pins_distinct(prefix)) by {
            assert forall|k1: int, j1: int, k2: int, j2: int|
                0 <= k1 < prefix.len() && 0 <= k2 < prefix.len() && 0 <= j1 < prefix[k1].inputs@.len() && 0 <= j2
                    < prefix[k2].inputs@.len() && (k1 != k2 || j1 != j2) implies #[trigger] prefix[k1].inputs@[j1].id
                != #[trigger] prefix[k2].inputs@[j2].id by {
                assert(prefix[k1] == nodes[k1]);
                assert(prefix[k2] == nodes[k2]);
                assert(nodes[k1].inputs@[j1].id != nodes[k2].inputs@[j2].id);
            }
        }
        assert(prefix[k] == nodes[k]);
        law_pin_map_finds_owner(prefix, k, j);
        assert forall|j2: int| 0 <= j2 < last.inputs@.len() implies #[trigger] last.inputs@[j2].id != p by {
            assert(nodes[nodes.len() - 1].inputs@[j2].id != nodes[k].inputs@[j].id);
        }
    }
}

/// A connection from `from` to a pin that the index maps to a present node
/// queues that node.
pub proof fn lemma_connection_targets_contains(
    nodes: Seq<Node>,
    pin_map: Map<u128, u128>,
    conns: Seq<Connection>,
    from: u128,
    c: int,
)
    requires
        0 <= c < conns.len(),
        conns[c].from_pin == from,
        pin_map.contains_key(conns[c].to_pin),
        has_node_with_id(nodes, pin_map[conns[c].to_pin]),
    ensures
        connection_targets(nodes, pin_map, conns, from).contains(pin_map[conns[c].to_pin]),
    decreases conns.len(),
{
    let prefix = conns.drop_last();
    if c < conns.len() - 1 {
        assert(prefix[c] == conns[c]);
        lemma_connection_targets_contains(nodes, pin_map, prefix, from, c);
        let t = connection_targets(nodes, pin_map, prefix, from);
        let i = choose|i: int| 0 <= i < t.len() && t[i] == pin_map[conns[c].to_pin];
        let whole = connection_targets(nodes, pin_map, conns, from);
        assert(whole[i] == t[i]);
    } else {
        let whole = connection_targets(nodes, pin_map, conns, from);
        assert(whole[whole.len() - 1] == pin_map[conns[c].to_pin]);
    }
}

/// The nodes queued through one output appear among those queued through all outputs.
pub proof fn lemma_output_targets_contains(
    nodes: Seq<Node>,
    pin_map: Map<u128, u128>,
    conns: Seq<Connection>,
    outs: Seq<Pin>,
    o: int,
    id: u128,
)
    requires
        0 <= o < outs.len(),
        connection_targets(nodes, pin_map, conns, outs[o].id).contains(id),
    ensures
        output_targets(nodes, pin_map, conns, outs).contains(id),
    decreases outs.len(),
{
    let prefix = outs.drop_last();
    let whole = output_targets(nodes, pin_map, conns, outs);
    let head = output_targets(nodes, pin_map, conns, prefix);
    let tail = connection_targets(nodes, pin_map, conns, outs.last().id);
    assert(whole == head + tail);
    if o < outs.len() - 1 {
        assert(prefix[o] == outs[o]);
        lemma_output_targets_contains(nodes, pin_map, conns, prefix, o, id);
        let i = choose|i: int| 0 <= i < head.len() && head[i] == id;
        assert(whole[i] == head[i]);
    } else {
        let i = choose|i: int| 0 <= i < tail.len() && tail[i] == id;
        assert(whole[head.len() + i] == tail[i]);
    }
}

/// Law: execution flows along connections. When no two input pins share an
/// id, running a node queues every node that one of its output pins is
/// connected to.
pub proof fn law_execution_follows_connections(nodes: Seq<Node>, conns: Seq<Connection>, a: int, o: int, c: int, b: int, j: int)
    requires
        input_pins_distinct(nodes),
        0 <= a < nodes.len(),
        0 <= o < nodes[a].outputs@.len(),
        0 <= b < nodes.len(),
        0 <= j < nodes[b].inputs@.len(),
        0 <= c < conns.len(),
        conns[c].from_pin == nodes[a].outputs@[o].id,
        conns[c].to_pin == nodes[b].inputs@[j].id,
    ensures
        output_targets(nodes, input_pin_map(nodes), conns, nodes[a].outputs@).contains(nodes[b].id),
{
    let pin_map = input_pin_map(nodes);
    law_pin_map_finds_owner(nodes, b, j);
    assert(has_node_with_id(nodes, pin_map[conns[c].to_pin])) by {
        assert(nodes[b].id == pin_map[conns[c].to_pin]);
    }
    lemma_connection_targets_contains(nodes, pin_map, conns, nodes[a].outputs@[o].id, c);
    lemma_output_targets_contains(nodes, pin_map, conns, nodes[a].outputs@, o, nodes[b].id);
}

/// Law: without connections, running a node queues nothing, so each
/// `update` only shortens the queue by one.
pub proof fn law_no_connections_queue_nothing(nodes: Seq<Node>, pin_map: Map<u128, u128>, outs: Seq<Pin>)
    ensures
        output_targets(nodes, pin_map, Seq::empty(), outs) == Seq::<u128>::empty(),
    decreases outs.len(),
{
    if outs.len() > 0 {
        law_no_connections_queue_nothing(nodes, pin_map, outs.drop_last());
        assert(output_targets(nodes, pin_map, Seq::empty(), outs) =~= Seq::<u128>::empty());
    }
}

} // verus!
