use vstd::prelude::*;

verus! {

/// A pin on a node. Ids are the 128-bit values of UUIDs.
#[derive(Debug, Clone, PartialEq)]
pub struct Pin {
    pub id: u128,
    pub name: String,
}

/// A node of the graph. `position` holds the IEEE-754 bit patterns of the two
/// single-precision editor coordinates; the executor never reads it.
#[derive(Debug, Clone, PartialEq)]
pub struct Node {
    pub id: u128,
    pub node_type: String,
    pub inputs: Vec<Pin>,
    pub outputs: Vec<Pin>,
    pub position: [u32; 2],
}

/// A link from an output pin to an input pin.
#[derive(Debug, Clone, Copy, PartialEq, Eq, Structural)]
pub struct Connection {
    pub id: u128,
    pub from_pin: u128,
    pub to_pin: u128,
}

/// The whole node graph.
#[derive(Debug, Clone, PartialEq)]
pub struct NodeGraph {
    pub nodes: Vec<Node>,
    pub connections: Vec<Connection>,
}

impl Default for NodeGraph {
    fn default() -> (g: Self)
        ensures
            g.nodes@.len() == 0,
            g.connections@.len() == 0,
    {
        NodeGraph { nodes: Vec::new(), connections: Vec::new() }
    }
}

/// The connections of `conns` that do not end at input pin `to_pin`, in order.
pub open spec fn connections_not_into(conns: Seq<Connection>, to_pin: u128) -> Seq<Connection>
    decreases conns.len(),
{
    if conns.len() == 0 {
        Seq::empty()
    } else {
        let prev = connections_not_into(conns.drop_last(), to_pin);
        if conns.last().to_pin == to_pin {
            prev
        } else {
            prev.push(conns.last())
        }
    }
}

/// `k` is the first index of `conns` whose connection ends at `to_pin`.
pub open spec fn is_first_into(conns: Seq<Connection>, to_pin: u128, k: int) -> bool {
    &&& 0 <= k < conns.len()
    &&& conns[k].to_pin == to_pin
    &&& forall|j: int| 0 <= j < k ==> #[trigger] conns[j].to_pin != to_pin
}

/// No connection of `conns` ends at `to_pin`.
pub open spec fn nothing_into(conns: Seq<Connection>, to_pin: u128) -> bool {
    forall|j: int| 0 <= j < conns.len() ==> #[trigger] conns[j].to_pin != to_pin
}

/// What is left after dropping the connections into `to_pin` holds none of them.
pub proof fn lemma_connections_not_into_has_none(conns: Seq<Connection>, to_pin: u128)
    ensures
        nothing_into(connections_not_into(conns, to_pin), to_pin),
        connections_not_into(conns, to_pin).len() <= conns.len(),
    decreases conns.len(),
{
    if conns.len() > 0 {
        lemma_connections_not_into_has_none(conns.drop_last(), to_pin);
    }
}

/// Law: connecting an input pin that nothing feeds yet only appends the new
/// connection; every existing connection stays, in order.
pub proof fn law_connect_free_input_appends(conns: Seq<Connection>, id: u128, from_pin: u128, to_pin: u128)
    requires
        nothing_into(conns, to_pin),
    ensures
        connections_not_into(conns, to_pin).push(Connection { id, from_pin, to_pin }) == conns.push(
            Connection { id, from_pin, to_pin },
        ),
{
    lemma_connections_not_into_keeps_clean(conns, to_pin);
}

/// With nothing into `to_pin`, dropping the connections into it changes nothing.
proof fn lemma_connections_not_into_keeps_clean(conns: Seq<Connection>, to_pin: u128)
    requires
        nothing_into(conns, to_pin),
    ensures
        connections_not_into(conns, to_pin) == conns,
    decreases conns.len(),
{
    if conns.len() > 0 {
        assert(nothing_into(conns.drop_last(), to_pin)) by {
            assert forall|j: int| 0 <= j < conns.drop_last().len() implies
                #[trigger] conns.drop_last()[j].to_pin != to_pin by {
                assert(conns.drop_last()[j] == conns[j]);
            }
        }
        lemma_connections_not_into_keeps_clean(conns.drop_last(), to_pin);
        assert(conns[conns.len() - 1].to_pin != to_pin);
        assert(conns.drop_last().push(conns.last()) =~= conns);
    }
}

impl NodeGraph {
    /// Detaches the connection that feeds input pin `to_pin`, as the node
    /// editor does when a drag starts on a connected input: the first such
    /// connection is removed and the output pin it came from is returned.
    pub fn disconnect_input(&mut self, to_pin: u128) -> (from: Option<u128>)
        ensures
            final(self).nodes == old(self).nodes,
            match from {
                Some(f) => (exists|k: int|
                    is_first_into(old(self).connections@, to_pin, k)
                    && f == old(self).connections@[k].from_pin
                    && final(self).connections@ == old(self).connections@.remove(k)),
                None => nothing_into(old(self).connections@, to_pin)
                    && final(self).connections@ == old(self).connections@,
            },
    {
        let n = self.connections.len();
        let mut i: usize = 0;
        while i < n
            invariant
                n == self.connections.len(),
                i <= n,
                self.nodes == old(self).nodes,
                self.connections@ == old(self).connections@,
                forall|j: int| 0 <= j < i ==> #[trigger] self.connections@[j].to_pin != to_pin,
            decreases n - i,
        {
            if self.connections[i].to_pin == to_pin {
                let conn = self.connections.remove(i);
                assert(is_first_into(old(self).connections@, to_pin, i as int));
                return Some(conn.from_pin);
            }
            i += 1;
        }
        None
    }

    /// Links output pin `from_pin` to input pin `to_pin`, as the node editor
    /// does when a drag is dropped on an input: any connection already into
    /// `to_pin` is dropped first, so an input is fed by at most one output.
    pub fn connect(&mut self, id: u128, from_pin: u128, to_pin: u128)
        ensures
            final(self).nodes == old(self).nodes,
            final(self).connections@ == connections_not_into(old(self).connections@, to_pin).push(
                Connection { id, from_pin, to_pin },
            ),
    {
        let ghost old_conns = self.connections@;
        let mut kept: Vec<Connection> = Vec::new();
        let n = self.connections.len();
        let mut i: usize = 0;
        while i < n
            invariant
                n == self.connections.len(),
                self.connections@ == old_conns,
                i <= n,
                kept@ == connections_not_into(old_conns.take(i as int), to_pin),
            decreases n - i,
        {
            let c = self.connections[i];
            assert(old_conns.take(i as int + 1).drop_last() =~= old_conns.take(i as int));
            if c.to_pin != to_pin {
                kept.push(c);
            }
            i += 1;
        }
        assert(old_conns.take(n as int) =~= old_conns);
        kept.push(Connection { id, from_pin, to_pin });
        self.connections = kept;
    }
}

/// Law: after `connect(id, from, to)`, the input pin `to` is fed by exactly one
/// connection, the new one, and it is the last in the list.
pub proof fn law_connect_feeds_input_once(old_conns: Seq<Connection>, id: u128, from_pin: u128, to_pin: u128)
    ensures
        ({
            let conns = connections_not_into(old_conns, to_pin).push(Connection { id, from_pin, to_pin });
            &&& conns.last() == Connection { id, from_pin, to_pin }
            &&& forall|j: int| 0 <= j < conns.len() - 1 ==> #[trigger] conns[j].to_pin != to_pin
            &&& is_first_into(conns, to_pin, conns.len() - 1)
        }),
{
    lemma_connections_not_into_has_none(old_conns, to_pin);
    let kept = connections_not_into(old_conns, to_pin);
    let conns = kept.push(Connection { id, from_pin, to_pin });
    assert forall|j: int| 0 <= j < conns.len() - 1 implies #[trigger] conns[j].to_pin != to_pin by {
        assert(conns[j] == kept[j]);
    }
}

/// Law: detaching the input that `connect` has just fed gives back the output
/// pin it was fed from, and leaves exactly the connections that did not end at
/// that input before the `connect`.
pub proof fn law_disconnect_undoes_connect(
    old_conns: Seq<Connection>,
    id: u128,
    from_pin: u128,
    to_pin: u128,
    after_conns: Seq<Connection>,
    k: int,
)
    requires
        is_first_into(connections_not_into(old_conns, to_pin).push(Connection { id, from_pin, to_pin }), to_pin, k),
        after_conns == connections_not_into(old_conns, to_pin).push(Connection { id, from_pin, to_pin }).remove(k),
    ensures
        connections_not_into(old_conns, to_pin).push(Connection { id, from_pin, to_pin })[k].from_pin == from_pin,
        after_conns == connections_not_into(old_conns, to_pin),
{
    law_connect_feeds_input_once(old_conns, id, from_pin, to_pin);
    let kept = connections_not_into(old_conns, to_pin);
    let conns = kept.push(Connection { id, from_pin, to_pin });
    assert(k == conns.len() - 1);
    assert(conns.remove(k) =~= kept);
}

/// Every input pin is fed by at most one connection of `conns`.
pub open spec fn one_feed_per_input(conns: Seq<Connection>) -> bool {
    forall|i: int, j: int| 0 <= i < j < conns.len() ==> #[trigger] conns[i].to_pin != #[trigger] conns[j].to_pin
}

proof fn lemma_connections_not_into_from(conns: Seq<Connection>, to_pin: u128)
    ensures
        forall|k: int|
            0 <= k < connections_not_into(conns, to_pin).len() ==> {
                &&& conns.contains(#[trigger] connections_not_into(conns, to_pin)[k])
                &&& connections_not_into(conns, to_pin)[k].to_pin != to_pin
            },
    decreases conns.len(),
{
    if conns.len() > 0 {
        lemma_connections_not_into_from(conns.drop_last(), to_pin);
        let prev = connections_not_into(conns.drop_last(), to_pin);
        let all = connections_not_into(conns, to_pin);
        assert forall|k: int| 0 <= k < all.len() implies {
            &&& conns.contains(#[trigger] all[k])
            &&& all[k].to_pin != to_pin
        } by {
            if k < prev.len() {
                assert(all[k] == prev[k]);
                let j = choose|j: int| 0 <= j < conns.drop_last().len() && conns.drop_last()[j] == prev[k];
                assert(conns[j] == prev[k]);
            } else {
                assert(all[k] == conns[conns.len() - 1]);
            }
        }
    }
}

proof fn lemma_connections_not_into_one_feed(conns: Seq<Connection>, to_pin: u128)
    requires
        one_feed_per_input(conns),
    ensures
        one_feed_per_input(connections_not_into(conns, to_pin)),
    decreases conns.len(),
{
    if conns.len() > 0 {
        let rest = conns.drop_last();
        assert(one_feed_per_input(rest)) by {
            assert forall|i: int, j: int| 0 <= i < j < rest.len() implies #[trigger] rest[i].to_pin
                != #[trigger] rest[j].to_pin by {
                assert(rest[i] == conns[i] && rest[j] == conns[j]);
            }
        }
        lemma_connections_not_into_one_feed(rest, to_pin);
        lemma_connections_not_into_from(rest, to_pin);
        let prev = connections_not_into(rest, to_pin);
        let all = connections_not_into(conns, to_pin);
        let last = conns[conns.len() - 1];
        if last.to_pin != to_pin {
            assert forall|i: int, j: int| 0 <= i < j < all.len() implies #[trigger] all[i].to_pin
                != #[trigger] all[j].to_pin by {
                if j < prev.len() {
                    assert(all[i] == prev[i] && all[j] == prev[j]);
                } else {
                    assert(all[i] == prev[i]);
                    assert(all[j] == last);
                    assert(rest.contains(prev[i]));
                    let m = choose|m: int| 0 <= m < rest.len() && rest[m] == prev[i];
                    assert(conns[m] == rest[m]);
                    assert(conns[m].to_pin != conns[conns.len() - 1].to_pin);
                }
            }
        }
    }
}

/// Law: the editor's two edits keep every input pin fed by at most one
/// connection: `connect` drops what fed the input before linking it, and
/// `disconnect_input` only removes a connection.
pub proof fn law_edits_keep_one_feed_per_input(
    conns: Seq<Connection>,
    id: u128,
    from_pin: u128,
    to_pin: u128,
    k: int,
)
    requires
        one_feed_per_input(conns),
    ensures
        one_feed_per_input(connections_not_into(conns, to_pin).push(Connection { id, from_pin, to_pin })),
        0 <= k < conns.len() ==> one_feed_per_input(conns.remove(k)),
{
    lemma_connections_not_into_one_feed(conns, to_pin);
    lemma_connections_not_into_from(conns, to_pin);
    let kept = connections_not_into(conns, to_pin);
    let linked = kept.push(Connection { id, from_pin, to_pin });
    assert forall|i: int, j: int| 0 <= i < j < linked.len() implies #[trigger] linked[i].to_pin
        != #[trigger] linked[j].to_pin by {
        assert(linked[i] == kept[i]);
        if j < kept.len() {
            assert(linked[j] == kept[j]);
        }
    }
    if 0 <= k < conns.len() {
        let removed = conns.remove(k);
        assert forall|i: int, j: int| 0 <= i < j < removed.len() implies #[trigger] removed[i].to_pin
            != #[trigger] removed[j].to_pin by {
            let ii = if i < k { i } else { i + 1 };
            let jj = if j < k { j } else { j + 1 };
            assert(removed[i] == conns[ii]);
            assert(removed[j] == conns[jj]);
        }
    }
}

} // verus!
