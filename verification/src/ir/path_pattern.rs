//! Path patterns of a `MATCH` clause.
use vstd::prelude::*;

use crate::catalog::IrToken;
use crate::plan::expr::{Expr, VariableName};

verus! {

#[derive(Debug, Clone, Copy, PartialEq, Eq, Structural)]
pub enum RelDirection {
    Left,
    Right,
    Both,
}

/// A relationship between two node variables, possibly of variable length.
pub struct RelPattern {
    pub variable: VariableName,
    pub left: VariableName,
    pub right: VariableName,
    pub types: Vec<IrToken>,
    pub direction: RelDirection,
    pub min_hops: u64,
    pub max_hops: Option<u64>,
}

/// A parenthesized pattern repeated between two node variables.
pub struct QuantifiedPattern {
    pub left: VariableName,
    pub right: VariableName,
    pub min_repeat: u64,
    pub max_repeat: Option<u64>,
}

/// One step of a chain pattern.
pub enum NodeConnection {
    RelPattern(RelPattern),
    Quantified(QuantifiedPattern),
}

pub open spec fn connection_left(c: NodeConnection) -> VariableName {
    match c {
        NodeConnection::RelPattern(r) => r.left,
        NodeConnection::Quantified(q) => q.left,
    }
}

pub open spec fn connection_right(c: NodeConnection) -> VariableName {
    match c {
        NodeConnection::RelPattern(r) => r.right,
        NodeConnection::Quantified(q) => q.right,
    }
}

/// The two endpoint node variables of each connection, in order.
pub open spec fn endpoints(conns: Seq<NodeConnection>) -> Seq<VariableName>
    decreases conns.len(),
{
    if conns.len() == 0 {
        Seq::empty()
    } else {
        endpoints(conns.drop_last()).push(connection_left(conns.last())).push(connection_right(conns.last()))
    }
}

pub proof fn lemma_endpoints(conns: Seq<NodeConnection>)
    ensures
        endpoints(conns).len() == 2 * conns.len(),
        forall|k: int|
            0 <= k < conns.len() ==> endpoints(conns)[2 * k] == connection_left(#[trigger] conns[k])
                && endpoints(conns)[2 * k + 1] == connection_right(conns[k]),
    decreases conns.len(),
{
    if conns.len() > 0 {
        lemma_endpoints(conns.drop_last());
        assert forall|k: int| 0 <= k < conns.len() implies endpoints(conns)[2 * k] == connection_left(
            #[trigger] conns[k],
        ) && endpoints(conns)[2 * k + 1] == connection_right(conns[k]) by {
            if k < conns.len() - 1 {
                assert(conns.drop_last()[k] == conns[k]);
            }
        }
    }
}

impl NodeConnection {
    pub fn endpoint_nodes(&self) -> (r: (&VariableName, &VariableName))
        ensures
            *r.0 == connection_left(*self),
            *r.1 == connection_right(*self),
    {
        match self {
            NodeConnection::RelPattern(r) => (&r.left, &r.right),
            NodeConnection::Quantified(q) => (&q.left, &q.right),
        }
    }
}

/// A path pattern of length 0: a single node.
pub struct SingleNode {
    pub variable: VariableName,
}

/// A path pattern of length 1 or more made of node connections.
pub struct ChainPattern {
    pub connections: Vec<NodeConnection>,
}

impl ChainPattern {
    /// The endpoint node variables of the connections, two per connection, in order.
    pub fn endpoint_nodes(&self) -> (r: Vec<&VariableName>)
        ensures
            r@.len() == endpoints(self.connections@).len(),
            forall|i: int| 0 <= i < r@.len() ==> *(#[trigger] r@[i]) == endpoints(self.connections@)[i],
    {
        proof {
            lemma_endpoints(self.connections@);
        }
        let mut nodes: Vec<&VariableName> = Vec::new();
        let mut i: usize = 0;
        while i < self.connections.len()
            invariant
                i <= self.connections.len(),
                nodes@.len() == 2 * i,
                endpoints(self.connections@).len() == 2 * self.connections.len(),
                forall|k: int|
                    0 <= k < self.connections.len() ==> endpoints(self.connections@)[2 * k] == connection_left(
                        #[trigger] self.connections@[k],
                    ) && endpoints(self.connections@)[2 * k + 1] == connection_right(self.connections@[k]),
                forall|j: int| 0 <= j < nodes@.len() ==> *(#[trigger] nodes@[j]) == endpoints(self.connections@)[j],
            decreases self.connections.len() - i,
        {
            let (l, r) = self.connections[i].endpoint_nodes();
            nodes.push(l);
            nodes.push(r);
            proof {
                assert(self.connections@[i as int] == self.connections@[i as int]);
                assert(endpoints(self.connections@)[2 * i] == connection_left(self.connections@[i as int]));
            }
            i = i + 1;
        }
        nodes
    }

    /// The relationship patterns of the chain, or `None` when some connection is not a single
    /// relationship.
    pub fn as_rels(self) -> (r: Option<Vec<RelPattern>>)
        ensures
            match r {
                Some(rels) => {
                    &&& rels@.len() == self.connections@.len()
                    &&& forall|i: int|
                        0 <= i < rels@.len() ==> self.connections@[i] == NodeConnection::RelPattern(
                            #[trigger] rels@[i],
                        )
                },
                None => exists|i: int|
                    0 <= i < self.connections@.len() && (#[trigger] self.connections@[i]) is Quantified,
            },
    {
        let ghost conns = self.connections@;
        let mut connections = self.connections;
        let total = connections.len();
        let mut rels: Vec<RelPattern> = Vec::new();
        let mut remaining: Vec<NodeConnection> = Vec::new();
        // take the connections in order: reverse once so that `pop` yields them front to back
        while connections.len() > 0
            invariant
                remaining@ + connections@.reverse() == conns.reverse(),
            decreases connections.len(),
        {
            let c = connections.pop().unwrap();
            remaining.push(c);
            proof {
                assert(remaining@ + connections@.reverse() =~= conns.reverse()) by {
                    assert(remaining@.drop_last() + (connections@.push(c)).reverse() == conns.reverse());
                };
            }
        }
        assert(remaining@ =~= conns.reverse());
        let mut taken: usize = 0;
        while remaining.len() > 0
            invariant
                taken + remaining@.len() == conns.len(),
                total == conns.len(),
                conns == self.connections@,
                remaining@ =~= conns.reverse().subrange(0, remaining@.len() as int),
                rels@.len() == taken,
                forall|i: int| 0 <= i < taken ==> conns[i] == NodeConnection::RelPattern(#[trigger] rels@[i]),
            decreases remaining.len(),
        {
            let c = remaining.pop().unwrap();
            proof {
                assert(c == conns[taken as int]);
            }
            match c {
                NodeConnection::RelPattern(rel) => rels.push(rel),
                _ => {
                    assert(conns[taken as int] is Quantified);
                    assert(conns == self.connections@);
                    assert(exists|i: int| 0 <= i < self.connections@.len() && (#[trigger] self.connections@[i]) is Quantified);
                    return None;
                },
            }
            taken = taken + 1;
        }
        Some(rels)
    }
}

pub enum Selector {
    /// any k paths
    AnyK(i64),
    /// shortest k paths
    ShortestK(i64),
    /// shortest k groups of paths
    ShortestKGroup(i64),
}

pub struct SelectivePathPattern {
    path_pattern: ChainPattern,
    filter: Vec<Expr>,
    selector: Selector,
}

impl SelectivePathPattern {
    pub fn new(path_pattern: ChainPattern, filter: Vec<Expr>, selector: Selector) -> (r: SelectivePathPattern)
        ensures
            r.path() == path_pattern,
    {
        SelectivePathPattern { path_pattern, filter, selector }
    }

    pub closed spec fn path(&self) -> ChainPattern {
        self.path_pattern
    }

    pub fn endpoint_nodes(&self) -> (r: Vec<&VariableName>)
        ensures
            r@.len() == endpoints(self.path().connections@).len(),
            forall|i: int| 0 <= i < r@.len() ==> *(#[trigger] r@[i]) == endpoints(self.path().connections@)[i],
    {
        self.path_pattern.endpoint_nodes()
    }
}

pub enum PathPattern {
    SingleNode(SingleNode),
    Chain(ChainPattern),
    Selective(SelectivePathPattern),
}

impl PathPattern {
    pub fn as_node_connections(self) -> (r: Option<ChainPattern>)
        ensures
            match self {
                PathPattern::Chain(c) => r == Some(c),
                _ => r is None,
            },
    {
        match self {
            PathPattern::Chain(c) => Some(c),
            _ => None,
        }
    }
}

} // verus!
