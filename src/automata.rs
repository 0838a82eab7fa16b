//! The edge-list automaton: a state set, initial and final subsets, a flat set
//! of transitions and an adjacency graph over which reachability and
//! productivity are computed.

use vstd::prelude::*;

use std::collections::{HashSet, VecDeque};

use crate::graph::{
    graph_add_edge, graph_add_node, graph_edges, graph_new, graph_nodes, graph_successors,
    AdjacencyGraph,
};

verus! {

broadcast use vstd::std_specs::hash::group_hash_axioms;

/// An automaton state.
#[derive(Debug, Clone, Copy, PartialEq, Eq, Structural, Hash, PartialOrd, Ord)]
pub struct State<T>(pub T);

impl<T> From<T> for State<T> {
    fn from(inner: T) -> Self {
        State(inner)
    }
}

impl<T> vstd::std_specs::convert::FromSpecImpl<T> for State<T> {
    open spec fn obeys_from_spec() -> bool {
        true
    }

    open spec fn from_spec(v: T) -> Self {
        State(v)
    }
}

/// An automaton transition symbol.
#[derive(Debug, Clone, Copy, PartialEq, Eq, Structural, Hash, PartialOrd, Ord)]
pub struct Symbol<T>(pub T);

impl<T> From<T> for Symbol<T> {
    fn from(inner: T) -> Self {
        Symbol(inner)
    }
}

impl<T> vstd::std_specs::convert::FromSpecImpl<T> for Symbol<T> {
    open spec fn obeys_from_spec() -> bool {
        true
    }

    open spec fn from_spec(v: T) -> Self {
        Symbol(v)
    }
}

/// A transition from `source` to `destination` through `symbol`.
#[derive(Debug, Clone, Copy, PartialEq, Eq, Structural, Hash)]
pub struct Transition {
    /// The state from which the transition starts.
    pub source: State<u64>,
    /// The state on which the transition ends.
    pub destination: State<u64>,
    /// The transition symbol.
    pub symbol: Symbol<u64>,
}

impl Transition {
    /// The transition as a (source, destination, symbol) triple.
    pub open spec fn triple(self) -> (u64, u64, u64) {
        (self.source.0, self.destination.0, self.symbol.0)
    }

    /// Construct a new transition.
    pub fn new(source: &State<u64>, destination: &State<u64>, symbol: &Symbol<u64>) -> (r: Self)
        ensures
            r.source == *source,
            r.destination == *destination,
            r.symbol == *symbol,
    {
        Transition { source: *source, destination: *destination, symbol: *symbol }
    }
}

/// A sequence of states in which each pair of neighbours is joined by an edge.
pub open spec fn is_path(edges: Map<(u64, u64), u64>, p: Seq<u64>) -> bool {
    forall|i: int| 0 <= i < p.len() - 1 ==> #[trigger] edges.contains_key((p[i], p[i + 1]))
}

/// `b` is reached from `a` through one or more edges.
pub open spec fn reaches(edges: Map<(u64, u64), u64>, a: u64, b: u64) -> bool {
    exists|p: Seq<u64>|
        #![trigger is_path(edges, p), p[0], p.last()]
        p.len() >= 2 && p[0] == a && p.last() == b && is_path(edges, p)
}

/// Extending a path from `a` to `x` by an edge from `x` to `y` gives a path from `a` to `y`.
pub proof fn lemma_reaches_step(edges: Map<(u64, u64), u64>, a: u64, x: u64, y: u64)
    requires
        x == a || reaches(edges, a, x),
        edges.contains_key((x, y)),
    ensures
        reaches(edges, a, y),
{
    if x == a {
        let q = seq![a, y];
        assert(is_path(edges, q));
        assert(q.len() >= 2 && q[0] == a && q.last() == y && is_path(edges, q));
    } else {
        let p = choose|p: Seq<u64>|
            #![trigger is_path(edges, p), p[0], p.last()]
            p.len() >= 2 && p[0] == a && p.last() == x && is_path(edges, p);
        let q = p.push(y);
        assert forall|i: int| 0 <= i < q.len() - 1 implies #[trigger] edges.contains_key((q[i], q[i + 1])) by {
            if i < p.len() - 1 {
                assert(edges.contains_key((p[i], p[i + 1])));
            }
        }
        assert(q.len() >= 2 && q[0] == a && q.last() == y && is_path(edges, q));
    }
}

/// Where the successors of each processed node are discovered, the start node
/// is processed and each discovered node is processed, every node reached
/// from the start is discovered.
proof fn lemma_closed_contains_reached(
    edges: Map<(u64, u64), u64>,
    processed: Set<u64>,
    discovered: Set<u64>,
    a: u64,
    p: Seq<u64>,
)
    requires
        forall|x: u64, y: u64| processed.contains(x) && #[trigger] edges.contains_key((x, y)) ==> discovered.contains(y),
        discovered.subset_of(processed),
        processed.contains(a),
        p.len() >= 2,
        p[0] == a,
        is_path(edges, p),
    ensures
        discovered.contains(p.last()),
    decreases p.len(),
{
    let n = p.len() as int;
    let i = n - 2;
    assert(edges.contains_key((p[i], p[i + 1])));
    if n > 2 {
        let q = p.drop_last();
        assert forall|i: int| 0 <= i < q.len() - 1 implies #[trigger] edges.contains_key((q[i], q[i + 1])) by {
            assert(edges.contains_key((p[i], p[i + 1])));
        }
        lemma_closed_contains_reached(edges, processed, discovered, a, q);
    }
}

/// The identifiers of a sequence of states, as a set.
pub open spec fn ids_of(s: Seq<State<u64>>) -> Set<u64> {
    Set::new(|x: u64| exists|j: int| 0 <= j < s.len() && #[trigger] s[j].0 == x)
}

/// The transitions of a sequence, as a set of triples.
pub open spec fn triples_of(s: Seq<Transition>) -> Set<(u64, u64, u64)> {
    Set::new(|x: (u64, u64, u64)| exists|j: int| 0 <= j < s.len() && #[trigger] s[j].triple() == x)
}

/// What an edge-list automaton holds, as sets and maps of identifiers.
pub struct AutomatonModel {
    pub states: Set<u64>,
    pub initial_states: Set<u64>,
    pub final_states: Set<u64>,
    pub transitions: Set<(u64, u64, u64)>,
    /// The adjacency relation: one symbol per (source, destination) pair.
    pub edges: Map<(u64, u64), u64>,
}

impl AutomatonModel {
    /// The states reached from `a` through one or more edges.
    pub open spec fn reachable_from(self, a: u64) -> Set<u64> {
        Set::new(|b: u64| reaches(self.edges, a, b))
    }

    /// Some final state is reached from `a` through one or more edges.
    pub open spec fn productive(self, a: u64) -> bool {
        exists|f: u64| #[trigger] self.final_states.contains(f) && reaches(self.edges, a, f)
    }
}

/// A state without outgoing edges reaches nothing, so it is not productive,
/// even where it is itself final.
pub proof fn lemma_sink_not_productive(m: AutomatonModel, s: u64)
    requires
        forall|b: u64| !m.edges.contains_key((s, b)),
    ensures
        !m.productive(s),
        m.reachable_from(s).is_empty(),
{
    assert forall|b: u64| !reaches(m.edges, s, b) by {
        if reaches(m.edges, s, b) {
            let p = choose|p: Seq<u64>|
                #![trigger is_path(m.edges, p), p[0], p.last()]
                p.len() >= 2 && p[0] == s && p.last() == b && is_path(m.edges, p);
            let i = 0int;
            assert(m.edges.contains_key((p[i], p[i + 1])));
        }
    }
    assert(m.reachable_from(s) =~= Set::empty());
}

pub type DFA = DeterministicFiniteAutomata;

/// An automaton given by its states, its initial and final states and its
/// transitions, with an adjacency graph for traversal.
pub struct DeterministicFiniteAutomata {
    /// The set of all automaton states.
    states: HashSet<u64>,
    /// The set of all initial states.
    initial_states: HashSet<u64>,
    /// The set of all final states.
    final_states: HashSet<u64>,
    /// The transitions, each once.
    transitions: Vec<Transition>,
    /// The automaton graph.
    automata: AdjacencyGraph,
}

impl View for DeterministicFiniteAutomata {
    type V = AutomatonModel;

    closed spec fn view(&self) -> AutomatonModel {
        AutomatonModel {
            states: self.states@,
            initial_states: self.initial_states@,
            final_states: self.final_states@,
            transitions: triples_of(self.transitions@),
            edges: graph_edges(self.automata),
        }
    }
}

impl DeterministicFiniteAutomata {
    /// The initial and final states are states, and the graph is finite and
    /// holds the ends of each of its edges.
    pub closed spec fn well_formed(&self) -> bool {
        &&& self.initial_states@.subset_of(self.states@)
        &&& self.final_states@.subset_of(self.states@)
        &&& self.states@.subset_of(graph_nodes(self.automata))
        &&& graph_nodes(self.automata).finite()
        &&& forall|a: u64, b: u64|
            #[trigger] graph_edges(self.automata).contains_key((a, b)) ==> graph_nodes(
                self.automata,
            ).contains(a) && graph_nodes(self.automata).contains(b)
    }

    /// Construct an empty automaton.
    pub fn new() -> (r: Self)
        ensures
            r.well_formed(),
            r@.states.is_empty(),
            r@.initial_states.is_empty(),
            r@.final_states.is_empty(),
            r@.transitions.is_empty(),
            r@.edges.dom().is_empty(),
    {
        let r = DeterministicFiniteAutomata {
            states: HashSet::new(),
            initial_states: HashSet::new(),
            final_states: HashSet::new(),
            transitions: Vec::new(),
            automata: graph_new(),
        };
        assert(r@.transitions =~= Set::empty());
        r
    }

    /// Add a state to the automaton and return it.
    pub fn add_state(&mut self, state: &State<u64>) -> (r: State<u64>)
        requires
            old(self).well_formed(),
        ensures
            final(self).well_formed(),
            r == *state,
            final(self)@ == (AutomatonModel { states: old(self)@.states.insert(state.0), ..old(self)@ }),
    {
        self.states.insert(state.0);
        let n = graph_add_node(&mut self.automata, state.0);
        State(n)
    }

    /// Add an initial state to the automaton (and to its states) and return it.
    pub fn add_initial_state(&mut self, state: &State<u64>) -> (r: State<u64>)
        requires
            old(self).well_formed(),
        ensures
            final(self).well_formed(),
            r == *state,
            final(self)@ == (AutomatonModel {
                states: old(self)@.states.insert(state.0),
                initial_states: old(self)@.initial_states.insert(state.0),
                ..old(self)@
            }),
    {
        let r = self.add_state(state);
        self.initial_states.insert(state.0);
        r
    }

    /// Add a final state to the automaton (and to its states) and return it.
    pub fn add_final_state(&mut self, state: &State<u64>) -> (r: State<u64>)
        requires
            old(self).well_formed(),
        ensures
            final(self).well_formed(),
            r == *state,
            final(self)@ == (AutomatonModel {
                states: old(self)@.states.insert(state.0),
                final_states: old(self)@.final_states.insert(state.0),
                ..old(self)@
            }),
    {
        let r = self.add_state(state);
        self.final_states.insert(state.0);
        r
    }

    /// Add a transition. The graph edge from its source to its destination
    /// takes its symbol; the symbol that edge had before, if any, is returned.
    pub fn add_transition(&mut self, transition: &Transition) -> (r: Option<Symbol<u64>>)
        requires
            old(self).well_formed(),
        ensures
            final(self).well_formed(),
            final(self)@ == (AutomatonModel {
                transitions: old(self)@.transitions.insert(transition.triple()),
                edges: old(self)@.edges.insert(
                    (transition.source.0, transition.destination.0),
                    transition.symbol.0,
                ),
                ..old(self)@
            }),
            r == (if old(self)@.edges.contains_key((transition.source.0, transition.destination.0)) {
                Some(Symbol(old(self)@.edges[(transition.source.0, transition.destination.0)]))
            } else {
                None::<Symbol<u64>>
            }),
    {
        let ghost old_ts = self.transitions@;
        let mut present = false;
        let mut i: usize = 0;
        while i < self.transitions.len()
            invariant
                i <= self.transitions.len(),
                self.transitions@ == old_ts,
                present <==> exists|j: int| 0 <= j < i && #[trigger] old_ts[j].triple() == transition.triple(),
            decreases self.transitions.len() - i,
        {
            let t = &self.transitions[i];
            if t.source.0 == transition.source.0 && t.destination.0 == transition.destination.0
                && t.symbol.0 == transition.symbol.0 {
                assert(old_ts[i as int].triple() == transition.triple());
                present = true;
            }
            i = i + 1;
        }
        if !present {
            self.transitions.push(*transition);
        }
        proof {
            let n = self.transitions@;
            assert(triples_of(n) =~= triples_of(old_ts).insert(transition.triple())) by {
                if !present {
                    assert(n[old_ts.len() as int] == *transition);
                    assert forall|j: int| 0 <= j < old_ts.len() implies n[j] == old_ts[j] by {}
                }
            }
        }
        let old = graph_add_edge(
            &mut self.automata,
            transition.source.0,
            transition.destination.0,
            transition.symbol.0,
        );
        match old {
            Some(w) => Some(Symbol(w)),
            None => None,
        }
    }
    /// The states reached from `state` through one or more edges, each once,
    /// in the order a breadth-first traversal discovers them. `state` itself
    /// is among them only where a cycle leads back to it.
    pub fn reachable(&mut self, state: &State<u64>) -> (r: Vec<State<u64>>)
        requires
            old(self).well_formed(),
        ensures
            *final(self) == *old(self),
            ids_of(r@) == old(self)@.reachable_from(state.0),
            forall|i: int, j: int| 0 <= i < j < r.len() ==> r@[i] != r@[j],
    {
        let ghost edges = graph_edges(self.automata);
        let ghost nodes = graph_nodes(self.automata);
        let start = state.0;
        let mut queue: VecDeque<u64> = VecDeque::new();
        let mut discovered: HashSet<u64> = HashSet::new();
        let mut out: Vec<State<u64>> = Vec::new();
        let ghost mut processed: Set<u64> = Set::empty();
        queue.push_back(start);
        assert(queue@[0] == start);
        while queue.len() > 0
            invariant
                self.well_formed(),
                edges == graph_edges(self.automata),
                nodes == graph_nodes(self.automata),
                discovered@.subset_of(nodes),
                forall|i: int| 0 <= i < queue@.len() ==> #[trigger] queue@[i] == start || discovered@.contains(queue@[i]),
                forall|x: u64, y: u64| processed.contains(x) && #[trigger] edges.contains_key((x, y)) ==> discovered@.contains(y),
                forall|d: u64| #[trigger] discovered@.contains(d) ==> processed.contains(d) || queue@.contains(d),
                processed.contains(start) || queue@.contains(start),
                forall|d: u64| #[trigger] discovered@.contains(d) ==> reaches(edges, start, d),
                ids_of(out@) == discovered@,
                forall|i: int, j: int| 0 <= i < j < out.len() ==> out@[i] != out@[j],
            decreases 2 * nodes.difference(discovered@).len() + queue@.len(),
        {
            let ghost q0 = queue@;
            let ghost measure = 2 * nodes.difference(discovered@).len() + queue@.len();
            let x = queue.pop_front().unwrap();
            proof {
                assert(x == q0[0]);
                assert(queue@ == q0.subrange(1, q0.len() as int));
                assert(nodes.difference(discovered@).finite());
                assert forall|d: u64| q0.contains(d) implies d == x || queue@.contains(d) by {
                    let i = choose|i: int| 0 <= i < q0.len() && q0[i] == d;
                    if i > 0 {
                        assert(queue@[i - 1] == d);
                    }
                }
            }
            let succ = graph_successors(&self.automata, x);
            let mut k: usize = 0;
            while k < succ.len()
                invariant
                    self.well_formed(),
                    edges == graph_edges(self.automata),
                    nodes == graph_nodes(self.automata),
                    k <= succ.len(),
                    x == start || reaches(edges, start, x),
                    forall|b: u64| succ@.contains(b) <==> edges.contains_key((x, b)),
                    discovered@.subset_of(nodes),
                    forall|i: int| 0 <= i < queue@.len() ==> #[trigger] queue@[i] == start || discovered@.contains(queue@[i]),
                    forall|x1: u64, y: u64| processed.contains(x1) && #[trigger] edges.contains_key((x1, y)) ==> discovered@.contains(y),
                    forall|i: int| 0 <= i < k ==> discovered@.contains(#[trigger] succ@[i]),
                    forall|d: u64| #[trigger] discovered@.contains(d) ==> processed.contains(d) || queue@.contains(d) || d == x,
                    processed.contains(start) || queue@.contains(start) || x == start,
                    forall|d: u64| #[trigger] discovered@.contains(d) ==> reaches(edges, start, d),
                    ids_of(out@) == discovered@,
                    forall|i: int, j: int| 0 <= i < j < out.len() ==> out@[i] != out@[j],
                    2 * nodes.difference(discovered@).len() + queue@.len() < measure,
                decreases succ.len() - k,
            {
                let y = succ[k];
                assert(succ@.contains(y));
                proof {
                    lemma_reaches_step(edges, start, x, y);
                }
                let ghost d0 = discovered@;
                let ghost o0 = out@;
                let ghost qq = queue@;
                if discovered.insert(y) {
                    queue.push_back(y);
                    out.push(State(y));
                    proof {
                        assert(nodes.contains(y));
                        assert(nodes.difference(d0).finite());
                        assert(nodes.difference(discovered@) =~= nodes.difference(d0).remove(y));
                        assert(nodes.difference(d0).contains(y));
                        assert(nodes.difference(d0).remove(y).len() == nodes.difference(d0).len() - 1);
                        assert(nodes.difference(discovered@).len() == nodes.difference(d0).len() - 1);
                        assert(queue@ == qq.push(y));
                        assert(ids_of(out@) =~= discovered@) by {
                            assert(out@[out@.len() - 1].0 == y);
                            assert forall|j: int| 0 <= j < o0.len() implies out@[j] == o0[j] by {}
                            assert forall|v: u64| ids_of(o0).contains(v) implies ids_of(out@).contains(v) by {
                                let j = choose|j: int| 0 <= j < o0.len() && #[trigger] o0[j].0 == v;
                                assert(out@[j].0 == v);
                            }
                            assert forall|v: u64| ids_of(out@).contains(v) implies discovered@.contains(v) by {
                                let j = choose|j: int| 0 <= j < out@.len() && #[trigger] out@[j].0 == v;
                                if j < o0.len() {
                                    assert(o0[j].0 == v);
                                    assert(ids_of(o0).contains(v));
                                }
                            }
                        }
                        assert forall|i: int, j: int| 0 <= i < j < out.len() implies out@[i] != out@[j] by {
                            if j == out.len() - 1 {
                                assert(o0[i].0 == o0[i].0);
                                assert(ids_of(o0).contains(o0[i].0));
                            }
                        }
                        assert forall|d: u64| #[trigger] discovered@.contains(d) implies processed.contains(d) || queue@.contains(d) || d == x by {
                            if d == y {
                                assert(queue@[queue@.len() - 1] == y);
                            } else {
                                assert(d0.contains(d));
                                if qq.contains(d) {
                                    let i = choose|i: int| 0 <= i < qq.len() && qq[i] == d;
                                    assert(queue@[i] == d);
                                }
                            }
                        }
                        if qq.contains(start) {
                            let i = choose|i: int| 0 <= i < qq.len() && qq[i] == start;
                            assert(queue@[i] == start);
                        }
                    }
                } else {
                    assert(discovered@ =~= d0);
                }
                k = k + 1;
            }
            proof {
                processed = processed.insert(x);
                assert forall|x1: u64, y: u64| processed.contains(x1) && #[trigger] edges.contains_key((x1, y)) implies discovered@.contains(y) by {
                    if x1 == x {
                        assert(succ@.contains(y));
                        let i = choose|i: int| 0 <= i < succ@.len() && succ@[i] == y;
                        assert(discovered@.contains(succ@[i]));
                    }
                }
            }
        }
        proof {
            assert(discovered@.subset_of(processed));
            assert(processed.contains(start));
            assert(ids_of(out@) =~= self@.reachable_from(start)) by {
                assert forall|b: u64| reaches(edges, start, b) implies discovered@.contains(b) by {
                    let p = choose|p: Seq<u64>|
                        #![trigger is_path(edges, p), p[0], p.last()]
                        p.len() >= 2 && p[0] == start && p.last() == b && is_path(edges, p);
                    lemma_closed_contains_reached(edges, processed, discovered@, start, p);
                }
            }
        }
        out
    }

    /// A final state is reached from `state` through one or more edges. A
    /// final state that no cycle leads back to is not, by itself, enough.
    pub fn is_productive(&mut self, state: &State<u64>) -> (r: bool)
        requires
            old(self).well_formed(),
        ensures
            *final(self) == *old(self),
            r == old(self)@.productive(state.0),
    {
        let reachable_states = self.reachable(state);
        let mut i: usize = 0;
        while i < reachable_states.len()
            invariant
                *self == *old(self),
                i <= reachable_states.len(),
                ids_of(reachable_states@) == self@.reachable_from(state.0),
                forall|j: int| 0 <= j < i ==> !self@.final_states.contains(#[trigger] reachable_states@[j].0),
            decreases reachable_states.len() - i,
        {
            if self.final_states.contains(&reachable_states[i].0) {
                proof {
                    let f = reachable_states@[i as int].0;
                    assert(ids_of(reachable_states@).contains(f));
                    assert(self@.final_states.contains(f) && reaches(self@.edges, state.0, f));
                }
                return true;
            }
            i = i + 1;
        }
        proof {
            assert forall|f: u64| #[trigger] self@.final_states.contains(f) implies !reaches(self@.edges, state.0, f) by {
                if reaches(self@.edges, state.0, f) {
                    assert(self@.reachable_from(state.0).contains(f));
                    let j = choose|j: int| 0 <= j < reachable_states@.len() && #[trigger] reachable_states@[j].0 == f;
                }
            }
        }
        false
    }
}

} // verus!
