//! Graphviz DOT export of an edge-list automaton given as tables.

use vstd::prelude::*;

use vstd::string::StringExecFns;

use crate::render::{concat_map, lemma_concat_map_step};
use crate::tables::{
    dfa_edges_of, flatten_dfa_edges, flatten_marks, flatten_nfa_edges, marks_of, nfa_edges_of,
    pair_views, triple_views, Dfa, ListingModel, Nfa,
};

verus! {

/// A labelled directed edge: `source -> destination [label=label]`.
pub struct DotEdge {
    /// Edge source node.
    pub source: String,
    /// Edge label.
    pub label: String,
    /// Edge destination node.
    pub destination: String,
}

impl DotEdge {
    /// A labelled edge.
    pub fn new(source: String, label: String, destination: String) -> (r: Self)
        ensures
            r.source == source,
            r.label == label,
            r.destination == destination,
    {
        DotEdge { source, label, destination }
    }
}

/// The views of a sequence of DOT edges, as (source, label, destination).
pub open spec fn dot_edge_views(s: Seq<DotEdge>) -> Seq<(Seq<char>, Seq<char>, Seq<char>)> {
    s.map_values(|e: DotEdge| (e.source@, e.label@, e.destination@))
}

/// The decimal digit `d`.
pub open spec fn digit(d: nat) -> Seq<char> {
    if d == 0 {
        "0"@
    } else if d == 1 {
        "1"@
    } else if d == 2 {
        "2"@
    } else if d == 3 {
        "3"@
    } else if d == 4 {
        "4"@
    } else if d == 5 {
        "5"@
    } else if d == 6 {
        "6"@
    } else if d == 7 {
        "7"@
    } else if d == 8 {
        "8"@
    } else {
        "9"@
    }
}

/// `n` in decimal.
pub open spec fn decimal(n: nat) -> Seq<char>
    decreases n,
{
    if n < 10 {
        digit(n)
    } else {
        decimal(n / 10) + digit(n % 10)
    }
}

fn digit_str(d: usize) -> (r: &'static str)
    requires
        d < 10,
    ensures
        r@ == digit(d as nat),
{
    if d == 0 {
        "0"
    } else if d == 1 {
        "1"
    } else if d == 2 {
        "2"
    } else if d == 3 {
        "3"
    } else if d == 4 {
        "4"
    } else if d == 5 {
        "5"
    } else if d == 6 {
        "6"
    } else if d == 7 {
        "7"
    } else if d == 8 {
        "8"
    } else {
        "9"
    }
}

/// Append `n` in decimal.
fn push_decimal(res: &mut String, n: usize)
    ensures
        final(res)@ == old(res)@ + decimal(n as nat),
    decreases n,
{
    if n < 10 {
        res.append(digit_str(n));
    } else {
        push_decimal(res, n / 10);
        res.append(digit_str(n % 10));
        assert(res@ =~= old(res)@ + decimal(n as nat));
    }
}

/// The marker node and edge of the initial state at position `i`.
pub open spec fn dot_initial_line(i: nat, p: (Seq<char>, Seq<char>)) -> Seq<char> {
    "\t_initial_"@ + decimal(i) + " [label=\"\", shape=\"plaintext\"];\n"@ + "\t_initial_"@ + decimal(i) + " -> "@
        + p.0 + " [label=\""@ + p.1 + "\"];\n"@
}

/// The marker nodes and edges of the initial states, numbered from zero.
pub open spec fn dot_initial_lines(s: Seq<(Seq<char>, Seq<char>)>) -> Seq<char>
    decreases s.len(),
{
    if s.len() == 0 {
        Seq::empty()
    } else {
        dot_initial_lines(s.drop_last()) + dot_initial_line((s.len() - 1) as nat, s.last())
    }
}

/// A final state: drawn bold, with a dashed loop carrying the label.
pub open spec fn dot_final_line(p: (Seq<char>, Seq<char>)) -> Seq<char> {
    "\t"@ + p.0 + " [style=\"bold\"];\n"@ + "\t"@ + p.0 + " -> "@ + p.0 + " [label=\""@ + p.1
        + "\", style=dashed];\n"@
}

/// A labelled edge.
pub open spec fn dot_edge_line(e: (Seq<char>, Seq<char>, Seq<char>)) -> Seq<char> {
    "\t"@ + e.0 + " -> "@ + e.2 + " [label="@ + e.1 + "];\n"@
}

/// The DOT text of an edge-list listing.
pub open spec fn dot_text(m: ListingModel) -> Seq<char> {
    "digraph Automata {\n"@ + "graph [pad=\"0.25\", nodesep=\"0.75\", ranksep=\"1\"];\n"@ + dot_initial_lines(
        m.initial_states,
    ) + concat_map(m.final_states, |p: (Seq<char>, Seq<char>)| dot_final_line(p)) + concat_map(
        m.edges,
        |e: (Seq<char>, Seq<char>, Seq<char>)| dot_edge_line(e),
    ) + "}\n"@
}

/// The list of directed edges in a DOT graph, with the marker pairs of the
/// initial and final states.
pub struct Dot {
    /// The labelled edges.
    edges: Vec<DotEdge>,
    /// Initial states with the labels of their marker edges.
    initial_states: Vec<(String, String)>,
    /// Final states with the labels of their marker edges.
    final_states: Vec<(String, String)>,
}

impl View for Dot {
    type V = ListingModel;

    closed spec fn view(&self) -> ListingModel {
        ListingModel {
            initial_states: pair_views(self.initial_states@),
            final_states: pair_views(self.final_states@),
            edges: dot_edge_views(self.edges@),
        }
    }
}

/// DOT edges made from (source, label, destination) triples.
fn dot_edges(t: Vec<(String, String, String)>) -> (r: Vec<DotEdge>)
    ensures
        dot_edge_views(r@) == triple_views(t@),
{
    let mut r: Vec<DotEdge> = Vec::new();
    let mut i: usize = 0;
    while i < t.len()
        invariant
            i <= t.len(),
            dot_edge_views(r@) == triple_views(t@).subrange(0, i as int),
        decreases t.len() - i,
    {
        let ghost r0 = r@;
        r.push(DotEdge::new(t[i].0.clone(), t[i].1.clone(), t[i].2.clone()));
        assert(dot_edge_views(r@) =~= dot_edge_views(r0).push(triple_views(t@)[i as int]));
        assert(triple_views(t@).subrange(0, i + 1) =~= triple_views(t@).subrange(0, i as int).push(
            triple_views(t@)[i as int],
        ));
        i = i + 1;
    }
    assert(triple_views(t@).subrange(0, t.len() as int) =~= triple_views(t@));
    r
}

impl Dot {
    /// An empty listing.
    pub fn new() -> (r: Self)
        ensures
            r@.initial_states.len() == 0,
            r@.final_states.len() == 0,
            r@.edges.len() == 0,
    {
        Dot { edges: Vec::new(), initial_states: Vec::new(), final_states: Vec::new() }
    }

    /// The listing of a deterministic automaton: a marker pair for each label
    /// of each initial and final state, and an edge for each (label,
    /// destination) pair of each source.
    pub fn from_dfa(dfa: Dfa) -> (r: Self)
        ensures
            r@ == (ListingModel {
                initial_states: marks_of(dfa.initial_states@),
                final_states: marks_of(dfa.final_states@),
                edges: dfa_edges_of(dfa.delta@),
            }),
    {
        Dot {
            edges: dot_edges(flatten_dfa_edges(&dfa.delta)),
            initial_states: flatten_marks(&dfa.initial_states),
            final_states: flatten_marks(&dfa.final_states),
        }
    }

    /// The listing of a nondeterministic automaton: as for a deterministic
    /// one, with an edge for each destination of each label.
    pub fn from_nfa(nfa: Nfa) -> (r: Self)
        ensures
            r@ == (ListingModel {
                initial_states: marks_of(nfa.initial_states@),
                final_states: marks_of(nfa.final_states@),
                edges: nfa_edges_of(nfa.delta@),
            }),
    {
        Dot {
            edges: dot_edges(flatten_nfa_edges(&nfa.delta)),
            initial_states: flatten_marks(&nfa.initial_states),
            final_states: flatten_marks(&nfa.final_states),
        }
    }

    /// The DOT text.
    pub fn to_string(&self) -> (r: String)
        ensures
            r@ == dot_text(self@),
    {
        let ghost m = self@;
        let mut res = String::new();
        res.append("digraph Automata {\n");
        res.append("graph [pad=\"0.25\", nodesep=\"0.75\", ranksep=\"1\"];\n");
        let ghost head = res@;
        let mut i: usize = 0;
        assert(m.initial_states.subrange(0, 0) =~= Seq::empty());
        while i < self.initial_states.len()
            invariant
                i <= self.initial_states.len(),
                m == self@,
                res@ == head + dot_initial_lines(m.initial_states.subrange(0, i as int)),
            decreases self.initial_states.len() - i,
        {
            let node = &self.initial_states[i].0;
            let label = &self.initial_states[i].1;
            let ghost r0 = res@;
            res.append("\t_initial_");
            push_decimal(&mut res, i);
            res.append(" [label=\"\", shape=\"plaintext\"];\n");
            res.append("\t_initial_");
            push_decimal(&mut res, i);
            res.append(" -> ");
            res.append(node.as_str());
            res.append(" [label=\"");
            res.append(label.as_str());
            res.append("\"];\n");
            proof {
                let s = m.initial_states;
                let t = s.subrange(0, i + 1);
                assert(t.drop_last() =~= s.subrange(0, i as int));
                assert(s[i as int] == (node@, label@));
                assert(res@ =~= r0 + dot_initial_line(i as nat, s[i as int]));
            }
            i = i + 1;
        }
        assert(m.initial_states.subrange(0, m.initial_states.len() as int) =~= m.initial_states);
        let ghost before_finals = res@;
        let ghost fg = |p: (Seq<char>, Seq<char>)| dot_final_line(p);
        i = 0;
        assert(m.final_states.subrange(0, 0) =~= Seq::empty());
        while i < self.final_states.len()
            invariant
                i <= self.final_states.len(),
                m == self@,
                fg == (|p: (Seq<char>, Seq<char>)| dot_final_line(p)),
                res@ == before_finals + concat_map(m.final_states.subrange(0, i as int), fg),
            decreases self.final_states.len() - i,
        {
            let node = &self.final_states[i].0;
            let label = &self.final_states[i].1;
            let ghost r0 = res@;
            res.append("\t");
            res.append(node.as_str());
            res.append(" [style=\"bold\"];\n");
            res.append("\t");
            res.append(node.as_str());
            res.append(" -> ");
            res.append(node.as_str());
            res.append(" [label=\"");
            res.append(label.as_str());
            res.append("\", style=dashed];\n");
            proof {
                lemma_concat_map_step(m.final_states, i as int, fg);
                assert(m.final_states[i as int] == (node@, label@));
                assert(res@ =~= r0 + dot_final_line(m.final_states[i as int]));
            }
            i = i + 1;
        }
        assert(m.final_states.subrange(0, m.final_states.len() as int) =~= m.final_states);
        let ghost before_edges = res@;
        let ghost eg = |e: (Seq<char>, Seq<char>, Seq<char>)| dot_edge_line(e);
        i = 0;
        assert(m.edges.subrange(0, 0) =~= Seq::empty());
        while i < self.edges.len()
            invariant
                i <= self.edges.len(),
                m == self@,
                eg == (|e: (Seq<char>, Seq<char>, Seq<char>)| dot_edge_line(e)),
                res@ == before_edges + concat_map(m.edges.subrange(0, i as int), eg),
            decreases self.edges.len() - i,
        {
            let e = &self.edges[i];
            let ghost r0 = res@;
            res.append("\t");
            res.append(e.source.as_str());
            res.append(" -> ");
            res.append(e.destination.as_str());
            res.append(" [label=");
            res.append(e.label.as_str());
            res.append("];\n");
            proof {
                lemma_concat_map_step(m.edges, i as int, eg);
                assert(m.edges[i as int] == (e.source@, e.label@, e.destination@));
                assert(res@ =~= r0 + dot_edge_line(m.edges[i as int]));
            }
            i = i + 1;
        }
        assert(m.edges.subrange(0, m.edges.len() as int) =~= m.edges);
        res.append("}\n");
        assert(res@ =~= dot_text(m));
        res
    }
}

} // verus!
