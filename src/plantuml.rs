//! PlantUML export of an edge-list automaton given as tables.

use vstd::prelude::*;

use vstd::string::StringExecFns;

use crate::render::{concat_map, lemma_concat_map_step};
use crate::tables::{
    dfa_edges_of, flatten_dfa_edges, flatten_marks, flatten_nfa_edges, marks_of, nfa_edges_of,
    pair_views, triple_views, Dfa, ListingModel, Nfa,
};

verus! {

/// A labelled directed edge: `source --> destination : label`.
pub struct PlantUmlEdge {
    /// Edge source node.
    pub source: String,
    /// Edge label.
    pub label: String,
    /// Edge destination node.
    pub destination: String,
}

impl PlantUmlEdge {
    /// A labelled edge.
    pub fn new(source: String, label: String, destination: String) -> (r: Self)
        ensures
            r.source == source,
            r.label == label,
            r.destination == destination,
    {
        PlantUmlEdge { source, label, destination }
    }
}

/// The views of a sequence of PlantUML edges, as (source, label, destination).
pub open spec fn plantuml_edge_views(s: Seq<PlantUmlEdge>) -> Seq<(Seq<char>, Seq<char>, Seq<char>)> {
    s.map_values(|e: PlantUmlEdge| (e.source@, e.label@, e.destination@))
}

/// The edge from the start marker to an initial state.
pub open spec fn plantuml_initial_line(p: (Seq<char>, Seq<char>)) -> Seq<char> {
    "[*] --> "@ + p.0 + " : "@ + p.1 + "\n"@
}

/// The edge from a final state to the end marker.
pub open spec fn plantuml_final_line(p: (Seq<char>, Seq<char>)) -> Seq<char> {
    p.0 + " --> [*] : "@ + p.1 + "\n"@
}

/// A labelled edge.
pub open spec fn plantuml_edge_line(e: (Seq<char>, Seq<char>, Seq<char>)) -> Seq<char> {
    "\t"@ + e.0 + " --> "@ + e.2 + " : "@ + e.1 + "\n"@
}

/// The PlantUML text of an edge-list listing.
pub open spec fn plantuml_text(m: ListingModel) -> Seq<char> {
    "@startuml\n"@ + "hide empty description\n"@ + concat_map(
        m.initial_states,
        |p: (Seq<char>, Seq<char>)| plantuml_initial_line(p),
    ) + concat_map(m.final_states, |p: (Seq<char>, Seq<char>)| plantuml_final_line(p)) + concat_map(
        m.edges,
        |e: (Seq<char>, Seq<char>, Seq<char>)| plantuml_edge_line(e),
    ) + "@enduml\n"@
}

/// The list of directed edges in a PlantUML state diagram, with the marker
/// pairs of the initial and final states.
pub struct PlantUml {
    /// The labelled edges.
    edges: Vec<PlantUmlEdge>,
    /// Initial states with the labels of their marker edges.
    initial_states: Vec<(String, String)>,
    /// Final states with the labels of their marker edges.
    final_states: Vec<(String, String)>,
}

impl View for PlantUml {
    type V = ListingModel;

    closed spec fn view(&self) -> ListingModel {
        ListingModel {
            initial_states: pair_views(self.initial_states@),
            final_states: pair_views(self.final_states@),
            edges: plantuml_edge_views(self.edges@),
        }
    }
}

/// PlantUML edges made from (source, label, destination) triples.
fn plantuml_edges(t: Vec<(String, String, String)>) -> (r: Vec<PlantUmlEdge>)
    ensures
        plantuml_edge_views(r@) == triple_views(t@),
{
    let mut r: Vec<PlantUmlEdge> = Vec::new();
    let mut i: usize = 0;
    while i < t.len()
        invariant
            i <= t.len(),
            plantuml_edge_views(r@) == triple_views(t@).subrange(0, i as int),
        decreases t.len() - i,
    {
        let ghost r0 = r@;
        r.push(PlantUmlEdge::new(t[i].0.clone(), t[i].1.clone(), t[i].2.clone()));
        assert(plantuml_edge_views(r@) =~= plantuml_edge_views(r0).push(triple_views(t@)[i as int]));
        assert(triple_views(t@).subrange(0, i + 1) =~= triple_views(t@).subrange(0, i as int).push(
            triple_views(t@)[i as int],
        ));
        i = i + 1;
    }
    assert(triple_views(t@).subrange(0, t.len() as int) =~= triple_views(t@));
    r
}

/// Append one marker line per pair.
fn push_marks(res: &mut String, marks: &Vec<(String, String)>, initial: bool)
    ensures
        final(res)@ == old(res)@ + (if initial {
            concat_map(pair_views(marks@), |p: (Seq<char>, Seq<char>)| plantuml_initial_line(p))
        } else {
            concat_map(pair_views(marks@), |p: (Seq<char>, Seq<char>)| plantuml_final_line(p))
        }),
{
    let ghost s = pair_views(marks@);
    let ghost g = if initial {
        |p: (Seq<char>, Seq<char>)| plantuml_initial_line(p)
    } else {
        |p: (Seq<char>, Seq<char>)| plantuml_final_line(p)
    };
    let ghost head = res@;
    let mut i: usize = 0;
    assert(s.subrange(0, 0) =~= Seq::empty());
    while i < marks.len()
        invariant
            i <= marks.len(),
            s == pair_views(marks@),
            head == old(res)@,
            g == (if initial {
                |p: (Seq<char>, Seq<char>)| plantuml_initial_line(p)
            } else {
                |p: (Seq<char>, Seq<char>)| plantuml_final_line(p)
            }),
            res@ == head + concat_map(s.subrange(0, i as int), g),
        decreases marks.len() - i,
    {
        let node = &marks[i].0;
        let label = &marks[i].1;
        let ghost r0 = res@;
        if initial {
            res.append("[*] --> ");
            res.append(node.as_str());
            res.append(" : ");
            res.append(label.as_str());
            res.append("\n");
        } else {
            res.append(node.as_str());
            res.append(" --> [*] : ");
            res.append(label.as_str());
            res.append("\n");
        }
        proof {
            lemma_concat_map_step(s, i as int, g);
            assert(s[i as int] == (node@, label@));
            assert(res@ =~= r0 + g(s[i as int]));
        }
        i = i + 1;
    }
    assert(s.subrange(0, s.len() as int) =~= s);
}

impl PlantUml {
    /// An empty listing.
    pub fn new() -> (r: Self)
        ensures
            r@.initial_states.len() == 0,
            r@.final_states.len() == 0,
            r@.edges.len() == 0,
    {
        PlantUml { edges: Vec::new(), initial_states: Vec::new(), final_states: Vec::new() }
    }

    /// The listing of a deterministic automaton: a marker pair for each label
    /// of each initial and final state, and an edge for each (label,
    /// destination) pair of each source.
    pub fn from_dfa(dfa: Dfa) -> (r: Self)
        ensures
            r@ == (ListingModel {
                initial_states: marks_of(dfa.initial_states@),
                final_states: marks_of(dfa.final_states@),
                edges: dfa_edges_of(dfa.delta@),
            }),
    {
        PlantUml {
            edges: plantuml_edges(flatten_dfa_edges(&dfa.delta)),
            initial_states: flatten_marks(&dfa.initial_states),
            final_states: flatten_marks(&dfa.final_states),
        }
    }

    /// The listing of a nondeterministic automaton: as for a deterministic
    /// one, with an edge for each destination of each label.
    pub fn from_nfa(nfa: Nfa) -> (r: Self)
        ensures
            r@ == (ListingModel {
                initial_states: marks_of(nfa.initial_states@),
                final_states: marks_of(nfa.final_states@),
                edges: nfa_edges_of(nfa.delta@),
            }),
    {
        PlantUml {
            edges: plantuml_edges(flatten_nfa_edges(&nfa.delta)),
            initial_states: flatten_marks(&nfa.initial_states),
            final_states: flatten_marks(&nfa.final_states),
        }
    }

    /// The PlantUML text.
    pub fn to_string(&self) -> (r: String)
        ensures
            r@ == plantuml_text(self@),
    {
        let ghost m = self@;
        let mut res = String::new();
        res.append("@startuml\n");
        res.append("hide empty description\n");
        push_marks(&mut res, &self.initial_states, true);
        push_marks(&mut res, &self.final_states, false);
        let ghost before_edges = res@;
        let ghost eg = |e: (Seq<char>, Seq<char>, Seq<char>)| plantuml_edge_line(e);
        let mut i: usize = 0;
        assert(m.edges.subrange(0, 0) =~= Seq::empty());
        while i < self.edges.len()
            invariant
                i <= self.edges.len(),
                m == self@,
                eg == (|e: (Seq<char>, Seq<char>, Seq<char>)| plantuml_edge_line(e)),
                res@ == before_edges + concat_map(m.edges.subrange(0, i as int), eg),
            decreases self.edges.len() - i,
        {
            let e = &self.edges[i];
            let ghost r0 = res@;
            res.append("\t");
            res.append(e.source.as_str());
            res.append(" --> ");
            res.append(e.destination.as_str());
            res.append(" : ");
            res.append(e.label.as_str());
            res.append("\n");
            proof {
                lemma_concat_map_step(m.edges, i as int, eg);
                assert(m.edges[i as int] == (e.source@, e.label@, e.destination@));
                assert(res@ =~= r0 + plantuml_edge_line(m.edges[i as int]));
            }
            i = i + 1;
        }
        assert(m.edges.subrange(0, m.edges.len() as int) =~= m.edges);
        res.append("@enduml\n");
        assert(res@ =~= plantuml_text(m));
        res
    }
}

} // verus!
