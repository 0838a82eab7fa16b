//! Automata as tables of display names, the input of the edge-list diagram
//! exporters: the labels of each initial and final state's marker edges, and
//! the labelled edges out of each source.

use vstd::prelude::*;

verus! {

/// A deterministic automaton: one destination per (source, label).
pub struct Dfa {
    /// Each initial state with the labels of its edges from the start marker.
    pub initial_states: Vec<(String, Vec<String>)>,
    /// Each final state with the labels of its final-marker edges.
    pub final_states: Vec<(String, Vec<String>)>,
    /// Each source with its (label, destination) pairs.
    pub delta: Vec<(String, Vec<(String, String)>)>,
}

/// A nondeterministic automaton: several destinations per (source, label).
pub struct Nfa {
    /// Each initial state with the labels of its edges from the start marker.
    pub initial_states: Vec<(String, Vec<String>)>,
    /// Each final state with the labels of its final-marker edges.
    pub final_states: Vec<(String, Vec<String>)>,
    /// Each source with its (label, destinations) pairs.
    pub delta: Vec<(String, Vec<(String, Vec<String>)>)>,
}

/// What an exporter of an edge-list automaton holds: the (state, label)
/// marker pairs and the (source, label, destination) edges, in order.
pub struct ListingModel {
    pub initial_states: Seq<(Seq<char>, Seq<char>)>,
    pub final_states: Seq<(Seq<char>, Seq<char>)>,
    pub edges: Seq<(Seq<char>, Seq<char>, Seq<char>)>,
}

/// The pieces of `s` mapped by `g`, joined.
pub open spec fn flat_map<A, B>(s: Seq<A>, g: spec_fn(A) -> Seq<B>) -> Seq<B>
    decreases s.len(),
{
    if s.len() == 0 {
        Seq::empty()
    } else {
        flat_map(s.drop_last(), g) + g(s.last())
    }
}

/// Taking one more element of `s` appends its piece.
pub proof fn lemma_flat_map_step<A, B>(s: Seq<A>, k: int, g: spec_fn(A) -> Seq<B>)
    requires
        0 <= k < s.len(),
    ensures
        flat_map(s.subrange(0, k + 1), g) == flat_map(s.subrange(0, k), g) + g(s[k]),
{
    let t = s.subrange(0, k + 1);
    assert(t.drop_last() =~= s.subrange(0, k));
    assert(t.last() == s[k]);
}

/// One (state, label) pair for each label of each state, in order.
pub open spec fn marks_of(s: Seq<(String, Vec<String>)>) -> Seq<(Seq<char>, Seq<char>)> {
    flat_map(s, |p: (String, Vec<String>)| p.1@.map_values(|l: String| (p.0@, l@)))
}

/// One edge for each (label, destination) pair of each source, in order.
pub open spec fn dfa_edges_of(s: Seq<(String, Vec<(String, String)>)>) -> Seq<(Seq<char>, Seq<char>, Seq<char>)> {
    flat_map(s, |p: (String, Vec<(String, String)>)| p.1@.map_values(|t: (String, String)| (p.0@, t.0@, t.1@)))
}

/// The edges out of `src` on each label to each of its destinations, in order.
pub open spec fn targets_of(src: Seq<char>, ts: Seq<(String, Vec<String>)>) -> Seq<(Seq<char>, Seq<char>, Seq<char>)> {
    flat_map(ts, |t: (String, Vec<String>)| t.1@.map_values(|d: String| (src, t.0@, d@)))
}

/// One edge for each destination of each label of each source, in order.
pub open spec fn nfa_edges_of(s: Seq<(String, Vec<(String, Vec<String>)>)>) -> Seq<(Seq<char>, Seq<char>, Seq<char>)> {
    flat_map(s, |p: (String, Vec<(String, Vec<String>)>)| targets_of(p.0@, p.1@))
}

/// The views of a sequence of string pairs.
pub open spec fn pair_views(s: Seq<(String, String)>) -> Seq<(Seq<char>, Seq<char>)> {
    s.map_values(|p: (String, String)| (p.0@, p.1@))
}

/// The views of a sequence of string triples.
pub open spec fn triple_views(s: Seq<(String, String, String)>) -> Seq<(Seq<char>, Seq<char>, Seq<char>)> {
    s.map_values(|p: (String, String, String)| (p.0@, p.1@, p.2@))
}

/// The (state, label) pairs of a table of marker labels.
pub(crate) fn flatten_marks(s: &Vec<(String, Vec<String>)>) -> (r: Vec<(String, String)>)
    ensures
        pair_views(r@) == marks_of(s@),
{
    let ghost g = |p: (String, Vec<String>)| p.1@.map_values(|l: String| (p.0@, l@));
    let mut r: Vec<(String, String)> = Vec::new();
    let mut i: usize = 0;
    assert(s@.subrange(0, 0) =~= Seq::<(String, Vec<String>)>::empty());
    assert(pair_views(r@) =~= Seq::empty());
    while i < s.len()
        invariant
            i <= s.len(),
            g == (|p: (String, Vec<String>)| p.1@.map_values(|l: String| (p.0@, l@))),
            pair_views(r@) == flat_map(s@.subrange(0, i as int), g),
        decreases s.len() - i,
    {
        let node = &s[i].0;
        let labels = &s[i].1;
        let ghost before = pair_views(r@);
        let mut j: usize = 0;
        while j < labels.len()
            invariant
                j <= labels.len(),
                pair_views(r@) == before + labels@.subrange(0, j as int).map_values(|l: String| (node@, l@)),
            decreases labels.len() - j,
        {
            let ghost r0 = r@;
            r.push((node.clone(), labels[j].clone()));
            assert(pair_views(r@) =~= pair_views(r0).push((node@, labels@[j as int]@)));
            assert(labels@.subrange(0, j + 1).map_values(|l: String| (node@, l@)) =~= labels@.subrange(
                0,
                j as int,
            ).map_values(|l: String| (node@, l@)).push((node@, labels@[j as int]@)));
            j = j + 1;
        }
        proof {
            lemma_flat_map_step(s@, i as int, g);
            assert(labels@.subrange(0, labels.len() as int) =~= labels@);
        }
        i = i + 1;
    }
    assert(s@.subrange(0, s.len() as int) =~= s@);
    r
}

/// The (source, label, destination) edges of a deterministic table.
pub(crate) fn flatten_dfa_edges(s: &Vec<(String, Vec<(String, String)>)>) -> (r: Vec<(String, String, String)>)
    ensures
        triple_views(r@) == dfa_edges_of(s@),
{
    let ghost g = |p: (String, Vec<(String, String)>)| p.1@.map_values(|t: (String, String)| (p.0@, t.0@, t.1@));
    let mut r: Vec<(String, String, String)> = Vec::new();
    let mut i: usize = 0;
    assert(s@.subrange(0, 0) =~= Seq::<(String, Vec<(String, String)>)>::empty());
    assert(triple_views(r@) =~= Seq::empty());
    while i < s.len()
        invariant
            i <= s.len(),
            g == (|p: (String, Vec<(String, String)>)| p.1@.map_values(|t: (String, String)| (p.0@, t.0@, t.1@))),
            triple_views(r@) == flat_map(s@.subrange(0, i as int), g),
        decreases s.len() - i,
    {
        let src = &s[i].0;
        let pairs = &s[i].1;
        let ghost before = triple_views(r@);
        let mut j: usize = 0;
        while j < pairs.len()
            invariant
                j <= pairs.len(),
                triple_views(r@) == before + pairs@.subrange(0, j as int).map_values(
                    |t: (String, String)| (src@, t.0@, t.1@),
                ),
            decreases pairs.len() - j,
        {
            let ghost r0 = r@;
            r.push((src.clone(), pairs[j].0.clone(), pairs[j].1.clone()));
            assert(triple_views(r@) =~= triple_views(r0).push((src@, pairs@[j as int].0@, pairs@[j as int].1@)));
            assert(pairs@.subrange(0, j + 1).map_values(|t: (String, String)| (src@, t.0@, t.1@)) =~= pairs@.subrange(
                0,
                j as int,
            ).map_values(|t: (String, String)| (src@, t.0@, t.1@)).push(
                (src@, pairs@[j as int].0@, pairs@[j as int].1@),
            ));
            j = j + 1;
        }
        proof {
            lemma_flat_map_step(s@, i as int, g);
            assert(pairs@.subrange(0, pairs.len() as int) =~= pairs@);
        }
        i = i + 1;
    }
    assert(s@.subrange(0, s.len() as int) =~= s@);
    r
}

/// Append the edges out of `src` on each label to each of its destinations.
fn push_targets(r: &mut Vec<(String, String, String)>, src: &String, ts: &Vec<(String, Vec<String>)>)
    ensures
        triple_views(final(r)@) == triple_views(old(r)@) + targets_of(src@, ts@),
{
    let ghost g = |t: (String, Vec<String>)| t.1@.map_values(|d: String| (src@, t.0@, d@));
    let ghost start = triple_views(r@);
    let mut i: usize = 0;
    assert(ts@.subrange(0, 0) =~= Seq::<(String, Vec<String>)>::empty());
    assert(start =~= start + Seq::empty());
    while i < ts.len()
        invariant
            i <= ts.len(),
            g == (|t: (String, Vec<String>)| t.1@.map_values(|d: String| (src@, t.0@, d@))),
            start == triple_views(old(r)@),
            triple_views(r@) == start + flat_map(ts@.subrange(0, i as int), g),
        decreases ts.len() - i,
    {
        let label = &ts[i].0;
        let dests = &ts[i].1;
        let ghost before = triple_views(r@);
        let mut j: usize = 0;
        while j < dests.len()
            invariant
                j <= dests.len(),
                triple_views(r@) == before + dests@.subrange(0, j as int).map_values(
                    |d: String| (src@, label@, d@),
                ),
            decreases dests.len() - j,
        {
            let ghost r0 = r@;
            r.push((src.clone(), label.clone(), dests[j].clone()));
            assert(triple_views(r@) =~= triple_views(r0).push((src@, label@, dests@[j as int]@)));
            assert(dests@.subrange(0, j + 1).map_values(|d: String| (src@, label@, d@)) =~= dests@.subrange(
                0,
                j as int,
            ).map_values(|d: String| (src@, label@, d@)).push((src@, label@, dests@[j as int]@)));
            j = j + 1;
        }
        proof {
            lemma_flat_map_step(ts@, i as int, g);
            assert(dests@.subrange(0, dests.len() as int) =~= dests@);
        }
        i = i + 1;
    }
    assert(ts@.subrange(0, ts.len() as int) =~= ts@);
}

/// The (source, label, destination) edges of a nondeterministic table.
pub(crate) fn flatten_nfa_edges(s: &Vec<(String, Vec<(String, Vec<String>)>)>) -> (r: Vec<(String, String, String)>)
    ensures
        triple_views(r@) == nfa_edges_of(s@),
{
    let ghost g = |p: (String, Vec<(String, Vec<String>)>)| targets_of(p.0@, p.1@);
    let mut r: Vec<(String, String, String)> = Vec::new();
    let mut i: usize = 0;
    assert(s@.subrange(0, 0) =~= Seq::<(String, Vec<(String, Vec<String>)>)>::empty());
    assert(triple_views(r@) =~= Seq::empty());
    while i < s.len()
        invariant
            i <= s.len(),
            g == (|p: (String, Vec<(String, Vec<String>)>)| targets_of(p.0@, p.1@)),
            triple_views(r@) == flat_map(s@.subrange(0, i as int), g),
        decreases s.len() - i,
    {
        push_targets(&mut r, &s[i].0, &s[i].1);
        proof {
            lemma_flat_map_step(s@, i as int, g);
        }
        i = i + 1;
    }
    assert(s@.subrange(0, s.len() as int) =~= s@);
    r
}

} // verus!
