//! The intermediate automaton: transitions keyed by an optional source state
//! (absent for the initial pseudo-state) and a symbol, each leading to a single
//! state, possibly relabelled, or to a decision among several branches.

use vstd::prelude::*;

use crate::render::{
    choice_decl, concat_map, diagram_text, entry_text, lemma_concat_map_step, opt_view,
    push_choice_decl, push_entry, push_footer, push_header, push_state_decl, state_decl,
    DiagramFormat,
};

verus! {

/// Display metadata attached to a destination: an optional label.
#[derive(Debug, Clone, PartialEq, Eq, Hash)]
pub struct Metadata {
    pub transition_label: Option<String>,
}

impl Metadata {
    /// Metadata without a label.
    pub fn empty() -> (r: Self)
        ensures
            r.transition_label.is_none(),
    {
        Metadata { transition_label: None }
    }

    /// Metadata carrying `label`.
    pub fn new(label: String) -> (r: Self)
        ensures
            r.transition_label == Some(label),
    {
        Metadata { transition_label: Some(label) }
    }
}

impl Default for Metadata {
    /// Metadata carrying the empty label.
    fn default() -> (r: Self)
        ensures
            r.transition_label.is_some(),
            r.transition_label.unwrap()@.len() == 0,
    {
        Metadata::new(String::new())
    }
}

/// A destination state: `None` stands for the terminal pseudo-state.
#[derive(Debug, Clone)]
pub struct StateNode {
    pub state: Option<String>,
    pub metadata: Metadata,
}

/// What a destination state holds: its identifier and its label, if any.
pub struct StateNodeModel {
    pub state: Option<Seq<char>>,
    pub label: Option<Seq<char>>,
}

impl View for StateNode {
    type V = StateNodeModel;

    open spec fn view(&self) -> StateNodeModel {
        StateNodeModel { state: opt_view(self.state), label: opt_view(self.metadata.transition_label) }
    }
}

impl StateNode {
    /// A destination state without a label.
    pub fn new(state: Option<String>) -> (r: Self)
        ensures
            r@ == (StateNodeModel { state: opt_view(state), label: None }),
    {
        StateNode { state, metadata: Metadata::empty() }
    }
}

/// The destination of a transition: a single state, or a decision among
/// branches taken without further input.
#[derive(Debug, Clone)]
pub enum Node {
    State(StateNode),
    Decision(Vec<StateNode>),
}

/// What a destination holds.
pub enum NodeModel {
    State(StateNodeModel),
    Decision(Seq<StateNodeModel>),
}

impl View for Node {
    type V = NodeModel;

    open spec fn view(&self) -> NodeModel {
        match self {
            Node::State(n) => NodeModel::State(n@),
            Node::Decision(v) => NodeModel::Decision(v@.map_values(|n: StateNode| n@)),
        }
    }
}

impl From<String> for Node {
    fn from(s: String) -> Self {
        Node::State(StateNode { state: Some(s), metadata: Metadata { transition_label: None } })
    }
}

impl vstd::std_specs::convert::FromSpecImpl<String> for Node {
    open spec fn obeys_from_spec() -> bool {
        true
    }

    open spec fn from_spec(v: String) -> Self {
        Node::State(StateNode { state: Some(v), metadata: Metadata { transition_label: None } })
    }
}

impl From<Option<String>> for Node {
    fn from(s: Option<String>) -> Self {
        Node::State(StateNode { state: s, metadata: Metadata { transition_label: None } })
    }
}

impl vstd::std_specs::convert::FromSpecImpl<Option<String>> for Node {
    open spec fn obeys_from_spec() -> bool {
        true
    }

    open spec fn from_spec(v: Option<String>) -> Self {
        Node::State(StateNode { state: v, metadata: Metadata { transition_label: None } })
    }
}

impl From<Vec<StateNode>> for Node {
    fn from(s: Vec<StateNode>) -> Self {
        Node::Decision(s)
    }
}

impl vstd::std_specs::convert::FromSpecImpl<Vec<StateNode>> for Node {
    open spec fn obeys_from_spec() -> bool {
        true
    }

    open spec fn from_spec(v: Vec<StateNode>) -> Self {
        Node::Decision(v)
    }
}

/// A transition symbol of the intermediate automaton.
#[derive(Debug, Clone, PartialEq, Eq, Hash)]
pub struct Transition {
    pub transition: String,
}

impl View for Transition {
    type V = Seq<char>;

    open spec fn view(&self) -> Seq<char> {
        self.transition@
    }
}

impl Transition {
    /// A transition with symbol `transition`.
    pub fn new(transition: String) -> (r: Self)
        ensures
            r@ == transition@,
    {
        Transition { transition }
    }

    /// A transition with symbol `transition`; the metadata is not kept.
    pub fn _with_metadata(transition: String, _metadata: Metadata) -> (r: Self)
        ensures
            r@ == transition@,
    {
        Transition { transition }
    }
}

impl From<String> for Transition {
    fn from(t: String) -> Self {
        Transition { transition: t }
    }
}

impl vstd::std_specs::convert::FromSpecImpl<String> for Transition {
    open spec fn obeys_from_spec() -> bool {
        true
    }

    open spec fn from_spec(v: String) -> Self {
        Transition { transition: v }
    }
}

/// One stored transition: its source (absent for the initial pseudo-state),
/// its symbol and its destination.
pub struct EntryModel {
    pub source: Option<Seq<char>>,
    pub transition: Seq<char>,
    pub destination: NodeModel,
}

/// The two entries have the same (source, symbol) key.
pub open spec fn same_key(a: EntryModel, b: EntryModel) -> bool {
    a.source == b.source && a.transition == b.transition
}

/// A destination that an edge from the initial pseudo-state may have: a
/// single state that is not the terminal pseudo-state.
pub open spec fn valid_start_destination(n: NodeModel) -> bool {
    match n {
        NodeModel::State(s) => s.state.is_some(),
        NodeModel::Decision(_) => false,
    }
}

/// What an intermediate automaton holds, in insertion order.
pub struct IntermediateModel {
    pub states: Seq<Seq<char>>,
    pub choices: Seq<Seq<char>>,
    pub delta: Seq<EntryModel>,
}

impl IntermediateModel {
    /// States and choices are each held once, each (source, symbol) key has
    /// one entry, and edges from the initial pseudo-state lead to a state.
    pub open spec fn well_formed(self) -> bool {
        &&& self.states.no_duplicates()
        &&& self.choices.no_duplicates()
        &&& forall|i: int, j: int|
            0 <= i < j < self.delta.len() ==> !same_key(#[trigger] self.delta[i], #[trigger] self.delta[j])
        &&& forall|i: int|
            0 <= i < self.delta.len() && (#[trigger] self.delta[i]).source.is_none()
                ==> valid_start_destination(self.delta[i].destination)
    }

    /// The automaton with entry `e` stored: it replaces the entry with the
    /// same key where there is one, and is appended otherwise.
    pub open spec fn with_entry(self, e: EntryModel) -> IntermediateModel {
        if exists|i: int| 0 <= i < self.delta.len() && same_key(#[trigger] self.delta[i], e) {
            let i = choose|i: int| 0 <= i < self.delta.len() && same_key(#[trigger] self.delta[i], e);
            IntermediateModel { delta: self.delta.update(i, e), ..self }
        } else {
            IntermediateModel { delta: self.delta.push(e), ..self }
        }
    }

    /// The destination stored for a key, if any.
    pub open spec fn destination_of(self, source: Option<Seq<char>>, transition: Seq<char>) -> Option<NodeModel> {
        if exists|i: int|
            0 <= i < self.delta.len() && (#[trigger] self.delta[i]).source == source && self.delta[i].transition
                == transition {
            let i = choose|i: int|
                0 <= i < self.delta.len() && (#[trigger] self.delta[i]).source == source
                    && self.delta[i].transition == transition;
            Some(self.delta[i].destination)
        } else {
            None
        }
    }
}

/// A stored transition.
struct Entry {
    source: Option<String>,
    transition: Transition,
    destination: Node,
}

impl View for Entry {
    type V = EntryModel;

    closed spec fn view(&self) -> EntryModel {
        EntryModel { source: opt_view(self.source), transition: self.transition@, destination: self.destination@ }
    }
}

/// An automaton whose transitions may lead to decisions, with a set of
/// states and a set of choice states.
pub struct IntermediateAutomaton {
    states: Vec<String>,
    choices: Vec<String>,
    delta: Vec<Entry>,
}

impl View for IntermediateAutomaton {
    type V = IntermediateModel;

    closed spec fn view(&self) -> IntermediateModel {
        IntermediateModel {
            states: string_views(self.states@),
            choices: string_views(self.choices@),
            delta: self.delta@.map_values(|e: Entry| e@),
        }
    }
}

/// The views of a sequence of strings.
pub open spec fn string_views(v: Seq<String>) -> Seq<Seq<char>> {
    v.map_values(|x: String| x@)
}

/// Whether `v` holds a string equal to `s`, and if not, `v` with `s` appended.
fn insert_unique(v: &mut Vec<String>, s: String) -> (r: bool)
    requires
        string_views(old(v)@).no_duplicates(),
    ensures
        r == !string_views(old(v)@).contains(s@),
        string_views(final(v)@) == (if r {
            string_views(old(v)@).push(s@)
        } else {
            string_views(old(v)@)
        }),
        string_views(final(v)@).no_duplicates(),
{
    let ghost views = string_views(v@);
    let mut i: usize = 0;
    while i < v.len()
        invariant
            i <= v.len(),
            v@ == old(v)@,
            views == string_views(old(v)@),
            views.no_duplicates(),
            forall|j: int| 0 <= j < i ==> views[j] != s@,
        decreases v.len() - i,
    {
        if v[i] == s {
            assert(views[i as int] == s@);
            return false;
        }
        i = i + 1;
    }
    v.push(s);
    assert(string_views(v@) =~= views.push(s@));
    true
}

fn same_source(a: &Option<String>, b: &Option<String>) -> (r: bool)
    ensures
        r == (opt_view(*a) == opt_view(*b)),
{
    match (a, b) {
        (Some(x), Some(y)) => *x == *y,
        (None, None) => true,
        _ => false,
    }
}

impl IntermediateAutomaton {
    /// An automaton with no states, choices or transitions.
    pub fn new() -> (r: Self)
        ensures
            r@.well_formed(),
            r@.states.len() == 0,
            r@.choices.len() == 0,
            r@.delta.len() == 0,
    {
        let r = IntermediateAutomaton { states: Vec::new(), choices: Vec::new(), delta: Vec::new() };
        assert(r@.states =~= Seq::empty());
        assert(r@.choices =~= Seq::empty());
        assert(r@.delta =~= Seq::empty());
        r
    }

    /// Add a state; true where it was not there before.
    pub fn add_state(&mut self, state: String) -> (r: bool)
        requires
            old(self)@.well_formed(),
        ensures
            final(self)@.well_formed(),
            r == !old(self)@.states.contains(state@),
            final(self)@ == (IntermediateModel {
                states: if r { old(self)@.states.push(state@) } else { old(self)@.states },
                ..old(self)@
            }),
    {
        insert_unique(&mut self.states, state)
    }

    /// Add a choice state; true where it was not there before.
    pub fn add_choice(&mut self, choice: String) -> (r: bool)
        requires
            old(self)@.well_formed(),
        ensures
            final(self)@.well_formed(),
            r == !old(self)@.choices.contains(choice@),
            final(self)@ == (IntermediateModel {
                choices: if r { old(self)@.choices.push(choice@) } else { old(self)@.choices },
                ..old(self)@
            }),
    {
        insert_unique(&mut self.choices, choice)
    }

    /// Store `destinations` for the key (`source`, `transition`), replacing
    /// the destination stored for that key before, if any. An edge from the
    /// initial pseudo-state (`source` absent) must lead to a state.
    pub fn add_transition(&mut self, source: Option<String>, transition: Transition, destinations: Node)
        requires
            old(self)@.well_formed(),
            source.is_some() || valid_start_destination(destinations@),
        ensures
            final(self)@.well_formed(),
            final(self)@ == old(self)@.with_entry(
                EntryModel { source: opt_view(source), transition: transition@, destination: destinations@ },
            ),
    {
        let ghost m = self@;
        let ghost e = EntryModel { source: opt_view(source), transition: transition@, destination: destinations@ };
        let mut i: usize = 0;
        while i < self.delta.len()
            invariant
                i <= self.delta.len(),
                self@ == m,
                m == old(self)@,
                e == (EntryModel { source: opt_view(source), transition: transition@, destination: destinations@ }),
                m.well_formed(),
                source.is_some() || valid_start_destination(destinations@),
                forall|j: int| 0 <= j < i ==> !same_key(#[trigger] m.delta[j], e),
            decreases self.delta.len() - i,
        {
            let cur = &self.delta[i];
            let same_src = same_source(&cur.source, &source);
            let same_sym = cur.transition.transition == transition.transition;
            let found = same_src && same_sym;
            proof {
                let ei = self.delta@[i as int];
                assert(same_src == (opt_view(ei.source) == e.source));
                assert(same_sym == (ei.transition.transition@ == e.transition));
                assert(m.delta[i as int] == ei@);
                assert(ei@.source == opt_view(ei.source));
                assert(ei@.transition == ei.transition.transition@);
                assert(found == same_key(m.delta[i as int], e));
            }
            if found {
                assert(same_key(m.delta[i as int], e));
                let entry = Entry { source, transition, destination: destinations };
                self.delta.set(i, entry);
                proof {
                    let k = choose|k: int| 0 <= k < m.delta.len() && same_key(#[trigger] m.delta[k], e);
                    assert(k == i) by {
                        if k < i {
                        } else if k > i {
                            assert(!same_key(m.delta[i as int], m.delta[k]));
                        }
                    }
                    assert(self@.delta =~= m.delta.update(i as int, e));
                    assert forall|x: int, y: int| 0 <= x < y < self@.delta.len() implies !same_key(
                        #[trigger] self@.delta[x],
                        #[trigger] self@.delta[y],
                    ) by {
                        assert(!same_key(m.delta[x], m.delta[y]));
                    }
                    assert(self@.states =~= m.states);
                    assert(self@.choices =~= m.choices);
                }
                return;
            }
            i = i + 1;
        }
        self.delta.push(Entry { source, transition, destination: destinations });
        assert(self@.delta =~= m.delta.push(e));
        assert(self@.states =~= m.states);
        assert(self@.choices =~= m.choices);
    }
}

impl Default for IntermediateAutomaton {
    /// An automaton with no states, choices or transitions.
    fn default() -> (r: Self)
        ensures
            r@.well_formed(),
            r@.states.len() == 0,
            r@.choices.len() == 0,
            r@.delta.len() == 0,
    {
        IntermediateAutomaton::new()
    }
}

impl IntermediateAutomaton {
    /// The diagram of the automaton in format `f`.
    pub fn export(&self, f: DiagramFormat) -> (r: String)
        ensures
            r@ == diagram_text(f, self@),
    {
        let mut res = String::new();
        push_header(&mut res, f);
        let ghost m = self@;
        let ghost before_choices = res@;
        let ghost cg = |c: Seq<char>| choice_decl(f, c);
        let mut k: usize = 0;
        assert(m.choices.subrange(0, 0) =~= Seq::empty());
        while k < self.choices.len()
            invariant
                k <= self.choices.len(),
                m == self@,
                cg == (|c: Seq<char>| choice_decl(f, c)),
                res@ == before_choices + concat_map(m.choices.subrange(0, k as int), cg),
            decreases self.choices.len() - k,
        {
            push_choice_decl(&mut res, f, self.choices[k].as_str());
            proof {
                lemma_concat_map_step(m.choices, k as int, cg);
            }
            k = k + 1;
        }
        assert(m.choices.subrange(0, m.choices.len() as int) =~= m.choices);
        let ghost before_states = res@;
        let ghost sg = |s: Seq<char>| state_decl(f, s);
        k = 0;
        assert(m.states.subrange(0, 0) =~= Seq::empty());
        while k < self.states.len()
            invariant
                k <= self.states.len(),
                m == self@,
                sg == (|s: Seq<char>| state_decl(f, s)),
                res@ == before_states + concat_map(m.states.subrange(0, k as int), sg),
            decreases self.states.len() - k,
        {
            push_state_decl(&mut res, f, self.states[k].as_str());
            proof {
                lemma_concat_map_step(m.states, k as int, sg);
            }
            k = k + 1;
        }
        assert(m.states.subrange(0, m.states.len() as int) =~= m.states);
        let ghost before_entries = res@;
        let ghost eg = |e: EntryModel| entry_text(f, e);
        k = 0;
        assert(m.delta.subrange(0, 0) =~= Seq::empty());
        while k < self.delta.len()
            invariant
                k <= self.delta.len(),
                m == self@,
                eg == (|e: EntryModel| entry_text(f, e)),
                res@ == before_entries + concat_map(m.delta.subrange(0, k as int), eg),
            decreases self.delta.len() - k,
        {
            let e = &self.delta[k];
            push_entry(&mut res, f, &e.source, &e.transition, &e.destination);
            proof {
                lemma_concat_map_step(m.delta, k as int, eg);
                assert(m.delta[k as int] == e@);
            }
            k = k + 1;
        }
        assert(m.delta.subrange(0, m.delta.len() as int) =~= m.delta);
        push_footer(&mut res, f);
        assert(res@ =~= diagram_text(f, m));
        res
    }
}

/// Storing a second destination for a key that already has one replaces it:
/// the automaton is as if only the second had been stored, the key leads to
/// the second destination, and every diagram of it shows only that one.
pub proof fn lemma_transition_replaced(m: IntermediateModel, e1: EntryModel, e2: EntryModel, f: DiagramFormat)
    requires
        m.well_formed(),
        same_key(e1, e2),
    ensures
        m.with_entry(e1).with_entry(e2) == m.with_entry(e2),
        m.with_entry(e2).destination_of(e2.source, e2.transition) == Some(e2.destination),
        diagram_text(f, m.with_entry(e1).with_entry(e2)) == diagram_text(f, m.with_entry(e2)),
{
    let m1 = m.with_entry(e1);
    let m2 = m.with_entry(e2);
    let d = m.delta;
    if exists|i: int| 0 <= i < d.len() && same_key(#[trigger] d[i], e1) {
        let i = choose|i: int| 0 <= i < d.len() && same_key(#[trigger] d[i], e1);
        assert(m1.delta == d.update(i, e1));
        assert(same_key(m1.delta[i], e2));
        let j = choose|j: int| 0 <= j < m1.delta.len() && same_key(#[trigger] m1.delta[j], e2);
        if j != i {
            assert(same_key(d[j], e2));
            if j < i {
                assert(!same_key(d[j], d[i]));
            } else {
                assert(!same_key(d[i], d[j]));
            }
        }
        assert(same_key(d[i], e2));
        let k = choose|k: int| 0 <= k < d.len() && same_key(#[trigger] d[k], e2);
        if k != i {
            if k < i {
                assert(!same_key(d[k], d[i]));
            } else {
                assert(!same_key(d[i], d[k]));
            }
        }
        assert(m1.with_entry(e2).delta =~= m2.delta);
        assert(m2.delta[i] == e2);
        let q = choose|q: int|
            0 <= q < m2.delta.len() && (#[trigger] m2.delta[q]).source == e2.source && m2.delta[q].transition
                == e2.transition;
        if q != i {
            assert(same_key(d[q], e2));
            if q < i {
                assert(!same_key(d[q], d[i]));
            } else {
                assert(!same_key(d[i], d[q]));
            }
        }
    } else {
        assert(m1.delta == d.push(e1));
        let n = d.len() as int;
        assert(same_key(m1.delta[n], e2));
        let j = choose|j: int| 0 <= j < m1.delta.len() && same_key(#[trigger] m1.delta[j], e2);
        if j != n {
            assert(same_key(d[j], e1));
        }
        assert(!exists|k: int| 0 <= k < d.len() && same_key(#[trigger] d[k], e2)) by {
            if exists|k: int| 0 <= k < d.len() && same_key(#[trigger] d[k], e2) {
                let k = choose|k: int| 0 <= k < d.len() && same_key(#[trigger] d[k], e2);
                assert(same_key(d[k], e1));
            }
        }
        assert(m1.with_entry(e2).delta =~= m2.delta);
        assert(m2.delta[n] == e2);
        let q = choose|q: int|
            0 <= q < m2.delta.len() && (#[trigger] m2.delta[q]).source == e2.source && m2.delta[q].transition
                == e2.transition;
        if q != n {
            assert(same_key(d[q], e2));
        }
    }
}

/// Exporting is deterministic: two exports of the same automaton in the same
/// format give the same text, byte for byte.
pub proof fn lemma_export_deterministic(a: &IntermediateAutomaton, f: DiagramFormat, r1: String, r2: String)
    requires
        call_ensures(IntermediateAutomaton::export, (a, f), r1),
        call_ensures(IntermediateAutomaton::export, (a, f), r2),
    ensures
        r1@ == r2@,
{
}

/// An edge to a direct destination carries the transition symbol as its
/// label; the edges to the branches of a decision do not show it: their text
/// is the same whatever the symbol.
pub proof fn lemma_symbol_display(f: DiagramFormat, e: EntryModel, other: Seq<char>)
    ensures
        e.destination is State ==> entry_text(f, e) == crate::render::edge_line(
            f,
            crate::render::source_name(f, e.source),
            crate::render::target_name(f, e.destination->State_0),
            Some(e.transition),
        ),
        e.destination is Decision ==> entry_text(f, e) == entry_text(
            f,
            EntryModel { source: e.source, transition: other, destination: e.destination },
        ),
{
}

/// Conversion into a Mermaid state diagram.
pub trait IntoMermaid: Sized {
    fn into_mermaid(self) -> String;
}

impl IntoMermaid for IntermediateAutomaton {
    fn into_mermaid(self) -> (r: String)
        ensures
            r@ == diagram_text(DiagramFormat::Mermaid, self@),
    {
        self.export(DiagramFormat::Mermaid)
    }
}

/// Conversion into a PlantUML state diagram.
pub trait IntoPlantUml: Sized {
    fn into_plantuml(self) -> String;
}

impl IntoPlantUml for IntermediateAutomaton {
    fn into_plantuml(self) -> (r: String)
        ensures
            r@ == diagram_text(DiagramFormat::PlantUml, self@),
    {
        self.export(DiagramFormat::PlantUml)
    }
}

/// Conversion into a Graphviz DOT digraph.
pub trait IntoDot: Sized {
    fn into_dot(self) -> String;
}

impl IntoDot for IntermediateAutomaton {
    fn into_dot(self) -> (r: String)
        ensures
            r@ == diagram_text(DiagramFormat::Dot, self@),
    {
        self.export(DiagramFormat::Dot)
    }
}

} // verus!
