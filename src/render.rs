//! The text of the three diagram formats: the rules that turn one stored
//! transition of the intermediate automaton into edges, parameterised by the
//! spelling of each format.

use vstd::prelude::*;

use vstd::string::StringExecFns;

use crate::intermediate_graph::{
    EntryModel, IntermediateModel, Node, NodeModel, StateNode, StateNodeModel, Transition,
};

verus! {

/// The view of an optional string.
pub open spec fn opt_view(o: Option<String>) -> Option<Seq<char>> {
    match o {
        Some(s) => Some(s@),
        None => None,
    }
}

/// The view of an optional string slice.
pub open spec fn opt_str_view(o: Option<&str>) -> Option<Seq<char>> {
    match o {
        Some(s) => Some(s@),
        None => None,
    }
}

/// The three diagram formats.
#[derive(Debug, Clone, Copy, PartialEq, Eq, Structural)]
pub enum DiagramFormat {
    /// Graphviz DOT.
    Dot,
    /// PlantUML state diagram.
    PlantUml,
    /// Mermaid state diagram.
    Mermaid,
}

/// The name of the initial pseudo-state.
pub open spec fn start_marker(f: DiagramFormat) -> Seq<char> {
    match f {
        DiagramFormat::Dot => "_initial_"@,
        _ => "[*]"@,
    }
}

/// The name of the terminal pseudo-state.
pub open spec fn end_marker(f: DiagramFormat) -> Seq<char> {
    match f {
        DiagramFormat::Dot => "_final_"@,
        _ => "[*]"@,
    }
}

/// One edge from `src` to `dst`, with text `label` where there is one.
pub open spec fn edge_line(f: DiagramFormat, src: Seq<char>, dst: Seq<char>, label: Option<Seq<char>>) -> Seq<char> {
    match f {
        DiagramFormat::Dot => "  "@ + src + " -> "@ + dst + match label {
            Some(l) => " [label="@ + l + "]"@,
            None => Seq::empty(),
        } + ";\n"@,
        _ => src + " --> "@ + dst + match label {
            Some(l) => " : "@ + l,
            None => Seq::empty(),
        } + "\n"@,
    }
}

/// The pieces of `s` mapped by `g`, one after the other.
pub open spec fn concat_map<A>(s: Seq<A>, g: spec_fn(A) -> Seq<char>) -> Seq<char>
    decreases s.len(),
{
    if s.len() == 0 {
        Seq::empty()
    } else {
        concat_map(s.drop_last(), g) + g(s.last())
    }
}

/// Taking one more element of `s` appends its piece.
pub proof fn lemma_concat_map_step<A>(s: Seq<A>, k: int, g: spec_fn(A) -> Seq<char>)
    requires
        0 <= k < s.len(),
    ensures
        concat_map(s.subrange(0, k + 1), g) == concat_map(s.subrange(0, k), g) + g(s[k]),
{
    let t = s.subrange(0, k + 1);
    assert(t.drop_last() =~= s.subrange(0, k));
    assert(t.last() == s[k]);
}

/// Where an edge from `source` starts: the source state, or the initial
/// pseudo-state where the source is absent.
pub open spec fn source_name(f: DiagramFormat, source: Option<Seq<char>>) -> Seq<char> {
    match source {
        Some(s) => s,
        None => start_marker(f),
    }
}

/// Where an edge to a direct destination ends: the terminal pseudo-state, the
/// label where the destination has one, or else the state.
pub open spec fn target_name(f: DiagramFormat, n: StateNodeModel) -> Seq<char> {
    match n.state {
        None => end_marker(f),
        Some(q) => match n.label {
            Some(l) => l,
            None => q,
        },
    }
}

/// The edge to one branch of a decision: it ends at the branch's state (or
/// the terminal pseudo-state) and carries the branch's label, if any.
pub open spec fn branch_line(f: DiagramFormat, src: Seq<char>, b: StateNodeModel) -> Seq<char> {
    edge_line(
        f,
        src,
        match b.state {
            Some(q) => q,
            None => end_marker(f),
        },
        b.label,
    )
}

/// The edges to the branches of a decision, in order.
pub open spec fn branches_text(f: DiagramFormat, src: Seq<char>, bs: Seq<StateNodeModel>) -> Seq<char> {
    concat_map(bs, |b: StateNodeModel| branch_line(f, src, b))
}

/// The edges of one stored transition. A direct destination gives one edge
/// that carries the transition symbol; a decision gives one edge per branch,
/// none of which carries it.
pub open spec fn entry_text(f: DiagramFormat, e: EntryModel) -> Seq<char> {
    match e.destination {
        NodeModel::State(n) => edge_line(f, source_name(f, e.source), target_name(f, n), Some(e.transition)),
        NodeModel::Decision(bs) => branches_text(f, source_name(f, e.source), bs),
    }
}

/// The edges of all stored transitions, in order.
pub open spec fn entries_text(f: DiagramFormat, d: Seq<EntryModel>) -> Seq<char> {
    concat_map(d, |e: EntryModel| entry_text(f, e))
}

/// The declaration of a choice state.
pub open spec fn choice_decl(f: DiagramFormat, c: Seq<char>) -> Seq<char> {
    match f {
        DiagramFormat::Dot => "  "@ + c + " [shape=diamond];\n"@,
        _ => "state "@ + c + " <<choice>>\n"@,
    }
}

/// The declaration of a state; DOT declares none.
pub open spec fn state_decl(f: DiagramFormat, s: Seq<char>) -> Seq<char> {
    match f {
        DiagramFormat::Dot => Seq::empty(),
        _ => "state "@ + s + "\n"@,
    }
}

/// What a diagram opens with; in DOT, the initial pseudo-state comes first.
pub open spec fn header(f: DiagramFormat) -> Seq<char> {
    match f {
        DiagramFormat::Dot => "digraph Automata {\n"@
            + "  _initial_ [label=\"\", fillcolor=black, fixedsize=true, height=0.25, style=filled, shape=circle];\n"@,
        DiagramFormat::PlantUml => "@startuml\n"@,
        DiagramFormat::Mermaid => "stateDiagram-v2\n"@,
    }
}

/// What a diagram closes with; in DOT, the terminal pseudo-state comes last.
pub open spec fn footer(f: DiagramFormat) -> Seq<char> {
    match f {
        DiagramFormat::Dot => "  _final_ [label=\"\", fillcolor=black, fixedsize=true, height=0.25, style=filled, shape=doublecircle];\n"@
            + "}"@,
        DiagramFormat::PlantUml => "@enduml\n"@,
        DiagramFormat::Mermaid => Seq::empty(),
    }
}

/// The declarations of the choice states, in order.
pub open spec fn choice_decls(f: DiagramFormat, cs: Seq<Seq<char>>) -> Seq<char> {
    concat_map(cs, |c: Seq<char>| choice_decl(f, c))
}

/// The declarations of the states, in order.
pub open spec fn state_decls(f: DiagramFormat, ss: Seq<Seq<char>>) -> Seq<char> {
    concat_map(ss, |s: Seq<char>| state_decl(f, s))
}

/// The whole diagram of an intermediate automaton: header, choice states
/// (before any edge), states, the edges of each stored transition, footer.
pub open spec fn diagram_text(f: DiagramFormat, m: IntermediateModel) -> Seq<char> {
    header(f) + choice_decls(f, m.choices) + state_decls(f, m.states) + entries_text(f, m.delta) + footer(f)
}

pub(crate) fn push_header(res: &mut String, f: DiagramFormat)
    ensures
        final(res)@ == old(res)@ + header(f),
{
    match f {
        DiagramFormat::Dot => {
            res.append("digraph Automata {\n");
            res.append(
                "  _initial_ [label=\"\", fillcolor=black, fixedsize=true, height=0.25, style=filled, shape=circle];\n",
            );
        },
        DiagramFormat::PlantUml => res.append("@startuml\n"),
        DiagramFormat::Mermaid => res.append("stateDiagram-v2\n"),
    }
    assert(res@ =~= old(res)@ + header(f));
}

pub(crate) fn push_footer(res: &mut String, f: DiagramFormat)
    ensures
        final(res)@ == old(res)@ + footer(f),
{
    match f {
        DiagramFormat::Dot => {
            res.append(
                "  _final_ [label=\"\", fillcolor=black, fixedsize=true, height=0.25, style=filled, shape=doublecircle];\n",
            );
            res.append("}");
        },
        DiagramFormat::PlantUml => res.append("@enduml\n"),
        DiagramFormat::Mermaid => {},
    }
    assert(res@ =~= old(res)@ + footer(f));
}

pub(crate) fn push_choice_decl(res: &mut String, f: DiagramFormat, c: &str)
    ensures
        final(res)@ == old(res)@ + choice_decl(f, c@),
{
    match f {
        DiagramFormat::Dot => {
            res.append("  ");
            res.append(c);
            res.append(" [shape=diamond];\n");
        },
        _ => {
            res.append("state ");
            res.append(c);
            res.append(" <<choice>>\n");
        },
    }
    assert(res@ =~= old(res)@ + choice_decl(f, c@));
}

pub(crate) fn push_state_decl(res: &mut String, f: DiagramFormat, s: &str)
    ensures
        final(res)@ == old(res)@ + state_decl(f, s@),
{
    match f {
        DiagramFormat::Dot => {},
        _ => {
            res.append("state ");
            res.append(s);
            res.append("\n");
        },
    }
    assert(res@ =~= old(res)@ + state_decl(f, s@));
}

/// Append one edge line.
fn push_edge_line(res: &mut String, f: DiagramFormat, src: &str, dst: &str, label: Option<&str>)
    ensures
        final(res)@ == old(res)@ + edge_line(f, src@, dst@, opt_str_view(label)),
{
    match f {
        DiagramFormat::Dot => {
            res.append("  ");
            res.append(src);
            res.append(" -> ");
            res.append(dst);
            match label {
                Some(l) => {
                    res.append(" [label=");
                    res.append(l);
                    res.append("]");
                },
                None => {},
            }
            res.append(";\n");
        },
        _ => {
            res.append(src);
            res.append(" --> ");
            res.append(dst);
            match label {
                Some(l) => {
                    res.append(" : ");
                    res.append(l);
                },
                None => {},
            }
            res.append("\n");
        },
    }
    assert(res@ =~= old(res)@ + edge_line(f, src@, dst@, opt_str_view(label)));
}

fn start_marker_str(f: DiagramFormat) -> (r: &'static str)
    ensures
        r@ == start_marker(f),
{
    match f {
        DiagramFormat::Dot => "_initial_",
        _ => "[*]",
    }
}

fn end_marker_str(f: DiagramFormat) -> (r: &'static str)
    ensures
        r@ == end_marker(f),
{
    match f {
        DiagramFormat::Dot => "_final_",
        _ => "[*]",
    }
}

fn as_opt_str(o: &Option<String>) -> (r: Option<&str>)
    ensures
        opt_str_view(r) == opt_view(*o),
{
    match o {
        Some(s) => Some(s.as_str()),
        None => None,
    }
}

/// Append the edges of one stored transition.
pub(crate) fn push_entry(
    res: &mut String,
    f: DiagramFormat,
    source: &Option<String>,
    transition: &Transition,
    destination: &Node,
)
    ensures
        final(res)@ == old(res)@ + entry_text(
            f,
            EntryModel { source: opt_view(*source), transition: transition@, destination: destination@ },
        ),
{
    let ghost e = EntryModel { source: opt_view(*source), transition: transition@, destination: destination@ };
    let src: &str = match source {
        Some(s) => s.as_str(),
        None => start_marker_str(f),
    };
    assert(src@ == source_name(f, e.source));
    match destination {
        Node::State(n) => {
            let dst: &str = match &n.state {
                None => end_marker_str(f),
                Some(q) => match &n.metadata.transition_label {
                    Some(l) => l.as_str(),
                    None => q.as_str(),
                },
            };
            push_edge_line(res, f, src, dst, Some(transition.transition.as_str()));
        },
        Node::Decision(bs) => {
            let ghost start = res@;
            let ghost views = bs@.map_values(|b: StateNode| b@);
            let ghost g = |b: StateNodeModel| branch_line(f, src@, b);
            let mut k: usize = 0;
            assert(views.subrange(0, 0) =~= Seq::empty());
            while k < bs.len()
                invariant
                    k <= bs.len(),
                    views == bs@.map_values(|b: StateNode| b@),
                    g == (|b: StateNodeModel| branch_line(f, src@, b)),
                    res@ == start + concat_map(views.subrange(0, k as int), g),
                decreases bs.len() - k,
            {
                let b = &bs[k];
                let dst: &str = match &b.state {
                    Some(q) => q.as_str(),
                    None => end_marker_str(f),
                };
                push_edge_line(res, f, src, dst, as_opt_str(&b.metadata.transition_label));
                proof {
                    lemma_concat_map_step(views, k as int, g);
                    assert(views[k as int] == b@);
                }
                k = k + 1;
            }
            assert(views.subrange(0, bs.len() as int) =~= views);
            assert(res@ =~= start + branches_text(f, src@, views));
        },
    }
}

/// The edges of one stored transition, as text. An edge from the initial
/// pseudo-state must lead to a state.
pub fn render_entry(f: DiagramFormat, source: &Option<String>, transition: &Transition, destination: &Node) -> (r: String)
    requires
        source.is_some() || crate::intermediate_graph::valid_start_destination(destination@),
    ensures
        r@ == entry_text(
            f,
            EntryModel { source: opt_view(*source), transition: transition@, destination: destination@ },
        ),
{
    let mut res = String::new();
    push_entry(&mut res, f, source, transition, destination);
    assert(res@ =~= entry_text(
        f,
        EntryModel { source: opt_view(*source), transition: transition@, destination: destination@ },
    ));
    res
}

} // verus!
