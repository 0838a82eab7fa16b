use typestate_automata::intermediate_graph::{
    IntermediateAutomaton, IntoDot, IntoMermaid, IntoPlantUml, Metadata, Node, StateNode,
    Transition,
};
use typestate_automata::render::render_entry;
use typestate_automata::DiagramFormat;

const DOT_HEAD: &str = "digraph Automata {\n  _initial_ [label=\"\", fillcolor=black, fixedsize=true, height=0.25, style=filled, shape=circle];\n";
const DOT_TAIL: &str = "  _final_ [label=\"\", fillcolor=black, fixedsize=true, height=0.25, style=filled, shape=doublecircle];\n}";

fn s(x: &str) -> String {
    x.to_string()
}

fn labelled(state: Option<&str>, label: &str) -> StateNode {
    StateNode { state: state.map(s), metadata: Metadata::new(s(label)) }
}

fn timeout_choice() -> IntermediateAutomaton {
    let mut a = IntermediateAutomaton::new();
    a.add_choice(s("S"));
    a.add_state(s("T"));
    let branches = vec![StateNode::new(Some(s("T"))), labelled(None, "timeout")];
    a.add_transition(Some(s("S")), Transition::new(s("go")), Node::Decision(branches));
    a
}

#[test]
fn decision_branches_in_dot() {
    let text = timeout_choice().into_dot();
    let expected = format!(
        "{}  S [shape=diamond];\n  S -> T;\n  S -> _final_ [label=timeout];\n{}",
        DOT_HEAD, DOT_TAIL
    );
    assert_eq!(text, expected);
    assert!(!text.contains("go"));
}

#[test]
fn start_edge_uses_label_override() {
    let mut a = IntermediateAutomaton::new();
    a.add_state(s("A"));
    let dst = Node::State(labelled(Some("A"), "Init"));
    a.add_transition(None, Transition::new(s("start")), dst);
    let expected = format!("{}  _initial_ -> Init [label=start];\n{}", DOT_HEAD, DOT_TAIL);
    assert_eq!(a.export(DiagramFormat::Dot), expected);
    assert_eq!(
        a.export(DiagramFormat::Mermaid),
        "stateDiagram-v2\nstate A\n[*] --> Init : start\n"
    );
}

fn sample() -> IntermediateAutomaton {
    let mut a = IntermediateAutomaton::new();
    assert!(a.add_state(s("A")));
    assert!(a.add_state(s("B")));
    assert!(!a.add_state(s("A")));
    assert!(a.add_choice(s("C")));
    assert!(!a.add_choice(s("C")));
    a.add_transition(None, Transition::new(s("start")), Node::from(s("A")));
    a.add_transition(Some(s("A")), Transition::new(s("go")), Node::from(s("C")));
    let branches = vec![labelled(Some("B"), "yes"), StateNode::new(None)];
    a.add_transition(Some(s("C")), Transition::from(s("pick")), Node::from(branches));
    a.add_transition(Some(s("B")), Transition::new(s("stop")), Node::from(None::<String>));
    a
}

const SAMPLE_BODY: &str = "state C <<choice>>\nstate A\nstate B\n[*] --> A : start\nA --> C : go\nC --> B : yes\nC --> [*]\nB --> [*] : stop\n";

#[test]
fn mermaid_export() {
    assert_eq!(sample().into_mermaid(), format!("stateDiagram-v2\n{}", SAMPLE_BODY));
}

#[test]
fn plantuml_export() {
    assert_eq!(sample().into_plantuml(), format!("@startuml\n{}@enduml\n", SAMPLE_BODY));
}

#[test]
fn dot_export() {
    let expected = format!(
        "{}  C [shape=diamond];\n  _initial_ -> A [label=start];\n  A -> C [label=go];\n  C -> B [label=yes];\n  C -> _final_;\n  B -> _final_ [label=stop];\n{}",
        DOT_HEAD, DOT_TAIL
    );
    assert_eq!(sample().into_dot(), expected);
}

#[test]
fn readding_transition_replaces_destination() {
    let mut a = IntermediateAutomaton::new();
    a.add_transition(Some(s("A")), Transition::new(s("go")), Node::from(s("B")));
    a.add_transition(Some(s("A")), Transition::new(s("go")), Node::from(s("C")));
    let mut b = IntermediateAutomaton::new();
    b.add_transition(Some(s("A")), Transition::new(s("go")), Node::from(s("C")));
    for f in [DiagramFormat::Dot, DiagramFormat::PlantUml, DiagramFormat::Mermaid] {
        assert_eq!(a.export(f), b.export(f));
    }
    let text = a.export(DiagramFormat::Dot);
    assert!(text.contains("  A -> C [label=go];\n"));
    assert!(!text.contains("A -> B"));
}

#[test]
fn export_is_deterministic() {
    let a = sample();
    for f in [DiagramFormat::Dot, DiagramFormat::PlantUml, DiagramFormat::Mermaid] {
        assert_eq!(a.export(f), a.export(f));
    }
    assert_eq!(sample().into_dot(), sample().into_dot());
}

#[test]
fn decision_edges_hide_symbol_direct_edges_show_it() {
    let src = Some(s("S"));
    let decision = Node::Decision(vec![StateNode::new(Some(s("T"))), labelled(None, "late")]);
    let direct = Node::State(labelled(Some("T"), "Shown"));
    for f in [DiagramFormat::Dot, DiagramFormat::PlantUml, DiagramFormat::Mermaid] {
        let d = render_entry(f, &src, &Transition::new(s("sym")), &decision);
        assert!(!d.contains("sym"));
        assert_eq!(d, render_entry(f, &src, &Transition::new(s("other")), &decision));
        let e = render_entry(f, &src, &Transition::new(s("sym")), &direct);
        assert!(e.contains("sym"));
        assert!(e.contains("Shown"));
    }
    assert_eq!(
        render_entry(DiagramFormat::PlantUml, &src, &Transition::new(s("sym")), &decision),
        "S --> T\nS --> [*] : late\n"
    );
    assert_eq!(
        render_entry(DiagramFormat::Dot, &src, &Transition::new(s("sym")), &direct),
        "  S -> Shown [label=sym];\n"
    );
}

#[test]
fn terminal_destination_ignores_label() {
    let src = Some(s("S"));
    let dst = Node::State(labelled(None, "ignored"));
    assert_eq!(
        render_entry(DiagramFormat::Mermaid, &src, &Transition::new(s("end")), &dst),
        "S --> [*] : end\n"
    );
}

#[test]
fn empty_automaton_exports() {
    let a = IntermediateAutomaton::default();
    assert_eq!(a.export(DiagramFormat::Dot), format!("{}{}", DOT_HEAD, DOT_TAIL));
    assert_eq!(a.export(DiagramFormat::PlantUml), "@startuml\n@enduml\n");
    assert_eq!(a.export(DiagramFormat::Mermaid), "stateDiagram-v2\n");
}

#[test]
fn metadata_constructors() {
    assert_eq!(Metadata::empty().transition_label, None);
    assert_eq!(Metadata::new(s("x")).transition_label, Some(s("x")));
    assert_eq!(Metadata::default().transition_label, Some(String::new()));
    let t = Transition::_with_metadata(s("t"), Metadata::new(s("m")));
    assert_eq!(t, Transition::new(s("t")));
}
