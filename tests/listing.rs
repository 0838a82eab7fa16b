use typestate_automata::{Dfa, Dot, Nfa, PlantUml};

fn s(x: &str) -> String {
    x.to_string()
}

fn chain_dfa() -> Dfa {
    Dfa {
        initial_states: vec![(s("A"), vec![s("start")])],
        final_states: vec![(s("C"), vec![s("end")])],
        delta: vec![(s("A"), vec![(s("x"), s("B"))]), (s("B"), vec![(s("y"), s("C"))])],
    }
}

#[test]
fn dot_from_dfa() {
    let expected = "digraph Automata {\ngraph [pad=\"0.25\", nodesep=\"0.75\", ranksep=\"1\"];\n\t_initial_0 [label=\"\", shape=\"plaintext\"];\n\t_initial_0 -> A [label=\"start\"];\n\tC [style=\"bold\"];\n\tC -> C [label=\"end\", style=dashed];\n\tA -> B [label=x];\n\tB -> C [label=y];\n}\n";
    assert_eq!(Dot::from_dfa(chain_dfa()).to_string(), expected);
}

#[test]
fn plantuml_from_dfa() {
    let expected = "@startuml\nhide empty description\n[*] --> A : start\nC --> [*] : end\n\tA --> B : x\n\tB --> C : y\n@enduml\n";
    assert_eq!(PlantUml::from_dfa(chain_dfa()).to_string(), expected);
}

#[test]
fn nfa_expands_each_destination() {
    let nfa = Nfa {
        initial_states: vec![(s("A"), vec![s("i"), s("j")])],
        final_states: vec![],
        delta: vec![(s("A"), vec![(s("x"), vec![s("B"), s("C")])])],
    };
    let expected = "@startuml\nhide empty description\n[*] --> A : i\n[*] --> A : j\n\tA --> B : x\n\tA --> C : x\n@enduml\n";
    assert_eq!(PlantUml::from_nfa(nfa).to_string(), expected);
    let nfa = Nfa {
        initial_states: vec![],
        final_states: vec![],
        delta: vec![(s("A"), vec![(s("x"), vec![s("B"), s("C")])])],
    };
    let text = Dot::from_nfa(nfa).to_string();
    assert!(text.contains("\tA -> B [label=x];\n\tA -> C [label=x];\n"));
}

#[test]
fn dot_numbers_initial_markers() {
    let mut initial = Vec::new();
    for i in 0..12 {
        initial.push((format!("S{}", i), vec![s("in")]));
    }
    let dfa = Dfa { initial_states: initial, final_states: vec![], delta: vec![] };
    let text = Dot::from_dfa(dfa).to_string();
    assert!(text.contains("\t_initial_0 -> S0 [label=\"in\"];\n"));
    assert!(text.contains("\t_initial_10 [label=\"\", shape=\"plaintext\"];\n"));
    assert!(text.contains("\t_initial_11 -> S11 [label=\"in\"];\n"));
}

#[test]
fn empty_listings() {
    assert_eq!(Dot::new().to_string(), "digraph Automata {\ngraph [pad=\"0.25\", nodesep=\"0.75\", ranksep=\"1\"];\n}\n");
    assert_eq!(PlantUml::new().to_string(), "@startuml\nhide empty description\n@enduml\n");
}
