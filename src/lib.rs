//! Finite-state automata as graphs: an edge-list automaton with reachability
//! and productivity analysis, a richer intermediate automaton with decision
//! nodes and label overrides, and renderers into three textual diagram formats.

pub mod automata;
pub mod dot;
pub mod graph;
pub mod intermediate_graph;
pub mod plantuml;
pub mod render;
pub mod tables;

pub use automata::{DeterministicFiniteAutomata, State, Symbol, Transition, DFA};
pub use dot::{Dot, DotEdge};
pub use plantuml::{PlantUml, PlantUmlEdge};
pub use render::DiagramFormat;
pub use tables::{Dfa, Nfa};
