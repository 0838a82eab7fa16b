use typestate_automata::{State, Symbol, Transition, DFA};

#[test]
fn test_reachable() {
    let mut dfa = DFA::new();
    let s1 = State::from(1);
    let s2 = State::from(2);
    let s3 = State::from(3);
    let s4 = State::from(4);

    let sy1 = Symbol::from(1);
    let sy2 = Symbol::from(2);
    let sy3 = Symbol::from(3);
    let sy4 = Symbol::from(4);

    let t1 = Transition::new(&s1, &s2, &sy1);
    let t2 = Transition::new(&s1, &s3, &sy2);
    let t3 = Transition::new(&s3, &s2, &sy3);
    let t4 = Transition::new(&s2, &s3, &sy4);
    let t5 = Transition::new(&s2, &s4, &sy4);

    dfa.add_initial_state(&s1);
    dfa.add_initial_state(&s2);
    dfa.add_initial_state(&s3);
    dfa.add_initial_state(&s4);

    dfa.add_transition(&t1);
    dfa.add_transition(&t2);
    dfa.add_transition(&t3);
    dfa.add_transition(&t4);
    dfa.add_transition(&t5);

    assert!(dfa.reachable(&s1).contains(&s2));
    assert!(dfa.reachable(&s1).contains(&s3));
    assert!(dfa.reachable(&s1).contains(&s4));
}

fn chain() -> (DFA, State<u64>, State<u64>, State<u64>) {
    // states A=1, B=2, C=3; A -x-> B -y-> C
    let mut dfa = DFA::new();
    let a = State::from(1);
    let b = State::from(2);
    let c = State::from(3);
    dfa.add_initial_state(&a);
    dfa.add_state(&b);
    dfa.add_final_state(&c);
    let x = Symbol::from(10);
    let y = Symbol::from(11);
    dfa.add_transition(&Transition::new(&a, &b, &x));
    dfa.add_transition(&Transition::new(&b, &c, &y));
    (dfa, a, b, c)
}

#[test]
fn chain_reachable_and_productive() {
    let (mut dfa, a, b, c) = chain();
    let r = dfa.reachable(&a);
    assert_eq!(r.len(), 2);
    assert!(r.contains(&b));
    assert!(r.contains(&c));
    assert!(!r.contains(&a));
    assert!(dfa.is_productive(&a));
    assert!(dfa.is_productive(&b));
    assert!(!dfa.is_productive(&c));
    assert!(dfa.reachable(&c).is_empty());
}

#[test]
fn start_state_included_only_through_cycle() {
    let mut dfa = DFA::new();
    let a = State::from(1);
    let b = State::from(2);
    dfa.add_state(&a);
    dfa.add_state(&b);
    dfa.add_transition(&Transition::new(&a, &b, &Symbol::from(0)));
    assert!(!dfa.reachable(&a).contains(&a));
    dfa.add_transition(&Transition::new(&b, &a, &Symbol::from(1)));
    let r = dfa.reachable(&a);
    assert!(r.contains(&a));
    assert!(r.contains(&b));
    assert_eq!(r.len(), 2);
}

#[test]
fn final_state_with_self_loop_is_productive() {
    let mut dfa = DFA::new();
    let f = State::from(7);
    dfa.add_final_state(&f);
    assert!(!dfa.is_productive(&f));
    dfa.add_transition(&Transition::new(&f, &f, &Symbol::from(3)));
    assert!(dfa.is_productive(&f));
}

#[test]
fn add_transition_returns_replaced_symbol() {
    let mut dfa = DFA::new();
    let a = State::from(1);
    let b = State::from(2);
    assert_eq!(dfa.add_transition(&Transition::new(&a, &b, &Symbol::from(5))), None);
    assert_eq!(dfa.add_transition(&Transition::new(&a, &b, &Symbol::from(6))), Some(Symbol::from(5)));
    assert_eq!(dfa.add_transition(&Transition::new(&b, &a, &Symbol::from(6))), None);
}

#[test]
fn add_state_returns_the_state() {
    let mut dfa = DFA::new();
    let a = State::from(42);
    assert_eq!(dfa.add_state(&a), a);
    assert_eq!(dfa.add_initial_state(&a), a);
    assert_eq!(dfa.add_final_state(&a), a);
    assert!(dfa.reachable(&a).is_empty());
}

#[test]
fn unknown_state_reaches_nothing() {
    let (mut dfa, _, _, _) = chain();
    let z = State::from(99);
    assert!(dfa.reachable(&z).is_empty());
    assert!(!dfa.is_productive(&z));
}
