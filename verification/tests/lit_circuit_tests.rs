use bitvm3::bag;
use bitvm3::lit_circuit::{GateCount, GateFn, TestCircuit, TestGate, TestWire};

#[test]
fn wire_is_set_once_and_read_back() {
    let mut w = TestWire::new();
    assert_eq!(w.value, None);
    w.set(true);
    assert!(w.get_value());
    let d = TestWire::default();
    assert_eq!(d.value, None);
}

#[test]
fn gate_constructors_name_their_function() {
    assert_eq!(TestGate::and(0, 1, 2).name, "and");
    assert_eq!(TestGate::nand(0, 1, 2).name, "nand");
    assert_eq!(TestGate::or(0, 1, 2).name, "or");
    assert_eq!(TestGate::xor(0, 1, 2).name, "xor");
    assert_eq!(TestGate::xnor(0, 1, 2).name, "xnor");
    assert_eq!(TestGate::nimp(0, 1, 2).name, "nimp");
    assert_eq!(TestGate::nsor(0, 1, 2).name, "nsor");
    let not = TestGate::not(4, 5);
    assert_eq!((not.wire_a, not.wire_b, not.wire_c), (4, 4, 5));
    assert_eq!(not.name, "not");
    let g = TestGate::new(1, 2, 3, "inv".to_string());
    assert_eq!(g.f(), GateFn::Not);
}

#[test]
fn gate_functions_truth_tables() {
    let cases: [(TestGate, [bool; 4]); 8] = [
        (TestGate::and(0, 1, 2), [false, false, false, true]),
        (TestGate::or(0, 1, 2), [false, true, true, true]),
        (TestGate::xor(0, 1, 2), [false, true, true, false]),
        (TestGate::nand(0, 1, 2), [true, true, true, false]),
        (TestGate::not(0, 2), [true, true, false, false]),
        (TestGate::xnor(0, 1, 2), [true, false, false, true]),
        (TestGate::nimp(0, 1, 2), [false, false, true, false]),
        (TestGate::nsor(0, 1, 2), [true, false, true, true]),
    ];
    for (gate, table) in cases.iter() {
        let f = gate.f();
        assert_eq!(f.apply(false, false), table[0]);
        assert_eq!(f.apply(false, true), table[1]);
        assert_eq!(f.apply(true, false), table[2]);
        assert_eq!(f.apply(true, true), table[3]);
    }
}

#[test]
fn gate_evaluate_sets_output_wire() {
    let mut wires = vec![TestWire::new(), TestWire::new(), TestWire::new()];
    wires[0].set(true);
    wires[1].set(false);
    TestGate::nimp(0, 1, 2).evaluate(&mut wires);
    assert_eq!(wires[2].value, Some(true));
    assert_eq!(wires[0].value, Some(true));
    assert_eq!(wires[1].value, Some(false));
}

#[test]
fn circuit_building_and_counting() {
    let mut c = TestCircuit::empty();
    assert_eq!(c.gate_count(), 0);
    c.add_wire(0);
    c.add_wires(vec![1, 2]);
    assert_eq!(c.0, vec![0, 1, 2]);
    c.add(TestGate::and(0, 1, 3));
    c.add(TestGate::not(3, 4));
    let other = TestCircuit::new(vec![7], vec![TestGate::xor(0, 1, 5), TestGate::new(5, 5, 6, "inv".to_string())]);
    let wires = c.extend(other);
    assert_eq!(wires, vec![7]);
    assert_eq!(c.gate_count(), 4);
    let counts = c.gate_counts();
    assert_eq!(counts, GateCount { and: 1, or: 0, xor: 1, nand: 0, not: 2, xnor: 0, nimp: 0, nsor: 0 });
    let total = counts.and + counts.or + counts.xor + counts.nand + counts.not + counts.xnor + counts.nimp + counts.nsor;
    assert_eq!(total, c.gate_count());
}

#[test]
fn bag_names_the_literal_types() {
    let mut c: bag::Circuit = bag::Circuit::empty();
    let g: bag::Gate = bag::Gate::or(0, 1, 2);
    c.add(g);
    let w: bag::Wire = bag::Wire::new();
    let x: bag::Wirex = 3;
    let ws: bag::Wires = vec![x];
    c.add_wires(ws);
    assert!(w.value.is_none());
    let counts: bag::GateCount = c.gate_counts();
    assert_eq!(counts.or, 1);
}
