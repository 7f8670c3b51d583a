use bitvm3::circuit::{
    build_circuit, evaluate_gate, garble, quick_evaluate_gate, Adaptor, Circuit, CircuitIO, Gate,
    GateType, Label, PublicParameters,
};
use bitvm3::math::random_biguint;
use num_bigint::BigUint;

fn num(v: u64) -> Vec<u8> {
    BigUint::from(v).to_bytes_le()
}

fn value(bytes: &[u8]) -> BigUint {
    BigUint::from_bytes_le(bytes)
}

fn gate(gate_type: GateType, in1: u64, in2: u64) -> Gate {
    Gate { gate_type, inputs: (in1, in2) }
}

fn input() -> Gate {
    gate(GateType::Input, 0, 0)
}

fn gen_test_circuit() -> (Circuit, CircuitIO) {
    // the example circuit of the delbrag README: a 2-bit adder
    build_circuit(&vec![
        (input(), false),                     // 0: in00
        (input(), false),                     // 1: in10
        (input(), false),                     // 2: in01
        (input(), false),                     // 3: in11
        (gate(GateType::Xor, 0, 1), true),    // 4: G0 out0
        (gate(GateType::And, 0, 1), false),   // 5: G1 m0
        (gate(GateType::Xor, 2, 3), false),   // 6: G2 m1
        (gate(GateType::And, 2, 3), false),   // 7: G3 m2
        (gate(GateType::Xor, 5, 6), true),    // 8: G4 out1
        (gate(GateType::And, 5, 6), false),   // 9: G5 m3
        (gate(GateType::Or, 9, 3), true),     // 10: G6 out2
    ])
}

fn gen_test_params() -> PublicParameters {
    PublicParameters {
        // p = 0xe5a111a219c64f841669400f51a54dd4e75184004f0f4d21c6ae182cfb528652a02d6d677a72b564c505b1ed42a0c648dbfe14eb66b04c0d60ba3872826c32e7
        // q = 0x98cb760764484e29245521be08e7f38edeebfca8427149524ba7f4735e1d5f3a45d585cb3722ff4c07c19165be738311dc346a914966f5b311416fed3b425079
        n: BigUint::parse_bytes(b"890e23101a542913da8a4350672c9ef8e7b34c2687ce8cd8db3fb34244a791d60c9dc0a53172a56dcc8a66f553c0ae51e9e2e2ce9486fa6b00a6c556bfed139001133cdfe5921c425eb8823b1bd0a4c00920d24bee2633256328502eadbfac1420f9a5f47139de6f14d8eb7c2b7c0cec42530c0a71dadb80c7214f5cd19a3f2f", 16).unwrap().to_bytes_le(),
        e: num(3),
        e1: num(5),
        e2: num(7),
        e3: num(11),
        e4: num(13),
    }
}

fn random_label_pair() -> (Label, Label) {
    (
        Label { flag: false, label: random_biguint() },
        Label { flag: true, label: random_biguint() },
    )
}

#[test]
fn test_compile_and_evaluate() {
    // setup
    println!("1. setup");
    let (circuit, io) = gen_test_circuit();
    let params = gen_test_params();

    let input_0 = random_label_pair();
    let input_1 = random_label_pair();
    let input_2 = random_label_pair();
    let input_3 = random_label_pair();
    let mut labels = vec![input_0.clone(), input_1.clone(), input_2.clone(), input_3.clone()];

    // garbler compute adaptors & labels
    println!("2. garbler compute adaptors & labels");
    let mut adaptors: Vec<(Adaptor, Adaptor)> = vec![];
    for _ in 0..io.inputs_index.len() {
        adaptors.push((vec![], vec![]));
    }
    for i in io.inputs_index.len()..circuit.gates.len() {
        let gate = &circuit.gates[i];
        let input_labels = (&labels[gate.inputs.0 as usize], &labels[gate.inputs.1 as usize]);
        let (gate_adaptors, gate_labels) = garble(&gate.gate_type, &params, input_labels);
        adaptors.push(gate_adaptors);
        labels.push(gate_labels);
    }

    // evaluate circuit: 0x10 + 0x11 = 0x101 (2+3=5)
    let public_input_labels = vec![input_0.1, input_1.0, input_2.1, input_3.1];
    let expected_output_labels = vec![labels[4].1.clone(), labels[8].0.clone(), labels[10].1.clone()];

    // verifier compute labels
    println!("3. verifier compute labels");
    let mut verifier_labels = public_input_labels;
    for i in io.inputs_index.len()..circuit.gates.len() {
        let gate = &circuit.gates[i];
        let input_labels = (
            &verifier_labels[gate.inputs.0 as usize],
            &verifier_labels[gate.inputs.1 as usize],
        );
        let gate_label = evaluate_gate(&gate.gate_type, &params, input_labels, &adaptors[i]);
        verifier_labels.push(gate_label);
    }

    println!("4. compare output labels");
    let mut verifier_ouput_labels = vec![];
    for i in io.outputs_index {
        verifier_ouput_labels.push(verifier_labels[i as usize].clone());
    }
    assert_eq!(expected_output_labels, verifier_ouput_labels);
}

const ALL_GATES: [GateType; 9] = [
    GateType::And,
    GateType::Or,
    GateType::Xor,
    GateType::Nand,
    GateType::Nor,
    GateType::Xnot,
    GateType::Nimp,
    GateType::Nsor,
    GateType::Input,
];

#[test]
fn quick_evaluate_gate_truth_tables() {
    let expected: [(GateType, [bool; 4]); 9] = [
        (GateType::And, [false, false, false, true]),
        (GateType::Or, [false, true, true, true]),
        (GateType::Xor, [false, true, true, false]),
        (GateType::Nand, [true, true, true, false]),
        (GateType::Nor, [true, false, false, false]),
        (GateType::Xnot, [true, false, false, true]),
        (GateType::Nimp, [false, false, true, false]),
        (GateType::Nsor, [true, false, true, true]),
        (GateType::Input, [false, false, true, true]),
    ];
    for (gate_type, table) in expected.iter() {
        let inputs = [(false, false), (false, true), (true, false), (true, true)];
        for (k, flags) in inputs.iter().enumerate() {
            assert_eq!(quick_evaluate_gate(gate_type, *flags), table[k], "{:?} {:?}", gate_type, flags);
        }
    }
}

#[test]
fn label_new_keeps_shortest_digits() {
    let l = Label::new(true, vec![5, 1, 0, 0]);
    assert_eq!(l, Label { flag: true, label: vec![5, 1] });
    let z = Label::new(false, vec![]);
    assert_eq!(z, Label { flag: false, label: vec![0] });
}

fn small_params() -> PublicParameters {
    // n = 61 * 53
    PublicParameters { n: num(3233), e: num(3), e1: num(5), e2: num(7), e3: num(11), e4: num(13) }
}

fn small_pair(a: u64, b: u64) -> (Label, Label) {
    (Label { flag: false, label: num(a) }, Label { flag: true, label: num(b) })
}

#[test]
fn garbled_gates_evaluate_to_their_truth_tables() {
    let params = small_params();
    let pa = small_pair(2, 3);
    let pb = small_pair(5, 7);
    for gate_type in ALL_GATES.iter() {
        let (adaptors, outputs) = garble(gate_type, &params, (&pa, &pb));
        assert!(!outputs.0.flag && outputs.1.flag);
        for x in [false, true] {
            for y in [false, true] {
                let la = if x { &pa.1 } else { &pa.0 };
                let lb = if y { &pb.1 } else { &pb.0 };
                let got = evaluate_gate(gate_type, &params, (la, lb), &adaptors);
                let expected = if quick_evaluate_gate(gate_type, (x, y)) { &outputs.1 } else { &outputs.0 };
                assert_eq!(&got, expected, "{:?} {} {}", gate_type, x, y);
            }
        }
    }
}

fn c(a: u64, b: u64, f: u64) -> BigUint {
    let n = BigUint::from(3233u64);
    (BigUint::from(a).modpow(&BigUint::from(3u64), &n) * BigUint::from(b).modpow(&BigUint::from(f), &n)) % &n
}

#[test]
fn garble_and_gate_exact_values() {
    let params = small_params();
    let pa = small_pair(2, 3);
    let pb = small_pair(5, 7);
    let n = BigUint::from(3233u64);
    let (adaptors, outputs) = garble(&GateType::And, &params, (&pa, &pb));
    let c00 = c(2, 5, 5);
    let c01 = c(2, 7, 7);
    let c10 = c(3, 5, 11);
    let c11 = c(3, 7, 13);
    assert_eq!(outputs.0, Label { flag: false, label: c00.to_bytes_le() });
    assert_eq!(outputs.1, Label { flag: true, label: c11.to_bytes_le() });
    // adaptor 0 times c01 is c00, adaptor 1 times c10 is c00
    assert_eq!((value(&adaptors.0) * &c01) % &n, c00);
    assert_eq!((value(&adaptors.1) * &c10) % &n, c00);
    assert!(value(&adaptors.0) < n && value(&adaptors.1) < n);
}

#[test]
fn garble_input_gate_passes_labels() {
    let params = small_params();
    let pa = (Label { flag: false, label: vec![9, 0] }, Label { flag: true, label: vec![4] });
    let pb = small_pair(5, 7);
    let (adaptors, outputs) = garble(&GateType::Input, &params, (&pa, &pb));
    assert_eq!(adaptors, (vec![1], vec![1]));
    assert_eq!(outputs, (Label { flag: false, label: vec![9] }, Label { flag: true, label: vec![4] }));
}

#[test]
fn evaluate_gate_exact_value() {
    let params = small_params();
    let la = Label { flag: false, label: num(2) };
    let lb = Label { flag: true, label: num(7) };
    // And gate, flags (false, true): c01 times the first adaptor
    let adaptors = (num(10), num(20));
    let got = evaluate_gate(&GateType::And, &params, (&la, &lb), &adaptors);
    let expected = (c(2, 7, 7) * BigUint::from(10u64)) % BigUint::from(3233u64);
    assert_eq!(got, Label { flag: false, label: expected.to_bytes_le() });
    // Or gate, flags (false, true): no adaptor
    let got = evaluate_gate(&GateType::Or, &params, (&la, &lb), &adaptors);
    assert_eq!(got, Label { flag: true, label: c(2, 7, 7).to_bytes_le() });
}

#[test]
fn build_circuit_marks_inputs_and_outputs() {
    let (circuit, io) = gen_test_circuit();
    assert_eq!(circuit.gates.len(), 11);
    assert_eq!(io.inputs_index, vec![0, 1, 2, 3]);
    assert_eq!(io.outputs_index, vec![4, 8, 10]);
    assert_eq!(circuit.gates[10].gate_type, GateType::Or);
    assert_eq!(circuit.gates[10].inputs, (9, 3));
}
