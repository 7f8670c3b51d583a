//! Garbled gates: the garbler turns two pairs of input labels into a pair of
//! output labels and two adaptors; the evaluator, holding one label of each
//! input pair, recovers the output label of its value.
use vstd::prelude::*;
use vstd::arithmetic::div_mod::*;
use vstd::arithmetic::mul::*;
use crate::bignum::{canonical, gcd_nat, le_bytes, le_value, lemma_le_value_le_bytes};
use crate::math::{
    bipow_mul, inv_mod, lemma_bipow_mul_is_product, lemma_coprime_inverse, mod_bipow_mul, mod_inv,
    mod_mul,
};
use crate::bignum::{lemma_le_value_single, nat_pow};

verus! {

/// A wire label: the truth value it stands for and a big number (its
/// little-endian digits).
#[derive(Clone, Debug, PartialEq, Eq)]
pub struct Label {
    pub flag: bool,
    pub label: Vec<u8>,
}

impl View for Label {
    type V = (bool, Seq<u8>);

    open spec fn view(&self) -> (bool, Seq<u8>) {
        (self.flag, self.label@)
    }
}

impl Label {
    /// A label for `flag` holding the number `label`, in shortest form.
    pub fn new(flag: bool, label: Vec<u8>) -> (r: Self)
        ensures
            r.flag == flag,
            r.label@ == le_bytes(le_value(label@)),
    {
        Label { flag, label: canonical(&label) }
    }
}

/// The digits of a big number that the evaluator multiplies in.
pub type Adaptor = Vec<u8>;

/// The kinds of gate.
#[derive(Clone, Copy, Debug, PartialEq, Eq)]
pub enum GateType {
    And,
    Or,
    Xor,
    Nand,
    Nor,
    Xnot,
    Nimp,
    Nsor,
    Input,
}

/// A gate and the indices of its two input gates.
#[derive(Clone, Copy, Debug)]
pub struct Gate {
    pub gate_type: GateType,
    pub inputs: (u64, u64),
}

/// A circuit: its gates in evaluation order.
#[derive(Clone, Debug)]
pub struct Circuit {
    pub gates: Vec<Gate>,
}

/// Which gates of a circuit are its inputs and which its outputs.
#[derive(Clone, Debug)]
pub struct CircuitIO {
    pub inputs_index: Vec<u64>,
    pub outputs_index: Vec<u64>,
}

/// A circuit together with the labels of one run of it.
#[derive(Clone, Debug)]
pub struct CircuitInstance {
    pub circuit: Circuit,
    pub io: CircuitIO,
    pub inputs: Vec<Label>,
    pub output: Option<Vec<Label>>,
    pub gate_outputs: Vec<Option<Label>>,
}

/// The public modulus `n` and exponents of the scheme (little-endian digits).
#[derive(Clone, Debug)]
pub struct PublicParameters {
    pub n: Vec<u8>,
    pub e: Vec<u8>,
    pub e1: Vec<u8>,
    pub e2: Vec<u8>,
    pub e3: Vec<u8>,
    pub e4: Vec<u8>,
}

/// The positions (in order) at which `flags` holds.
pub open spec fn indices_where(flags: Seq<bool>) -> Seq<u64>
    decreases flags.len(),
{
    if flags.len() == 0 {
        Seq::empty()
    } else {
        let rest = indices_where(flags.drop_last());
        if flags.last() {
            rest.push((flags.len() - 1) as u64)
        } else {
            rest
        }
    }
}

/// `indices_where(flags)` lists exactly the positions at which `flags` holds,
/// in strictly increasing order.
pub proof fn lemma_indices_where(flags: Seq<bool>)
    requires
        flags.len() <= u64::MAX,
    ensures
        forall|j: int|
            0 <= j < indices_where(flags).len() ==> {
                &&& (#[trigger] indices_where(flags)[j]) < flags.len()
                &&& flags[indices_where(flags)[j] as int]
            },
        forall|j1: int, j2: int|
            0 <= j1 < j2 < indices_where(flags).len() ==> indices_where(flags)[j1] < indices_where(
                flags,
            )[j2],
        forall|i: int| 0 <= i < flags.len() && #[trigger] flags[i] ==> indices_where(flags).contains(i as u64),
    decreases flags.len(),
{
    if flags.len() > 0 {
        let prev = flags.drop_last();
        lemma_indices_where(prev);
        let rest = indices_where(prev);
        let r = indices_where(flags);
        assert forall|j: int| 0 <= j < rest.len() implies rest[j] < prev.len() && flags[rest[j] as int] by {
            assert(prev[rest[j] as int] == flags[rest[j] as int]);
        }
        assert forall|i: int| 0 <= i < flags.len() && #[trigger] flags[i] implies r.contains(i as u64) by {
            if i < flags.len() - 1 {
                assert(prev[i] == flags[i]);
                assert(rest.contains(i as u64));
                let j = choose|j: int| 0 <= j < rest.len() && rest[j] == i as u64;
                assert(r[j] == rest[j]);
            } else {
                assert(r[r.len() - 1] == (flags.len() - 1) as u64);
            }
        }
    }
}

/// A circuit from its gates in order, each marked whether it is an output;
/// the input gates are the gates of kind `Input`.
pub fn build_circuit(entries: &Vec<(Gate, bool)>) -> (r: (Circuit, CircuitIO))
    ensures
        r.0.gates@ == entries@.map_values(|entry: (Gate, bool)| entry.0),
        r.1.inputs_index@ == indices_where(
            entries@.map_values(|entry: (Gate, bool)| entry.0.gate_type is Input),
        ),
        r.1.outputs_index@ == indices_where(entries@.map_values(|entry: (Gate, bool)| entry.1)),
{
    let ghost is_input = entries@.map_values(|entry: (Gate, bool)| entry.0.gate_type is Input);
    let ghost is_output = entries@.map_values(|entry: (Gate, bool)| entry.1);
    let mut gates: Vec<Gate> = Vec::new();
    let mut input_indices: Vec<u64> = Vec::new();
    let mut output_indices: Vec<u64> = Vec::new();
    let mut idx: usize = 0;
    while idx < entries.len()
        invariant
            idx <= entries@.len(),
            is_input == entries@.map_values(|entry: (Gate, bool)| entry.0.gate_type is Input),
            is_output == entries@.map_values(|entry: (Gate, bool)| entry.1),
            gates@ == entries@.take(idx as int).map_values(|entry: (Gate, bool)| entry.0),
            input_indices@ == indices_where(is_input.take(idx as int)),
            output_indices@ == indices_where(is_output.take(idx as int)),
        decreases entries@.len() - idx,
    {
        let (gate, output) = entries[idx];
        proof {
            assert(is_input.take(idx + 1).drop_last() =~= is_input.take(idx as int));
            assert(is_output.take(idx + 1).drop_last() =~= is_output.take(idx as int));
            assert(entries@.take(idx + 1).map_values(|entry: (Gate, bool)| entry.0) =~= entries@.take(
                idx as int,
            ).map_values(|entry: (Gate, bool)| entry.0).push(gate));
        }
        if let GateType::Input = gate.gate_type {
            input_indices.push(idx as u64);
        }
        gates.push(gate);
        if output {
            output_indices.push(idx as u64);
        }
        idx += 1;
    }
    proof {
        assert(entries@.take(idx as int) =~= entries@);
        assert(is_input.take(idx as int) =~= is_input);
        assert(is_output.take(idx as int) =~= is_output);
    }
    (
        Circuit { gates },
        CircuitIO { inputs_index: input_indices, outputs_index: output_indices },
    )
}

/// The truth table of each gate kind (an input gate passes its first input).
pub open spec fn gate_value(g: GateType, a: bool, b: bool) -> bool {
    match g {
        GateType::And => a && b,
        GateType::Or => a || b,
        GateType::Xor => a != b,
        GateType::Nand => !(a && b),
        GateType::Nor => !(a || b),
        GateType::Xnot => a == b,
        GateType::Nimp => a && !b,
        GateType::Nsor => a || !b,
        GateType::Input => a,
    }
}

/// The exponent applied to the second label for input flags `(x, y)`.
pub open spec fn pair_exponent(params: &PublicParameters, x: bool, y: bool) -> nat {
    if !x && !y {
        le_value(params.e1@)
    } else if !x && y {
        le_value(params.e2@)
    } else if x && !y {
        le_value(params.e3@)
    } else {
        le_value(params.e4@)
    }
}

/// `a^e * b^e_xy mod n`: the number that labels `a` (flag `x`) and `b`
/// (flag `y`) combine to.
pub open spec fn combined_label(params: &PublicParameters, a: nat, b: nat, x: bool, y: bool) -> nat {
    bipow_mul(a, le_value(params.e@), b, pair_exponent(params, x, y), le_value(params.n@))
}

/// Which adaptor (`false`: the first, `true`: the second) the evaluator
/// multiplies in for input flags `(x, y)`, if any.
pub open spec fn adaptor_slot(g: GateType, x: bool, y: bool) -> Option<bool> {
    match g {
        GateType::And | GateType::Nand => if !x && y {
            Some(false)
        } else if x && !y {
            Some(true)
        } else {
            None
        },
        GateType::Nimp => if !x && y {
            Some(false)
        } else if x && y {
            Some(true)
        } else {
            None
        },
        GateType::Input => None,
        _ => if x && !y {
            Some(false)
        } else if x && y {
            Some(true)
        } else {
            None
        },
    }
}

/// The label that evaluating gate `g` on labels `la` and `lb` with
/// `adaptors` yields.
pub open spec fn evaluated_label(
    g: GateType,
    params: &PublicParameters,
    la: (bool, Seq<u8>),
    lb: (bool, Seq<u8>),
    adaptors: (Seq<u8>, Seq<u8>),
) -> (bool, Seq<u8>) {
    let n = le_value(params.n@);
    let c = combined_label(params, le_value(la.1), le_value(lb.1), la.0, lb.0);
    let value = if g is Input {
        le_value(la.1)
    } else {
        match adaptor_slot(g, la.0, lb.0) {
            None => c,
            Some(k) => (c * le_value(if k { adaptors.1 } else { adaptors.0 })) % n,
        }
    };
    (gate_value(g, la.0, lb.0), le_bytes(value))
}

/// The truth value of gate `gate_type` on `input_flags`.
pub fn quick_evaluate_gate(gate_type: &GateType, input_flags: (bool, bool)) -> (r: bool)
    ensures
        r == gate_value(*gate_type, input_flags.0, input_flags.1),
{
    let (a, b) = input_flags;
    match gate_type {
        GateType::And => a && b,
        GateType::Or => a || b,
        GateType::Xor => a != b,
        GateType::Nand => !(a && b),
        GateType::Nor => !(a || b),
        GateType::Xnot => !(a != b),
        GateType::Nimp => a && !b,
        GateType::Nsor => a || !b,
        GateType::Input => a,
    }
}

/// Which inputs flags an adaptor is applied on.
enum AdaptorMask {
    B0110,
    B0101,
    B0011,
    NoAdaptor,
}

/// The adaptor that `mask` applies for input flags `(x, y)`, if any.
spec fn mask_slot(mask: AdaptorMask, x: bool, y: bool) -> Option<bool> {
    match mask {
        AdaptorMask::B0110 => if !x && y {
            Some(false)
        } else if x && !y {
            Some(true)
        } else {
            None
        },
        AdaptorMask::B0101 => if !x && y {
            Some(false)
        } else if x && y {
            Some(true)
        } else {
            None
        },
        AdaptorMask::B0011 => if x && !y {
            Some(false)
        } else if x && y {
            Some(true)
        } else {
            None
        },
        AdaptorMask::NoAdaptor => None,
    }
}

/// The adaptor mask of each gate kind.
fn get_adaptor_mask(gate_type: GateType) -> (r: AdaptorMask)
    ensures
        r is NoAdaptor <==> gate_type is Input,
        forall|x: bool, y: bool| #[trigger] mask_slot(r, x, y) == adaptor_slot(gate_type, x, y),
{
    match gate_type {
        GateType::And => AdaptorMask::B0110,
        GateType::Or => AdaptorMask::B0011,
        GateType::Xor => AdaptorMask::B0011,
        GateType::Nand => AdaptorMask::B0110,
        GateType::Nor => AdaptorMask::B0011,
        GateType::Xnot => AdaptorMask::B0011,
        GateType::Nimp => AdaptorMask::B0101,
        GateType::Nsor => AdaptorMask::B0011,
        GateType::Input => AdaptorMask::NoAdaptor,
    }
}

/// The number of the output label, from the input labels' numbers and flags:
/// the combined label, times the adaptor that the mask selects; with no mask,
/// the first input label unchanged.
fn label_computation(
    params: &PublicParameters,
    adaptors: &(Adaptor, Adaptor),
    input_flags: (bool, bool),
    input_labels: (Vec<u8>, Vec<u8>),
    adaptor_mask: AdaptorMask,
) -> (r: Vec<u8>)
    requires
        !(adaptor_mask is NoAdaptor) ==> le_value(params.n@) > 0,
    ensures
        adaptor_mask is NoAdaptor ==> r@ == input_labels.0@,
        !(adaptor_mask is NoAdaptor) ==> r@ == le_bytes(
            {
                let (x, y) = input_flags;
                let c = combined_label(
                    params,
                    le_value(input_labels.0@),
                    le_value(input_labels.1@),
                    x,
                    y,
                );
                match mask_slot(adaptor_mask, x, y) {
                    None => c,
                    Some(k) => (c * le_value(if k { adaptors.1@ } else { adaptors.0@ })) % le_value(
                        params.n@,
                    ),
                }
            },
        ),
{
    let (label_a, label_b) = input_labels;
    let (x, y) = input_flags;
    if let AdaptorMask::NoAdaptor = adaptor_mask {
        return label_a;
    }
    let exponent = if !x && !y {
        &params.e1
    } else if !x && y {
        &params.e2
    } else if x && !y {
        &params.e3
    } else {
        &params.e4
    };
    let c = mod_bipow_mul(&label_a, &params.e, &label_b, exponent, &params.n);
    let ghost cv = combined_label(params, le_value(label_a@), le_value(label_b@), x, y);
    proof {
        lemma_le_value_le_bytes(cv);
    }
    match adaptor_mask {
        AdaptorMask::B0110 => if !x && y {
            mod_mul(&c, &adaptors.0, &params.n)
        } else if x && !y {
            mod_mul(&c, &adaptors.1, &params.n)
        } else {
            c
        },
        AdaptorMask::B0011 => if x && !y {
            mod_mul(&c, &adaptors.0, &params.n)
        } else if x && y {
            mod_mul(&c, &adaptors.1, &params.n)
        } else {
            c
        },
        AdaptorMask::B0101 => if !x && y {
            mod_mul(&c, &adaptors.0, &params.n)
        } else if x && y {
            mod_mul(&c, &adaptors.1, &params.n)
        } else {
            c
        },
        AdaptorMask::NoAdaptor => label_a,
    }
}

/// Evaluates a garbled gate: from one label of each input and the
/// adaptors, the output label of its value on the labels' flags.
pub fn evaluate_gate(
    gate_type: &GateType,
    params: &PublicParameters,
    input_labels: (&Label, &Label),
    adaptors: &(Adaptor, Adaptor),
) -> (r: Label)
    requires
        !(*gate_type is Input) ==> le_value(params.n@) > 0,
    ensures
        r@ == evaluated_label(
            *gate_type,
            params,
            input_labels.0@,
            input_labels.1@,
            (adaptors.0@, adaptors.1@),
        ),
{
    let flag_a = input_labels.0.flag;
    let flag_b = input_labels.1.flag;

    let label_a = input_labels.0.label.clone();
    let label_b = input_labels.1.label.clone();
    assert(label_a@ =~= input_labels.0.label@);
    assert(label_b@ =~= input_labels.1.label@);

    let mask = get_adaptor_mask(*gate_type);
    let ghost expected = evaluated_label(
        *gate_type,
        params,
        input_labels.0@,
        input_labels.1@,
        (adaptors.0@, adaptors.1@),
    );
    let label_c = label_computation(params, adaptors, (flag_a, flag_b), (label_a, label_b), mask);
    proof {
        assert(mask_slot(mask, flag_a, flag_b) == adaptor_slot(*gate_type, flag_a, flag_b));
        if !(*gate_type is Input) {
            let c = combined_label(params, le_value(label_a@), le_value(label_b@), flag_a, flag_b);
            let v = match adaptor_slot(*gate_type, flag_a, flag_b) {
                None => c,
                Some(k) => (c * le_value(if k { adaptors.1@ } else { adaptors.0@ })) % le_value(params.n@),
            };
            assert(expected.1 == le_bytes(v));
            assert(label_c@ == le_bytes(v));
            lemma_le_value_le_bytes(v);
        }
    }

    Label::new(quick_evaluate_gate(gate_type, (flag_a, flag_b)), label_c)
}

/// The label of `pair` for flag `x`.
pub open spec fn pick(pair: (Label, Label), x: bool) -> Label {
    if x {
        pair.1
    } else {
        pair.0
    }
}

/// The number `c_xy` that the garbler combines from the first input's label
/// for `x` and the second input's label for `y`.
pub open spec fn garbled_number(
    params: &PublicParameters,
    pa: (Label, Label),
    pb: (Label, Label),
    idx: (bool, bool),
) -> nat {
    combined_label(
        params,
        le_value(pick(pa, idx.0).label@),
        le_value(pick(pb, idx.1).label@),
        idx.0,
        idx.1,
    )
}

/// The numerator and denominator (as `c_xy` indices) of adaptor `k` of a
/// garbled gate.
pub open spec fn adaptor_fraction(g: GateType, k: bool) -> ((bool, bool), (bool, bool)) {
    match g {
        GateType::And | GateType::Nand => if !k {
            ((false, false), (false, true))
        } else {
            ((false, false), (true, false))
        },
        GateType::Or | GateType::Nor => if !k {
            ((false, true), (true, false))
        } else {
            ((false, true), (true, true))
        },
        GateType::Xor | GateType::Xnot => if !k {
            ((false, true), (true, false))
        } else {
            ((false, false), (true, true))
        },
        GateType::Nimp => if !k {
            ((false, false), (false, true))
        } else {
            ((false, false), (true, true))
        },
        _ => if !k {
            ((false, false), (true, false))
        } else {
            ((false, false), (true, true))
        },
    }
}

/// The `c_xy` index of the output label for value `out` of a garbled gate.
pub open spec fn output_source(g: GateType, out: bool) -> (bool, bool) {
    match g {
        GateType::And => if out {
            (true, true)
        } else {
            (false, false)
        },
        GateType::Nand => if out {
            (false, false)
        } else {
            (true, true)
        },
        GateType::Or | GateType::Xor => if out {
            (false, true)
        } else {
            (false, false)
        },
        GateType::Nor | GateType::Xnot | GateType::Nsor => if out {
            (false, false)
        } else {
            (false, true)
        },
        _ => if out {
            (true, false)
        } else {
            (false, false)
        },
    }
}

/// When garbling does not fail: for a gate other than an input, `n` is
/// positive and both adaptor denominators are invertible modulo `n`.
pub open spec fn garble_precondition(
    g: GateType,
    params: &PublicParameters,
    pa: (Label, Label),
    pb: (Label, Label),
) -> bool {
    !(g is Input) ==> {
        let n = le_value(params.n@);
        &&& n > 0
        &&& gcd_nat(garbled_number(params, pa, pb, adaptor_fraction(g, false).1), n) == 1
        &&& gcd_nat(garbled_number(params, pa, pb, adaptor_fraction(g, true).1), n) == 1
    }
}

/// Adaptor `k` of a garbled gate: numerator over denominator modulo `n`.
pub open spec fn garbled_adaptor(
    g: GateType,
    params: &PublicParameters,
    pa: (Label, Label),
    pb: (Label, Label),
    k: bool,
) -> Seq<u8> {
    let n = le_value(params.n@);
    let (num, den) = adaptor_fraction(g, k);
    le_bytes(
        (garbled_number(params, pa, pb, num) * inv_mod(garbled_number(params, pa, pb, den), n)) % n,
    )
}

/// What garbling gate `g` yields: the two adaptors, and the output labels
/// for `false` and for `true`.
pub open spec fn garbled(
    g: GateType,
    params: &PublicParameters,
    pa: (Label, Label),
    pb: (Label, Label),
) -> ((Seq<u8>, Seq<u8>), ((bool, Seq<u8>), (bool, Seq<u8>))) {
    if g is Input {
        (
            (seq![1u8], seq![1u8]),
            ((false, le_bytes(le_value(pa.0.label@))), (true, le_bytes(le_value(pa.1.label@)))),
        )
    } else {
        (
            (garbled_adaptor(g, params, pa, pb, false), garbled_adaptor(g, params, pa, pb, true)),
            (
                (false, le_bytes(garbled_number(params, pa, pb, output_source(g, false)))),
                (true, le_bytes(garbled_number(params, pa, pb, output_source(g, true)))),
            ),
        )
    }
}

/// `num / den` modulo `n`.
fn fraction(num: &Vec<u8>, den: &Vec<u8>, n: &Vec<u8>) -> (r: Vec<u8>)
    requires
        le_value(n@) > 0,
        gcd_nat(le_value(den@), le_value(n@)) == 1,
    ensures
        r@ == le_bytes((le_value(num@) * inv_mod(le_value(den@), le_value(n@))) % le_value(n@)),
{
    let inv = mod_inv(den, n).unwrap();
    proof {
        lemma_le_value_le_bytes(inv_mod(le_value(den@), le_value(n@)));
    }
    mod_mul(num, &inv, n)
}

/// The four combined numbers `c00, c01, c10, c11` of a gate.
fn garbled_numbers(params: &PublicParameters, pa: &(Label, Label), pb: &(Label, Label)) -> (r: (
    Vec<u8>,
    Vec<u8>,
    Vec<u8>,
    Vec<u8>,
))
    requires
        le_value(params.n@) > 0,
    ensures
        r.0@ == le_bytes(garbled_number(params, *pa, *pb, (false, false))),
        r.1@ == le_bytes(garbled_number(params, *pa, *pb, (false, true))),
        r.2@ == le_bytes(garbled_number(params, *pa, *pb, (true, false))),
        r.3@ == le_bytes(garbled_number(params, *pa, *pb, (true, true))),
        le_value(r.0@) == garbled_number(params, *pa, *pb, (false, false)),
        le_value(r.1@) == garbled_number(params, *pa, *pb, (false, true)),
        le_value(r.2@) == garbled_number(params, *pa, *pb, (true, false)),
        le_value(r.3@) == garbled_number(params, *pa, *pb, (true, true)),
{
    let PublicParameters { n, e, e1, e2, e3, e4 } = params;
    let (a0, a1, b0, b1) = (&pa.0.label, &pa.1.label, &pb.0.label, &pb.1.label);
    let c00 = mod_bipow_mul(a0, e, b0, e1, n);
    let c01 = mod_bipow_mul(a0, e, b1, e2, n);
    let c10 = mod_bipow_mul(a1, e, b0, e3, n);
    let c11 = mod_bipow_mul(a1, e, b1, e4, n);
    proof {
        lemma_le_value_le_bytes(garbled_number(params, *pa, *pb, (false, false)));
        lemma_le_value_le_bytes(garbled_number(params, *pa, *pb, (false, true)));
        lemma_le_value_le_bytes(garbled_number(params, *pa, *pb, (true, false)));
        lemma_le_value_le_bytes(garbled_number(params, *pa, *pb, (true, true)));
    }
    (c00, c01, c10, c11)
}

/// Garbles a gate: from the label pairs of its two inputs, its two
/// adaptors and its pair of output labels (for `false`, then `true`).
pub fn garble(
    gate_type: &GateType,
    params: &PublicParameters,
    input_labels: (&(Label, Label), &(Label, Label)),
) -> (r: ((Adaptor, Adaptor), (Label, Label)))
    requires
        garble_precondition(*gate_type, params, *input_labels.0, *input_labels.1),
    ensures
        ({
            let spec_r = garbled(*gate_type, params, *input_labels.0, *input_labels.1);
            &&& r.0.0@ == spec_r.0.0
            &&& r.0.1@ == spec_r.0.1
            &&& r.1.0@ == spec_r.1.0
            &&& r.1.1@ == spec_r.1.1
        }),
{
    let (pa, pb) = input_labels;
    let n = &params.n;
    match gate_type {
        GateType::And => {
            let (c00, c01, c10, c11) = garbled_numbers(params, pa, pb);
            (
                (fraction(&c00, &c01, n), fraction(&c00, &c10, n)),
                (Label::new(false, c00), Label::new(true, c11)),
            )
        },
        GateType::Or => {
            let (c00, c01, c10, c11) = garbled_numbers(params, pa, pb);
            (
                (fraction(&c01, &c10, n), fraction(&c01, &c11, n)),
                (Label::new(false, c00), Label::new(true, c01)),
            )
        },
        GateType::Xor => {
            let (c00, c01, c10, c11) = garbled_numbers(params, pa, pb);
            (
                (fraction(&c01, &c10, n), fraction(&c00, &c11, n)),
                (Label::new(false, c00), Label::new(true, c01)),
            )
        },
        GateType::Nand => {
            let (c00, c01, c10, c11) = garbled_numbers(params, pa, pb);
            (
                (fraction(&c00, &c01, n), fraction(&c00, &c10, n)),
                (Label::new(false, c11), Label::new(true, c00)),
            )
        },
        GateType::Nor => {
            let (c00, c01, c10, c11) = garbled_numbers(params, pa, pb);
            (
                (fraction(&c01, &c10, n), fraction(&c01, &c11, n)),
                (Label::new(false, c01), Label::new(true, c00)),
            )
        },
        GateType::Xnot => {
            let (c00, c01, c10, c11) = garbled_numbers(params, pa, pb);
            (
                (fraction(&c01, &c10, n), fraction(&c00, &c11, n)),
                (Label::new(false, c01), Label::new(true, c00)),
            )
        },
        GateType::Nimp => {
            let (c00, c01, c10, c11) = garbled_numbers(params, pa, pb);
            (
                (fraction(&c00, &c01, n), fraction(&c00, &c11, n)),
                (Label::new(false, c00), Label::new(true, c10)),
            )
        },
        GateType::Nsor => {
            let (c00, c01, c10, c11) = garbled_numbers(params, pa, pb);
            (
                (fraction(&c00, &c10, n), fraction(&c00, &c11, n)),
                (Label::new(false, c01), Label::new(true, c00)),
            )
        },
        GateType::Input => {
            let one_0 = vec![1u8];
            let one_1 = vec![1u8];
            assert(one_0@ =~= seq![1u8]);
            assert(one_1@ =~= seq![1u8]);
            (
                (one_0, one_1),
                (Label::new(false, pa.0.label.clone()), Label::new(true, pa.1.label.clone())),
            )
        },
    }
}

/// Multiplying `num / den` (modulo `n`) back by `den` gives `num`.
proof fn lemma_fraction_cancels(num: nat, den: nat, inv: nat, n: nat)
    requires
        n > 0,
        num < n,
        (den * inv) % n == 1nat % n,
    ensures
        (den * ((num * inv) % n)) % n == num,
{
    let (ni, di, ii, mi) = (num as int, den as int, inv as int, n as int);
    lemma_mul_mod_noop_right(di, ni * ii, mi);
    assert(di * (ni * ii) == ni * (di * ii)) by (nonlinear_arith);
    lemma_mul_mod_noop_right(ni, di * ii, mi);
    lemma_mul_mod_noop_right(ni, 1, mi);
    lemma_small_mod(num, n);
}

/// How the adaptor tables and output tables of a gate fit together: with no
/// adaptor the combined number is the output label's own; with adaptor `k`
/// it is that adaptor's denominator, and the numerator is the output label's.
proof fn lemma_gate_tables(g: GateType, x: bool, y: bool)
    requires
        !(g is Input),
    ensures
        match adaptor_slot(g, x, y) {
            None => output_source(g, gate_value(g, x, y)) == (x, y),
            Some(k) => {
                &&& adaptor_fraction(g, k).1 == (x, y)
                &&& adaptor_fraction(g, k).0 == output_source(g, gate_value(g, x, y))
            },
        },
{
}

/// Garbled-gate correctness: evaluating a garbled gate on the labels for `x`
/// and `y` of its inputs, with the adaptors the garbler produced, yields the
/// garbler's output label for its value on `(x, y)`, flag included.
pub proof fn lemma_garbled_gate_evaluation(
    g: GateType,
    params: &PublicParameters,
    pa: (Label, Label),
    pb: (Label, Label),
    x: bool,
    y: bool,
)
    requires
        garble_precondition(g, params, pa, pb),
        !pa.0.flag,
        pa.1.flag,
        !pb.0.flag,
        pb.1.flag,
    ensures
        ({
            let garbled_gate = garbled(g, params, pa, pb);
            let out = if gate_value(g, x, y) {
                garbled_gate.1.1
            } else {
                garbled_gate.1.0
            };
            evaluated_label(g, params, pick(pa, x)@, pick(pb, y)@, garbled_gate.0) == out
        }),
{
    if !(g is Input) {
        let n = le_value(params.n@);
        let c = |idx: (bool, bool)| garbled_number(params, pa, pb, idx);
        lemma_gate_tables(g, x, y);
        assert(pick(pa, x).flag == x);
        assert(pick(pb, y).flag == y);
        match adaptor_slot(g, x, y) {
            None => {},
            Some(k) => {
                let (num, den) = adaptor_fraction(g, k);
                lemma_coprime_inverse(c(adaptor_fraction(g, false).1), n);
                lemma_coprime_inverse(c(adaptor_fraction(g, true).1), n);
                let inv = inv_mod(c(den), n);
                let t = (c(num) * inv) % n;
                lemma_le_value_le_bytes(t);
                lemma_fraction_cancels(c(num), c(den), inv, n);
            },
        }
    }
}

/// The truth table of each gate kind, row by row (inputs `00, 01, 10, 11`).
pub proof fn lemma_gate_truth_tables()
    ensures
        !gate_value(GateType::And, false, false) && !gate_value(GateType::And, false, true)
            && !gate_value(GateType::And, true, false) && gate_value(GateType::And, true, true),
        !gate_value(GateType::Or, false, false) && gate_value(GateType::Or, false, true)
            && gate_value(GateType::Or, true, false) && gate_value(GateType::Or, true, true),
        !gate_value(GateType::Xor, false, false) && gate_value(GateType::Xor, false, true)
            && gate_value(GateType::Xor, true, false) && !gate_value(GateType::Xor, true, true),
        gate_value(GateType::Nand, false, false) && gate_value(GateType::Nand, false, true)
            && gate_value(GateType::Nand, true, false) && !gate_value(GateType::Nand, true, true),
        gate_value(GateType::Nor, false, false) && !gate_value(GateType::Nor, false, true)
            && !gate_value(GateType::Nor, true, false) && !gate_value(GateType::Nor, true, true),
        gate_value(GateType::Xnot, false, false) && !gate_value(GateType::Xnot, false, true)
            && !gate_value(GateType::Xnot, true, false) && gate_value(GateType::Xnot, true, true),
        !gate_value(GateType::Nimp, false, false) && !gate_value(GateType::Nimp, false, true)
            && gate_value(GateType::Nimp, true, false) && !gate_value(GateType::Nimp, true, true),
        gate_value(GateType::Nsor, false, false) && !gate_value(GateType::Nsor, false, true)
            && gate_value(GateType::Nsor, true, false) && gate_value(GateType::Nsor, true, true),
        !gate_value(GateType::Input, false, false) && !gate_value(GateType::Input, false, true)
            && gate_value(GateType::Input, true, false) && gate_value(GateType::Input, true, true),
{
}

/// The number `c_xy` of a garbled gate in full: the first input's label for
/// `x` to the power `e`, times the second input's label for `y` to the power
/// `e1` (`00`), `e2` (`01`), `e3` (`10`) or `e4` (`11`), modulo `n`.
pub proof fn lemma_garbled_number_formula(
    params: &PublicParameters,
    pa: (Label, Label),
    pb: (Label, Label),
)
    requires
        le_value(params.n@) > 0,
    ensures
        ({
            let n = le_value(params.n@);
            let e = le_value(params.e@);
            let (a0, a1) = (le_value(pa.0.label@), le_value(pa.1.label@));
            let (b0, b1) = (le_value(pb.0.label@), le_value(pb.1.label@));
            &&& garbled_number(params, pa, pb, (false, false)) == (nat_pow(a0, e) * nat_pow(
                b0,
                le_value(params.e1@),
            )) % n
            &&& garbled_number(params, pa, pb, (false, true)) == (nat_pow(a0, e) * nat_pow(
                b1,
                le_value(params.e2@),
            )) % n
            &&& garbled_number(params, pa, pb, (true, false)) == (nat_pow(a1, e) * nat_pow(
                b0,
                le_value(params.e3@),
            )) % n
            &&& garbled_number(params, pa, pb, (true, true)) == (nat_pow(a1, e) * nat_pow(
                b1,
                le_value(params.e4@),
            )) % n
        }),
{
    let n = le_value(params.n@);
    let e = le_value(params.e@);
    let (a0, a1) = (le_value(pa.0.label@), le_value(pa.1.label@));
    let (b0, b1) = (le_value(pb.0.label@), le_value(pb.1.label@));
    lemma_bipow_mul_is_product(a0, e, b0, le_value(params.e1@), n);
    lemma_bipow_mul_is_product(a0, e, b1, le_value(params.e2@), n);
    lemma_bipow_mul_is_product(a1, e, b0, le_value(params.e3@), n);
    lemma_bipow_mul_is_product(a1, e, b1, le_value(params.e4@), n);
}

/// What garbling produces for each gate kind, with `c_xy` the numbers of
/// `lemma_garbled_number_formula`: the output labels carry flags `false` and
/// `true`; their numbers are, for `false` / `true`, `c00 / c11` (And),
/// `c00 / c01` (Or, Xor), `c11 / c00` (Nand), `c01 / c00` (Nor, Xnot, Nsor),
/// `c00 / c10` (Nimp); each adaptor is a number `t < n` with
/// `t * den == num (mod n)`, where `(num, den)` is, for the two adaptors,
/// `(c00, c01), (c00, c10)` (And, Nand), `(c01, c10), (c01, c11)` (Or, Nor),
/// `(c01, c10), (c00, c11)` (Xor, Xnot), `(c00, c01), (c00, c11)` (Nimp),
/// `(c00, c10), (c00, c11)` (Nsor).
pub proof fn lemma_garble_table(
    g: GateType,
    params: &PublicParameters,
    pa: (Label, Label),
    pb: (Label, Label),
)
    requires
        !(g is Input),
        garble_precondition(g, params, pa, pb),
    ensures
        ({
            let n = le_value(params.n@);
            let c00 = garbled_number(params, pa, pb, (false, false));
            let c01 = garbled_number(params, pa, pb, (false, true));
            let c10 = garbled_number(params, pa, pb, (true, false));
            let c11 = garbled_number(params, pa, pb, (true, true));
            let gg = garbled(g, params, pa, pb);
            let t0 = le_value(gg.0.0);
            let t1 = le_value(gg.0.1);
            let (l0, l1) = (gg.1.0.1, gg.1.1.1);
            &&& !gg.1.0.0 && gg.1.1.0
            &&& gg.0.0 == le_bytes(t0) && gg.0.1 == le_bytes(t1)
            &&& t0 < n && t1 < n
            &&& match g {
                GateType::And => l0 == le_bytes(c00) && l1 == le_bytes(c11) && (t0 * c01) % n == c00
                    && (t1 * c10) % n == c00,
                GateType::Or => l0 == le_bytes(c00) && l1 == le_bytes(c01) && (t0 * c10) % n == c01
                    && (t1 * c11) % n == c01,
                GateType::Xor => l0 == le_bytes(c00) && l1 == le_bytes(c01) && (t0 * c10) % n == c01
                    && (t1 * c11) % n == c00,
                GateType::Nand => l0 == le_bytes(c11) && l1 == le_bytes(c00) && (t0 * c01) % n
                    == c00 && (t1 * c10) % n == c00,
                GateType::Nor => l0 == le_bytes(c01) && l1 == le_bytes(c00) && (t0 * c10) % n == c01
                    && (t1 * c11) % n == c01,
                GateType::Xnot => l0 == le_bytes(c01) && l1 == le_bytes(c00) && (t0 * c10) % n
                    == c01 && (t1 * c11) % n == c00,
                GateType::Nimp => l0 == le_bytes(c00) && l1 == le_bytes(c10) && (t0 * c01) % n
                    == c00 && (t1 * c11) % n == c00,
                GateType::Nsor => l0 == le_bytes(c01) && l1 == le_bytes(c00) && (t0 * c10) % n
                    == c00 && (t1 * c11) % n == c00,
                GateType::Input => true,
            }
        }),
{
    let n = le_value(params.n@);
    let c = |idx: (bool, bool)| garbled_number(params, pa, pb, idx);
    lemma_coprime_inverse(c(adaptor_fraction(g, false).1), n);
    lemma_coprime_inverse(c(adaptor_fraction(g, true).1), n);
    let (num0, den0) = adaptor_fraction(g, false);
    let (num1, den1) = adaptor_fraction(g, true);
    let i0 = inv_mod(c(den0), n);
    let i1 = inv_mod(c(den1), n);
    let t0 = (c(num0) * i0) % n;
    let t1 = (c(num1) * i1) % n;
    lemma_le_value_le_bytes(t0);
    lemma_le_value_le_bytes(t1);
    lemma_fraction_cancels(c(num0), c(den0), i0, n);
    lemma_fraction_cancels(c(num1), c(den1), i1, n);
    assert(t0 * c(den0) == c(den0) * t0) by (nonlinear_arith);
    assert(t1 * c(den1) == c(den1) * t1) by (nonlinear_arith);
}

/// Garbling an input gate passes its label pair through, in shortest form,
/// with both adaptors the number one.
pub proof fn lemma_garble_input(params: &PublicParameters, pa: (Label, Label), pb: (Label, Label))
    ensures
        ({
            let gg = garbled(GateType::Input, params, pa, pb);
            &&& le_value(gg.0.0) == 1 && le_value(gg.0.1) == 1
            &&& gg.1.0 == (false, le_bytes(le_value(pa.0.label@)))
            &&& gg.1.1 == (true, le_bytes(le_value(pa.1.label@)))
        }),
{
    lemma_le_value_single(1u8);
}

/// What evaluating a gate yields, with `A`, `B` the numbers and `x`, `y` the
/// flags of the two input labels, `c = A^e * B^f mod n` where `f` is `e1`,
/// `e2`, `e3`, `e4` for flags `00, 01, 10, 11`, and `d0`, `d1` the adaptor
/// numbers: the label's flag is the truth value of g on `(x, y)`; its number
/// is `A` for an input gate; `c * d0` on `01` and `c * d1` on `10` (And,
/// Nand); `c * d0` on `01` and `c * d1` on `11` (Nimp); `c * d0` on `10` and
/// `c * d1` on `11` (Or, Xor, Nor, Xnot, Nsor); `c` otherwise (all mod `n`).
pub proof fn lemma_evaluate_table(
    g: GateType,
    params: &PublicParameters,
    la: (bool, Seq<u8>),
    lb: (bool, Seq<u8>),
    adaptors: (Seq<u8>, Seq<u8>),
)
    requires
        le_value(params.n@) > 0,
    ensures
        ({
            let n = le_value(params.n@);
            let (x, y) = (la.0, lb.0);
            let a = le_value(la.1);
            let b = le_value(lb.1);
            let f = if !x && !y {
                le_value(params.e1@)
            } else if !x && y {
                le_value(params.e2@)
            } else if x && !y {
                le_value(params.e3@)
            } else {
                le_value(params.e4@)
            };
            let c = (nat_pow(a, le_value(params.e@)) * nat_pow(b, f)) % n;
            let d0 = le_value(adaptors.0);
            let d1 = le_value(adaptors.1);
            let r = evaluated_label(g, params, la, lb, adaptors);
            &&& r.0 == gate_value(g, x, y)
            &&& r.1 == le_bytes(
                match g {
                    GateType::Input => a,
                    GateType::And | GateType::Nand => if !x && y {
                        (c * d0) % n
                    } else if x && !y {
                        (c * d1) % n
                    } else {
                        c
                    },
                    GateType::Nimp => if !x && y {
                        (c * d0) % n
                    } else if x && y {
                        (c * d1) % n
                    } else {
                        c
                    },
                    GateType::Or | GateType::Xor | GateType::Nor | GateType::Xnot
                    | GateType::Nsor => if x && !y {
                        (c * d0) % n
                    } else if x && y {
                        (c * d1) % n
                    } else {
                        c
                    },
                },
            )
        }),
{
    let n = le_value(params.n@);
    let (x, y) = (la.0, lb.0);
    lemma_bipow_mul_is_product(
        le_value(la.1),
        le_value(params.e@),
        le_value(lb.1),
        pair_exponent(params, x, y),
        n,
    );
}

} // verus!
