//! A literal boolean-circuit model: wires that are set once, gates named by
//! their boolean function, and circuits that hold wires and gates.
//!
//! Wires live in a store (a `Vec<TestWire>`) owned by the caller; gates and
//! circuits refer to them by index.
use vstd::prelude::*;

verus! {

/// Numbers of gates of each kind in a circuit.
#[derive(Clone, Copy, Debug, PartialEq, Eq)]
pub struct GateCount {
    pub and: usize,
    pub or: usize,
    pub xor: usize,
    pub nand: usize,
    pub not: usize,
    pub xnor: usize,
    pub nimp: usize,
    pub nsor: usize,
}

/// The boolean function of a gate.
#[derive(Clone, Copy, Debug, PartialEq, Eq)]
pub enum GateFn {
    And,
    Or,
    Xor,
    Nand,
    Not,
    Xnor,
    Nimp,
    Nsor,
}

/// The value of each gate function (`Not` ignores its second input).
pub open spec fn gate_fn_value(f: GateFn, a: bool, b: bool) -> bool {
    match f {
        GateFn::And => a && b,
        GateFn::Or => a || b,
        GateFn::Xor => a != b,
        GateFn::Nand => !(a && b),
        GateFn::Not => !a,
        GateFn::Xnor => a == b,
        GateFn::Nimp => a && !b,
        GateFn::Nsor => a || !b,
    }
}

impl GateFn {
    /// Applies the function to two inputs.
    pub fn apply(&self, a: bool, b: bool) -> (r: bool)
        ensures
            r == gate_fn_value(*self, a, b),
    {
        match self {
            GateFn::And => a && b,
            GateFn::Or => a || b,
            GateFn::Xor => a != b,
            GateFn::Nand => !(a && b),
            GateFn::Not => !a,
            GateFn::Xnor => !(a != b),
            GateFn::Nimp => a && !b,
            GateFn::Nsor => a || !b,
        }
    }
}

/// The function a gate name stands for; names other than these are not
/// allowed.
pub open spec fn gate_kind(name: Seq<char>) -> Option<GateFn> {
    if name == "and"@ {
        Some(GateFn::And)
    } else if name == "or"@ {
        Some(GateFn::Or)
    } else if name == "xor"@ {
        Some(GateFn::Xor)
    } else if name == "nand"@ {
        Some(GateFn::Nand)
    } else if name == "inv"@ || name == "not"@ {
        Some(GateFn::Not)
    } else if name == "xnor"@ {
        Some(GateFn::Xnor)
    } else if name == "nimp"@ {
        Some(GateFn::Nimp)
    } else if name == "nsor"@ {
        Some(GateFn::Nsor)
    } else {
        None
    }
}

/// A circuit: a list of wire handles and a list of gates.
pub struct TestCircuit(pub TestWires, pub Vec<TestGate>);

/// How many of `gates` have a name that stands for `k`.
pub open spec fn count_kind(gates: Seq<TestGate>, k: GateFn) -> nat
    decreases gates.len(),
{
    if gates.len() == 0 {
        0
    } else {
        count_kind(gates.drop_last(), k) + if gate_kind(gates.last().name@) == Some(k) {
            1nat
        } else {
            0nat
        }
    }
}

/// Every gate's name is one that `gate_kind` knows.
pub open spec fn all_known(gates: Seq<TestGate>) -> bool {
    forall|i: int| 0 <= i < gates.len() ==> #[trigger] gate_kind(gates[i].name@) is Some
}

/// `count_kind` counts exactly the gates whose name stands for `k`: it is
/// the length of the subsequence of those gates.
pub proof fn lemma_count_kind_is_filter_len(gates: Seq<TestGate>, k: GateFn)
    ensures
        count_kind(gates, k) == gates.filter(|g: TestGate| gate_kind(g.name@) == Some(k)).len(),
    decreases gates.len(),
{
    reveal(Seq::filter);
    if gates.len() > 0 {
        lemma_count_kind_is_filter_len(gates.drop_last(), k);
    }
}

/// A single gate counts once for the kind its name stands for and for no
/// other kind.
pub proof fn lemma_count_kind_single(g: TestGate, k: GateFn)
    ensures
        count_kind(seq![g], k) == (if gate_kind(g.name@) == Some(k) {
            1nat
        } else {
            0nat
        }),
{
    assert(seq![g].drop_last() =~= Seq::<TestGate>::empty());
    assert(count_kind(Seq::<TestGate>::empty(), k) == 0);
    assert(seq![g].last() == g);
}

/// Counting over two lists of gates is counting over each and adding.
pub proof fn lemma_count_kind_append(s: Seq<TestGate>, t: Seq<TestGate>, k: GateFn)
    ensures
        count_kind(s + t, k) == count_kind(s, k) + count_kind(t, k),
    decreases t.len(),
{
    if t.len() == 0 {
        assert(s + t =~= s);
    } else {
        lemma_count_kind_append(s, t.drop_last(), k);
        assert((s + t).drop_last() =~= s + t.drop_last());
        assert((s + t).last() == t.last());
    }
}

/// The names that gates may carry and the function each stands for; any
/// other name, such as `maj`, is not allowed.
pub proof fn lemma_gate_kind_names()
    ensures
        gate_kind("and"@) == Some(GateFn::And),
        gate_kind("or"@) == Some(GateFn::Or),
        gate_kind("xor"@) == Some(GateFn::Xor),
        gate_kind("nand"@) == Some(GateFn::Nand),
        gate_kind("inv"@) == Some(GateFn::Not),
        gate_kind("not"@) == Some(GateFn::Not),
        gate_kind("xnor"@) == Some(GateFn::Xnor),
        gate_kind("nimp"@) == Some(GateFn::Nimp),
        gate_kind("nsor"@) == Some(GateFn::Nsor),
        gate_kind("maj"@) == None::<GateFn>,
{
    reveal_strlit("and");
    reveal_strlit("or");
    reveal_strlit("xor");
    reveal_strlit("nand");
    reveal_strlit("inv");
    reveal_strlit("not");
    reveal_strlit("xnor");
    reveal_strlit("nimp");
    reveal_strlit("nsor");
    reveal_strlit("maj");
    assert("or"@.len() != "and"@.len());
    assert("xor"@[0] != "and"@[0]);
    assert("xor"@.len() != "or"@.len());
    assert("nand"@.len() != "and"@.len());
    assert("nand"@.len() != "or"@.len());
    assert("nand"@.len() != "xor"@.len());
    assert("inv"@[0] != "and"@[0]);
    assert("inv"@.len() != "or"@.len());
    assert("inv"@[0] != "xor"@[0]);
    assert("inv"@.len() != "nand"@.len());
    assert("not"@[0] != "and"@[0]);
    assert("not"@.len() != "or"@.len());
    assert("not"@[0] != "xor"@[0]);
    assert("not"@.len() != "nand"@.len());
    assert("not"@[0] != "inv"@[0]);
    assert("xnor"@.len() != "and"@.len());
    assert("xnor"@.len() != "or"@.len());
    assert("xnor"@.len() != "xor"@.len());
    assert("xnor"@[0] != "nand"@[0]);
    assert("xnor"@.len() != "inv"@.len());
    assert("xnor"@.len() != "not"@.len());
    assert("nimp"@.len() != "and"@.len());
    assert("nimp"@.len() != "or"@.len());
    assert("nimp"@.len() != "xor"@.len());
    assert("nimp"@[1] != "nand"@[1]);
    assert("nimp"@.len() != "inv"@.len());
    assert("nimp"@.len() != "not"@.len());
    assert("nimp"@[0] != "xnor"@[0]);
    assert("nsor"@.len() != "and"@.len());
    assert("nsor"@.len() != "or"@.len());
    assert("nsor"@.len() != "xor"@.len());
    assert("nsor"@[1] != "nand"@[1]);
    assert("nsor"@.len() != "inv"@.len());
    assert("nsor"@.len() != "not"@.len());
    assert("nsor"@[0] != "xnor"@[0]);
    assert("nsor"@[1] != "nimp"@[1]);
    assert("maj"@[0] != "and"@[0]);
    assert("maj"@.len() != "or"@.len());
    assert("maj"@[0] != "xor"@[0]);
    assert("maj"@.len() != "nand"@.len());
    assert("maj"@[0] != "inv"@[0]);
    assert("maj"@[0] != "not"@[0]);
    assert("maj"@.len() != "xnor"@.len());
    assert("maj"@.len() != "nimp"@.len());
    assert("maj"@.len() != "nsor"@.len());
}

/// The truth table of each gate function, row by row (inputs `00, 01, 10,
/// 11`).
pub proof fn lemma_gate_fn_truth_tables()
    ensures
        !gate_fn_value(GateFn::And, false, false) && !gate_fn_value(GateFn::And, false, true)
            && !gate_fn_value(GateFn::And, true, false) && gate_fn_value(GateFn::And, true, true),
        !gate_fn_value(GateFn::Or, false, false) && gate_fn_value(GateFn::Or, false, true)
            && gate_fn_value(GateFn::Or, true, false) && gate_fn_value(GateFn::Or, true, true),
        !gate_fn_value(GateFn::Xor, false, false) && gate_fn_value(GateFn::Xor, false, true)
            && gate_fn_value(GateFn::Xor, true, false) && !gate_fn_value(GateFn::Xor, true, true),
        gate_fn_value(GateFn::Nand, false, false) && gate_fn_value(GateFn::Nand, false, true)
            && gate_fn_value(GateFn::Nand, true, false) && !gate_fn_value(GateFn::Nand, true, true),
        gate_fn_value(GateFn::Not, false, false) && gate_fn_value(GateFn::Not, false, true)
            && !gate_fn_value(GateFn::Not, true, false) && !gate_fn_value(GateFn::Not, true, true),
        gate_fn_value(GateFn::Xnor, false, false) && !gate_fn_value(GateFn::Xnor, false, true)
            && !gate_fn_value(GateFn::Xnor, true, false) && gate_fn_value(GateFn::Xnor, true, true),
        !gate_fn_value(GateFn::Nimp, false, false) && !gate_fn_value(GateFn::Nimp, false, true)
            && gate_fn_value(GateFn::Nimp, true, false) && !gate_fn_value(GateFn::Nimp, true, true),
        gate_fn_value(GateFn::Nsor, false, false) && !gate_fn_value(GateFn::Nsor, false, true)
            && gate_fn_value(GateFn::Nsor, true, false) && gate_fn_value(GateFn::Nsor, true, true),
{
}

/// A count never exceeds the number of gates.
proof fn lemma_count_kind_bound(gates: Seq<TestGate>, k: GateFn)
    ensures
        count_kind(gates, k) <= gates.len(),
    decreases gates.len(),
{
    if gates.len() > 0 {
        lemma_count_kind_bound(gates.drop_last(), k);
    }
}

/// With every name known, the counts of the kinds add up to the number of
/// gates.
proof fn lemma_count_kinds_total(gates: Seq<TestGate>)
    requires
        all_known(gates),
    ensures
        count_kind(gates, GateFn::And) + count_kind(gates, GateFn::Or) + count_kind(gates, GateFn::Xor)
            + count_kind(gates, GateFn::Nand) + count_kind(gates, GateFn::Not) + count_kind(
            gates,
            GateFn::Xnor,
        ) + count_kind(gates, GateFn::Nimp) + count_kind(gates, GateFn::Nsor) == gates.len(),
    decreases gates.len(),
{
    if gates.len() > 0 {
        let prefix = gates.drop_last();
        assert forall|i: int| 0 <= i < prefix.len() implies #[trigger] gate_kind(
            prefix[i].name@,
        ) is Some by {
            assert(prefix[i] == gates[i]);
        }
        lemma_count_kinds_total(prefix);
        assert(gate_kind(gates[gates.len() - 1].name@) is Some);
    }
}

/// The per-kind counts of a circuit whose gate names are all known add up to
/// its gate count.
pub proof fn lemma_gate_counts_total(c: &TestCircuit)
    requires
        all_known(c.1@),
    ensures
        count_kind(c.1@, GateFn::And) + count_kind(c.1@, GateFn::Or) + count_kind(c.1@, GateFn::Xor)
            + count_kind(c.1@, GateFn::Nand) + count_kind(c.1@, GateFn::Not) + count_kind(
            c.1@,
            GateFn::Xnor,
        ) + count_kind(c.1@, GateFn::Nimp) + count_kind(c.1@, GateFn::Nsor) == c.1@.len(),
{
    lemma_count_kinds_total(c.1@);
}

impl TestCircuit {
    /// A circuit with no wires and no gates.
    pub fn empty() -> (r: Self)
        ensures
            r.0@ == Seq::<TestWirex>::empty(),
            r.1@ == Seq::<TestGate>::empty(),
    {
        Self(Vec::new(), Vec::new())
    }

    /// A circuit with the given wires and gates.
    pub fn new(wires: TestWires, gates: Vec<TestGate>) -> (r: Self)
        ensures
            r.0@ == wires@,
            r.1@ == gates@,
    {
        Self(wires, gates)
    }

    /// Appends the gates of `circuit` to this one and hands back its wires.
    pub fn extend(&mut self, circuit: Self) -> (r: TestWires)
        ensures
            final(self).0@ == old(self).0@,
            final(self).1@ == old(self).1@ + circuit.1@,
            r@ == circuit.0@,
    {
        let TestCircuit(wires, mut gates) = circuit;
        self.1.append(&mut gates);
        wires
    }

    /// Appends a gate.
    pub fn add(&mut self, gate: TestGate)
        ensures
            final(self).0@ == old(self).0@,
            final(self).1@ == old(self).1@.push(gate),
    {
        self.1.push(gate);
    }

    /// Appends a wire handle.
    pub fn add_wire(&mut self, wire: TestWirex)
        ensures
            final(self).0@ == old(self).0@.push(wire),
            final(self).1@ == old(self).1@,
    {
        self.0.push(wire);
    }

    /// Appends wire handles.
    pub fn add_wires(&mut self, wires: TestWires)
        ensures
            final(self).0@ == old(self).0@ + wires@,
            final(self).1@ == old(self).1@,
    {
        let mut wires = wires;
        self.0.append(&mut wires);
    }

    /// The number of gates.
    pub fn gate_count(&self) -> (r: usize)
        ensures
            r == self.1@.len(),
    {
        self.1.len()
    }

    /// The number of gates of each kind (`inv` and `not` both count as
    /// `not`); every gate's name must be one that `gate_kind` knows.
    pub fn gate_counts(&self) -> (r: GateCount)
        requires
            all_known(self.1@),
        ensures
            r.and == count_kind(self.1@, GateFn::And),
            r.or == count_kind(self.1@, GateFn::Or),
            r.xor == count_kind(self.1@, GateFn::Xor),
            r.nand == count_kind(self.1@, GateFn::Nand),
            r.not == count_kind(self.1@, GateFn::Not),
            r.xnor == count_kind(self.1@, GateFn::Xnor),
            r.nimp == count_kind(self.1@, GateFn::Nimp),
            r.nsor == count_kind(self.1@, GateFn::Nsor),
    {
        let gates = &self.1;
        let mut and: usize = 0;
        let mut or: usize = 0;
        let mut xor: usize = 0;
        let mut nand: usize = 0;
        let mut not: usize = 0;
        let mut xnor: usize = 0;
        let mut nimp: usize = 0;
        let mut nsor: usize = 0;
        let mut i: usize = 0;
        while i < gates.len()
            invariant
                i <= gates@.len(),
                all_known(gates@),
                and == count_kind(gates@.take(i as int), GateFn::And),
                or == count_kind(gates@.take(i as int), GateFn::Or),
                xor == count_kind(gates@.take(i as int), GateFn::Xor),
                nand == count_kind(gates@.take(i as int), GateFn::Nand),
                not == count_kind(gates@.take(i as int), GateFn::Not),
                xnor == count_kind(gates@.take(i as int), GateFn::Xnor),
                nimp == count_kind(gates@.take(i as int), GateFn::Nimp),
                nsor == count_kind(gates@.take(i as int), GateFn::Nsor),
            decreases gates@.len() - i,
        {
            let ghost prefix = gates@.take(i as int);
            let ghost next = gates@.take(i + 1);
            proof {
                assert(next.drop_last() =~= prefix);
                assert(next.last() == gates@[i as int]);
                lemma_count_kind_bound(prefix, GateFn::And);
                lemma_count_kind_bound(prefix, GateFn::Or);
                lemma_count_kind_bound(prefix, GateFn::Xor);
                lemma_count_kind_bound(prefix, GateFn::Nand);
                lemma_count_kind_bound(prefix, GateFn::Not);
                lemma_count_kind_bound(prefix, GateFn::Xnor);
                lemma_count_kind_bound(prefix, GateFn::Nimp);
                lemma_count_kind_bound(prefix, GateFn::Nsor);
                assert(gate_kind(gates@[i as int].name@) is Some);
            }
            match gates[i].f() {
                GateFn::And => and += 1,
                GateFn::Or => or += 1,
                GateFn::Xor => xor += 1,
                GateFn::Nand => nand += 1,
                GateFn::Not => not += 1,
                GateFn::Xnor => xnor += 1,
                GateFn::Nimp => nimp += 1,
                GateFn::Nsor => nsor += 1,
            }
            i += 1;
        }
        assert(gates@.take(i as int) =~= gates@);
        GateCount { and, or, xor, nand, not, xnor, nimp, nsor }
    }
}

/// A wire: unset, or set once to a bit.
#[derive(Clone, Copy, Debug)]
pub struct TestWire {
    pub value: Option<bool>,
}

/// A handle of a wire: its index in the wire store.
pub type TestWirex = usize;

/// A list of wire handles.
pub type TestWires = Vec<TestWirex>;

impl Default for TestWire {
    fn default() -> (r: Self)
        ensures
            r.value is None,
    {
        Self::new()
    }
}

impl TestWire {
    /// An unset wire.
    pub fn new() -> (r: Self)
        ensures
            r.value is None,
    {
        Self { value: None }
    }

    /// The bit of a set wire.
    pub fn get_value(&self) -> (r: bool)
        requires
            self.value is Some,
        ensures
            self.value == Some(r),
    {
        self.value.unwrap()
    }

    /// Sets an unset wire to `bit`.
    pub fn set(&mut self, bit: bool)
        requires
            old(self).value is None,
        ensures
            final(self).value == Some(bit),
    {
        self.value = Some(bit);
    }
}

/// A gate: two input wires, an output wire and the name of its function.
#[derive(Clone)]
pub struct TestGate {
    pub wire_a: TestWirex,
    pub wire_b: TestWirex,
    pub wire_c: TestWirex,
    pub name: String,
}

impl TestGate {
    /// A gate with the given wires and name.
    pub fn new(wire_a: TestWirex, wire_b: TestWirex, wire_c: TestWirex, name: String) -> (r: Self)
        ensures
            r.wire_a == wire_a,
            r.wire_b == wire_b,
            r.wire_c == wire_c,
            r.name@ == name@,
    {
        Self { wire_a, wire_b, wire_c, name }
    }

    /// An `and` gate.
    pub fn and(wire_a: TestWirex, wire_b: TestWirex, wire_c: TestWirex) -> (r: Self)
        ensures
            r.wire_a == wire_a,
            r.wire_b == wire_b,
            r.wire_c == wire_c,
            r.name@ == "and"@,
    {
        Self::new(wire_a, wire_b, wire_c, "and".to_owned())
    }

    /// A `nand` gate.
    pub fn nand(wire_a: TestWirex, wire_b: TestWirex, wire_c: TestWirex) -> (r: Self)
        ensures
            r.wire_a == wire_a,
            r.wire_b == wire_b,
            r.wire_c == wire_c,
            r.name@ == "nand"@,
    {
        Self::new(wire_a, wire_b, wire_c, "nand".to_owned())
    }

    /// An `or` gate.
    pub fn or(wire_a: TestWirex, wire_b: TestWirex, wire_c: TestWirex) -> (r: Self)
        ensures
            r.wire_a == wire_a,
            r.wire_b == wire_b,
            r.wire_c == wire_c,
            r.name@ == "or"@,
    {
        Self::new(wire_a, wire_b, wire_c, "or".to_owned())
    }

    /// A `xor` gate.
    pub fn xor(wire_a: TestWirex, wire_b: TestWirex, wire_c: TestWirex) -> (r: Self)
        ensures
            r.wire_a == wire_a,
            r.wire_b == wire_b,
            r.wire_c == wire_c,
            r.name@ == "xor"@,
    {
        Self::new(wire_a, wire_b, wire_c, "xor".to_owned())
    }

    /// A `xnor` gate.
    pub fn xnor(wire_a: TestWirex, wire_b: TestWirex, wire_c: TestWirex) -> (r: Self)
        ensures
            r.wire_a == wire_a,
            r.wire_b == wire_b,
            r.wire_c == wire_c,
            r.name@ == "xnor"@,
    {
        Self::new(wire_a, wire_b, wire_c, "xnor".to_owned())
    }

    /// A `not` gate: its input wire is both of its inputs.
    pub fn not(wire_a: TestWirex, wire_c: TestWirex) -> (r: Self)
        ensures
            r.wire_a == wire_a,
            r.wire_b == wire_a,
            r.wire_c == wire_c,
            r.name@ == "not"@,
    {
        Self::new(wire_a, wire_a, wire_c, "not".to_owned())
    }

    /// A `nimp` gate (`a && !b`).
    pub fn nimp(wire_a: TestWirex, wire_b: TestWirex, wire_c: TestWirex) -> (r: Self)
        ensures
            r.wire_a == wire_a,
            r.wire_b == wire_b,
            r.wire_c == wire_c,
            r.name@ == "nimp"@,
    {
        Self::new(wire_a, wire_b, wire_c, "nimp".to_owned())
    }

    /// A `nsor` gate (`a || !b`).
    pub fn nsor(wire_a: TestWirex, wire_b: TestWirex, wire_c: TestWirex) -> (r: Self)
        ensures
            r.wire_a == wire_a,
            r.wire_b == wire_b,
            r.wire_c == wire_c,
            r.name@ == "nsor"@,
    {
        Self::new(wire_a, wire_b, wire_c, "nsor".to_owned())
    }

    /// Whether this gate is named `lit`.
    fn named(&self, lit: &str) -> (r: bool)
        ensures
            r == (self.name@ == lit@),
    {
        let lit = lit.to_owned();
        self.name == lit
    }

    /// The function of this gate; its name must be one that `gate_kind` knows.
    pub fn f(&self) -> (r: GateFn)
        requires
            gate_kind(self.name@) is Some,
        ensures
            gate_kind(self.name@) == Some(r),
    {
        if self.named("and") {
            GateFn::And
        } else if self.named("or") {
            GateFn::Or
        } else if self.named("xor") {
            GateFn::Xor
        } else if self.named("nand") {
            GateFn::Nand
        } else if self.named("inv") || self.named("not") {
            GateFn::Not
        } else if self.named("xnor") {
            GateFn::Xnor
        } else if self.named("nimp") {
            GateFn::Nimp
        } else {
            GateFn::Nsor
        }
    }

    /// Sets the output wire to this gate's function of its two (set) input
    /// wires; the output wire must be unset.
    pub fn evaluate(&self, wires: &mut Vec<TestWire>)
        requires
            self.wire_a < old(wires)@.len(),
            self.wire_b < old(wires)@.len(),
            self.wire_c < old(wires)@.len(),
            old(wires)@[self.wire_a as int].value is Some,
            old(wires)@[self.wire_b as int].value is Some,
            old(wires)@[self.wire_c as int].value is None,
            gate_kind(self.name@) is Some,
        ensures
            final(wires)@ == old(wires)@.update(
                self.wire_c as int,
                (TestWire {
                    value: Some(
                        gate_fn_value(
                            gate_kind(self.name@).unwrap(),
                            old(wires)@[self.wire_a as int].value.unwrap(),
                            old(wires)@[self.wire_b as int].value.unwrap(),
                        ),
                    ),
                }),
            ),
    {
        let a = wires[self.wire_a].get_value();
        let b = wires[self.wire_b].get_value();
        let bit = self.f().apply(a, b);
        let mut out = wires[self.wire_c];
        out.set(bit);
        wires.set(self.wire_c, out);
    }
}

} // verus!
