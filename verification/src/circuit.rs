//! Circuits: the gates applied to the qubits of a program, in their order.

use vstd::prelude::*;

verus! {

/// A wire that a gate acts on: a qubit or the classical result of a
/// measurement of a qubit.
#[derive(Clone, Copy, Debug, PartialEq, Eq, Structural, Hash)]
pub struct Register {
    /// The qubit.
    pub q_id: usize,
    /// 0 for a qubit, 1 for a classical result.
    pub register_type: usize,
    /// The number of the result among the results of the qubit, for a
    /// classical result.
    pub c_id: Option<usize>,
}

impl Register {
    /// The wire of a qubit.
    pub open spec fn spec_quantum(q_id: usize) -> Register {
        Register { q_id, register_type: 0, c_id: None }
    }

    /// The wire of a classical result of a qubit.
    pub open spec fn spec_classical(q_id: usize, c_id: usize) -> Register {
        Register { q_id, register_type: 1, c_id: Some(c_id) }
    }

    /// The wire of a qubit.
    pub fn quantum(q_id: usize) -> (register: Register)
        ensures
            register == Register::spec_quantum(q_id),
    {
        Register { q_id, register_type: 0, c_id: None }
    }

    /// The wire of a classical result of a qubit.
    pub fn classical(q_id: usize, c_id: usize) -> (register: Register)
        ensures
            register == Register::spec_classical(q_id, c_id),
    {
        Register { q_id, register_type: 1, c_id: Some(c_id) }
    }
}

/// The wires of qubits.
pub open spec fn quantum_registers(qubits: Seq<usize>) -> Seq<Register> {
    Seq::new(qubits.len(), |i: int| Register::spec_quantum(qubits[i]))
}

/// The wires of qubits.
pub fn registers_of(qubits: &[usize]) -> (registers: Vec<Register>)
    ensures
        registers@ == quantum_registers(qubits@),
{
    let mut registers: Vec<Register> = Vec::new();
    let mut i: usize = 0;
    while i < qubits.len()
        invariant
            i <= qubits@.len(),
            registers@ == quantum_registers(qubits@.take(i as int)),
        decreases qubits@.len() - i,
    {
        registers.push(Register::quantum(qubits[i]));
        assert(registers@ =~= quantum_registers(qubits@.take(i + 1)));
        i += 1;
    }
    assert(qubits@.take(i as int) =~= qubits@);
    registers
}

/// A gate of a circuit.
#[derive(Debug)]
pub struct Gate {
    /// The name.
    pub gate: String,
    /// The arguments to show beside the name.
    pub display_args: Option<String>,
    pub is_controlled: bool,
    pub is_adjoint: bool,
    pub is_measurement: bool,
    /// The controlling wires.
    pub controls: Vec<Register>,
    /// The wires that are acted on.
    pub targets: Vec<Register>,
}

/// A qubit of a circuit.
#[derive(Clone, Copy, Debug, PartialEq, Eq, Structural, Hash)]
pub struct Qubit {
    pub id: usize,
    /// The number of measurements of the qubit.
    pub num_children: usize,
}

/// A circuit.
#[derive(Debug)]
pub struct Circuit {
    pub operations: Vec<Gate>,
    pub qubits: Vec<Qubit>,
}

impl Default for Circuit {
    fn default() -> (circuit: Self)
        ensures
            circuit.operations@.len() == 0,
            circuit.qubits@.len() == 0,
    {
        Circuit { operations: Vec::new(), qubits: Vec::new() }
    }
}

/// Whether `gate` has the name and acts on the target qubits, with the
/// flags and the control qubits, and without arguments to show.
pub open spec fn is_gate(
    gate: &Gate,
    name: Seq<char>,
    is_controlled: bool,
    is_adjoint: bool,
    controls: Seq<usize>,
    targets: Seq<usize>,
) -> bool {
    &&& gate.gate@ == name
    &&& gate.display_args is None
    &&& gate.is_controlled == is_controlled
    &&& gate.is_adjoint == is_adjoint
    &&& !gate.is_measurement
    &&& gate.controls@ == quantum_registers(controls)
    &&& gate.targets@ == quantum_registers(targets)
}

/// A gate with the name on the target qubits.
pub fn gate(name: &str, targets: &[usize]) -> (gate: Gate)
    ensures
        is_gate(&gate, name@, false, false, Seq::empty(), targets@),
{
    let gate = Gate {
        gate: name.to_owned(),
        display_args: None,
        is_controlled: false,
        is_adjoint: false,
        is_measurement: false,
        controls: Vec::new(),
        targets: registers_of(targets),
    };
    assert(gate.controls@ =~= quantum_registers(Seq::empty()));
    gate
}

/// The adjoint of a gate with the name on the target qubits.
pub fn adjoint_gate(name: &str, targets: &[usize]) -> (gate: Gate)
    ensures
        is_gate(&gate, name@, false, true, Seq::empty(), targets@),
{
    let gate = Gate {
        gate: name.to_owned(),
        display_args: None,
        is_controlled: false,
        is_adjoint: true,
        is_measurement: false,
        controls: Vec::new(),
        targets: registers_of(targets),
    };
    assert(gate.controls@ =~= quantum_registers(Seq::empty()));
    gate
}

/// A gate with the name on the target qubits, controlled by the control
/// qubits.
pub fn controlled_gate(name: &str, controls: &[usize], targets: &[usize]) -> (gate: Gate)
    ensures
        is_gate(&gate, name@, true, false, controls@, targets@),
{
    Gate {
        gate: name.to_owned(),
        display_args: None,
        is_controlled: true,
        is_adjoint: false,
        is_measurement: false,
        controls: registers_of(controls),
        targets: registers_of(targets),
    }
}

/// The measurement of a qubit into its result of the number.
pub fn measurement_gate(qubit: usize, result: usize) -> (gate: Gate)
    ensures
        gate.gate@ == "Measure"@,
        gate.display_args is None,
        !gate.is_controlled,
        !gate.is_adjoint,
        gate.is_measurement,
        gate.controls@ == seq![Register::spec_quantum(qubit)],
        gate.targets@ == seq![Register::spec_classical(qubit, result)],
{
    let mut controls: Vec<Register> = Vec::new();
    controls.push(Register::quantum(qubit));
    let mut targets: Vec<Register> = Vec::new();
    targets.push(Register::classical(qubit, result));
    assert(controls@ =~= seq![Register::spec_quantum(qubit)]);
    assert(targets@ =~= seq![Register::spec_classical(qubit, result)]);
    Gate {
        gate: "Measure".to_owned(),
        display_args: None,
        is_controlled: false,
        is_adjoint: false,
        is_measurement: true,
        controls,
        targets,
    }
}

} // verus!
