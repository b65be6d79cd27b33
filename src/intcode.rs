//! The Intcode machine: a self-modifying array of signed integers executed by
//! a decode/execute loop with three addressing modes and cooperative input.

use vstd::prelude::*;

use crate::parse::{parse_program, parse_program_text};

verus! {

/// Failures raised while decoding or executing an instruction.
#[derive(Debug, Clone, Copy, PartialEq, Eq, Structural)]
pub enum OperationalError {
    /// The low two digits of an instruction word name no operation.
    InvalidOpcode(i64),
    /// A mode digit is not 0, 1 or 2.
    InvalidParameterMode(i64),
    /// The address cannot be held by a growable memory.
    OutOfRange(usize),
    /// An address operand resolved to a negative number.
    NegativeAddress(i64),
    /// The instruction word itself is negative.
    NegativeInstruction(i64),
    /// The instruction word carries more mode digits than its operation has parameters.
    TooManyParameterModes(i64),
    /// A parameter that names a storage location is in immediate mode.
    ImmediateModeStorage,
    /// An addition, product or relative address does not fit in a machine word.
    ArithmeticOverflow,
    /// The instruction counter cannot count one more instruction.
    InstructionLimit,
}

/// Malformed program text.
#[derive(Debug)]
pub enum ParseError {
    /// The token, as written, that is not an integer.
    NotAnInteger(String),
}

/// The operations of the machine.
#[derive(Debug, Clone, Copy, PartialEq, Eq, Structural)]
pub enum Opcode {
    Add,
    Multiply,
    Input,
    Output,
    JumpIfTrue,
    JumpIfFalse,
    LessThan,
    Equals,
    RelativeBaseOffset,
    Halt,
}

/// The operation that the low two digits `code` of an instruction word name.
pub open spec fn opcode_spec(code: int) -> Option<Opcode> {
    if code == 1 {
        Some(Opcode::Add)
    } else if code == 2 {
        Some(Opcode::Multiply)
    } else if code == 3 {
        Some(Opcode::Input)
    } else if code == 4 {
        Some(Opcode::Output)
    } else if code == 5 {
        Some(Opcode::JumpIfTrue)
    } else if code == 6 {
        Some(Opcode::JumpIfFalse)
    } else if code == 7 {
        Some(Opcode::LessThan)
    } else if code == 8 {
        Some(Opcode::Equals)
    } else if code == 9 {
        Some(Opcode::RelativeBaseOffset)
    } else if code == 99 {
        Some(Opcode::Halt)
    } else {
        None
    }
}

/// How many parameter words follow an instruction word of this operation.
pub open spec fn arity(op: Opcode) -> nat {
    match op {
        Opcode::Add => 3,
        Opcode::Multiply => 3,
        Opcode::Input => 1,
        Opcode::Output => 1,
        Opcode::JumpIfTrue => 2,
        Opcode::JumpIfFalse => 2,
        Opcode::LessThan => 3,
        Opcode::Equals => 3,
        Opcode::RelativeBaseOffset => 1,
        Opcode::Halt => 0,
    }
}

impl Opcode {
    pub fn from_int(i: i64) -> (r: Result<Opcode, OperationalError>)
        ensures
            match opcode_spec(i as int) {
                Some(op) => r == Ok::<Opcode, OperationalError>(op),
                None => r == Err::<Opcode, OperationalError>(OperationalError::InvalidOpcode(i)),
            },
    {
        match i {
            1 => Ok(Opcode::Add),
            2 => Ok(Opcode::Multiply),
            3 => Ok(Opcode::Input),
            4 => Ok(Opcode::Output),
            5 => Ok(Opcode::JumpIfTrue),
            6 => Ok(Opcode::JumpIfFalse),
            7 => Ok(Opcode::LessThan),
            8 => Ok(Opcode::Equals),
            9 => Ok(Opcode::RelativeBaseOffset),
            99 => Ok(Opcode::Halt),
            _ => Err(OperationalError::InvalidOpcode(i)),
        }
    }

    pub fn parameter_count(&self) -> (r: usize)
        ensures
            r == arity(*self),
    {
        match self {
            Opcode::Add => 3,
            Opcode::Multiply => 3,
            Opcode::Input => 1,
            Opcode::Output => 1,
            Opcode::JumpIfTrue => 2,
            Opcode::JumpIfFalse => 2,
            Opcode::LessThan => 3,
            Opcode::Equals => 3,
            Opcode::RelativeBaseOffset => 1,
            Opcode::Halt => 0,
        }
    }
}

/// How a parameter's raw value is turned into an operand.
#[derive(Debug, Clone, Copy, PartialEq, Eq, Structural)]
pub enum ParameterMode {
    Positional,
    Immediate,
    Relative,
}

/// The mode for the parameter whose mode digit is `digit`; a missing digit
/// (`None`) means positional.
pub open spec fn mode_spec(digit: Option<i64>) -> Result<ParameterMode, OperationalError> {
    match digit {
        None => Ok(ParameterMode::Positional),
        Some(d) => if d == 0 {
            Ok(ParameterMode::Positional)
        } else if d == 1 {
            Ok(ParameterMode::Immediate)
        } else if d == 2 {
            Ok(ParameterMode::Relative)
        } else {
            Err(OperationalError::InvalidParameterMode(d))
        },
    }
}

impl ParameterMode {
    pub fn from_int(value: Option<&i64>) -> (r: Result<ParameterMode, OperationalError>)
        ensures
            r == mode_spec(
                match value {
                    Some(v) => Some(*v),
                    None => None,
                },
            ),
    {
        match value {
            Some(val) => {
                if *val == 0 {
                    Ok(ParameterMode::Positional)
                } else if *val == 1 {
                    Ok(ParameterMode::Immediate)
                } else if *val == 2 {
                    Ok(ParameterMode::Relative)
                } else {
                    Err(OperationalError::InvalidParameterMode(*val))
                }
            },
            None => Ok(ParameterMode::Positional),
        }
    }
}

/// The decimal digits of `word`, least significant first: the mode digit of
/// the first parameter comes first. Zero has no digits.
pub open spec fn mode_digits(word: int) -> Seq<i64>
    decreases word,
{
    if word <= 0 {
        Seq::empty()
    } else {
        seq![(word % 10) as i64] + mode_digits(word / 10)
    }
}

/// The mode digits of an instruction word's high part `mode`, first parameter first.
pub fn mode_int_to_vec(mode: i64) -> (r: Vec<i64>)
    requires
        mode >= 0,
    ensures
        r@ == mode_digits(mode as int),
{
    let mut digits: Vec<i64> = Vec::new();
    let mut rest: i64 = mode;
    while rest > 0
        invariant
            rest >= 0,
            digits@ + mode_digits(rest as int) == mode_digits(mode as int),
        decreases rest,
    {
        let ghost before = rest;
        digits.push(rest % 10);
        rest = rest / 10;
        proof {
            assert(mode_digits(before as int) == seq![(before % 10) as i64] + mode_digits(
                rest as int,
            ));
            assert(digits@ + mode_digits(rest as int) =~= (digits@.drop_last() + seq![(before
                % 10) as i64]) + mode_digits(rest as int));
        }
    }
    digits
}

/// Splits an instruction word into its operation and its mode digits.
pub open spec fn op_and_modes_spec(value: i64) -> Result<(Opcode, Seq<i64>), OperationalError> {
    if value < 0 {
        Err(OperationalError::NegativeInstruction(value))
    } else {
        match opcode_spec((value % 100) as int) {
            None => Err(OperationalError::InvalidOpcode((value % 100) as i64)),
            Some(op) => Ok((op, mode_digits((value / 100) as int))),
        }
    }
}

/// A decoded instruction: its operation and one mode-tagged parameter for
/// each parameter word that follows it.
#[derive(Debug, PartialEq, Eq)]
pub struct Instruction {
    pub opcode: Opcode,
    pub parameters: Vec<Parameter>,
}

/// A raw parameter word with the mode that it is read in.
#[derive(Debug, Clone, Copy, PartialEq, Eq, Structural)]
pub struct Parameter {
    pub value: i64,
    pub mode: ParameterMode,
}

impl Instruction {
    pub fn op_and_mode_digits(value: &i64) -> (r: Result<(Opcode, Vec<i64>), OperationalError>)
        ensures
            match op_and_modes_spec(*value) {
                Ok((op, digits)) => r matches Ok((o, d)) && o == op && d@ == digits,
                Err(e) => r matches Err(e2) && e2 == e,
            },
    {
        if *value < 0 {
            return Err(OperationalError::NegativeInstruction(*value));
        }
        let opcode = Opcode::from_int(*value % 100)?;
        let mode_digits = mode_int_to_vec(*value / 100);
        Ok((opcode, mode_digits))
    }
}

/// Conversion of an index into a memory address.
pub trait IntoAddress: Sized {
    /// The address that `self` denotes, or why it denotes none.
    spec fn address_spec(&self) -> Result<usize, OperationalError>;

    fn into_addr(self) -> (r: Result<usize, OperationalError>)
        ensures
            r == self.address_spec(),
    ;
}

impl IntoAddress for usize {
    open spec fn address_spec(&self) -> Result<usize, OperationalError> {
        Ok(*self)
    }

    fn into_addr(self) -> (r: Result<usize, OperationalError>) {
        Ok(self)
    }
}

/// The address that a signed value denotes: negative values denote none.
pub open spec fn signed_address(v: int) -> Result<usize, OperationalError> {
    if v < 0 {
        Err(OperationalError::NegativeAddress(v as i64))
    } else if v > usize::MAX {
        Err(OperationalError::OutOfRange(usize::MAX))
    } else {
        Ok(v as usize)
    }
}

impl IntoAddress for i64 {
    open spec fn address_spec(&self) -> Result<usize, OperationalError> {
        signed_address(*self as int)
    }

    fn into_addr(self) -> (r: Result<usize, OperationalError>) {
        if self < 0 {
            Err(OperationalError::NegativeAddress(self))
        } else if self as u64 > usize::MAX as u64 {
            Err(OperationalError::OutOfRange(usize::MAX))
        } else {
            Ok(self as usize)
        }
    }
}

impl IntoAddress for i32 {
    open spec fn address_spec(&self) -> Result<usize, OperationalError> {
        signed_address(*self as int)
    }

    fn into_addr(self) -> (r: Result<usize, OperationalError>) {
        if self < 0 {
            Err(OperationalError::NegativeAddress(self as i64))
        } else if self as u64 > usize::MAX as u64 {
            Err(OperationalError::OutOfRange(usize::MAX))
        } else {
            Ok(self as usize)
        }
    }
}

/// Whether the machine can go on, waits for input, or has stopped for good.
#[derive(Debug, Clone, Copy, PartialEq, Eq, Structural)]
pub enum MachineState {
    Running,
    /// The machine has executed a Halt instruction.
    Halted,
    /// The machine wants to execute an Input instruction but has no input.
    Blocked,
}

impl MachineState {
    /// The state's name.
    pub fn name(&self) -> (r: &'static str)
        ensures
            r@ == match *self {
                MachineState::Running => "Running"@,
                MachineState::Halted => "Halted"@,
                MachineState::Blocked => "Blocked"@,
            },
    {
        match self {
            MachineState::Running => "Running",
            MachineState::Halted => "Halted",
            MachineState::Blocked => "Blocked",
        }
    }
}

/// The value at `addr` in `mem`, where every address past the end holds zero.
pub open spec fn fetch(mem: Seq<i64>, addr: int) -> i64 {
    if 0 <= addr < mem.len() {
        mem[addr]
    } else {
        0
    }
}

/// `mem` extended with zeros so that `addr` is a valid index; unchanged when
/// it already is.
pub open spec fn grown(mem: Seq<i64>, addr: int) -> Seq<i64> {
    if addr < mem.len() {
        mem
    } else {
        mem + Seq::new((addr + 1 - mem.len()) as nat, |i: int| 0i64)
    }
}

/// The abstract state of a machine.
pub struct MachineView {
    pub memory: Seq<i64>,
    pub pointer: usize,
    pub state: MachineState,
    pub relative_base: i64,
    pub input: Seq<i64>,
    pub input_pointer: nat,
    pub output: Seq<i64>,
    pub output_pointer: nat,
    pub counter: usize,
}

impl MachineView {
    /// The queue cursors stay within their queues.
    pub open spec fn wf(self) -> bool {
        &&& self.input_pointer <= self.input.len()
        &&& self.output_pointer <= self.output.len()
    }

    /// A machine loaded with `memory` that has not run yet.
    pub open spec fn fresh(memory: Seq<i64>) -> MachineView {
        MachineView {
            memory,
            pointer: 0,
            state: MachineState::Running,
            relative_base: 0,
            input: Seq::empty(),
            input_pointer: 0,
            output: Seq::empty(),
            output_pointer: 0,
            counter: 0,
        }
    }

    pub open spec fn with_memory(self, memory: Seq<i64>) -> MachineView {
        MachineView { memory, ..self }
    }

    /// The outputs that have not been drained yet.
    pub open spec fn pending_output(self) -> Seq<i64> {
        self.output.subrange(self.output_pointer as int, self.output.len() as int)
    }

    /// The machine after one more input value arrives.
    pub open spec fn pushed(self, value: i64) -> MachineView {
        MachineView {
            input: self.input.push(value),
            state: if self.state == MachineState::Blocked {
                MachineState::Running
            } else {
                self.state
            },
            ..self
        }
    }

    /// The machine after its pending outputs are drained.
    pub open spec fn drained(self) -> MachineView {
        MachineView { output_pointer: self.output.len(), ..self }
    }
}


/// Grows `mem` for an address that an instruction touched, if any.
pub open spec fn grown_opt(mem: Seq<i64>, addr: Option<usize>) -> Seq<i64> {
    match addr {
        Some(a) => grown(mem, a as int),
        None => mem,
    }
}

/// The parameters of an instruction whose mode digits are `digits`: one for
/// each of the first `n` parameter words after the pointer.
pub open spec fn params_spec(m: MachineView, digits: Seq<i64>, n: nat) -> Result<
    Seq<Parameter>,
    OperationalError,
>
    decreases n,
{
    if n == 0 {
        Ok(Seq::empty())
    } else {
        match params_spec(m, digits, (n - 1) as nat) {
            Err(e) => Err(e),
            Ok(ps) => {
                let i = n - 1;
                let digit = if i < digits.len() {
                    Some(digits[i])
                } else {
                    None
                };
                match mode_spec(digit) {
                    Err(e) => Err(e),
                    Ok(mode) => Ok(
                        ps.push(
                            Parameter { value: fetch(m.memory, m.pointer + i + 1), mode },
                        ),
                    ),
                }
            },
        }
    }
}

proof fn lemma_params_error_persists(m: MachineView, digits: Seq<i64>, i: nat, n: nat)
    requires
        i <= n,
        params_spec(m, digits, i) is Err,
    ensures
        params_spec(m, digits, n) == params_spec(m, digits, i),
    decreases n,
{
    if n > i {
        lemma_params_error_persists(m, digits, i, (n - 1) as nat);
    }
}

/// The instruction at the pointer: its operation and parameters, or why it cannot be decoded.
pub open spec fn decode_spec(m: MachineView) -> Result<(Opcode, Seq<Parameter>), OperationalError> {
    let word = fetch(m.memory, m.pointer as int);
    if m.pointer == usize::MAX {
        Err(OperationalError::OutOfRange(m.pointer))
    } else {
        match op_and_modes_spec(word) {
            Err(e) => Err(e),
            Ok((op, digits)) => if digits.len() > arity(op) {
                Err(OperationalError::TooManyParameterModes(word))
            } else if m.pointer + arity(op) >= usize::MAX {
                Err(OperationalError::OutOfRange(m.pointer))
            } else {
                match params_spec(m, digits, arity(op)) {
                    Err(e) => Err(e),
                    Ok(ps) => Ok((op, ps)),
                }
            },
        }
    }
}

/// Whether `v` fits in a machine word.
pub open spec fn fits(v: int) -> bool {
    i64::MIN <= v <= i64::MAX
}

/// The memory address that a positional or relative parameter names.
pub open spec fn location_spec(m: MachineView, p: Parameter) -> Result<usize, OperationalError> {
    let raw = if p.mode == ParameterMode::Relative {
        m.relative_base + p.value
    } else {
        p.value as int
    };
    if p.mode == ParameterMode::Immediate {
        Err(OperationalError::ImmediateModeStorage)
    } else if !fits(raw) {
        Err(OperationalError::ArithmeticOverflow)
    } else {
        match signed_address(raw) {
            Err(e) => Err(e),
            Ok(a) => if a == usize::MAX {
                Err(OperationalError::OutOfRange(a))
            } else {
                Ok(a)
            },
        }
    }
}

/// The value of a parameter read as an operand, with the address it was read
/// from (none for an immediate operand).
pub open spec fn operand_spec(m: MachineView, p: Parameter) -> Result<
    (i64, Option<usize>),
    OperationalError,
> {
    if p.mode == ParameterMode::Immediate {
        Ok((p.value, None))
    } else {
        match location_spec(m, p) {
            Err(e) => Err(e),
            Ok(a) => Ok((fetch(m.memory, a as int), Some(a))),
        }
    }
}

/// The value that a binary operation stores, or none when it does not fit.
pub open spec fn combine_spec(op: Opcode, x: i64, y: i64) -> Option<i64> {
    match op {
        Opcode::Add => if fits(x + y) {
            Some((x + y) as i64)
        } else {
            None
        },
        Opcode::Multiply => if fits(x * y) {
            Some((x * y) as i64)
        } else {
            None
        },
        Opcode::LessThan => Some(if x < y { 1i64 } else { 0i64 }),
        Opcode::Equals => Some(if x == y { 1i64 } else { 0i64 }),
        _ => None,
    }
}

/// Whether a jump instruction takes its jump for the condition value `c`.
pub open spec fn jumps(op: Opcode, c: i64) -> bool {
    if op == Opcode::JumpIfTrue {
        c != 0
    } else {
        c == 0
    }
}

/// The machine after it executes the instruction `op` with parameters `ps`
/// at its pointer, or the error that stops it.
pub open spec fn execute_spec(m: MachineView, op: Opcode, ps: Seq<Parameter>) -> Result<
    MachineView,
    OperationalError,
> {
    let p = m.pointer as int;
    let base = grown(m.memory, p + arity(op));
    let done = MachineView {
        memory: base,
        pointer: (p + arity(op) + 1) as usize,
        counter: (m.counter + 1) as usize,
        ..m
    };
    if m.state != MachineState::Running {
        Ok(m)
    } else if m.counter == usize::MAX {
        Err(OperationalError::InstructionLimit)
    } else {
        match op {
            Opcode::Halt => Ok(MachineView { state: MachineState::Halted, ..done }),
            Opcode::Add | Opcode::Multiply | Opcode::LessThan | Opcode::Equals => {
                match operand_spec(m, ps[0]) {
                    Err(e) => Err(e),
                    Ok((x, ax)) => match operand_spec(m, ps[1]) {
                        Err(e) => Err(e),
                        Ok((y, ay)) => match combine_spec(op, x, y) {
                            None => Err(OperationalError::ArithmeticOverflow),
                            Some(v) => match location_spec(m, ps[2]) {
                                Err(e) => Err(e),
                                Ok(t) => Ok(
                                    MachineView {
                                        memory: grown(
                                            grown_opt(grown_opt(base, ax), ay),
                                            t as int,
                                        ).update(t as int, v),
                                        ..done
                                    },
                                ),
                            },
                        },
                    },
                }
            },
            Opcode::Input => if m.input_pointer < m.input.len() {
                match location_spec(m, ps[0]) {
                    Err(e) => Err(e),
                    Ok(t) => Ok(
                        MachineView {
                            memory: grown(base, t as int).update(
                                t as int,
                                m.input[m.input_pointer as int],
                            ),
                            input_pointer: m.input_pointer + 1,
                            ..done
                        },
                    ),
                }
            } else {
                Ok(MachineView { state: MachineState::Blocked, pointer: m.pointer, ..done })
            },
            Opcode::Output => match operand_spec(m, ps[0]) {
                Err(e) => Err(e),
                Ok((x, ax)) => Ok(
                    MachineView { memory: grown_opt(base, ax), output: m.output.push(x), ..done },
                ),
            },
            Opcode::JumpIfTrue | Opcode::JumpIfFalse => match operand_spec(m, ps[0]) {
                Err(e) => Err(e),
                Ok((c, ac)) => if jumps(op, c) {
                    match operand_spec(m, ps[1]) {
                        Err(e) => Err(e),
                        Ok((t, at)) => match signed_address(t as int) {
                            Err(e) => Err(e),
                            Ok(a) => Ok(
                                MachineView {
                                    memory: grown_opt(grown_opt(base, ac), at),
                                    pointer: a,
                                    ..done
                                },
                            ),
                        },
                    }
                } else {
                    Ok(MachineView { memory: grown_opt(base, ac), ..done })
                },
            },
            Opcode::RelativeBaseOffset => match operand_spec(m, ps[0]) {
                Err(e) => Err(e),
                Ok((x, ax)) => if fits(m.relative_base + x) {
                    Ok(
                        MachineView {
                            memory: grown_opt(base, ax),
                            relative_base: (m.relative_base + x) as i64,
                            ..done
                        },
                    )
                } else {
                    Err(OperationalError::ArithmeticOverflow)
                },
            },
        }
    }
}

/// One decode/execute step; a machine that is not running stays as it is.
pub open spec fn step_spec(m: MachineView) -> Result<MachineView, OperationalError> {
    if m.state != MachineState::Running {
        Ok(m)
    } else {
        match decode_spec(m) {
            Err(e) => Err(e),
            Ok((op, ps)) => execute_spec(m, op, ps),
        }
    }
}

/// Where `run` ends within `fuel` steps: the machine once it is blocked or
/// halted, or the machine as it stood before the step that failed, with that
/// step's error. None when `fuel` steps do not reach either.
pub open spec fn run_within(m: MachineView, fuel: nat) -> Option<
    (MachineView, Option<OperationalError>),
>
    decreases fuel,
{
    if m.state != MachineState::Running {
        Some((m, None))
    } else if fuel == 0 {
        None
    } else {
        match step_spec(m) {
            Err(e) => Some((m, Some(e))),
            Ok(next) => run_within(next, (fuel - 1) as nat),
        }
    }
}

/// Running is deterministic: any two step budgets that both let `run` finish
/// from the same machine state finish in the same memory, registers, queues
/// and outcome.
pub proof fn lemma_run_deterministic(m: MachineView, f1: nat, f2: nat)
    requires
        run_within(m, f1) is Some,
        run_within(m, f2) is Some,
    ensures
        run_within(m, f1) == run_within(m, f2),
    decreases f1,
{
    if m.state == MachineState::Running && f1 > 0 && f2 > 0 {
        if let Ok(next) = step_spec(m) {
            lemma_run_deterministic(next, (f1 - 1) as nat, (f2 - 1) as nat);
        }
    }
}

/// Where `run` ends from `m`, whatever budget lets it finish; none when no
/// budget does.
pub open spec fn run_result(m: MachineView) -> Option<(MachineView, Option<OperationalError>)> {
    if exists|f: nat| run_within(m, f) is Some {
        run_within(m, choose|f: nat| run_within(m, f) is Some)
    } else {
        None
    }
}

/// Any budget that lets `run` finish finishes where `run_result` says.
pub proof fn lemma_run_result(m: MachineView, f: nat)
    requires
        run_within(m, f) is Some,
    ensures
        run_result(m) == run_within(m, f),
{
    let g = choose|g: nat| run_within(m, g) is Some;
    lemma_run_deterministic(m, f, g);
}

/// Two machines with equal states that both finish `run` finish alike.
pub proof fn lemma_run_same_snapshot(a: MachineView, b: MachineView, fa: nat, fb: nat)
    requires
        a == b,
        run_within(a, fa) is Some,
        run_within(b, fb) is Some,
    ensures
        run_within(a, fa) == run_within(b, fb),
{
    lemma_run_deterministic(a, fa, fb);
}

/// Loading program text and reading memory straight away gives back the
/// integers of the text, in order, and nothing past them.
pub proof fn lemma_load_then_read(text: Seq<char>, i: int)
    requires
        parse_program(text) is Ok,
    ensures
        ({
            let vals = parse_program(text)->Ok_0;
            let m = MachineView::fresh(vals);
            &&& m.memory.len() == vals.len()
            &&& 0 <= i < vals.len() ==> fetch(m.memory, i) == vals[i]
            &&& i >= vals.len() ==> fetch(m.memory, i) == 0
        }),
{
}

/// Draining twice with nothing run in between gives nothing the second time.
pub proof fn lemma_drain_idempotent(m: MachineView)
    requires
        m.wf(),
    ensures
        m.drained().pending_output() == Seq::<i64>::empty(),
        m.drained().drained() == m.drained(),
{
    assert(m.drained().pending_output() =~= Seq::<i64>::empty());
}

/// Writing to an address past the end of memory (as `set` does) makes
/// memory end exactly at that address, keeps what was there, fills the gap
/// with zeros and holds the value written at the address.
pub proof fn lemma_write_past_end(mem: Seq<i64>, addr: int, value: i64)
    requires
        addr >= mem.len(),
    ensures
        ({
            let after = grown(mem, addr).update(addr, value);
            &&& after.len() == addr + 1
            &&& forall|i: int| 0 <= i < mem.len() ==> #[trigger] after[i] == mem[i]
            &&& forall|i: int| mem.len() <= i < addr ==> #[trigger] after[i] == 0
            &&& after[addr] == value
        }),
{
}

/// An Intcode machine: memory, registers and I/O queues.
#[derive(Debug, Clone)]
pub struct Machine {
    slots: Vec<i64>,
    pointer: usize,
    state: MachineState,
    relative_base: i64,
    input_pointer: usize,
    input: Vec<i64>,
    output_pointer: usize,
    output: Vec<i64>,
    instruction_counter: usize,
}

impl View for Machine {
    type V = MachineView;

    closed spec fn view(&self) -> MachineView {
        MachineView {
            memory: self.slots@,
            pointer: self.pointer,
            state: self.state,
            relative_base: self.relative_base,
            input: self.input@,
            input_pointer: self.input_pointer as nat,
            output: self.output@,
            output_pointer: self.output_pointer as nat,
            counter: self.instruction_counter,
        }
    }
}

impl Machine {
    /// A machine whose memory holds `slots`, ready to run from address zero.
    pub fn from_slots(slots: Vec<i64>) -> (r: Machine)
        ensures
            r@ == MachineView::fresh(slots@),
            r@.wf(),
    {
        Machine {
            slots,
            pointer: 0,
            state: MachineState::Running,
            relative_base: 0,
            input_pointer: 0,
            input: Vec::new(),
            output_pointer: 0,
            output: Vec::new(),
            instruction_counter: 0,
        }
    }

    /// Loads program text: comma-separated signed decimal integers, each
    /// optionally padded with whitespace.
    pub fn from_str(input: &str) -> (r: Result<Machine, ParseError>)
        ensures
            match parse_program(input@) {
                Ok(vals) => r matches Ok(m) && m@ == MachineView::fresh(vals) && m@.wf(),
                Err(tok) => r matches Err(ParseError::NotAnInteger(t)) && t@ == tok,
            },
    {
        match parse_program_text(input) {
            Ok(slots) => Ok(Machine::from_slots(slots)),
            Err(token) => Err(ParseError::NotAnInteger(token)),
        }
    }

    /// An independent copy with the same memory and registers and empty I/O queues.
    pub fn duplicate(&self) -> (r: Machine)
        ensures
            r@ == (MachineView {
                input: Seq::empty(),
                input_pointer: 0,
                output: Seq::empty(),
                output_pointer: 0,
                ..self@
            }),
            r@.wf(),
    {
        Machine {
            slots: self.slots.clone(),
            pointer: self.pointer,
            state: self.state,
            relative_base: self.relative_base,
            input_pointer: 0,
            input: Vec::new(),
            output_pointer: 0,
            output: Vec::new(),
            instruction_counter: self.instruction_counter,
        }
    }

    /// The value at `addr`, zero past the end of memory; memory is left as it is.
    fn fetch(&self, addr: usize) -> (r: i64)
        ensures
            r == fetch(self@.memory, addr as int),
    {
        if addr < self.slots.len() {
            self.slots[addr]
        } else {
            0
        }
    }

    fn grow_memory_for(&mut self, index: usize)
        requires
            index < usize::MAX,
        ensures
            final(self)@ == old(self)@.with_memory(grown(old(self)@.memory, index as int)),
    {
        if index >= self.slots.len() {
            let ghost before = self.slots@;
            self.slots.resize(index + 1, 0);
            proof {
                assert forall|i: int| before.len() <= i < index + 1 implies self.slots@[i] == 0i64 by {
                    assert(cloned::<i64>(0i64, self.slots@[i]));
                }
                assert(self.slots@ =~= grown(before, index as int));
            }
        }
    }

    /// Reads the cell at `index`, first growing memory so that it exists.
    pub fn get<I: IntoAddress>(&mut self, index: I) -> (r: Result<&i64, OperationalError>)
        ensures
            match index.address_spec() {
                Err(e) => r matches Err(x) && x == e && final(self)@ == old(self)@,
                Ok(a) => if a == usize::MAX {
                    &&& r matches Err(x) && x == OperationalError::OutOfRange(a)
                    &&& final(self)@ == old(self)@
                } else {
                    &&& r matches Ok(v) && *v == fetch(old(self)@.memory, a as int)
                    &&& final(self)@ == old(self)@.with_memory(grown(old(self)@.memory, a as int))
                },
            },
    {
        let addr = index.into_addr()?;
        if addr == usize::MAX {
            return Err(OperationalError::OutOfRange(addr));
        }
        self.grow_memory_for(addr);
        Ok(&self.slots[addr])
    }

    /// Writes `new_value` to the cell at `index`, first growing memory so that it exists.
    pub fn set<I: IntoAddress>(&mut self, index: I, new_value: i64) -> (r: Result<(), OperationalError>)
        ensures
            match index.address_spec() {
                Err(e) => r == Err::<(), OperationalError>(e) && final(self)@ == old(self)@,
                Ok(a) => if a == usize::MAX {
                    &&& r == Err::<(), OperationalError>(OperationalError::OutOfRange(a))
                    &&& final(self)@ == old(self)@
                } else {
                    &&& r == Ok::<(), OperationalError>(())
                    &&& final(self)@ == old(self)@.with_memory(
                        grown(old(self)@.memory, a as int).update(a as int, new_value),
                    )
                },
            },
    {
        let addr = index.into_addr()?;
        if addr == usize::MAX {
            return Err(OperationalError::OutOfRange(addr));
        }
        self.grow_memory_for(addr);
        self.slots.set(addr, new_value);
        Ok(())
    }

    /// Appends a value to the input queue; a machine waiting for input may run again.
    pub fn write(&mut self, input: i64)
        ensures
            final(self)@ == old(self)@.pushed(input),
    {
        self.input.push(input);
        if self.state == MachineState::Blocked {
            self.state = MachineState::Running;
        }
    }

    /// Removes and returns every output that has not been read yet, in the order produced.
    pub fn read(&mut self) -> (r: Vec<i64>)
        requires
            old(self)@.wf(),
        ensures
            r@ == old(self)@.pending_output(),
            final(self)@ == old(self)@.drained(),
    {
        let mut out: Vec<i64> = Vec::new();
        let mut i: usize = self.output_pointer;
        while i < self.output.len()
            invariant
                self.output_pointer <= i <= self.output.len(),
                out@ == self.output@.subrange(self.output_pointer as int, i as int),
            decreases self.output.len() - i,
        {
            out.push(self.output[i]);
            i = i + 1;
            proof {
                assert(out@ =~= self.output@.subrange(self.output_pointer as int, i as int));
            }
        }
        self.output_pointer = self.output.len();
        out
    }

    /// How many outputs wait to be read.
    pub fn peek(&self) -> (r: usize)
        requires
            self@.wf(),
        ensures
            r == self@.pending_output().len(),
    {
        self.output.len() - self.output_pointer
    }

    pub fn state(&self) -> (r: MachineState)
        ensures
            r == self@.state,
    {
        self.state
    }

    /// How many instructions the machine has executed.
    pub fn instruction_counter(&self) -> (r: usize)
        ensures
            r == self@.counter,
    {
        self.instruction_counter
    }

    /// The address of the next instruction.
    pub fn pointer(&self) -> (r: usize)
        ensures
            r == self@.pointer,
    {
        self.pointer
    }

    pub fn relative_base(&self) -> (r: i64)
        ensures
            r == self@.relative_base,
    {
        self.relative_base
    }

    /// Sets the relative base register, for bootstrapping a program.
    pub fn set_relative_base(&mut self, base: i64)
        ensures
            final(self)@ == (MachineView { relative_base: base, ..old(self)@ }),
    {
        self.relative_base = base;
    }

    /// Decodes the instruction at the pointer without touching memory.
    pub fn read_instruction(&self) -> (r: Result<Instruction, OperationalError>)
        ensures
            match decode_spec(self@) {
                Ok((op, ps)) => r matches Ok(ins) && ins.opcode == op && ins.parameters@ == ps,
                Err(e) => r matches Err(e2) && e2 == e,
            },
            r matches Ok(ins) ==> ins.parameters@.len() == arity(ins.opcode) && self@.pointer
                + arity(ins.opcode) < usize::MAX,
    {
        let p = self.pointer;
        if p == usize::MAX {
            return Err(OperationalError::OutOfRange(p));
        }
        let word = self.fetch(p);
        let (opcode, digits) = Instruction::op_and_mode_digits(&word)?;
        let n = opcode.parameter_count();
        if digits.len() > n {
            return Err(OperationalError::TooManyParameterModes(word));
        }
        if p >= usize::MAX - n {
            return Err(OperationalError::OutOfRange(p));
        }
        let mut parameters: Vec<Parameter> = Vec::new();
        let mut i: usize = 0;
        while i < n
            invariant
                i <= n,
                n == arity(opcode),
                digits@.len() <= n,
                p == self@.pointer,
                p + n < usize::MAX,
                params_spec(self@, digits@, i as nat) == Ok::<Seq<Parameter>, OperationalError>(
                    parameters@,
                ),
                op_and_modes_spec(word) == Ok::<(Opcode, Seq<i64>), OperationalError>(
                    (opcode, digits@),
                ),
                parameters@.len() == i,
                word == fetch(self@.memory, p as int),
                p < usize::MAX,
            decreases n - i,
        {
            let found = if i < digits.len() {
                ParameterMode::from_int(Some(&digits[i]))
            } else {
                ParameterMode::from_int(None)
            };
            let mode = match found {
                Ok(mode) => mode,
                Err(e) => {
                    proof {
                        assert(params_spec(self@, digits@, (i + 1) as nat) == Err::<
                            Seq<Parameter>,
                            OperationalError,
                        >(e));
                        lemma_params_error_persists(self@, digits@, (i + 1) as nat, n as nat);
                    }
                    return Err(e);
                },
            };
            let value = self.fetch(p + i + 1);
            parameters.push(Parameter { value, mode });
            i = i + 1;
        }
        Ok(Instruction { opcode, parameters })
    }

    /// The address that a positional or relative parameter names.
    fn parameter_address(&self, parameter: &Parameter) -> (r: Result<usize, OperationalError>)
        ensures
            r == location_spec(self@, *parameter),
    {
        let raw: i64 = match parameter.mode {
            ParameterMode::Immediate => {
                return Err(OperationalError::ImmediateModeStorage);
            },
            ParameterMode::Positional => parameter.value,
            ParameterMode::Relative => {
                let sum: i128 = self.relative_base as i128 + parameter.value as i128;
                if sum < i64::MIN as i128 || sum > i64::MAX as i128 {
                    return Err(OperationalError::ArithmeticOverflow);
                }
                sum as i64
            },
        };
        let addr = raw.into_addr()?;
        if addr == usize::MAX {
            return Err(OperationalError::OutOfRange(addr));
        }
        Ok(addr)
    }

    /// The operand value of a parameter, with the address it was read from
    /// (none in immediate mode); memory is left as it is.
    fn get_parameter_val(&self, parameter: &Parameter) -> (r: Result<
        (i64, Option<usize>),
        OperationalError,
    >)
        ensures
            r == operand_spec(self@, *parameter),
            r matches Ok((_, Some(a))) ==> a < usize::MAX,
    {
        match parameter.mode {
            ParameterMode::Immediate => Ok((parameter.value, None)),
            _ => {
                let addr = self.parameter_address(parameter)?;
                Ok((self.fetch(addr), Some(addr)))
            },
        }
    }

    fn grow_memory_opt(&mut self, index: Option<usize>)
        requires
            index matches Some(a) ==> a < usize::MAX,
        ensures
            final(self)@ == old(self)@.with_memory(grown_opt(old(self)@.memory, index)),
    {
        if let Some(a) = index {
            self.grow_memory_for(a);
        }
    }

    /// Executes a decoded instruction. Every check comes before the first
    /// change, so a failing instruction leaves the machine as it was.
    pub fn execute_instruction(&mut self, instruction: &Instruction) -> (r: Result<(), OperationalError>)
        requires
            old(self)@.wf(),
            instruction.parameters@.len() == arity(instruction.opcode),
            old(self)@.pointer + arity(instruction.opcode) < usize::MAX,
        ensures
            match execute_spec(old(self)@, instruction.opcode, instruction.parameters@) {
                Ok(m) => r is Ok && final(self)@ == m,
                Err(e) => r == Err::<(), OperationalError>(e) && final(self)@ == old(self)@,
            },
            final(self)@.wf(),
    {
        if self.state != MachineState::Running {
            return Ok(());
        }
        if self.instruction_counter == usize::MAX {
            return Err(OperationalError::InstructionLimit);
        }
        let ghost m = self@;
        let op = instruction.opcode;
        let n = op.parameter_count();
        let ps = &instruction.parameters;
        let mut next = self.pointer + n + 1;
        match op {
            Opcode::Halt => {
                self.grow_memory_for(self.pointer + n);
                self.state = MachineState::Halted;
            },
            Opcode::Add | Opcode::Multiply | Opcode::LessThan | Opcode::Equals => {
                let (x, ax) = self.get_parameter_val(&ps[0])?;
                let (y, ay) = self.get_parameter_val(&ps[1])?;
                let value: i64 = match op {
                    Opcode::Add => {
                        let sum: i128 = x as i128 + y as i128;
                        if sum < i64::MIN as i128 || sum > i64::MAX as i128 {
                            return Err(OperationalError::ArithmeticOverflow);
                        }
                        sum as i64
                    },
                    Opcode::Multiply => {
                        proof {
                            assert(-0x8000_0000_0000_0000 * 0x8000_0000_0000_0000 <= x * y
                                <= 0x8000_0000_0000_0000 * 0x8000_0000_0000_0000)
                                by (nonlinear_arith)
                                requires
                                    -0x8000_0000_0000_0000 <= x <= 0x7fff_ffff_ffff_ffff,
                                    -0x8000_0000_0000_0000 <= y <= 0x7fff_ffff_ffff_ffff,
                            ;
                        }
                        let product: i128 = x as i128 * y as i128;
                        if product < i64::MIN as i128 || product > i64::MAX as i128 {
                            return Err(OperationalError::ArithmeticOverflow);
                        }
                        product as i64
                    },
                    Opcode::LessThan => if x < y {
                        1
                    } else {
                        0
                    },
                    _ => if x == y {
                        1
                    } else {
                        0
                    },
                };
                let t = self.parameter_address(&ps[2])?;
                self.grow_memory_for(self.pointer + n);
                self.grow_memory_opt(ax);
                self.grow_memory_opt(ay);
                self.grow_memory_for(t);
                self.slots.set(t, value);
            },
            Opcode::Input => {
                if self.input_pointer < self.input.len() {
                    let value = self.input[self.input_pointer];
                    let t = self.parameter_address(&ps[0])?;
                    self.grow_memory_for(self.pointer + n);
                    self.grow_memory_for(t);
                    self.slots.set(t, value);
                    self.input_pointer = self.input_pointer + 1;
                } else {
                    self.grow_memory_for(self.pointer + n);
                    self.state = MachineState::Blocked;
                    next = self.pointer;
                }
            },
            Opcode::Output => {
                let (x, ax) = self.get_parameter_val(&ps[0])?;
                self.grow_memory_for(self.pointer + n);
                self.grow_memory_opt(ax);
                self.output.push(x);
            },
            Opcode::JumpIfTrue | Opcode::JumpIfFalse => {
                let (c, ac) = self.get_parameter_val(&ps[0])?;
                let taken = if op == Opcode::JumpIfTrue {
                    c != 0
                } else {
                    c == 0
                };
                if taken {
                    let (t, at) = self.get_parameter_val(&ps[1])?;
                    next = t.into_addr()?;
                    self.grow_memory_for(self.pointer + n);
                    self.grow_memory_opt(ac);
                    self.grow_memory_opt(at);
                } else {
                    self.grow_memory_for(self.pointer + n);
                    self.grow_memory_opt(ac);
                }
            },
            Opcode::RelativeBaseOffset => {
                let (x, ax) = self.get_parameter_val(&ps[0])?;
                let sum: i128 = self.relative_base as i128 + x as i128;
                if sum < i64::MIN as i128 || sum > i64::MAX as i128 {
                    return Err(OperationalError::ArithmeticOverflow);
                }
                self.grow_memory_for(self.pointer + n);
                self.grow_memory_opt(ax);
                self.relative_base = sum as i64;
            },
        }
        self.pointer = next;
        self.instruction_counter = self.instruction_counter + 1;
        Ok(())
    }

    /// Decodes and executes one instruction.
    pub fn step(&mut self) -> (r: Result<(), OperationalError>)
        requires
            old(self)@.wf(),
        ensures
            match step_spec(old(self)@) {
                Ok(m) => r is Ok && final(self)@ == m,
                Err(e) => r == Err::<(), OperationalError>(e) && final(self)@ == old(self)@,
            },
            final(self)@.wf(),
    {
        if self.state != MachineState::Running {
            return Ok(());
        }
        let instruction = self.read_instruction()?;
        self.execute_instruction(&instruction)
    }

    /// Executes instructions until the machine is blocked on input or halted.
    /// On an error the machine stays as the last completed instruction left it.
    pub fn run(&mut self) -> (r: Result<(), OperationalError>)
        requires
            old(self)@.wf(),
        ensures
            final(self)@.wf(),
            exists|fuel: nat|
                run_within(old(self)@, fuel) == Some(
                    (
                        final(self)@,
                        match r {
                            Ok(_) => None,
                            Err(e) => Some(e),
                        },
                    ),
                ),
            r is Ok ==> final(self)@.state != MachineState::Running,
            final(self)@.counter >= old(self)@.counter,
            r is Ok && old(self)@.state == MachineState::Running ==> final(self)@.counter
                > old(self)@.counter,
            run_result(old(self)@) == Some(
                (
                    final(self)@,
                    match r {
                        Ok(_) => None,
                        Err(e) => Some(e),
                    },
                ),
            ),
    {
        let ghost start = self@;
        let ghost mut done: nat = 0;
        while self.state == MachineState::Running
            invariant
                self@.wf(),
                start == old(self)@,
                self@.counter == start.counter + done,
                done == 0 ==> self@ == start,
                forall|f: nat| #[trigger] run_within(start, f + done) == run_within(self@, f),
            decreases usize::MAX - self.instruction_counter,
        {
            let ghost before = self@;
            match self.step() {
                Ok(()) => {
                    proof {
                        assert forall|f: nat| #[trigger] run_within(start, f + (done + 1)) == run_within(
                            self@,
                            f,
                        ) by {
                            assert(run_within(start, (f + 1) + done) == run_within(before, f + 1));
                            assert(f + (done + 1) == (f + 1) + done);
                        }
                        done = done + 1;
                    }
                },
                Err(e) => {
                    proof {
                        assert(run_within(start, 1 + done) == run_within(before, 1));
                        assert(step_spec(before) == Err::<MachineView, OperationalError>(e));
                        assert(run_within(before, 1) == Some((self@, Some(e))));
                        assert(run_within(start, (1 + done) as nat) == Some((self@, Some(e))));
                        lemma_run_result(start, (1 + done) as nat);
                    }
                    return Err(e);
                },
            }
        }
        proof {
            assert(run_within(start, 0 + done) == run_within(self@, 0));
            lemma_run_result(start, done);
        }
        Ok(())
    }

    /// The whole memory as it stands.
    pub fn memory(&self) -> (r: &[i64])
        ensures
            r@ == self@.memory,
    {
        self.slots.as_slice()
    }
}

} // verus!
