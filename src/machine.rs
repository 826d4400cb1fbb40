//! The abstract machine: instruction decoding, memory, and the effect of a
//! single instruction on a machine state, all as mathematical definitions.
use vstd::prelude::*;

verus! {

/// The largest number of instructions that one call of `Instant::step` carries out.
pub const STEP_LIMIT: u64 = u64::MAX;

/// Why a call of `Instant::step` handed control back to its caller.
#[derive(Debug, Copy, Clone, PartialEq, Eq, Hash, Structural)]
pub enum StepResult {
    /// One value was appended to the output queue.
    Output,
    /// An input instruction found the input queue empty; the instance did not move.
    WaitInput,
    /// The halt instruction was reached.
    Halt,
}

/// A fatal condition of an instance. The instance must be abandoned.
#[derive(Debug, Copy, Clone, PartialEq, Eq, Hash, Structural)]
pub enum VmError {
    /// The low two decimal digits of the instruction (given) name no operation.
    InvalidOpcode(i64),
    /// An addressing-mode digit of the instruction (given) is not 0, 1 or 2.
    InvalidMode(i64),
    /// A destination operand is given in immediate mode.
    ImmediateWrite,
    /// An operand or a jump target names a negative address.
    NegativeAddress,
    /// An address or the instruction pointer leaves the range of `usize`.
    AddressOverflow,
    /// A sum, a product or the relative base leaves the range of `i64`.
    ArithmeticOverflow,
    /// `Instant::execute` needed an input value that was not supplied.
    MissingInput,
    /// `Instant::step` or `Instant::execute` reached its limit of work.
    StepLimit,
}

/// How an operand is resolved.
#[derive(Debug, Copy, Clone, PartialEq, Eq, Structural)]
pub enum ParameterMode {
    /// The operand is the memory cell at the address given by the raw parameter.
    Position,
    /// The operand is the raw parameter itself.
    Immediate,
    /// The operand is the memory cell at the relative base plus the raw parameter.
    Relative,
}

/// A decoded instruction, with the modes of its operands.
#[derive(Debug, Copy, Clone, PartialEq, Eq, Structural)]
pub enum OpCode {
    Add(ParameterMode, ParameterMode, ParameterMode),
    Mul(ParameterMode, ParameterMode, ParameterMode),
    Input(ParameterMode),
    Output(ParameterMode),
    JumpIfTrue(ParameterMode, ParameterMode),
    JumpIfFalse(ParameterMode, ParameterMode),
    LessThan(ParameterMode, ParameterMode, ParameterMode),
    Equal(ParameterMode, ParameterMode, ParameterMode),
    AdjustBase(ParameterMode),
    Halt,
}

/// The absolute value of an instruction cell.
pub open spec fn magnitude(code: i64) -> nat {
    if code < 0 {
        (-code) as nat
    } else {
        code as nat
    }
}

/// The decimal digit of `|code|` at `place` (100, 1000 or 10000).
pub open spec fn digit(code: i64, place: nat) -> nat
    recommends
        place > 0,
{
    ((magnitude(code) / place) % 10) as nat
}

/// The mode a digit selects. Rust's remainder keeps the sign of a negative
/// instruction, so there only a zero digit is a valid mode.
pub open spec fn mode_of_digit(positive: bool, d: nat) -> Option<ParameterMode> {
    if d == 0 {
        Some(ParameterMode::Position)
    } else if positive && d == 1 {
        Some(ParameterMode::Immediate)
    } else if positive && d == 2 {
        Some(ParameterMode::Relative)
    } else {
        None
    }
}

pub open spec fn mode_spec(code: i64, place: nat) -> Option<ParameterMode> {
    mode_of_digit(code > 0, digit(code, place))
}

/// The operation named by the low two digits, once the three modes are known.
pub open spec fn opcode_spec(
    code: i64,
    m1: ParameterMode,
    m2: ParameterMode,
    m3: ParameterMode,
) -> Result<OpCode, VmError> {
    let op = code % 100;
    if code < 0 {
        Err(VmError::InvalidOpcode(code))
    } else if op == 1 {
        Ok(OpCode::Add(m1, m2, m3))
    } else if op == 2 {
        Ok(OpCode::Mul(m1, m2, m3))
    } else if op == 3 {
        Ok(OpCode::Input(m1))
    } else if op == 4 {
        Ok(OpCode::Output(m1))
    } else if op == 5 {
        Ok(OpCode::JumpIfTrue(m1, m2))
    } else if op == 6 {
        Ok(OpCode::JumpIfFalse(m1, m2))
    } else if op == 7 {
        Ok(OpCode::LessThan(m1, m2, m3))
    } else if op == 8 {
        Ok(OpCode::Equal(m1, m2, m3))
    } else if op == 9 {
        Ok(OpCode::AdjustBase(m1))
    } else if op == 99 {
        Ok(OpCode::Halt)
    } else {
        Err(VmError::InvalidOpcode(code))
    }
}

/// Decoding checks the three mode digits first, then the operation.
pub open spec fn decode_spec(code: i64) -> Result<OpCode, VmError> {
    match (mode_spec(code, 100), mode_spec(code, 1000), mode_spec(code, 10000)) {
        (Some(m1), Some(m2), Some(m3)) => opcode_spec(code, m1, m2, m3),
        _ => Err(VmError::InvalidMode(code)),
    }
}

/// Reading memory: cells beyond the end read as zero.
pub open spec fn cell(mem: Seq<i64>, a: int) -> i64 {
    if 0 <= a < mem.len() {
        mem[a]
    } else {
        0
    }
}

/// Writing memory: a write beyond the end first extends it with zeros.
pub open spec fn store(mem: Seq<i64>, a: int, v: i64) -> Seq<i64>
    recommends
        a >= 0,
{
    if a < mem.len() {
        mem.update(a, v)
    } else {
        mem + Seq::new((a - mem.len()) as nat, |i: int| 0i64) + seq![v]
    }
}

/// What an instance holds: instruction pointer, relative base, memory and the
/// two queues, front first.
pub struct MachineState {
    pub pc: int,
    pub base: int,
    pub mem: Seq<i64>,
    pub input: Seq<i64>,
    pub output: Seq<i64>,
}

/// The effect of one instruction.
pub enum Transition {
    /// The instruction ran; execution goes on without returning to the caller.
    Next(MachineState),
    /// Control returns to the caller with the state and the reason.
    Stop(MachineState, StepResult),
    /// A fatal error; the state is left as it was.
    Fail(VmError),
}

pub open spec fn in_i64(x: int) -> bool {
    i64::MIN <= x <= i64::MAX
}

/// The raw parameter `idx` cells after the instruction pointer.
pub open spec fn raw(s: MachineState, idx: int) -> i64 {
    cell(s.mem, s.pc + idx)
}

/// The address `raw + base`.
pub open spec fn address(raw: i64, base: int) -> Result<int, VmError> {
    if !in_i64(raw + base) {
        Err(VmError::ArithmeticOverflow)
    } else if raw + base < 0 {
        Err(VmError::NegativeAddress)
    } else {
        Ok(raw + base)
    }
}

pub open spec fn load(mem: Seq<i64>, a: Result<int, VmError>) -> Result<i64, VmError> {
    match a {
        Ok(a) => Ok(cell(mem, a)),
        Err(e) => Err(e),
    }
}

/// The value of operand `idx` under mode `m`.
pub open spec fn read_param_spec(s: MachineState, idx: int, m: ParameterMode) -> Result<
    i64,
    VmError,
> {
    match m {
        ParameterMode::Immediate => Ok(raw(s, idx)),
        ParameterMode::Position => load(s.mem, address(raw(s, idx), 0)),
        ParameterMode::Relative => load(s.mem, address(raw(s, idx), s.base)),
    }
}

pub open spec fn writable(a: Result<int, VmError>) -> Result<int, VmError> {
    match a {
        Ok(a) => if a < usize::MAX {
            Ok(a)
        } else {
            Err(VmError::AddressOverflow)
        },
        Err(e) => Err(e),
    }
}

/// The address that destination operand `idx` under mode `m` writes to.
pub open spec fn write_addr_spec(s: MachineState, idx: int, m: ParameterMode) -> Result<
    int,
    VmError,
> {
    match m {
        ParameterMode::Immediate => Err(VmError::ImmediateWrite),
        ParameterMode::Position => writable(address(raw(s, idx), 0)),
        ParameterMode::Relative => writable(address(raw(s, idx), s.base)),
    }
}

/// The state with the instruction pointer moved `n` cells on.
pub open spec fn advance(s: MachineState, n: int) -> Transition {
    if s.pc + n > usize::MAX {
        Transition::Fail(VmError::AddressOverflow)
    } else {
        Transition::Next(MachineState { pc: s.pc + n, ..s })
    }
}

/// What a two-operand arithmetic or comparison instruction stores.
pub open spec fn combine(op: OpCode, a: i64, b: i64) -> Option<i64> {
    match op {
        OpCode::Add(..) => if in_i64(a + b) {
            Some((a + b) as i64)
        } else {
            None
        },
        OpCode::Mul(..) => if in_i64(a * b) {
            Some((a * b) as i64)
        } else {
            None
        },
        OpCode::LessThan(..) => Some(if a < b { 1i64 } else { 0i64 }),
        _ => Some(if a == b { 1i64 } else { 0i64 }),
    }
}

/// Add, Mul, LessThan, Equal: `dst = a op b`, then four cells on.
pub open spec fn binary_spec(
    s: MachineState,
    op: OpCode,
    m1: ParameterMode,
    m2: ParameterMode,
    m3: ParameterMode,
) -> Transition {
    match read_param_spec(s, 1, m1) {
        Err(e) => Transition::Fail(e),
        Ok(a) => match read_param_spec(s, 2, m2) {
            Err(e) => Transition::Fail(e),
            Ok(b) => match combine(op, a, b) {
                None => Transition::Fail(VmError::ArithmeticOverflow),
                Some(v) => match write_addr_spec(s, 3, m3) {
                    Err(e) => Transition::Fail(e),
                    Ok(d) => advance(MachineState { mem: store(s.mem, d, v), ..s }, 4),
                },
            },
        },
    }
}

/// JumpIfTrue (`when` true) and JumpIfFalse (`when` false).
pub open spec fn jump_spec(
    s: MachineState,
    when: bool,
    m1: ParameterMode,
    m2: ParameterMode,
) -> Transition {
    match read_param_spec(s, 1, m1) {
        Err(e) => Transition::Fail(e),
        Ok(a) => if (a != 0) == when {
            match read_param_spec(s, 2, m2) {
                Err(e) => Transition::Fail(e),
                Ok(t) => if t < 0 {
                    Transition::Fail(VmError::NegativeAddress)
                } else if t > usize::MAX {
                    Transition::Fail(VmError::AddressOverflow)
                } else {
                    Transition::Next(MachineState { pc: t as int, ..s })
                },
            }
        } else {
            advance(s, 3)
        },
    }
}

pub open spec fn input_spec(s: MachineState, m1: ParameterMode) -> Transition {
    if s.input.len() == 0 {
        Transition::Stop(s, StepResult::WaitInput)
    } else {
        match write_addr_spec(s, 1, m1) {
            Err(e) => Transition::Fail(e),
            Ok(d) => advance(
                MachineState { mem: store(s.mem, d, s.input[0]), input: s.input.drop_first(), ..s },
                2,
            ),
        }
    }
}

pub open spec fn output_spec(s: MachineState, m1: ParameterMode) -> Transition {
    match read_param_spec(s, 1, m1) {
        Err(e) => Transition::Fail(e),
        Ok(a) => match advance(MachineState { output: s.output.push(a), ..s }, 2) {
            Transition::Next(t) => Transition::Stop(t, StepResult::Output),
            other => other,
        },
    }
}

pub open spec fn adjust_base_spec(s: MachineState, m1: ParameterMode) -> Transition {
    match read_param_spec(s, 1, m1) {
        Err(e) => Transition::Fail(e),
        Ok(a) => if in_i64(s.base + a) {
            advance(MachineState { base: s.base + a, ..s }, 2)
        } else {
            Transition::Fail(VmError::ArithmeticOverflow)
        },
    }
}

/// The effect of the instruction at the instruction pointer.
pub open spec fn exec_one(s: MachineState) -> Transition {
    match decode_spec(cell(s.mem, s.pc)) {
        Err(e) => Transition::Fail(e),
        Ok(op) => match op {
            OpCode::Add(m1, m2, m3) => binary_spec(s, op, m1, m2, m3),
            OpCode::Mul(m1, m2, m3) => binary_spec(s, op, m1, m2, m3),
            OpCode::LessThan(m1, m2, m3) => binary_spec(s, op, m1, m2, m3),
            OpCode::Equal(m1, m2, m3) => binary_spec(s, op, m1, m2, m3),
            OpCode::Input(m1) => input_spec(s, m1),
            OpCode::Output(m1) => output_spec(s, m1),
            OpCode::JumpIfTrue(m1, m2) => jump_spec(s, true, m1, m2),
            OpCode::JumpIfFalse(m1, m2) => jump_spec(s, false, m1, m2),
            OpCode::AdjustBase(m1) => adjust_base_spec(s, m1),
            OpCode::Halt => Transition::Stop(s, StepResult::Halt),
        },
    }
}

/// Runs instructions until one returns control, at most `fuel` of them.
pub open spec fn run(s: MachineState, fuel: nat) -> (MachineState, Result<StepResult, VmError>)
    decreases fuel,
{
    if fuel == 0 {
        (s, Err(VmError::StepLimit))
    } else {
        match exec_one(s) {
            Transition::Next(t) => run(t, (fuel - 1) as nat),
            Transition::Stop(t, r) => (t, Ok(r)),
            Transition::Fail(e) => (s, Err(e)),
        }
    }
}

/// What one call of `Instant::step` does.
pub open spec fn step_spec(s: MachineState) -> (MachineState, Result<StepResult, VmError>) {
    run(s, STEP_LIMIT as nat)
}

/// Steps until the halt instruction, at most `calls` times; the result is the
/// whole output queue.
pub open spec fn execute_spec(s: MachineState, calls: nat) -> (MachineState, Result<
    Seq<i64>,
    VmError,
>)
    decreases calls,
{
    if calls == 0 {
        (s, Err(VmError::StepLimit))
    } else {
        let (t, r) = step_spec(s);
        match r {
            Ok(StepResult::Halt) => (t, Ok(t.output)),
            Ok(StepResult::Output) => execute_spec(t, (calls - 1) as nat),
            Ok(StepResult::WaitInput) => (t, Err(VmError::MissingInput)),
            Err(e) => (t, Err(e)),
        }
    }
}

fn mode_of(positive: bool, d: u64) -> (r: Option<ParameterMode>)
    ensures
        r == mode_of_digit(positive, d as nat),
{
    if d == 0 {
        Some(ParameterMode::Position)
    } else if positive && d == 1 {
        Some(ParameterMode::Immediate)
    } else if positive && d == 2 {
        Some(ParameterMode::Relative)
    } else {
        None
    }
}

/// Decodes an instruction cell.
pub fn decode(code: i64) -> (r: Result<OpCode, VmError>)
    ensures
        r == decode_spec(code),
{
    let mag: u64 = if code < 0 {
        (-(code + 1)) as u64 + 1
    } else {
        code as u64
    };
    assert(mag == magnitude(code));
    let m1 = mode_of(code > 0, (mag / 100) % 10);
    let m2 = mode_of(code > 0, (mag / 1000) % 10);
    let m3 = mode_of(code > 0, (mag / 10000) % 10);
    match (m1, m2, m3) {
        (Some(m1), Some(m2), Some(m3)) => {
            if code < 0 {
                return Err(VmError::InvalidOpcode(code));
            }
            let op = code % 100;
            if op == 1 {
                Ok(OpCode::Add(m1, m2, m3))
            } else if op == 2 {
                Ok(OpCode::Mul(m1, m2, m3))
            } else if op == 3 {
                Ok(OpCode::Input(m1))
            } else if op == 4 {
                Ok(OpCode::Output(m1))
            } else if op == 5 {
                Ok(OpCode::JumpIfTrue(m1, m2))
            } else if op == 6 {
                Ok(OpCode::JumpIfFalse(m1, m2))
            } else if op == 7 {
                Ok(OpCode::LessThan(m1, m2, m3))
            } else if op == 8 {
                Ok(OpCode::Equal(m1, m2, m3))
            } else if op == 9 {
                Ok(OpCode::AdjustBase(m1))
            } else if op == 99 {
                Ok(OpCode::Halt)
            } else {
                Err(VmError::InvalidOpcode(code))
            }
        },
        _ => Err(VmError::InvalidMode(code)),
    }
}

} // verus!
