//! Laws of the machine, proved over the definitions that the contracts of
//! `Program` and `Instant` use.
use vstd::prelude::*;

use crate::computer::initial_state;
use crate::machine::{
    cell, combine, decode_spec, in_i64, exec_one, run, step_spec, store, MachineState, OpCode, ParameterMode,
    StepResult, Transition, VmError, STEP_LIMIT,
};

verus! {

/// A program that reads one value into cell 0, writes cell 0 out, and halts.
pub open spec fn echo_program() -> Seq<i64> {
    seq![3, 0, 4, 0, 99]
}

/// Suspend and resume: an instance of the echo program started with no input
/// reports that it waits for input and does not move. Once a value is pushed,
/// the next step outputs exactly that value, and the step after that halts.
pub proof fn lemma_suspend_resume(v: i64)
    ensures
        ({
            let s0 = initial_state(echo_program(), Seq::empty());
            let s1 = MachineState { input: s0.input.push(v), ..s0 };
            let (t1, r1) = step_spec(s1);
            &&& step_spec(s0) == (s0, Ok::<StepResult, VmError>(StepResult::WaitInput))
            &&& r1 == Ok::<StepResult, VmError>(StepResult::Output)
            &&& t1.output == seq![v]
            &&& step_spec(t1).1 == Ok::<StepResult, VmError>(StepResult::Halt)
        }),
{
    let n = STEP_LIMIT as nat;
    let s0 = initial_state(echo_program(), Seq::empty());
    let s1 = MachineState { input: s0.input.push(v), ..s0 };
    assert(decode_spec(3) == Ok::<OpCode, VmError>(OpCode::Input(ParameterMode::Position)));
    assert(decode_spec(4) == Ok::<OpCode, VmError>(OpCode::Output(ParameterMode::Position)));
    assert(decode_spec(99) == Ok::<OpCode, VmError>(OpCode::Halt));
    assert(cell(s0.mem, 0) == 3);
    assert(exec_one(s0) == Transition::Stop(s0, StepResult::WaitInput));
    assert(step_spec(s0) == run(s0, n));
    let mem = store(s1.mem, 0, v);
    let t0 = MachineState { pc: 2, mem, input: s1.input.drop_first(), ..s1 };
    assert(mem[2] == 4 && mem[3] == 0 && mem[4] == 99 && mem[0] == v);
    assert(exec_one(s1) == Transition::Next(t0));
    let t1 = MachineState { pc: 4, output: seq![v], ..t0 };
    assert(t0.output.push(v) =~= seq![v]);
    assert(exec_one(t0) == Transition::Stop(t1, StepResult::Output));
    assert(run(s1, n) == run(t0, (n - 1) as nat));
    assert(run(t0, (n - 1) as nat) == (t1, Ok::<StepResult, VmError>(StepResult::Output)));
    assert(exec_one(t1) == Transition::Stop(t1, StepResult::Halt));
    assert(run(t1, n).1 == Ok::<StepResult, VmError>(StepResult::Halt));
}

/// Memory grows on demand: after a write at any address, however far beyond
/// the end of memory, that address reads back the written value, every other
/// address reads as before, and memory never becomes shorter.
pub proof fn lemma_write_then_read(mem: Seq<i64>, a: int, v: i64, b: int)
    requires
        a >= 0,
    ensures
        cell(store(mem, a, v), a) == v,
        b != a ==> cell(store(mem, a, v), b) == cell(mem, b),
        store(mem, a, v).len() == if a < mem.len() {
            mem.len() as int
        } else {
            a + 1
        },
{
    if b != a && 0 <= b < store(mem, a, v).len() {
        assert(store(mem, a, v)[b] == cell(mem, b));
    }
}

/// Reading an address at or beyond the end of memory, where nothing was
/// written, gives zero.
pub proof fn lemma_read_beyond_end(mem: Seq<i64>, a: int)
    requires
        a >= mem.len(),
    ensures
        cell(mem, a) == 0,
{
}

/// Reads a value, doubles it with both operands in position mode, outputs it.
pub open spec fn double_position() -> Seq<i64> {
    seq![3, 9, 2, 9, 10, 9, 4, 9, 99, 0, 2]
}

/// The same, with the factor 2 as an immediate operand.
pub open spec fn double_immediate() -> Seq<i64> {
    seq![3, 9, 1002, 9, 2, 9, 4, 9, 99, 0]
}

/// The same, with every operand in relative mode after moving the base to 11.
pub open spec fn double_relative() -> Seq<i64> {
    seq![109, 11, 203, 0, 22202, 0, 1, 0, 204, 0, 99, 0, 2]
}

/// The result and the output queue of the first step of `image` fed `x`.
pub open spec fn first_step_outcome(image: Seq<i64>, x: i64) -> (Result<StepResult, VmError>, Seq<
    i64,
>) {
    let (t, r) = step_spec(initial_state(image, seq![x]));
    (r, t.output)
}

/// What doubling `x` should give: the output `2x`, or an overflow error.
pub open spec fn doubling(x: i64) -> (Result<StepResult, VmError>, Seq<i64>) {
    if in_i64(2 * x) {
        (Ok(StepResult::Output), seq![(2 * x) as i64])
    } else {
        (Err(VmError::ArithmeticOverflow), Seq::empty())
    }
}

proof fn lemma_double_position(x: i64)
    ensures
        first_step_outcome(double_position(), x) == doubling(x),
{
    let n = STEP_LIMIT as nat;
    let s0 = initial_state(double_position(), seq![x]);
    assert(decode_spec(3) == Ok::<OpCode, VmError>(OpCode::Input(ParameterMode::Position)));
    let p = ParameterMode::Position;
    assert(decode_spec(2) == Ok::<OpCode, VmError>(OpCode::Mul(p, p, p)));
    assert(decode_spec(4) == Ok::<OpCode, VmError>(OpCode::Output(p)));
    let s1 = MachineState { pc: 2, mem: store(s0.mem, 9, x), input: s0.input.drop_first(), ..s0 };
    assert(s1.mem[2] == 2 && s1.mem[3] == 9 && s1.mem[4] == 10 && s1.mem[5] == 9);
    assert(s1.mem[9] == x && s1.mem[10] == 2);
    assert(exec_one(s0) == Transition::Next(s1));
    assert(run(s0, n) == run(s1, (n - 1) as nat));
    if in_i64(2 * x) {
        let y = (2 * x) as i64;
        assert(combine(OpCode::Mul(p, p, p), x, 2) == Some(y));
        let s2 = MachineState { pc: 6, mem: store(s1.mem, 9, y), ..s1 };
        assert(s2.mem[6] == 4 && s2.mem[7] == 9 && s2.mem[9] == y);
        assert(exec_one(s1) == Transition::Next(s2));
        let s3 = MachineState { pc: 8, output: seq![y], ..s2 };
        assert(s2.output.push(y) =~= seq![y]);
        assert(exec_one(s2) == Transition::Stop(s3, StepResult::Output));
        assert(run(s1, (n - 1) as nat) == run(s2, (n - 2) as nat));
    } else {
        assert(combine(OpCode::Mul(p, p, p), x, 2) is None);
        assert(exec_one(s1) == Transition::Fail(VmError::ArithmeticOverflow));
    }
}

proof fn lemma_double_immediate(x: i64)
    ensures
        first_step_outcome(double_immediate(), x) == doubling(x),
{
    let n = STEP_LIMIT as nat;
    let s0 = initial_state(double_immediate(), seq![x]);
    let p = ParameterMode::Position;
    let i = ParameterMode::Immediate;
    assert(decode_spec(3) == Ok::<OpCode, VmError>(OpCode::Input(p)));
    assert(decode_spec(1002) == Ok::<OpCode, VmError>(OpCode::Mul(p, i, p)));
    assert(decode_spec(4) == Ok::<OpCode, VmError>(OpCode::Output(p)));
    let s1 = MachineState { pc: 2, mem: store(s0.mem, 9, x), input: s0.input.drop_first(), ..s0 };
    assert(s1.mem[2] == 1002 && s1.mem[3] == 9 && s1.mem[4] == 2 && s1.mem[5] == 9);
    assert(s1.mem[9] == x);
    assert(exec_one(s0) == Transition::Next(s1));
    assert(run(s0, n) == run(s1, (n - 1) as nat));
    if in_i64(2 * x) {
        let y = (2 * x) as i64;
        assert(combine(OpCode::Mul(p, i, p), x, 2) == Some(y));
        let s2 = MachineState { pc: 6, mem: store(s1.mem, 9, y), ..s1 };
        assert(s2.mem[6] == 4 && s2.mem[7] == 9 && s2.mem[9] == y);
        assert(exec_one(s1) == Transition::Next(s2));
        let s3 = MachineState { pc: 8, output: seq![y], ..s2 };
        assert(s2.output.push(y) =~= seq![y]);
        assert(exec_one(s2) == Transition::Stop(s3, StepResult::Output));
        assert(run(s1, (n - 1) as nat) == run(s2, (n - 2) as nat));
    } else {
        assert(combine(OpCode::Mul(p, i, p), x, 2) is None);
        assert(exec_one(s1) == Transition::Fail(VmError::ArithmeticOverflow));
    }
}

proof fn lemma_double_relative(x: i64)
    ensures
        first_step_outcome(double_relative(), x) == doubling(x),
{
    let n = STEP_LIMIT as nat;
    let s0 = initial_state(double_relative(), seq![x]);
    let r = ParameterMode::Relative;
    assert(decode_spec(109) == Ok::<OpCode, VmError>(
        OpCode::AdjustBase(ParameterMode::Immediate),
    ));
    assert(decode_spec(203) == Ok::<OpCode, VmError>(OpCode::Input(r)));
    assert(decode_spec(22202) == Ok::<OpCode, VmError>(OpCode::Mul(r, r, r)));
    assert(decode_spec(204) == Ok::<OpCode, VmError>(OpCode::Output(r)));
    let s1 = MachineState { pc: 2, base: 11, ..s0 };
    assert(s0.mem[0] == 109 && s0.mem[1] == 11);
    assert(exec_one(s0) == Transition::Next(s1));
    let s2 = MachineState { pc: 4, mem: store(s1.mem, 11, x), input: s1.input.drop_first(), ..s1 };
    assert(s1.mem[2] == 203 && s1.mem[3] == 0);
    assert(exec_one(s1) == Transition::Next(s2));
    assert(s2.mem[4] == 22202 && s2.mem[5] == 0 && s2.mem[6] == 1 && s2.mem[7] == 0);
    assert(s2.mem[11] == x && s2.mem[12] == 2);
    assert(run(s0, n) == run(s1, (n - 1) as nat));
    assert(run(s1, (n - 1) as nat) == run(s2, (n - 2) as nat));
    if in_i64(2 * x) {
        let y = (2 * x) as i64;
        assert(combine(OpCode::Mul(r, r, r), x, 2) == Some(y));
        let s3 = MachineState { pc: 8, mem: store(s2.mem, 11, y), ..s2 };
        assert(s3.mem[8] == 204 && s3.mem[9] == 0 && s3.mem[11] == y);
        assert(exec_one(s2) == Transition::Next(s3));
        let s4 = MachineState { pc: 10, output: seq![y], ..s3 };
        assert(s3.output.push(y) =~= seq![y]);
        assert(exec_one(s3) == Transition::Stop(s4, StepResult::Output));
        assert(run(s2, (n - 2) as nat) == run(s3, (n - 3) as nat));
    } else {
        assert(combine(OpCode::Mul(r, r, r), x, 2) is None);
        assert(exec_one(s2) == Transition::Fail(VmError::ArithmeticOverflow));
    }
}

/// The three addressing modes agree: the programs that double their input with
/// position, immediate and relative operands give, for every input, the same
/// result and the same output, namely the doubled value, or an overflow error
/// where it does not fit.
pub proof fn lemma_addressing_modes_agree(x: i64)
    ensures
        first_step_outcome(double_position(), x) == first_step_outcome(double_immediate(), x),
        first_step_outcome(double_immediate(), x) == first_step_outcome(double_relative(), x),
        first_step_outcome(double_position(), x) == doubling(x),
{
    lemma_double_position(x);
    lemma_double_immediate(x);
    lemma_double_relative(x);
}

/// Control comes back to the caller for a reason that the instruction at the
/// final instruction pointer gives: a wait for input only at an input
/// instruction that meets an empty queue, a halt only at the halt instruction.
/// So a program that never reaches an input instruction never waits.
pub proof fn lemma_stop_reasons(s: MachineState, fuel: nat)
    ensures
        ({
            let (t, r) = run(s, fuel);
            &&& r == Ok::<StepResult, VmError>(StepResult::WaitInput) ==> t.input.len() == 0
                && (decode_spec(cell(t.mem, t.pc)) matches Ok(OpCode::Input(_)))
            &&& r == Ok::<StepResult, VmError>(StepResult::Halt) ==> decode_spec(cell(t.mem, t.pc))
                == Ok::<OpCode, VmError>(OpCode::Halt)
        }),
    decreases fuel,
{
    if fuel > 0 {
        if let Transition::Next(t) = exec_one(s) {
            lemma_stop_reasons(t, (fuel - 1) as nat);
        }
    }
}

/// What one step may do to the queues and to memory: memory never becomes
/// shorter, input is taken only from the front, and the output queue is kept
/// and gains exactly one value at its end on `Output`, none otherwise.
pub proof fn lemma_step_keeps_order(s: MachineState, fuel: nat)
    ensures
        ({
            let (t, r) = run(s, fuel);
            &&& t.mem.len() >= s.mem.len()
            &&& t.input.len() <= s.input.len()
            &&& t.input == s.input.skip(s.input.len() - t.input.len())
            &&& r == Ok::<StepResult, VmError>(StepResult::Output) ==> t.output.len()
                == s.output.len() + 1 && t.output.drop_last() == s.output
            &&& r != Ok::<StepResult, VmError>(StepResult::Output) ==> t.output == s.output
        }),
    decreases fuel,
{
    assert(s.input.skip(0) =~= s.input);
    if fuel > 0 {
        match exec_one(s) {
            Transition::Next(t) => {
                lemma_one_keeps_order(s);
                lemma_step_keeps_order(t, (fuel - 1) as nat);
                let u = run(t, (fuel - 1) as nat).0;
                assert(u.input =~= s.input.skip(s.input.len() - u.input.len()));
            },
            Transition::Stop(t, r) => {
                lemma_one_keeps_order(s);
                if r == StepResult::Output {
                    assert(t.output.drop_last() =~= s.output);
                }
            },
            Transition::Fail(_) => {},
        }
    }
}

proof fn lemma_one_keeps_order(s: MachineState)
    ensures
        match exec_one(s) {
            Transition::Next(t) => t.mem.len() >= s.mem.len() && t.output == s.output && (t.input
                == s.input || (s.input.len() > 0 && t.input == s.input.drop_first())),
            Transition::Stop(t, r) => if r == StepResult::Output {
                t.mem == s.mem && t.input == s.input && exists|v: i64| t.output == s.output.push(v)
            } else {
                t == s
            },
            Transition::Fail(_) => true,
        },
{
    match exec_one(s) {
        Transition::Stop(t, r) => {
            if r == StepResult::Output {
                let v = t.output.last();
                assert(t.output == s.output.push(v));
            }
        },
        _ => {},
    }
}

} // verus!
