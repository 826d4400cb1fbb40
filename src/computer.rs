//! The machine: a loaded program and the instances that run it.
use std::collections::VecDeque;
use vstd::prelude::*;

use crate::machine::{
    address, advance, cell, combine, decode, exec_one, execute_spec, load, raw, read_param_spec,
    run, step_spec, store, writable, write_addr_spec, MachineState, OpCode, ParameterMode,
    Transition, STEP_LIMIT,
};
pub use crate::machine::{StepResult, VmError};
use crate::text::{parse_values, text_values, trim, trimmed};

verus! {

pub type Int = i64;

/// A loaded instruction image. Instances copy it; it never changes.
pub struct Program(Vec<Int>);

impl View for Program {
    type V = Seq<Int>;

    closed spec fn view(&self) -> Seq<Int> {
        self.0@
    }
}

/// One running or suspended copy of a program.
pub struct Instant {
    pub pc: usize,
    pub base: Int,
    pub mem: Vec<Int>,
    pub input: VecDeque<Int>,
    pub output: VecDeque<Int>,
}

impl View for Instant {
    type V = MachineState;

    open spec fn view(&self) -> MachineState {
        MachineState {
            pc: self.pc as int,
            base: self.base as int,
            mem: self.mem@,
            input: self.input@,
            output: self.output@,
        }
    }
}

/// The state of a fresh instance of a program with the given pending input.
pub open spec fn initial_state(image: Seq<Int>, input: Seq<Int>) -> MachineState {
    MachineState { pc: 0, base: 0, mem: image, input, output: Seq::empty() }
}

impl Program {
    /// A program with the given image.
    pub fn new(code: Vec<Int>) -> (r: Self)
        ensures
            r@ == code@,
    {
        Self(code)
    }

    /// Loads a program from its text: the text is trimmed, then read as
    /// comma-separated integers. Pieces that are not integers are skipped.
    pub fn load_from_str(code: &str) -> (r: Self)
        ensures
            r@ == text_values(trimmed(code@)),
    {
        Self(parse_values(trim(code)))
    }

    /// A fresh instance with empty queues.
    pub fn start(&self) -> (r: Instant)
        ensures
            r@ == initial_state(self@, Seq::empty()),
    {
        Instant {
            pc: 0,
            base: 0,
            mem: self.0.clone(),
            input: VecDeque::new(),
            output: VecDeque::new(),
        }
    }

    /// A fresh instance whose input queue holds `input`, in order.
    pub fn start_with_input(&self, input: &[Int]) -> (r: Instant)
        ensures
            r@ == initial_state(self@, input@),
    {
        let mut r = self.start();
        r.push_inputs(input);
        r
    }
}

impl Instant {
    /// The cell at `addr`; zero beyond the end of memory.
    fn read(&self, addr: usize) -> (r: Int)
        ensures
            r == cell(self.mem@, addr as int),
    {
        if addr < self.mem.len() {
            self.mem[addr]
        } else {
            0
        }
    }

    /// The raw parameter `idx` cells after the instruction pointer.
    fn read_offset(&self, idx: usize) -> (r: Int)
        ensures
            r == raw(self@, idx as int),
    {
        if self.pc < self.mem.len() && idx < self.mem.len() - self.pc {
            self.mem[self.pc + idx]
        } else {
            0
        }
    }

    /// The address given by raw parameter `idx` plus `base`.
    fn param_address(&self, idx: usize, base: Int) -> (r: Result<Int, VmError>)
        ensures
            match (r, address(raw(self@, idx as int), base as int)) {
                (Ok(a), Ok(b)) => a as int == b,
                (Err(e), Err(f)) => e == f,
                _ => false,
            },
    {
        let p = self.read_offset(idx);
        match p.checked_add(base) {
            None => Err(VmError::ArithmeticOverflow),
            Some(a) => if a < 0 {
                Err(VmError::NegativeAddress)
            } else {
                Ok(a)
            },
        }
    }

    /// The cell at the address given by raw parameter `idx` plus `base`.
    fn deref_read(&self, idx: usize, base: Int) -> (r: Result<Int, VmError>)
        ensures
            r == load(self.mem@, address(raw(self@, idx as int), base as int)),
    {
        let a = self.param_address(idx, base)?;
        if (a as u64) < (self.mem.len() as u64) {
            Ok(self.read(a as usize))
        } else {
            Ok(0)
        }
    }

    /// Stores `val` at `addr`, first extending memory with zeros if needed.
    fn write(&mut self, addr: usize, val: Int)
        requires
            addr < usize::MAX,
        ensures
            final(self)@ == (MachineState { mem: store(old(self).mem@, addr as int, val), ..old(self)@ }),
    {
        let ghost old_mem = self.mem@;
        let ghost start = self@;
        if addr >= self.mem.len() {
            while self.mem.len() <= addr
                invariant
                    addr < usize::MAX,
                    self@ == (MachineState { mem: self.mem@, ..start }),
                    old_mem.len() <= self.mem@.len() <= addr + 1,
                    self.mem@ =~= old_mem + Seq::new(
                        (self.mem@.len() - old_mem.len()) as nat,
                        |i: int| 0i64,
                    ),
                decreases addr + 1 - self.mem.len(),
            {
                self.mem.push(0);
            }
        }
        self.mem.set(addr, val);
        assert(self.mem@ =~= store(old_mem, addr as int, val));
    }

    /// The address the destination at raw parameter `idx` plus `base` names.
    fn deref_target(&self, idx: usize, base: Int) -> (r: Result<usize, VmError>)
        ensures
            match (r, writable(address(raw(self@, idx as int), base as int))) {
                (Ok(a), Ok(b)) => a as int == b,
                (Err(e), Err(f)) => e == f,
                _ => false,
            },
    {
        let a = self.param_address(idx, base)?;
        if a as u64 >= usize::MAX as u64 {
            Err(VmError::AddressOverflow)
        } else {
            Ok(a as usize)
        }
    }

    /// The value of operand `idx` under `mode`.
    fn read_parameter(&self, idx: usize, mode: ParameterMode) -> (r: Result<Int, VmError>)
        ensures
            r == read_param_spec(self@, idx as int, mode),
    {
        match mode {
            ParameterMode::Position => self.deref_read(idx, 0),
            ParameterMode::Immediate => Ok(self.read_offset(idx)),
            ParameterMode::Relative => self.deref_read(idx, self.base),
        }
    }

    /// The address that destination operand `idx` under `mode` names.
    fn write_target(&self, idx: usize, mode: ParameterMode) -> (r: Result<usize, VmError>)
        ensures
            match (r, write_addr_spec(self@, idx as int, mode)) {
                (Ok(a), Ok(b)) => a as int == b,
                (Err(e), Err(f)) => e == f,
                _ => false,
            },
    {
        match mode {
            ParameterMode::Position => self.deref_target(idx, 0),
            ParameterMode::Immediate => Err(VmError::ImmediateWrite),
            ParameterMode::Relative => self.deref_target(idx, self.base),
        }
    }

    /// The instruction pointer `n` cells on.
    fn next_pc(&self, n: usize) -> (r: Result<usize, VmError>)
        ensures
            match advance(self@, n as int) {
                Transition::Next(t) => r == Ok::<usize, VmError>(t.pc as usize) && t.pc
                    == self.pc + n,
                Transition::Fail(e) => r == Err::<usize, VmError>(e),
                _ => false,
            },
    {
        match self.pc.checked_add(n) {
            None => Err(VmError::AddressOverflow),
            Some(p) => Ok(p),
        }
    }

    /// Carries out the instruction at the instruction pointer. `Ok(None)`: go on.
    fn exec_instruction(&mut self) -> (r: Result<Option<StepResult>, VmError>)
        ensures
            match exec_one(old(self)@) {
                Transition::Next(t) => r == Ok::<Option<StepResult>, VmError>(None)
                    && final(self)@ == t,
                Transition::Stop(t, x) => r == Ok::<Option<StepResult>, VmError>(Some(x))
                    && final(self)@ == t,
                Transition::Fail(e) => r == Err::<Option<StepResult>, VmError>(e)
                    && final(self)@ == old(self)@,
            },
    {
        let op = decode(self.read(self.pc))?;
        match op {
            OpCode::Add(m1, m2, m3) | OpCode::Mul(m1, m2, m3) | OpCode::LessThan(m1, m2, m3)
            | OpCode::Equal(m1, m2, m3) => {
                let a = self.read_parameter(1, m1)?;
                let b = self.read_parameter(2, m2)?;
                let v = match op {
                    OpCode::Add(..) => a.checked_add(b),
                    OpCode::Mul(..) => a.checked_mul(b),
                    OpCode::LessThan(..) => Some(if a < b { 1 } else { 0 }),
                    _ => Some(if a == b { 1 } else { 0 }),
                };
                assert(v == combine(op, a, b));
                let v = match v {
                    None => return Err(VmError::ArithmeticOverflow),
                    Some(v) => v,
                };
                let d = self.write_target(3, m3)?;
                let pc = self.next_pc(4)?;
                self.write(d, v);
                self.pc = pc;
                Ok(None)
            },
            OpCode::Input(m1) => {
                if self.input.len() == 0 {
                    return Ok(Some(StepResult::WaitInput));
                }
                let d = self.write_target(1, m1)?;
                let pc = self.next_pc(2)?;
                let v = match self.input.pop_front() {
                    Some(v) => v,
                    None => return Ok(Some(StepResult::WaitInput)),
                };
                self.write(d, v);
                self.pc = pc;
                Ok(None)
            },
            OpCode::Output(m1) => {
                let a = self.read_parameter(1, m1)?;
                let pc = self.next_pc(2)?;
                self.output.push_back(a);
                self.pc = pc;
                Ok(Some(StepResult::Output))
            },
            OpCode::JumpIfTrue(m1, m2) | OpCode::JumpIfFalse(m1, m2) => {
                let when = match op {
                    OpCode::JumpIfTrue(..) => true,
                    _ => false,
                };
                let a = self.read_parameter(1, m1)?;
                if (a != 0) == when {
                    let t = self.read_parameter(2, m2)?;
                    if t < 0 {
                        return Err(VmError::NegativeAddress);
                    }
                    if t as u64 > usize::MAX as u64 {
                        return Err(VmError::AddressOverflow);
                    }
                    self.pc = t as usize;
                } else {
                    self.pc = self.next_pc(3)?;
                }
                Ok(None)
            },
            OpCode::AdjustBase(m1) => {
                let a = self.read_parameter(1, m1)?;
                let b = match self.base.checked_add(a) {
                    None => return Err(VmError::ArithmeticOverflow),
                    Some(b) => b,
                };
                self.pc = self.next_pc(2)?;
                self.base = b;
                Ok(None)
            },
            OpCode::Halt => Ok(Some(StepResult::Halt)),
        }
    }
    /// Appends one value to the input queue.
    pub fn push_input(&mut self, val: Int)
        ensures
            final(self)@ == (MachineState { input: old(self)@.input.push(val), ..old(self)@ }),
    {
        self.input.push_back(val);
    }

    /// Appends values to the input queue, in order.
    pub fn push_inputs(&mut self, vals: &[Int])
        ensures
            final(self)@ == (MachineState { input: old(self)@.input + vals@, ..old(self)@ }),
    {
        let ghost start = self@;
        for i in 0..vals.len()
            invariant
                self@ == (MachineState { input: start.input + vals@.take(i as int), ..start }),
        {
            self.input.push_back(vals[i]);
            assert(self@.input =~= start.input + vals@.take(i + 1));
        }
        assert(self@.input =~= start.input + vals@);
    }

    /// Removes and returns the oldest output value, if any.
    pub fn pop_output(&mut self) -> (r: Option<Int>)
        ensures
            old(self)@.output.len() == 0 ==> r is None && final(self)@ == old(self)@,
            old(self)@.output.len() > 0 ==> r == Some(old(self)@.output[0]) && final(self)@ == (
            MachineState { output: old(self)@.output.drop_first(), ..old(self)@ }),
    {
        self.output.pop_front()
    }

    /// Empties the output queue.
    pub fn clear_output(&mut self)
        ensures
            final(self)@ == (MachineState { output: Seq::empty(), ..old(self)@ }),
    {
        self.output.clear();
    }

    /// The output queue, oldest first, without consuming it.
    pub fn outputs(&self) -> (r: Vec<Int>)
        ensures
            r@ == self@.output,
    {
        let mut r: Vec<Int> = Vec::new();
        for i in 0..self.output.len()
            invariant
                r@ == self@.output.take(i as int),
        {
            r.push(self.output[i]);
            assert(self@.output.take(i + 1) =~= self@.output.take(i as int).push(
                self@.output[i as int],
            ));
        }
        assert(self@.output.take(self@.output.len() as int) =~= self@.output);
        r
    }

    /// Runs until an instruction hands control back: an output was produced,
    /// input is needed and the queue is empty, or the program halted. A fatal
    /// error leaves the instance as the failing instruction found it.
    pub fn step(&mut self) -> (r: Result<StepResult, VmError>)
        ensures
            (final(self)@, r) == step_spec(old(self)@),
    {
        let mut done: u64 = 0;
        loop
            invariant
                done <= STEP_LIMIT,
                run(self@, (STEP_LIMIT - done) as nat) == step_spec(old(self)@),
            decreases STEP_LIMIT - done,
        {
            if done == STEP_LIMIT {
                return Err(VmError::StepLimit);
            }
            let ghost before = self@;
            match self.exec_instruction() {
                Err(e) => return Err(e),
                Ok(Some(x)) => return Ok(x),
                Ok(None) => {},
            }
            done = done + 1;
            assert(run(before, (STEP_LIMIT - done + 1) as nat) == run(
                self@,
                (STEP_LIMIT - done) as nat,
            ));
        }
    }

    /// Steps until the program halts and returns every value in the output
    /// queue. Input must have been supplied in advance: a wait for input is
    /// the error `MissingInput`.
    pub fn execute(&mut self) -> (r: Result<Vec<Int>, VmError>)
        ensures
            ({
                let (t, x) = execute_spec(old(self)@, STEP_LIMIT as nat);
                &&& final(self)@ == t
                &&& match x {
                    Ok(out) => r matches Ok(v) && v@ == out,
                    Err(e) => r == Err::<Vec<Int>, VmError>(e),
                }
            }),
    {
        let mut done: u64 = 0;
        loop
            invariant
                done <= STEP_LIMIT,
                execute_spec(self@, (STEP_LIMIT - done) as nat) == execute_spec(
                    old(self)@,
                    STEP_LIMIT as nat,
                ),
            decreases STEP_LIMIT - done,
        {
            if done == STEP_LIMIT {
                return Err(VmError::StepLimit);
            }
            match self.step()? {
                StepResult::Halt => return Ok(self.outputs()),
                StepResult::Output => {},
                StepResult::WaitInput => return Err(VmError::MissingInput),
            }
            done = done + 1;
        }
    }
}

} // verus!
