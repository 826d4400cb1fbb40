//! Several instances of one program wired output to input: in a series, or
//! in a loop that feeds the last output back to the first instance.
use vstd::prelude::*;

use crate::computer::{initial_state, Instant, Int, Program};
use crate::machine::{execute_spec, step_spec, MachineState, VmError, STEP_LIMIT};

verus! {

/// Why a chain of instances gave no signal.
#[derive(Debug, Copy, Clone, PartialEq, Eq, Structural)]
pub enum ChainError {
    /// An instance failed.
    Machine(VmError),
    /// An instance of a series halted without any output.
    NoOutput,
}

/// The signal out of a series: each instance is started with its setting and
/// the signal so far as input, runs to the end, and its first output is the
/// next signal.
pub open spec fn series_spec(image: Seq<Int>, settings: Seq<Int>, signal: Int) -> Result<
    Int,
    ChainError,
>
    decreases settings.len(),
{
    if settings.len() == 0 {
        Ok(signal)
    } else {
        match execute_spec(initial_state(image, seq![settings[0], signal]), STEP_LIMIT as nat).1 {
            Err(e) => Err(ChainError::Machine(e)),
            Ok(out) => if out.len() == 0 {
                Err(ChainError::NoOutput)
            } else {
                series_spec(image, settings.drop_first(), out[0])
            },
        }
    }
}

/// Runs `prog` once per setting, in order, starting from the signal 0.
pub fn run_series(prog: &Program, settings: &[Int]) -> (r: Result<Int, ChainError>)
    ensures
        r == series_spec(prog@, settings@, 0),
{
    let mut val: Int = 0;
    let mut i: usize = 0;
    proof {
        assert(settings@.skip(0) =~= settings@);
    }
    while i < settings.len()
        invariant
            i <= settings@.len(),
            series_spec(prog@, settings@.skip(i as int), val) == series_spec(prog@, settings@, 0),
        decreases settings.len() - i,
    {
        let ghost rest = settings@.skip(i as int);
        assert(rest[0] == settings@[i as int]);
        assert(rest.drop_first() =~= settings@.skip(i + 1));
        let input = vec![settings[i], val];
        assert(input@ =~= seq![rest[0], val]);
        let mut inst = prog.start_with_input(input.as_slice());
        let out = match inst.execute() {
            Ok(out) => out,
            Err(e) => return Err(ChainError::Machine(e)),
        };
        if out.len() == 0 {
            return Err(ChainError::NoOutput);
        }
        val = out[0];
        i = i + 1;
    }
    Ok(val)
}

/// The states of the instances of a loop: each starts with its setting as input.
pub open spec fn loop_start(image: Seq<Int>, settings: Seq<Int>) -> Seq<MachineState> {
    Seq::new(settings.len(), |k: int| initial_state(image, seq![settings[k]]))
}

/// The signal out of a loop of instances, the turn being at instance `i`: it
/// gets the signal as input and steps once; if that produced an output, the
/// output is the next signal and the turn passes on, else the signal is final.
/// At most `fuel` turns are taken.
pub open spec fn feedback_spec(amps: Seq<MachineState>, i: int, signal: Int, fuel: nat) -> Result<
    Int,
    VmError,
>
    decreases fuel,
{
    if amps.len() == 0 {
        Ok(signal)
    } else if fuel == 0 {
        Err(VmError::StepLimit)
    } else {
        let s = amps[i];
        let (t, r) = step_spec(MachineState { input: s.input.push(signal), ..s });
        match r {
            Err(e) => Err(e),
            Ok(_) => if t.output.len() == 0 {
                Ok(signal)
            } else {
                feedback_spec(
                    amps.update(i, MachineState { output: t.output.drop_first(), ..t }),
                    if i + 1 == amps.len() {
                        0
                    } else {
                        i + 1
                    },
                    t.output[0],
                    (fuel - 1) as nat,
                )
            },
        }
    }
}

pub open spec fn views(amps: Seq<Instant>) -> Seq<MachineState> {
    amps.map_values(|a: Instant| a@)
}

/// Runs one instance of `prog` per setting in a loop, starting from the signal
/// 0 at the first, until an instance steps without producing output.
pub fn run_feedback(prog: &Program, settings: &[Int]) -> (r: Result<Int, VmError>)
    ensures
        r == feedback_spec(loop_start(prog@, settings@), 0, 0, STEP_LIMIT as nat),
{
    let mut amps: Vec<Instant> = Vec::new();
    for k in 0..settings.len()
        invariant
            views(amps@) == loop_start(prog@, settings@).take(k as int),
    {
        let input = vec![settings[k]];
        assert(input@ =~= seq![settings@[k as int]]);
        let ghost prev = amps@;
        let a = prog.start_with_input(input.as_slice());
        amps.push(a);
        assert(views(amps@) =~= views(prev).push(a@));
        assert(views(amps@) =~= loop_start(prog@, settings@).take(k + 1));
    }
    assert(views(amps@) =~= loop_start(prog@, settings@));
    let n = amps.len();
    if n == 0 {
        return Ok(0);
    }
    let mut i: usize = 0;
    let mut val: Int = 0;
    let mut done: u64 = 0;
    loop
        invariant
            n == amps@.len(),
            n > 0,
            i < n,
            done <= STEP_LIMIT,
            feedback_spec(views(amps@), i as int, val, (STEP_LIMIT - done) as nat)
                == feedback_spec(loop_start(prog@, settings@), 0, 0, STEP_LIMIT as nat),
        decreases STEP_LIMIT - done,
    {
        if done == STEP_LIMIT {
            return Err(VmError::StepLimit);
        }
        let ghost before = amps@;
        amps[i].push_input(val);
        let r = amps[i].step();
        if let Err(e) = r {
            return Err(e);
        }
        let ghost stepped = amps@[i as int]@;
        let ghost fed = MachineState { input: before[i as int]@.input.push(val), ..before[i as int]@ };
        assert((stepped, r) == step_spec(fed));
        let next = amps[i].pop_output();
        match next {
            Some(out) => {
                assert(views(amps@) =~= views(before).update(
                    i as int,
                    MachineState { output: stepped.output.drop_first(), ..stepped },
                ));
                let ghost fuel = (STEP_LIMIT - done) as nat;
                assert(views(before)[i as int] == before[i as int]@);
                assert(feedback_spec(views(before), i as int, val, fuel) == feedback_spec(
                    views(amps@),
                    if i + 1 == n {
                        0
                    } else {
                        i + 1
                    },
                    out,
                    (fuel - 1) as nat,
                ));
                val = out;
            },
            None => return Ok(val),
        }
        i = if i + 1 == n {
            0
        } else {
            i + 1
        };
        done = done + 1;
    }
}

} // verus!
