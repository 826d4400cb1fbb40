use intcode::amplifiers::{run_feedback, run_series, ChainError};
use intcode::computer::{Instant, Int, Program, StepResult, VmError};

fn run_to_halt(code: &[Int]) -> Instant {
    let mut inst = Program::new(code.to_vec()).start();
    loop {
        match inst.step() {
            Ok(StepResult::Halt) => return inst,
            Ok(StepResult::Output) => {}
            other => panic!("unexpected step result {:?}", other),
        }
    }
}

#[test]
fn add_program_writes_sum() {
    let inst = run_to_halt(&[1, 0, 0, 0, 99]);
    assert_eq!(inst.mem[0], 2);
    assert_eq!(inst.mem, vec![2, 0, 0, 0, 99]);
}

#[test]
fn mul_program_writes_product() {
    assert_eq!(run_to_halt(&[2, 3, 0, 3, 99]).mem, vec![2, 3, 0, 6, 99]);
    assert_eq!(run_to_halt(&[2, 4, 4, 5, 99, 0]).mem, vec![2, 4, 4, 5, 99, 9801]);
}

#[test]
fn self_modifying_program() {
    assert_eq!(
        run_to_halt(&[1, 1, 1, 4, 99, 5, 6, 0, 99]).mem,
        vec![30, 1, 1, 4, 2, 5, 6, 0, 99]
    );
}

#[test]
fn halt_does_not_move() {
    let mut inst = Program::new(vec![99]).start();
    assert_eq!(inst.step(), Ok(StepResult::Halt));
    assert_eq!(inst.pc, 0);
    assert_eq!(inst.step(), Ok(StepResult::Halt));
}

#[test]
fn comparisons_and_jumps() {
    // equal to 8, position mode
    let p = Program::new(vec![3, 9, 8, 9, 10, 9, 4, 9, 99, -1, 8]);
    assert_eq!(p.start_with_input(&[8]).execute(), Ok(vec![1]));
    assert_eq!(p.start_with_input(&[7]).execute(), Ok(vec![0]));
    // less than 8, immediate mode
    let p = Program::new(vec![3, 3, 1107, -1, 8, 3, 4, 3, 99]);
    assert_eq!(p.start_with_input(&[5]).execute(), Ok(vec![1]));
    assert_eq!(p.start_with_input(&[8]).execute(), Ok(vec![0]));
    // jump: is the input non-zero
    let p = Program::new(vec![3, 12, 6, 12, 15, 1, 13, 14, 13, 4, 13, 99, -1, 0, 1, 9]);
    assert_eq!(p.start_with_input(&[0]).execute(), Ok(vec![0]));
    assert_eq!(p.start_with_input(&[3]).execute(), Ok(vec![1]));
    let p = Program::new(vec![3, 3, 1105, -1, 9, 1101, 0, 0, 12, 4, 12, 99, 1]);
    assert_eq!(p.start_with_input(&[0]).execute(), Ok(vec![0]));
    assert_eq!(p.start_with_input(&[-4]).execute(), Ok(vec![1]));
}

#[test]
fn compare_with_eight() {
    let p = Program::new(vec![
        3, 21, 1008, 21, 8, 20, 1005, 20, 22, 107, 8, 21, 20, 1006, 20, 31, 1106, 0, 36, 98, 0,
        0, 1002, 21, 125, 20, 4, 20, 1105, 1, 46, 104, 999, 1105, 1, 46, 1101, 1000, 1, 20, 4,
        20, 1105, 1, 46, 98, 99,
    ]);
    assert_eq!(p.start_with_input(&[7]).execute(), Ok(vec![999]));
    assert_eq!(p.start_with_input(&[8]).execute(), Ok(vec![1000]));
    assert_eq!(p.start_with_input(&[9]).execute(), Ok(vec![1001]));
}

#[test]
fn quine_outputs_itself() {
    let code: Vec<Int> = vec![
        109, 1, 204, -1, 1001, 100, 1, 100, 1008, 100, 16, 101, 1006, 101, 0, 99,
    ];
    let out = Program::new(code.clone()).start().execute();
    assert_eq!(out, Ok(code));
}

#[test]
fn addressing_modes_double_alike() {
    let position = Program::new(vec![3, 9, 2, 9, 10, 9, 4, 9, 99, 0, 2]);
    let immediate = Program::new(vec![3, 9, 1002, 9, 2, 9, 4, 9, 99, 0]);
    let relative = Program::new(vec![109, 11, 203, 0, 22202, 0, 1, 0, 204, 0, 99, 0, 2]);
    for x in [0, 21, -7, 1 << 40] {
        let a = position.start_with_input(&[x]).execute();
        let b = immediate.start_with_input(&[x]).execute();
        let c = relative.start_with_input(&[x]).execute();
        assert_eq!(a, Ok(vec![2 * x]));
        assert_eq!(a, b);
        assert_eq!(b, c);
    }
    let big = Int::MAX / 2 + 1;
    assert_eq!(position.start_with_input(&[big]).execute(), Err(VmError::ArithmeticOverflow));
    assert_eq!(relative.start_with_input(&[big]).execute(), Err(VmError::ArithmeticOverflow));
}

#[test]
fn write_far_beyond_end_grows_memory() {
    let mut inst = Program::new(vec![1101, 5, 6, 1000, 4, 1000, 99]).start();
    assert_eq!(inst.execute(), Ok(vec![11]));
    assert_eq!(inst.mem.len(), 1001);
    assert_eq!(inst.mem[1000], 11);
    assert!(inst.mem[7..1000].iter().all(|&v| v == 0));
    assert_eq!(&inst.mem[..7], &[1101, 5, 6, 1000, 4, 1000, 99]);
}

#[test]
fn read_beyond_end_is_zero() {
    let mut inst = Program::new(vec![4, 5000, 204, 70, 99]).start();
    assert_eq!(inst.execute(), Ok(vec![0, 0]));
    assert_eq!(inst.mem.len(), 5);
}

#[test]
fn large_numbers_are_exact() {
    let out = Program::new(vec![1102, 34915192, 34915192, 7, 4, 7, 99, 0])
        .start()
        .execute()
        .unwrap();
    assert_eq!(out, vec![1219070632396864]);
    assert_eq!(out[0].to_string().len(), 16);
    let out = Program::new(vec![104, 1125899906842624, 99]).start().execute();
    assert_eq!(out, Ok(vec![1125899906842624]));
}

#[test]
fn relative_base_moves() {
    let mut inst = Program::new(vec![109, 19, 204, -34, 99]).start();
    inst.base = 2000;
    inst.mem.resize(2000, 0);
    inst.mem[1985] = 77;
    assert_eq!(inst.step(), Ok(StepResult::Output));
    assert_eq!(inst.base, 2019);
    assert_eq!(inst.pop_output(), Some(77));
}

#[test]
fn suspend_and_resume() {
    let mut inst = Program::new(vec![3, 0, 4, 0, 99]).start();
    assert_eq!(inst.step(), Ok(StepResult::WaitInput));
    assert_eq!(inst.pc, 0);
    assert_eq!(inst.mem, vec![3, 0, 4, 0, 99]);
    assert_eq!(inst.step(), Ok(StepResult::WaitInput));
    inst.push_input(-31);
    assert_eq!(inst.step(), Ok(StepResult::Output));
    assert_eq!(inst.pop_output(), Some(-31));
    assert_eq!(inst.pop_output(), None);
    assert_eq!(inst.step(), Ok(StepResult::Halt));
}

#[test]
fn queue_operations() {
    let p = Program::new(vec![3, 20, 3, 21, 4, 21, 4, 20, 99]);
    let mut inst = p.start();
    inst.push_inputs(&[5, 6]);
    assert_eq!(inst.input.len(), 2);
    assert_eq!(inst.step(), Ok(StepResult::Output));
    assert_eq!(inst.step(), Ok(StepResult::Output));
    assert_eq!(inst.outputs(), vec![6, 5]);
    assert_eq!(inst.outputs(), vec![6, 5]);
    inst.clear_output();
    assert!(inst.output.is_empty());
    assert_eq!(inst.step(), Ok(StepResult::Halt));
    assert_eq!(inst.execute(), Ok(vec![]));
}

#[test]
fn instances_are_independent() {
    let p = Program::new(vec![3, 0, 4, 0, 99]);
    let mut a = p.start_with_input(&[1]);
    let mut b = p.start_with_input(&[2]);
    assert_eq!(a.execute(), Ok(vec![1]));
    assert_eq!(b.execute(), Ok(vec![2]));
    assert_eq!(p.start().mem, vec![3, 0, 4, 0, 99]);
}

fn permutations(items: &[Int]) -> Vec<Vec<Int>> {
    if items.len() <= 1 {
        return vec![items.to_vec()];
    }
    let mut all = Vec::new();
    for i in 0..items.len() {
        let mut rest = items.to_vec();
        let first = rest.remove(i);
        for mut tail in permutations(&rest) {
            tail.insert(0, first);
            all.push(tail);
        }
    }
    all
}

#[test]
fn amplifier_chain_maximum() {
    let p = Program::new(vec![
        3, 15, 3, 16, 1002, 16, 10, 16, 1, 16, 15, 15, 4, 15, 99, 0, 0,
    ]);
    assert_eq!(run_series(&p, &[4, 3, 2, 1, 0]), Ok(43210));
    let best = permutations(&[0, 1, 2, 3, 4]).iter().filter_map(|ph| run_series(&p, ph).ok()).max();
    assert_eq!(best, Some(43210));
    let p = Program::new(vec![
        3, 23, 3, 24, 1002, 24, 10, 24, 1002, 23, -1, 23, 101, 5, 23, 23, 1, 24, 23, 23, 4, 23,
        99, 0, 0,
    ]);
    let best = permutations(&[0, 1, 2, 3, 4]).iter().filter_map(|ph| run_series(&p, ph).ok()).max();
    assert_eq!(best, Some(54321));
}

#[test]
fn amplifier_feedback_maximum() {
    let p = Program::new(vec![
        3, 26, 1001, 26, -4, 26, 3, 27, 1002, 27, 2, 27, 1, 27, 26, 27, 4, 27, 1001, 28, -1, 28,
        1005, 28, 6, 99, 0, 0, 5,
    ]);
    assert_eq!(run_feedback(&p, &[9, 8, 7, 6, 5]), Ok(139629729));
    let best = permutations(&[5, 6, 7, 8, 9]).iter().filter_map(|ph| run_feedback(&p, ph).ok()).max();
    assert_eq!(best, Some(139629729));
}

#[test]
fn invalid_opcode_is_fatal() {
    let mut inst = Program::new(vec![1101, 1, 1, 9, 98]).start();
    assert_eq!(inst.step(), Err(VmError::InvalidOpcode(98)));
    // the addition before the bad instruction stands
    assert_eq!(inst.mem[9], 2);
    assert_eq!(inst.pc, 4);
    assert_eq!(Program::new(vec![-1]).start().step(), Err(VmError::InvalidOpcode(-1)));
    assert_eq!(Program::new(vec![]).start().step(), Err(VmError::InvalidOpcode(0)));
}

#[test]
fn invalid_mode_is_fatal() {
    assert_eq!(Program::new(vec![301, 0, 0, 0, 99]).start().step(), Err(VmError::InvalidMode(301)));
    assert_eq!(Program::new(vec![30099]).start().step(), Err(VmError::InvalidMode(30099)));
    assert_eq!(Program::new(vec![-1001]).start().step(), Err(VmError::InvalidMode(-1001)));
}

#[test]
fn immediate_write_is_fatal() {
    let mut inst = Program::new(vec![11101, 1, 1, 0, 99]).start();
    assert_eq!(inst.step(), Err(VmError::ImmediateWrite));
    assert_eq!(inst.mem, vec![11101, 1, 1, 0, 99]);
    assert_eq!(inst.pc, 0);
}

#[test]
fn negative_address_is_fatal() {
    assert_eq!(Program::new(vec![4, -1, 99]).start().step(), Err(VmError::NegativeAddress));
    assert_eq!(Program::new(vec![1105, 1, -5]).start().step(), Err(VmError::NegativeAddress));
    assert_eq!(Program::new(vec![204, -3, 99]).start().step(), Err(VmError::NegativeAddress));
}

#[test]
fn arithmetic_overflow_is_fatal() {
    let p = Program::new(vec![1101, Int::MAX, 1, 0, 99]);
    assert_eq!(p.start().step(), Err(VmError::ArithmeticOverflow));
    let p = Program::new(vec![109, Int::MAX, 109, 1, 99]);
    assert_eq!(p.start().step(), Err(VmError::ArithmeticOverflow));
}

#[test]
fn execute_needs_all_input() {
    let mut inst = Program::new(vec![3, 0, 3, 1, 99]).start_with_input(&[7]);
    assert_eq!(inst.execute(), Err(VmError::MissingInput));
    assert_eq!(inst.mem[0], 7);
    assert_eq!(inst.pc, 2);
}

#[test]
fn load_from_text() {
    let p = Program::load_from_str("1,0,0,0,99\n");
    assert_eq!(p.start().mem, vec![1, 0, 0, 0, 99]);
    let p = Program::load_from_str("\n  104,-5,99  \n");
    assert_eq!(p.start().mem, vec![104, -5, 99]);
    assert_eq!(Program::load_from_str("").start().mem, Vec::<Int>::new());
}

#[test]
fn load_skips_malformed_pieces() {
    let p = Program::load_from_str("1, 2,x,3,,+4,-0,--5,9223372036854775807,9223372036854775808");
    assert_eq!(p.start().mem, vec![1, 3, 4, 0, 9223372036854775807]);
    let p = Program::load_from_str("-9223372036854775808,-9223372036854775809,+,-");
    assert_eq!(p.start().mem, vec![Int::MIN]);
}

#[test]
fn parse_values_keeps_inner_spaces() {
    assert_eq!(intcode::text::parse_values("1,2\n"), vec![1]);
    assert_eq!(intcode::text::parse_values("007,12"), vec![7, 12]);
}

#[test]
fn amplifier_chain_errors() {
    let silent = Program::new(vec![3, 0, 3, 0, 99]);
    assert_eq!(run_series(&silent, &[1, 2]), Err(ChainError::NoOutput));
    let hungry = Program::new(vec![3, 0, 3, 0, 3, 0, 4, 0, 99]);
    assert_eq!(run_series(&hungry, &[1]), Err(ChainError::Machine(VmError::MissingInput)));
    assert_eq!(run_series(&hungry, &[]), Ok(0));
    let broken = Program::new(vec![3, 0, 98]);
    assert_eq!(run_feedback(&broken, &[1, 2]), Err(VmError::InvalidOpcode(98)));
    assert_eq!(run_feedback(&broken, &[]), Ok(0));
}

#[test]
fn feedback_stops_on_silent_instance() {
    // adds its setting to each signal, then halts after the second one
    let p = Program::new(vec![3, 20, 3, 21, 1, 20, 21, 22, 4, 22, 3, 21, 1, 20, 21, 22, 4, 22, 99]);
    assert_eq!(run_feedback(&p, &[1, 10]), Ok(22));
    let mut inst: Instant = p.start_with_input(&[1]);
    inst.push_inputs(&[0, 11]);
    assert_eq!(inst.execute(), Ok(vec![1, 12]));
}
