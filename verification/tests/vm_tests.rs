//! End-to-end runs through the virtual machine: lowering, jump layout, the
//! classic programs, every way a run can end, and the one known way the
//! loop rewrite departs from plain execution.

use bf_compiler::compiler::compile;
use bf_compiler::instruction::Instruction;
use bf_compiler::optimizer::{optimize, Optimization};
use bf_compiler::parser::parse;
use bf_compiler::runtime::vm::{run, RunStatus, VMInstruction};

const FUEL: u64 = 50_000_000;

fn execute(source: &str, input: &[u8], options: &[Optimization]) -> (Vec<u8>, RunStatus) {
    let program = parse(source).unwrap();
    let optimized = optimize(program, options);
    let compiled = compile(&optimized);
    run(&compiled, input, FUEL)
}

const HELLO: &str = "++++++++[>++++[>++>+++>+++>+<<<<-]>+>+>->>+[<]<-]>>.>---.+++++++..+++.>>.<-.<.+++.------.--------.>>+.>++.";

#[test]
fn lowers_a_loop_to_a_jump_pair() {
    let program = parse("[-]").unwrap();
    assert_eq!(
        compile(&program),
        vec![
            VMInstruction::JumpIfZero(2),
            VMInstruction::Decrement,
            VMInstruction::JumpIfNotZero(0),
        ]
    );
}

#[test]
fn lowers_a_guard_to_the_last_body_index() {
    let program = vec![Instruction::IfNotZero(vec![
        Instruction::AddValueAt(-1),
        Instruction::SetZero,
    ])];
    assert_eq!(
        compile(&program),
        vec![
            VMInstruction::JumpIfZero(2),
            VMInstruction::AddValueAt(-1),
            VMInstruction::SetZero,
        ]
    );
}

#[test]
fn lowers_nested_loops_with_absolute_targets() {
    let program = parse("+[>[-]<]").unwrap();
    assert_eq!(
        compile(&program),
        vec![
            VMInstruction::Increment,
            VMInstruction::JumpIfZero(7),
            VMInstruction::PointerIncrement,
            VMInstruction::JumpIfZero(5),
            VMInstruction::Decrement,
            VMInstruction::JumpIfNotZero(3),
            VMInstruction::PointerDecrement,
            VMInstruction::JumpIfNotZero(1),
        ]
    );
}

#[test]
fn hello_world() {
    let (out, status) = execute(HELLO, b"", &[]);
    assert_eq!(out, b"Hello World!\n");
    assert_eq!(status, RunStatus::Finished);
}

#[test]
fn hello_world_fully_optimized() {
    let (out, status) = execute(HELLO, b"", &[Optimization::All]);
    assert_eq!(out, b"Hello World!\n");
    assert_eq!(status, RunStatus::Finished);
}

#[test]
fn echo_three_bytes() {
    let (out, status) = execute(",.,.,.", b"abc", &[]);
    assert_eq!(out, b"abc");
    assert_eq!(status, RunStatus::Finished);
}

#[test]
fn echo_until_eof_yields_zero() {
    let (out, status) = execute(",[.,]", b"xyz", &[]);
    assert_eq!(out, b"xyz");
    assert_eq!(status, RunStatus::Finished);
}

#[test]
fn echo_until_eof_optimized() {
    let (out, status) = execute(",[.,]", b"xyz", &[Optimization::All]);
    assert_eq!(out, b"xyz");
    assert_eq!(status, RunStatus::Finished);
}

#[test]
fn multiply_loop_emits_fifteen() {
    let (out, status) = execute("+++[>+++++<-]>.", b"", &[]);
    assert_eq!(out, vec![0x0f]);
    assert_eq!(status, RunStatus::Finished);
}

#[test]
fn multiply_loop_emits_fifteen_under_rewrite() {
    let (out, status) = execute("+++[>+++++<-]>.", b"", &[Optimization::All]);
    assert_eq!(out, vec![0x0f]);
    assert_eq!(status, RunStatus::Finished);
}

#[test]
fn transfer_loop_copies_the_cell() {
    for options in [vec![], vec![Optimization::All]] {
        let (out, status) = execute("+>+++<[->+<]>.", b"", &options);
        assert_eq!(out, vec![0x04]);
        assert_eq!(status, RunStatus::Finished);
    }
}

#[test]
fn zero_loop_at_start_is_a_no_op() {
    for options in [vec![], vec![Optimization::MulLoop]] {
        let (out, status) = execute("[+].", b"", &options);
        assert_eq!(out, vec![0x00]);
        assert_eq!(status, RunStatus::Finished);
    }
}

#[test]
fn leaving_the_tape_faults() {
    let (out, status) = execute("<", b"", &[]);
    assert_eq!(out, b"");
    assert_eq!(status, RunStatus::Fault);
}

#[test]
fn fault_at_the_right_end_of_the_tape() {
    let program = vec![Instruction::PointerAdd(30000)];
    let compiled = compile(&program);
    let (_, status) = run(&compiled, b"", FUEL);
    assert_eq!(status, RunStatus::Fault);
}

#[test]
fn endless_loop_runs_out_of_fuel() {
    let program = parse("+[]").unwrap();
    let compiled = compile(&program);
    let (out, status) = run(&compiled, b"", 1000);
    assert_eq!(out, b"");
    assert_eq!(status, RunStatus::OutOfFuel);
}

#[test]
fn cell_arithmetic_wraps() {
    let (out, status) = execute("-.", b"", &[]);
    assert_eq!(out, vec![0xff]);
    assert_eq!(status, RunStatus::Finished);
}

#[test]
fn negate_wraps_modulo_256() {
    let program = vec![Instruction::Add(5), Instruction::Negate, Instruction::PutChar];
    let compiled = compile(&program);
    let (out, status) = run(&compiled, b"", FUEL);
    assert_eq!(out, vec![251]);
    assert_eq!(status, RunStatus::Finished);
}

#[test]
fn rewrite_reads_the_control_cell_it_wrote() {
    // A fused Add on the control cell itself is replayed as a multiply
    // before the transfers run, so later transfers read the changed value
    // rather than the loop's starting one. The machine keeps this
    // behavior; the verified preservation law therefore excludes bodies
    // with fused control-cell arithmetic.
    let (plain, _) = execute("+[++->+<]>.", b"", &[]);
    assert_eq!(plain, vec![255]);
    let (rewritten, _) = execute("+[++->+<]>.", b"", &[Optimization::All]);
    assert_eq!(rewritten, vec![253]);
}
