//! Optimizer behavior: run-length folding, the multiply-loop rewrite, and
//! the loops the rewrite must leave alone.

use bf_compiler::instruction::Instruction;
use bf_compiler::optimizer::consecutive_inc_dec::optimize_consecutive_inc_dec;
use bf_compiler::optimizer::mul_loop::optimize_mul_loop;
use bf_compiler::optimizer::{optimize, Optimization};
use bf_compiler::parser::parse;

#[test]
fn folds_runs_of_two_or_more() {
    let program = parse("++++>>><<-").unwrap();
    assert_eq!(
        optimize_consecutive_inc_dec(&program),
        vec![
            Instruction::Add(4),
            Instruction::PointerAdd(3),
            Instruction::PointerSubtract(2),
            Instruction::Decrement,
        ]
    );
}

#[test]
fn leaves_single_primitives_alone() {
    let program = parse("+>-<.").unwrap();
    assert_eq!(optimize_consecutive_inc_dec(&program), program);
}

#[test]
fn folds_inside_loop_bodies() {
    let program = parse("[+++]").unwrap();
    assert_eq!(
        optimize_consecutive_inc_dec(&program),
        vec![Instruction::Loop(vec![Instruction::Add(3)])]
    );
}

#[test]
fn alternating_runs_do_not_fuse() {
    let program = parse("+-+-").unwrap();
    assert_eq!(optimize_consecutive_inc_dec(&program), program);
}

#[test]
fn no_options_is_the_identity() {
    let program = parse("+++[>+++++<-]>.").unwrap();
    let expected = parse("+++[>+++++<-]>.").unwrap();
    assert_eq!(optimize(program, &[]), expected);
}

#[test]
fn all_enables_every_pass() {
    let program = parse("+++[>+++++<-]>.").unwrap();
    let optimized = optimize(program, &[Optimization::All]);
    assert_eq!(
        optimized,
        vec![
            Instruction::Add(3),
            Instruction::IfNotZero(vec![
                Instruction::PointerIncrement,
                Instruction::AddValueMultipliedBy(5, -1),
                Instruction::PointerDecrement,
                Instruction::SetZero,
                Instruction::SetZero,
            ]),
            Instruction::PointerIncrement,
            Instruction::PutChar,
        ]
    );
}

#[test]
fn transfer_loop_becomes_add_value_at() {
    let program = parse("[->+<]").unwrap();
    let optimized = optimize(program, &[Optimization::MulLoop]);
    assert_eq!(
        optimized,
        vec![Instruction::IfNotZero(vec![
            Instruction::PointerIncrement,
            Instruction::AddValueAt(-1),
            Instruction::PointerDecrement,
            Instruction::SetZero,
            Instruction::SetZero,
        ])]
    );
}

#[test]
fn zero_loop_becomes_guarded_set_zero() {
    let program = parse("[+]").unwrap();
    let optimized = optimize_mul_loop(&program);
    assert_eq!(
        optimized,
        vec![Instruction::IfNotZero(vec![
            Instruction::Negate,
            Instruction::SetZero,
            Instruction::SetZero,
        ])]
    );
}

#[test]
fn non_unit_stride_loop_passes_through() {
    let program = parse("[+++]").unwrap();
    assert_eq!(
        optimize_mul_loop(&program),
        vec![Instruction::Loop(vec![
            Instruction::Increment,
            Instruction::Increment,
            Instruction::Increment,
        ])]
    );
}

#[test]
fn loop_with_pointer_drift_passes_through() {
    let program = parse("[->+]").unwrap();
    assert_eq!(
        optimize_mul_loop(&program),
        vec![Instruction::Loop(vec![
            Instruction::Decrement,
            Instruction::PointerIncrement,
            Instruction::Increment,
        ])]
    );
}

#[test]
fn loop_with_io_passes_through() {
    let program = parse("[-.]").unwrap();
    assert_eq!(
        optimize_mul_loop(&program),
        vec![Instruction::Loop(vec![Instruction::Decrement, Instruction::PutChar])]
    );
}

#[test]
fn nested_loop_makes_the_outer_ineligible() {
    let program = parse("[-[-]]").unwrap();
    let optimized = optimize_mul_loop(&program);
    assert_eq!(
        optimized,
        vec![Instruction::Loop(vec![
            Instruction::Decrement,
            Instruction::IfNotZero(vec![Instruction::SetZero, Instruction::SetZero]),
        ])]
    );
}
