//! Byte-level checks of the native backend: the prologue and epilogue, each
//! per-instruction lowering, loop patching, and the operand limit.

use bf_compiler::compiler::x86_64::{compile, CompileError};
use bf_compiler::instruction::Instruction;
use bf_compiler::optimizer::{optimize, Optimization};
use bf_compiler::parser::parse;

const PUTCHAR: u64 = 0x1000;
const GETCHAR: u64 = 0x2000;

/// The lowering of the given instructions, prologue and epilogue stripped.
fn body_of(instructions: &[Instruction]) -> Vec<u8> {
    let code = compile(instructions, PUTCHAR, GETCHAR).unwrap();
    let prologue = [0x55, 0x48, 0x89, 0xe5, 0x48, 0x89, 0xfa];
    let epilogue = [0x5d, 0xc3];
    assert_eq!(&code[..prologue.len()], &prologue);
    assert_eq!(&code[code.len() - epilogue.len()..], &epilogue);
    code[prologue.len()..code.len() - epilogue.len()].to_vec()
}

#[test]
fn empty_program_is_prologue_and_epilogue() {
    assert_eq!(body_of(&[]), Vec::<u8>::new());
}

#[test]
fn cell_primitives_lower_to_byte_ops_on_rdx() {
    assert_eq!(body_of(&[Instruction::Increment]), vec![0xfe, 0x02]);
    assert_eq!(body_of(&[Instruction::Decrement]), vec![0xfe, 0x0a]);
    assert_eq!(body_of(&[Instruction::Add(5)]), vec![0x80, 0x02, 0x05]);
    assert_eq!(body_of(&[Instruction::Subtract(5)]), vec![0x80, 0x2a, 0x05]);
    assert_eq!(body_of(&[Instruction::SetZero]), vec![0xc6, 0x02, 0x00]);
    assert_eq!(body_of(&[Instruction::Negate]), vec![0xf6, 0x1a]);
}

#[test]
fn pointer_primitives_lower_to_qword_adds() {
    assert_eq!(body_of(&[Instruction::PointerIncrement]), vec![0x48, 0x83, 0xc2, 0x01]);
    assert_eq!(body_of(&[Instruction::PointerDecrement]), vec![0x48, 0x83, 0xea, 0x01]);
    assert_eq!(body_of(&[Instruction::PointerAdd(254)]), vec![0x48, 0x83, 0xc2, 0xfe]);
    assert_eq!(body_of(&[Instruction::PointerSubtract(7)]), vec![0x48, 0x83, 0xea, 0x07]);
}

#[test]
fn put_char_calls_the_host_through_rax() {
    assert_eq!(
        body_of(&[Instruction::PutChar]),
        vec![
            0x0f, 0xb6, 0x3a, // movzx edi, byte [rdx]
            0x48, 0xb8, 0x00, 0x10, 0, 0, 0, 0, 0, 0, // mov rax, PUTCHAR
            0x52, // push rdx
            0xff, 0xd0, // call rax
            0x5a, // pop rdx
        ]
    );
}

#[test]
fn get_char_stores_the_result_byte() {
    assert_eq!(
        body_of(&[Instruction::GetChar]),
        vec![
            0x48, 0xb8, 0x00, 0x20, 0, 0, 0, 0, 0, 0, // mov rax, GETCHAR
            0x52, // push rdx
            0xff, 0xd0, // call rax
            0x5a, // pop rdx
            0x88, 0x02, // mov [rdx], al
        ]
    );
}

#[test]
fn loop_branches_are_patched_around_the_body() {
    assert_eq!(
        body_of(&[Instruction::Loop(vec![Instruction::Decrement])]),
        vec![
            0x80, 0x3a, 0x00, // cmp byte [rdx], 0
            0x0f, 0x84, 0x0b, 0, 0, 0, // je +11: past the closing jne
            0xfe, 0x0a, // dec byte [rdx]
            0x80, 0x3a, 0x00, // cmp byte [rdx], 0
            0x0f, 0x85, 0xf5, 0xff, 0xff, 0xff, // jne -11: back past the je
        ]
    );
}

#[test]
fn guard_branch_lands_at_the_end_of_the_body() {
    assert_eq!(
        body_of(&[Instruction::IfNotZero(vec![Instruction::SetZero])]),
        vec![
            0x80, 0x3a, 0x00, // cmp byte [rdx], 0
            0x0f, 0x84, 0x03, 0, 0, 0, // je +3: past the body
            0xc6, 0x02, 0x00, // mov byte [rdx], 0
        ]
    );
}

#[test]
fn relative_cell_ops_use_disp32_loads() {
    assert_eq!(
        body_of(&[Instruction::AddValueAt(-1)]),
        vec![0x8a, 0x82, 0xff, 0xff, 0xff, 0xff, 0x00, 0x02]
    );
    assert_eq!(
        body_of(&[Instruction::SubtractValueAt(2)]),
        vec![0x8a, 0x82, 0x02, 0x00, 0x00, 0x00, 0x28, 0x02]
    );
}

#[test]
fn multiplied_cell_ops_go_through_al_and_cl() {
    assert_eq!(
        body_of(&[Instruction::AddValueMultipliedBy(5, -1)]),
        vec![
            0x8a, 0x82, 0xff, 0xff, 0xff, 0xff, // mov al, [rdx - 1]
            0xc6, 0xc1, 0x05, // mov cl, 5
            0xf6, 0xe1, // mul cl
            0x00, 0x02, // add [rdx], al
        ]
    );
    assert_eq!(
        body_of(&[Instruction::SubtractValueMultipliedBy(3, 4)]),
        vec![
            0x8a, 0x82, 0x04, 0x00, 0x00, 0x00, // mov al, [rdx + 4]
            0xc6, 0xc1, 0x03, // mov cl, 3
            0xf6, 0xe1, // mul cl
            0x28, 0x02, // sub [rdx], al
        ]
    );
}

#[test]
fn wide_pointer_moves_are_rejected() {
    assert_eq!(
        compile(&[Instruction::PointerAdd(255)], PUTCHAR, GETCHAR).unwrap_err(),
        CompileError::OperandTooLarge
    );
    assert_eq!(
        compile(&[Instruction::PointerSubtract(300)], PUTCHAR, GETCHAR).unwrap_err(),
        CompileError::OperandTooLarge
    );
    assert_eq!(
        compile(
            &[Instruction::Loop(vec![Instruction::PointerAdd(1000)])],
            PUTCHAR,
            GETCHAR,
        )
        .unwrap_err(),
        CompileError::OperandTooLarge
    );
}

#[test]
fn whole_pipeline_lowers_to_native_bytes() {
    let program = parse("+[-]").unwrap();
    let optimized = optimize(program, &[Optimization::All]);
    let code = compile(&optimized, PUTCHAR, GETCHAR).unwrap();
    // inc; then the rewritten zero loop: cmp, je past the guarded body,
    // set zero twice, inside the prologue/epilogue frame.
    assert_eq!(
        code,
        vec![
            0x55, 0x48, 0x89, 0xe5, 0x48, 0x89, 0xfa, // prologue
            0xfe, 0x02, // inc byte [rdx]
            0x80, 0x3a, 0x00, // cmp byte [rdx], 0
            0x0f, 0x84, 0x06, 0, 0, 0, // je +6: past the guarded body
            0xc6, 0x02, 0x00, // mov byte [rdx], 0
            0xc6, 0x02, 0x00, // mov byte [rdx], 0
            0x5d, 0xc3, // epilogue
        ]
    );
}
