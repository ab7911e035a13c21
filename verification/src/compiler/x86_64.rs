//! Lowering the instruction tree to x86-64 System V machine code, through
//! the in-tree encoder. The tape pointer lives in `rdx`; host `putchar` and
//! `getchar` are called by absolute address through `rax`. The specification
//! `x86_program` gives the emitted bytes exactly, branch displacements
//! included: each displacement is `target - (branch_start + branch_length)`,
//! truncated to 32 bits as the encoder's patch primitives store it.

use vstd::prelude::*;

use crate::assembler::addressing_mode::AddressingMode;
use crate::assembler::x86_64::{
    le32, le64, mode_bytes, rex_bytes, Assembler, ByteRegister, QwordRegister,
};
use crate::instruction::{
    ir_of, ir_seq, lemma_ir_seq_index, lemma_ir_seq_len, Instruction, IrNode,
};

verus! {

/// A constant the encoder cannot express.
#[derive(Debug, Clone, Copy, PartialEq, Eq, Structural)]
pub enum CompileError {
    /// A fused pointer move of 255 cells or more: wider than the single
    /// sign-extended 8-bit immediate the lowering uses.
    OperandTooLarge,
}

/// `[rdx]`: the current cell.
pub open spec fn ptr_ind() -> AddressingMode {
    AddressingMode::Indirect { reg: QwordRegister::Rdx }
}

/// `rdx`: the tape pointer.
pub open spec fn ptr_reg() -> AddressingMode {
    AddressingMode::Register { reg: QwordRegister::Rdx }
}

/// `rax` as an r/m operand.
pub open spec fn rax_reg() -> AddressingMode {
    AddressingMode::Register { reg: QwordRegister::Rax }
}

/// `rcx` as an r/m operand.
pub open spec fn rcx_reg() -> AddressingMode {
    AddressingMode::Register { reg: QwordRegister::Rcx }
}

/// `rbp` as an r/m operand.
pub open spec fn rbp_reg() -> AddressingMode {
    AddressingMode::Register { reg: QwordRegister::Rbp }
}

/// `[rdx + disp32]`: a cell at a fixed displacement from the pointer.
pub open spec fn cell_at_disp(d: i32) -> AddressingMode {
    AddressingMode::IndirectDisplacement32 { base: QwordRegister::Rdx, disp: d }
}

/// The bytes of `cmp byte [rdx], 0`.
pub open spec fn cmp_cell_zero() -> Seq<u8> {
    rex_bytes(false, false, ptr_ind().spec_rex_x(), ptr_ind().spec_rex_b()) + seq![0x80u8]
        + mode_bytes(ptr_ind(), 7) + seq![0u8]
}

/// A 32-bit branch displacement as stored: truncated to 32 bits.
pub open spec fn disp32(d: int) -> Seq<u8> {
    le32(d as i32 as u32)
}

/// The bytes of `push rbp; mov rbp, rsp; mov rdx, rdi`: the function
/// prologue, which moves the tape base argument into the pointer register.
pub open spec fn prologue_bytes() -> Seq<u8> {
    rex_bytes(false, false, false, (QwordRegister::Rbp.value() & 0x08) != 0) + seq![
        (0x50 + (QwordRegister::Rbp.value() & 0x07)) as u8,
    ] + (rex_bytes(
        true,
        (QwordRegister::Rsp.value() & 0x08) != 0,
        rbp_reg().spec_rex_x(),
        rbp_reg().spec_rex_b(),
    ) + seq![0x89u8] + mode_bytes(rbp_reg(), QwordRegister::Rsp.value())) + (rex_bytes(
        true,
        (QwordRegister::Rdi.value() & 0x08) != 0,
        ptr_reg().spec_rex_x(),
        ptr_reg().spec_rex_b(),
    ) + seq![0x89u8] + mode_bytes(ptr_reg(), QwordRegister::Rdi.value()))
}

/// The bytes of `pop rbp; ret`.
pub open spec fn epilogue_bytes() -> Seq<u8> {
    rex_bytes(false, false, false, (QwordRegister::Rbp.value() & 0x08) != 0) + seq![
        (0x58 + (QwordRegister::Rbp.value() & 0x07)) as u8,
    ] + seq![0xc3u8]
}

/// The bytes of `mov al, [rdx + d]`.
pub open spec fn load_al_from(d: i32) -> Seq<u8> {
    rex_bytes(
        false,
        (ByteRegister::Al.value() & 0x08) != 0,
        cell_at_disp(d).spec_rex_x(),
        cell_at_disp(d).spec_rex_b(),
    ) + seq![0x8au8] + mode_bytes(cell_at_disp(d), ByteRegister::Al.value())
}

/// The bytes of `add [rdx], al`.
pub open spec fn add_cell_al() -> Seq<u8> {
    rex_bytes(
        false,
        (ByteRegister::Al.value() & 0x08) != 0,
        ptr_ind().spec_rex_x(),
        ptr_ind().spec_rex_b(),
    ) + seq![0x00u8] + mode_bytes(ptr_ind(), ByteRegister::Al.value())
}

/// The bytes of `sub [rdx], al`.
pub open spec fn sub_cell_al() -> Seq<u8> {
    rex_bytes(
        false,
        (ByteRegister::Al.value() & 0x08) != 0,
        ptr_ind().spec_rex_x(),
        ptr_ind().spec_rex_b(),
    ) + seq![0x28u8] + mode_bytes(ptr_ind(), ByteRegister::Al.value())
}

/// The bytes of `mov cl, v; mul cl`.
pub open spec fn mul_al_by(v: u8) -> Seq<u8> {
    (rex_bytes(false, false, rcx_reg().spec_rex_x(), rcx_reg().spec_rex_b()) + seq![0xc6u8]
        + mode_bytes(rcx_reg(), 0) + seq![v]) + (rex_bytes(
        false,
        false,
        rcx_reg().spec_rex_x(),
        rcx_reg().spec_rex_b(),
    ) + seq![0xf6u8] + mode_bytes(rcx_reg(), 4))
}

/// The bytes of `mov rax, imm64; push rdx; call rax; pop rdx`: a host call
/// by absolute address, with the pointer register saved around it.
pub open spec fn host_call(addr: u64) -> Seq<u8> {
    (rex_bytes(true, false, false, (QwordRegister::Rax.value() & 0x08) != 0) + seq![
        (0xb8 + (QwordRegister::Rax.value() & 0x07)) as u8,
    ] + le64(addr)) + (rex_bytes(false, false, false, (QwordRegister::Rdx.value() & 0x08) != 0)
        + seq![(0x50 + (QwordRegister::Rdx.value() & 0x07)) as u8]) + (rex_bytes(
        false,
        false,
        rax_reg().spec_rex_x(),
        rax_reg().spec_rex_b(),
    ) + seq![0xffu8] + mode_bytes(rax_reg(), 2)) + (rex_bytes(
        false,
        false,
        false,
        (QwordRegister::Rdx.value() & 0x08) != 0,
    ) + seq![(0x58 + (QwordRegister::Rdx.value() & 0x07)) as u8])
}

/// Whether one node's constants fit the encodings the lowering uses.
pub open spec fn node_operands_ok(n: IrNode) -> bool
    decreases n,
{
    match n {
        IrNode::PointerAdd(v) => v < 255,
        IrNode::PointerSubtract(v) => v < 255,
        IrNode::Loop(b) => seq_operands_ok(b),
        IrNode::IfNotZero(b) => seq_operands_ok(b),
        _ => true,
    }
}

/// Whether every node's constants fit.
pub open spec fn seq_operands_ok(p: Seq<IrNode>) -> bool
    decreases p,
{
    p.len() == 0 || (node_operands_ok(p[0]) && seq_operands_ok(p.drop_first()))
}

/// The machine code for one node. Jump displacements are relative to the
/// end of the branch instruction; a loop's leading `je` lands just past its
/// closing `jne`, and the closing `jne` lands on the loop's second byte
/// check, just after the leading `cmp`.
pub open spec fn x86_node(n: IrNode, putchar_addr: u64, getchar_addr: u64) -> Seq<u8>
    decreases n,
{
    match n {
        IrNode::Increment => rex_bytes(false, false, ptr_ind().spec_rex_x(), ptr_ind().spec_rex_b())
            + seq![0xfeu8] + mode_bytes(ptr_ind(), 0),
        IrNode::Decrement => rex_bytes(false, false, ptr_ind().spec_rex_x(), ptr_ind().spec_rex_b())
            + seq![0xfeu8] + mode_bytes(ptr_ind(), 1),
        IrNode::PointerIncrement => rex_bytes(
            true,
            false,
            ptr_reg().spec_rex_x(),
            ptr_reg().spec_rex_b(),
        ) + seq![0x83u8] + mode_bytes(ptr_reg(), 0) + seq![1u8],
        IrNode::PointerDecrement => rex_bytes(
            true,
            false,
            ptr_reg().spec_rex_x(),
            ptr_reg().spec_rex_b(),
        ) + seq![0x83u8] + mode_bytes(ptr_reg(), 5) + seq![1u8],
        IrNode::PutChar => (rex_bytes(
            false,
            (QwordRegister::Rdi.value() & 0x08) != 0,
            ptr_ind().spec_rex_x(),
            ptr_ind().spec_rex_b(),
        ) + seq![0x0fu8, 0xb6u8] + mode_bytes(ptr_ind(), QwordRegister::Rdi.value())) + host_call(
            putchar_addr,
        ),
        IrNode::GetChar => host_call(getchar_addr) + (rex_bytes(
            false,
            (ByteRegister::Al.value() & 0x08) != 0,
            ptr_ind().spec_rex_x(),
            ptr_ind().spec_rex_b(),
        ) + seq![0x88u8] + mode_bytes(ptr_ind(), ByteRegister::Al.value())),
        IrNode::Loop(b) => {
            let body = x86_seq(b, putchar_addr, getchar_addr);
            let around = body.len() + cmp_cell_zero().len() + 6;
            cmp_cell_zero() + seq![0x0fu8, 0x84u8] + disp32(around as int) + body + cmp_cell_zero()
                + seq![0x0fu8, 0x85u8] + disp32(-(around as int))
        },
        IrNode::Add(v) => rex_bytes(false, false, ptr_ind().spec_rex_x(), ptr_ind().spec_rex_b())
            + seq![0x80u8] + mode_bytes(ptr_ind(), 0) + seq![v],
        IrNode::Subtract(v) => rex_bytes(
            false,
            false,
            ptr_ind().spec_rex_x(),
            ptr_ind().spec_rex_b(),
        ) + seq![0x80u8] + mode_bytes(ptr_ind(), 5) + seq![v],
        IrNode::SetZero => rex_bytes(false, false, ptr_ind().spec_rex_x(), ptr_ind().spec_rex_b())
            + seq![0xc6u8] + mode_bytes(ptr_ind(), 0) + seq![0u8],
        IrNode::PointerAdd(v) => rex_bytes(true, false, ptr_reg().spec_rex_x(), ptr_reg().spec_rex_b())
            + seq![0x83u8] + mode_bytes(ptr_reg(), 0) + seq![v as u8],
        IrNode::PointerSubtract(v) => rex_bytes(
            true,
            false,
            ptr_reg().spec_rex_x(),
            ptr_reg().spec_rex_b(),
        ) + seq![0x83u8] + mode_bytes(ptr_reg(), 5) + seq![v as u8],
        IrNode::AddValueAt(at) => load_al_from(at as i32) + add_cell_al(),
        IrNode::SubtractValueAt(at) => load_al_from(at as i32) + sub_cell_al(),
        IrNode::AddValueMultipliedBy(m, at) => load_al_from(at as i32) + mul_al_by(m)
            + add_cell_al(),
        IrNode::SubtractValueMultipliedBy(m, at) => load_al_from(at as i32) + mul_al_by(m)
            + sub_cell_al(),
        IrNode::Negate => rex_bytes(false, false, ptr_ind().spec_rex_x(), ptr_ind().spec_rex_b())
            + seq![0xf6u8] + mode_bytes(ptr_ind(), 3),
        IrNode::IfNotZero(b) => {
            let body = x86_seq(b, putchar_addr, getchar_addr);
            cmp_cell_zero() + seq![0x0fu8, 0x84u8] + disp32(body.len() as int) + body
        },
    }
}

/// The machine code for a sequence of nodes.
pub open spec fn x86_seq(p: Seq<IrNode>, putchar_addr: u64, getchar_addr: u64) -> Seq<u8>
    decreases p,
{
    if p.len() == 0 {
        Seq::empty()
    } else {
        x86_node(p[0], putchar_addr, getchar_addr) + x86_seq(
            p.drop_first(),
            putchar_addr,
            getchar_addr,
        )
    }
}

/// The whole emitted function: prologue, lowered program, epilogue.
pub open spec fn x86_program(p: Seq<IrNode>, putchar_addr: u64, getchar_addr: u64) -> Seq<u8> {
    prologue_bytes() + x86_seq(p, putchar_addr, getchar_addr) + epilogue_bytes()
}

proof fn lemma_x86_seq_concat(a: Seq<IrNode>, b: Seq<IrNode>, pc: u64, gc: u64)
    ensures
        x86_seq(a + b, pc, gc) == x86_seq(a, pc, gc) + x86_seq(b, pc, gc),
    decreases a,
{
    if a.len() == 0 {
        assert(a + b =~= b);
        assert(x86_seq(a, pc, gc) + x86_seq(b, pc, gc) =~= x86_seq(b, pc, gc));
    } else {
        assert((a + b).drop_first() =~= a.drop_first() + b);
        lemma_x86_seq_concat(a.drop_first(), b, pc, gc);
        assert(x86_seq(a, pc, gc) + x86_seq(b, pc, gc) =~= x86_node(a[0], pc, gc) + (x86_seq(
            a.drop_first(),
            pc,
            gc,
        ) + x86_seq(b, pc, gc)));
    }
}

proof fn lemma_x86_seq_snoc(p: Seq<IrNode>, i: int, pc: u64, gc: u64)
    requires
        0 <= i < p.len(),
    ensures
        x86_seq(p.take(i + 1), pc, gc) == x86_seq(p.take(i), pc, gc) + x86_node(p[i], pc, gc),
{
    let one = seq![p[i]];
    assert(p.take(i + 1) =~= p.take(i) + one);
    lemma_x86_seq_concat(p.take(i), one, pc, gc);
    assert(one.drop_first() =~= Seq::<IrNode>::empty());
    assert(x86_seq(Seq::<IrNode>::empty(), pc, gc) =~= Seq::<u8>::empty());
    assert(one[0] == p[i]);
    assert(x86_seq(one, pc, gc) =~= x86_node(p[i], pc, gc));
}

proof fn lemma_ops_concat(a: Seq<IrNode>, b: Seq<IrNode>)
    ensures
        seq_operands_ok(a + b) == (seq_operands_ok(a) && seq_operands_ok(b)),
    decreases a,
{
    if a.len() == 0 {
        assert(a + b =~= b);
    } else {
        assert((a + b).drop_first() =~= a.drop_first() + b);
        lemma_ops_concat(a.drop_first(), b);
    }
}

proof fn lemma_ops_snoc(p: Seq<IrNode>, i: int)
    requires
        0 <= i < p.len(),
    ensures
        seq_operands_ok(p.take(i + 1)) == (seq_operands_ok(p.take(i)) && node_operands_ok(p[i])),
{
    let one = seq![p[i]];
    assert(p.take(i + 1) =~= p.take(i) + one);
    lemma_ops_concat(p.take(i), one);
    assert(one.drop_first() =~= Seq::<IrNode>::empty());
    assert(seq_operands_ok(Seq::<IrNode>::empty()));
    assert(one[0] == p[i]);
    assert(seq_operands_ok(one) == node_operands_ok(p[i]));
}

/// A node with a constant that does not fit spoils the whole sequence.
proof fn lemma_ops_element(p: Seq<IrNode>, i: int)
    requires
        0 <= i < p.len(),
        !node_operands_ok(p[i]),
    ensures
        !seq_operands_ok(p),
{
    lemma_ops_snoc(p, i);
    assert(p.take(p.len() as int) =~= p);
    lemma_ops_prefix(p, i + 1, p.len() as int);
}

/// Admissibility of a longer prefix implies it for a shorter one.
proof fn lemma_ops_prefix(p: Seq<IrNode>, i: int, j: int)
    requires
        0 <= i <= j <= p.len(),
        !seq_operands_ok(p.take(i)),
    ensures
        !seq_operands_ok(p.take(j)),
    decreases j - i,
{
    if i < j {
        lemma_ops_snoc(p, i);
        lemma_ops_prefix(p, i + 1, j);
    }
}

/// Compile a program for the entry convention `fn(tape_base: *mut u8)`,
/// with the host I/O routines bound at the given absolute addresses. Fails
/// exactly when a fused pointer move is too wide for the encoding.
pub fn compile(
    instructions: &[Instruction],
    putchar_addr: u64,
    getchar_addr: u64,
) -> (r: Result<Vec<u8>, CompileError>)
    ensures
        match r {
            Result::Ok(code) => seq_operands_ok(ir_seq(instructions@)) && code@ == x86_program(
                ir_seq(instructions@),
                putchar_addr,
                getchar_addr,
            ),
            Result::Err(e) => e == CompileError::OperandTooLarge && !seq_operands_ok(
                ir_seq(instructions@),
            ),
        },
{
    let mut assembler = Assembler::new();

    assembler.push_r64(QwordRegister::Rbp);
    assembler.mov_rm64_r64(
        AddressingMode::Register { reg: QwordRegister::Rbp },
        QwordRegister::Rsp,
    );
    assembler.mov_rm64_r64(
        AddressingMode::Register { reg: QwordRegister::Rdx },
        QwordRegister::Rdi,
    );
    proof {
        assert(assembler.code@ =~= prologue_bytes());
    }

    match do_compile(instructions, &mut assembler, putchar_addr, getchar_addr) {
        Result::Ok(()) => {},
        Result::Err(e) => {
            return Result::Err(e);
        },
    }

    assembler.pop_r64(QwordRegister::Rbp);
    assembler.ret();
    proof {
        assert(assembler.code@ =~= x86_program(
            ir_seq(instructions@),
            putchar_addr,
            getchar_addr,
        ));
    }
    Result::Ok(assembler.code)
}

/// Append the lowering of `instructions` to the code buffer.
fn do_compile(
    instructions: &[Instruction],
    assembler: &mut Assembler,
    putchar_addr: u64,
    getchar_addr: u64,
) -> (r: Result<(), CompileError>)
    ensures
        match r {
            Result::Ok(()) => seq_operands_ok(ir_seq(instructions@)) && final(assembler).code@
                == old(assembler).code@ + x86_seq(
                ir_seq(instructions@),
                putchar_addr,
                getchar_addr,
            ),
            Result::Err(e) => e == CompileError::OperandTooLarge && !seq_operands_ok(
                ir_seq(instructions@),
            ),
        },
    decreases instructions@, 0int,
{
    let ghost q = ir_seq(instructions@);
    proof {
        lemma_ir_seq_len(instructions@);
        assert(q.take(0) =~= Seq::<IrNode>::empty());
        assert(assembler.code@ =~= assembler.code@ + x86_seq(q.take(0), putchar_addr, getchar_addr));
    }
    let mut i: usize = 0;
    while i < instructions.len()
        invariant
            i <= instructions@.len(),
            q == ir_seq(instructions@),
            q.len() == instructions@.len(),
            seq_operands_ok(q.take(i as int)),
            assembler.code@ == old(assembler).code@ + x86_seq(
                q.take(i as int),
                putchar_addr,
                getchar_addr,
            ),
        decreases instructions@.len() - i,
    {
        proof {
            lemma_ir_seq_index(instructions@, i as int);
            lemma_x86_seq_snoc(q, i as int, putchar_addr, getchar_addr);
            lemma_ops_snoc(q, i as int);
        }
        match emit_node(&instructions[i], assembler, putchar_addr, getchar_addr) {
            Result::Ok(()) => {},
            Result::Err(e) => {
                proof {
                    lemma_ops_element(q, i as int);
                }
                return Result::Err(e);
            },
        }
        i = i + 1;
    }
    proof {
        assert(q.take(i as int) =~= q);
    }
    Result::Ok(())
}

/// Append the lowering of one node to the code buffer.
#[verifier::rlimit(100)]
fn emit_node(
    inst: &Instruction,
    assembler: &mut Assembler,
    putchar_addr: u64,
    getchar_addr: u64,
) -> (r: Result<(), CompileError>)
    ensures
        match r {
            Result::Ok(()) => node_operands_ok(ir_of(*inst)) && final(assembler).code@
                == old(assembler).code@ + x86_node(ir_of(*inst), putchar_addr, getchar_addr),
            Result::Err(e) => e == CompileError::OperandTooLarge && !node_operands_ok(
                ir_of(*inst),
            ),
        },
    decreases inst, 1int,
{
    let ghost emitted = assembler.code@;
    match inst {
        Instruction::Increment => {
            assembler.inc_rm8(AddressingMode::Indirect { reg: QwordRegister::Rdx });
        },
        Instruction::Decrement => {
            assembler.dec_rm8(AddressingMode::Indirect { reg: QwordRegister::Rdx });
        },
        Instruction::PointerIncrement => {
            assembler.add_rm64_imm8(AddressingMode::Register { reg: QwordRegister::Rdx }, 1);
        },
        Instruction::PointerDecrement => {
            assembler.sub_rm64_imm8(AddressingMode::Register { reg: QwordRegister::Rdx }, 1);
        },
        Instruction::PutChar => {
            assembler.movzx_r32_rm8(
                QwordRegister::Rdi,
                AddressingMode::Indirect { reg: QwordRegister::Rdx },
            );
            emit_host_call(assembler, putchar_addr);
            proof {
                assert(assembler.code@ =~= emitted + x86_node(
                    ir_of(*inst),
                    putchar_addr,
                    getchar_addr,
                ));
            }
        },
        Instruction::GetChar => {
            emit_host_call(assembler, getchar_addr);
            assembler.mov_rm8_r8(
                AddressingMode::Indirect { reg: QwordRegister::Rdx },
                ByteRegister::Al,
            );
            proof {
                assert(assembler.code@ =~= emitted + x86_node(
                    ir_of(*inst),
                    putchar_addr,
                    getchar_addr,
                ));
            }
        },
        Instruction::Loop(loop_instructions) => {
            return emit_loop(loop_instructions, assembler, putchar_addr, getchar_addr);
        },
        Instruction::Add(value) => {
            assembler.add_rm8_imm8(AddressingMode::Indirect { reg: QwordRegister::Rdx }, *value);
        },
        Instruction::Subtract(value) => {
            assembler.sub_rm8_imm8(AddressingMode::Indirect { reg: QwordRegister::Rdx }, *value);
        },
        Instruction::SetZero => {
            assembler.mov_rm8_imm8(AddressingMode::Indirect { reg: QwordRegister::Rdx }, 0);
        },
        Instruction::PointerAdd(value) => {
            if *value >= 255 {
                return Result::Err(CompileError::OperandTooLarge);
            }
            assembler.add_rm64_imm8(
                AddressingMode::Register { reg: QwordRegister::Rdx },
                *value as u8,
            );
        },
        Instruction::PointerSubtract(value) => {
            if *value >= 255 {
                return Result::Err(CompileError::OperandTooLarge);
            }
            assembler.sub_rm64_imm8(
                AddressingMode::Register { reg: QwordRegister::Rdx },
                *value as u8,
            );
        },
        Instruction::AddValueAt(at) => {
            emit_load_al(assembler, *at);
            assembler.add_rm8_r8(
                AddressingMode::Indirect { reg: QwordRegister::Rdx },
                ByteRegister::Al,
            );
            proof {
                assert(assembler.code@ =~= emitted + x86_node(
                    ir_of(*inst),
                    putchar_addr,
                    getchar_addr,
                ));
            }
        },
        Instruction::SubtractValueAt(at) => {
            emit_load_al(assembler, *at);
            assembler.sub_rm8_r8(
                AddressingMode::Indirect { reg: QwordRegister::Rdx },
                ByteRegister::Al,
            );
            proof {
                assert(assembler.code@ =~= emitted + x86_node(
                    ir_of(*inst),
                    putchar_addr,
                    getchar_addr,
                ));
            }
        },
        Instruction::AddValueMultipliedBy(mul, at) => {
            emit_load_al(assembler, *at);
            emit_mul_al_by(assembler, *mul);
            assembler.add_rm8_r8(
                AddressingMode::Indirect { reg: QwordRegister::Rdx },
                ByteRegister::Al,
            );
            proof {
                assert(assembler.code@ =~= emitted + x86_node(
                    ir_of(*inst),
                    putchar_addr,
                    getchar_addr,
                ));
            }
        },
        Instruction::SubtractValueMultipliedBy(mul, at) => {
            emit_load_al(assembler, *at);
            emit_mul_al_by(assembler, *mul);
            assembler.sub_rm8_r8(
                AddressingMode::Indirect { reg: QwordRegister::Rdx },
                ByteRegister::Al,
            );
            proof {
                assert(assembler.code@ =~= emitted + x86_node(
                    ir_of(*inst),
                    putchar_addr,
                    getchar_addr,
                ));
            }
        },
        Instruction::Negate => {
            assembler.neg_rm8(AddressingMode::Indirect { reg: QwordRegister::Rdx });
        },
        Instruction::IfNotZero(if_instructions) => {
            return emit_if_not_zero(if_instructions, assembler, putchar_addr, getchar_addr);
        },
    }
    Result::Ok(())
}

/// Emit `mov rax, imm64; push rdx; call rax; pop rdx`.
fn emit_host_call(assembler: &mut Assembler, addr: u64)
    ensures
        final(assembler).code@ == old(assembler).code@ + host_call(addr),
{
    assembler.mov_r64_imm64(QwordRegister::Rax, addr);
    assembler.push_r64(QwordRegister::Rdx);
    assembler.call_rm64(AddressingMode::Register { reg: QwordRegister::Rax });
    assembler.pop_r64(QwordRegister::Rdx);
    proof {
        assert(assembler.code@ =~= old(assembler).code@ + host_call(addr));
    }
}

/// Emit `mov al, [rdx + at]`, with the displacement truncated to 32 bits.
fn emit_load_al(assembler: &mut Assembler, at: isize)
    ensures
        final(assembler).code@ == old(assembler).code@ + load_al_from(at as i32),
{
    assembler.mov_r8_rm8(
        ByteRegister::Al,
        AddressingMode::IndirectDisplacement32 {
            base: QwordRegister::Rdx,
            disp: #[verifier::truncate] (at as i32),
        },
    );
}

/// Emit `mov cl, v; mul cl`.
fn emit_mul_al_by(assembler: &mut Assembler, v: u8)
    ensures
        final(assembler).code@ == old(assembler).code@ + mul_al_by(v),
{
    assembler.mov_rm8_imm8(AddressingMode::Register { reg: QwordRegister::Rcx }, v);
    assembler.mul_rm8(AddressingMode::Register { reg: QwordRegister::Rcx });
    proof {
        assert(assembler.code@ =~= old(assembler).code@ + mul_al_by(v));
    }
}

/// Emit a whole loop: entry check, guarded forward branch, body, exit
/// check, backward branch, and the patch that resolves the forward branch.
fn emit_loop(
    body: &Vec<Instruction>,
    assembler: &mut Assembler,
    putchar_addr: u64,
    getchar_addr: u64,
) -> (r: Result<(), CompileError>)
    ensures
        match r {
            Result::Ok(()) => seq_operands_ok(ir_seq(body@)) && final(assembler).code@
                == old(assembler).code@ + x86_node(
                IrNode::Loop(ir_seq(body@)),
                putchar_addr,
                getchar_addr,
            ),
            Result::Err(e) => e == CompileError::OperandTooLarge && !seq_operands_ok(
                ir_seq(body@),
            ),
        },
    decreases body@, 2int,
{
    let ghost emitted = assembler.code@;
    assembler.cmp_rm8_imm8(AddressingMode::Indirect { reg: QwordRegister::Rdx }, 0);
    let jump = assembler.code.len();
    assembler.je_rel32(0);
    let start = assembler.code.len();
    match do_compile(body.as_slice(), assembler, putchar_addr, getchar_addr) {
        Result::Ok(()) => {},
        Result::Err(e) => {
            return Result::Err(e);
        },
    }
    assembler.cmp_rm8_imm8(AddressingMode::Indirect { reg: QwordRegister::Rdx }, 0);
    let back: i128 = start as i128 - assembler.code.len() as i128 - 6;
    assembler.jne_rel32(#[verifier::truncate] (back as i32));
    let end = assembler.code.len();
    let fwd: i128 = end as i128 - jump as i128 - 6;
    assembler.set_je_rel32(jump, #[verifier::truncate] (fwd as i32));
    proof {
        let b = ir_seq(body@);
        let code = x86_seq(b, putchar_addr, getchar_addr);
        let around = code.len() + cmp_cell_zero().len() + 6;
        assert(fwd == around);
        assert(back == -(around as int));
        assert(assembler.code@ =~= emitted + (cmp_cell_zero() + seq![0x0fu8, 0x84u8] + disp32(
            around as int,
        ) + code + cmp_cell_zero() + seq![0x0fu8, 0x85u8] + disp32(-(around as int))));
    }
    Result::Ok(())
}

/// Emit a guarded block: entry check, forward branch patched to the end of
/// the body.
fn emit_if_not_zero(
    body: &Vec<Instruction>,
    assembler: &mut Assembler,
    putchar_addr: u64,
    getchar_addr: u64,
) -> (r: Result<(), CompileError>)
    ensures
        match r {
            Result::Ok(()) => seq_operands_ok(ir_seq(body@)) && final(assembler).code@
                == old(assembler).code@ + x86_node(
                IrNode::IfNotZero(ir_seq(body@)),
                putchar_addr,
                getchar_addr,
            ),
            Result::Err(e) => e == CompileError::OperandTooLarge && !seq_operands_ok(
                ir_seq(body@),
            ),
        },
    decreases body@, 2int,
{
    let ghost emitted = assembler.code@;
    assembler.cmp_rm8_imm8(AddressingMode::Indirect { reg: QwordRegister::Rdx }, 0);
    let jump = assembler.code.len();
    assembler.je_rel32(0);
    match do_compile(body.as_slice(), assembler, putchar_addr, getchar_addr) {
        Result::Ok(()) => {},
        Result::Err(e) => {
            return Result::Err(e);
        },
    }
    let end = assembler.code.len();
    let fwd: i128 = end as i128 - jump as i128 - 6;
    assembler.set_je_rel32(jump, #[verifier::truncate] (fwd as i32));
    proof {
        let b = ir_seq(body@);
        let code = x86_seq(b, putchar_addr, getchar_addr);
        assert(fwd == code.len());
        assert(assembler.code@ =~= emitted + (cmp_cell_zero() + seq![0x0fu8, 0x84u8] + disp32(
            code.len() as int,
        ) + code));
    }
    Result::Ok(())
}

} // verus!
