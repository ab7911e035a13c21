//! Byte-level checks of the x86-64 encoder: one expected byte sequence per
//! instruction form, including REX-extended registers and SIB addressing.

use bf_compiler::assembler::addressing_mode::{AddressingMode, AddressingScale};
use bf_compiler::assembler::x86_64::{Assembler, ByteRegister, QwordRegister};

#[test]
fn test() {
    let mut assembler = Assembler::new();
    assembler.mov_rm64_r64(
        AddressingMode::Register { reg: QwordRegister::Rbp },
        QwordRegister::Rsp,
    );
    println!("{:x?}", assembler.code);
}

fn fresh() -> Assembler {
    Assembler::new()
}

#[test]
fn mov_rbp_rsp_bytes() {
    let mut a = fresh();
    a.mov_rm64_r64(
        AddressingMode::Register { reg: QwordRegister::Rbp },
        QwordRegister::Rsp,
    );
    assert_eq!(a.code, vec![0x48, 0x89, 0xe5]);
}

#[test]
fn push_pop_plain() {
    let mut a = fresh();
    a.push_r64(QwordRegister::Rbp);
    a.pop_r64(QwordRegister::Rbp);
    a.push_r64(QwordRegister::Rdx);
    a.pop_r64(QwordRegister::Rdx);
    assert_eq!(a.code, vec![0x55, 0x5d, 0x52, 0x5a]);
}

#[test]
fn push_pop_extended() {
    let mut a = fresh();
    a.push_r64(QwordRegister::R8);
    a.pop_r64(QwordRegister::R15);
    assert_eq!(a.code, vec![0x41, 0x50, 0x41, 0x5f]);
}

#[test]
fn ret_bytes() {
    let mut a = fresh();
    a.ret();
    assert_eq!(a.code, vec![0xc3]);
}

#[test]
fn inc_dec_byte_indirect() {
    let mut a = fresh();
    a.inc_rm8(AddressingMode::Indirect { reg: QwordRegister::Rdx });
    a.dec_rm8(AddressingMode::Indirect { reg: QwordRegister::Rdx });
    assert_eq!(a.code, vec![0xfe, 0x02, 0xfe, 0x0a]);
}

#[test]
fn inc_byte_register_form() {
    let mut a = fresh();
    a.inc_rm8(AddressingMode::Register { reg: QwordRegister::Rbx });
    assert_eq!(a.code, vec![0xfe, 0xc3]);
}

#[test]
fn inc_dec_qword() {
    let mut a = fresh();
    a.inc_rm64(AddressingMode::Register { reg: QwordRegister::Rax });
    a.dec_rm64(AddressingMode::Register { reg: QwordRegister::Rcx });
    a.inc_rm64(AddressingMode::Register { reg: QwordRegister::R8 });
    assert_eq!(a.code, vec![0x48, 0xff, 0xc0, 0x48, 0xff, 0xc9, 0x49, 0xff, 0xc0]);
}

#[test]
fn call_rax() {
    let mut a = fresh();
    a.call_rm64(AddressingMode::Register { reg: QwordRegister::Rax });
    assert_eq!(a.code, vec![0xff, 0xd0]);
}

#[test]
fn mov_imm64_bytes() {
    let mut a = fresh();
    a.mov_r64_imm64(QwordRegister::Rax, 0x1122334455667788);
    assert_eq!(
        a.code,
        vec![0x48, 0xb8, 0x88, 0x77, 0x66, 0x55, 0x44, 0x33, 0x22, 0x11]
    );
}

#[test]
fn mov_imm64_extended_register() {
    let mut a = fresh();
    a.mov_r64_imm64(QwordRegister::R10, 1);
    assert_eq!(a.code, vec![0x49, 0xba, 1, 0, 0, 0, 0, 0, 0, 0]);
}

#[test]
fn mov_byte_imm() {
    let mut a = fresh();
    a.mov_rm8_imm8(AddressingMode::Indirect { reg: QwordRegister::Rdx }, 0);
    a.mov_rm8_imm8(AddressingMode::Register { reg: QwordRegister::Rcx }, 5);
    assert_eq!(a.code, vec![0xc6, 0x02, 0x00, 0xc6, 0xc1, 0x05]);
}

#[test]
fn mov_byte_loads_and_stores() {
    let mut a = fresh();
    a.mov_r8_rm8(
        ByteRegister::Al,
        AddressingMode::IndirectDisplacement32 { base: QwordRegister::Rdx, disp: -1 },
    );
    a.mov_rm8_r8(AddressingMode::Indirect { reg: QwordRegister::Rdx }, ByteRegister::Al);
    assert_eq!(a.code, vec![0x8a, 0x82, 0xff, 0xff, 0xff, 0xff, 0x88, 0x02]);
}

#[test]
fn mov_store_extended_byte_register() {
    let mut a = fresh();
    a.mov_rm8_r8(AddressingMode::Indirect { reg: QwordRegister::Rdx }, ByteRegister::R8b);
    assert_eq!(a.code, vec![0x44, 0x88, 0x02]);
}

#[test]
fn movzx_bytes() {
    let mut a = fresh();
    a.movzx_r32_rm8(QwordRegister::Rdi, AddressingMode::Indirect { reg: QwordRegister::Rdx });
    a.movzx_r32_rm8(QwordRegister::R9, AddressingMode::Indirect { reg: QwordRegister::Rdx });
    assert_eq!(a.code, vec![0x0f, 0xb6, 0x3a, 0x44, 0x0f, 0xb6, 0x0a]);
}

#[test]
fn cmp_byte_imm() {
    let mut a = fresh();
    a.cmp_rm8_imm8(AddressingMode::Indirect { reg: QwordRegister::Rdx }, 0);
    assert_eq!(a.code, vec![0x80, 0x3a, 0x00]);
}

#[test]
fn jumps_rel8() {
    let mut a = fresh();
    a.je_rel8(-2);
    a.jne_rel8(5);
    assert_eq!(a.code, vec![0x74, 0xfe, 0x75, 0x05]);
}

#[test]
fn jumps_rel32() {
    let mut a = fresh();
    a.je_rel32(10);
    a.jne_rel32(-16);
    assert_eq!(
        a.code,
        vec![0x0f, 0x84, 0x0a, 0x00, 0x00, 0x00, 0x0f, 0x85, 0xf0, 0xff, 0xff, 0xff]
    );
}

#[test]
fn patching_rewrites_only_the_displacement() {
    let mut a = fresh();
    a.je_rel32(0);
    a.set_je_rel32(0, 0x11223344);
    assert_eq!(a.code, vec![0x0f, 0x84, 0x44, 0x33, 0x22, 0x11]);

    let mut b = fresh();
    b.jne_rel32(0);
    b.set_jne_rel32(0, -9);
    assert_eq!(b.code, vec![0x0f, 0x85, 0xf7, 0xff, 0xff, 0xff]);

    let mut c = fresh();
    c.je_rel8(0);
    c.set_je_rel8(0, -3);
    c.jne_rel8(0);
    c.set_jne_rel8(2, 7);
    assert_eq!(c.code, vec![0x74, 0xfd, 0x75, 0x07]);
}

#[test]
fn add_sub_byte_imm() {
    let mut a = fresh();
    a.add_rm8_imm8(AddressingMode::Indirect { reg: QwordRegister::Rdx }, 7);
    a.sub_rm8_imm8(AddressingMode::Indirect { reg: QwordRegister::Rdx }, 7);
    assert_eq!(a.code, vec![0x80, 0x02, 0x07, 0x80, 0x2a, 0x07]);
}

#[test]
fn add_sub_qword_imm() {
    let mut a = fresh();
    a.add_rm64_imm8(AddressingMode::Register { reg: QwordRegister::Rdx }, 1);
    a.sub_rm64_imm8(AddressingMode::Register { reg: QwordRegister::Rdx }, 1);
    assert_eq!(a.code, vec![0x48, 0x83, 0xc2, 0x01, 0x48, 0x83, 0xea, 0x01]);
}

#[test]
fn add_sub_byte_register() {
    let mut a = fresh();
    a.add_rm8_r8(AddressingMode::Indirect { reg: QwordRegister::Rdx }, ByteRegister::Al);
    a.sub_rm8_r8(AddressingMode::Indirect { reg: QwordRegister::Rdx }, ByteRegister::Al);
    assert_eq!(a.code, vec![0x00, 0x02, 0x28, 0x02]);
}

#[test]
fn mul_and_neg() {
    let mut a = fresh();
    a.mul_rm8(AddressingMode::Register { reg: QwordRegister::Rcx });
    a.neg_rm8(AddressingMode::Indirect { reg: QwordRegister::Rdx });
    assert_eq!(a.code, vec![0xf6, 0xe1, 0xf6, 0x1a]);
}

#[test]
fn sib_scaled_forms() {
    let mut a = fresh();
    a.inc_rm8(
        AddressingMode::IndirectScaled {
            base: QwordRegister::Rax,
            index: Some(QwordRegister::Rcx),
            scale: AddressingScale::Scale2,
        },
    );
    assert_eq!(a.code, vec![0xfe, 0x04, 0x48]);

    let mut b = fresh();
    b.inc_rm8(
        AddressingMode::IndirectScaledDisplacement8 {
            base: QwordRegister::Rax,
            index: Some(QwordRegister::Rcx),
            scale: AddressingScale::Scale4,
            disp: 0x12,
        },
    );
    assert_eq!(b.code, vec![0xfe, 0x44, 0x88, 0x12]);

    let mut c = fresh();
    c.inc_rm8(
        AddressingMode::IndirectScaledDisplacement32 {
            base: QwordRegister::Rbx,
            index: Some(QwordRegister::Rbp),
            scale: AddressingScale::Scale1,
            disp: 0x11223344,
        },
    );
    assert_eq!(c.code, vec![0xfe, 0x84, 0x2b, 0x44, 0x33, 0x22, 0x11]);
}

#[test]
fn sib_with_extended_registers_sets_rex_x_and_b() {
    let mut a = fresh();
    a.inc_rm8(
        AddressingMode::IndirectScaled {
            base: QwordRegister::R8,
            index: Some(QwordRegister::R9),
            scale: AddressingScale::Scale1,
        },
    );
    assert_eq!(a.code, vec![0x43, 0xfe, 0x04, 0x08]);
}

#[test]
fn sib_without_index_uses_reserved_encoding() {
    let mut a = fresh();
    a.inc_rm8(
        AddressingMode::IndirectScaled {
            base: QwordRegister::Rax,
            index: None,
            scale: AddressingScale::Scale1,
        },
    );
    assert_eq!(a.code, vec![0xfe, 0x04, 0x20]);
}

#[test]
fn sib_base_displacement_forms() {
    let mut a = fresh();
    a.inc_rm8(
        AddressingMode::IndirectScaledBaseDisplacement32 {
            index: Some(QwordRegister::Rcx),
            scale: AddressingScale::Scale2,
            disp: 0x10,
        },
    );
    assert_eq!(a.code, vec![0xfe, 0x04, 0x4d, 0x10, 0x00, 0x00, 0x00]);

    let mut b = fresh();
    b.inc_rm8(
        AddressingMode::IndirectScaledBaseDisplacement8Rbp {
            index: Some(QwordRegister::Rax),
            scale: AddressingScale::Scale1,
            disp: 4,
        },
    );
    assert_eq!(b.code, vec![0xfe, 0x44, 0x05, 0x04]);

    let mut c = fresh();
    c.inc_rm8(
        AddressingMode::IndirectScaledBaseDisplacement32Rbp {
            index: Some(QwordRegister::Rdi),
            scale: AddressingScale::Scale4,
            disp: 0x100,
        },
    );
    assert_eq!(c.code, vec![0xfe, 0x84, 0xbd, 0x00, 0x01, 0x00, 0x00]);
}

#[test]
fn rip_relative_and_displacement8() {
    let mut a = fresh();
    a.inc_rm8(AddressingMode::RipDisplacement32 { disp: 0x10 });
    assert_eq!(a.code, vec![0xfe, 0x05, 0x10, 0x00, 0x00, 0x00]);

    let mut b = fresh();
    b.inc_rm8(AddressingMode::IndirectDisplacement8 { base: QwordRegister::Rcx, disp: -1 });
    assert_eq!(b.code, vec![0xfe, 0x41, 0xff]);
}
