//! The x86-64 instruction encoder. Every entry point appends the exact byte
//! sequence of one instruction to the code buffer; the contract of each gives
//! that sequence in full: optional REX prefix, opcode bytes, ModR/M, optional
//! SIB, optional displacement, optional immediate.

use vstd::prelude::*;

use crate::assembler::addressing_mode::AddressingMode;

verus! {

/// A machine-code buffer being accumulated.
pub struct Assembler {
    pub code: Vec<u8>,
}

/// An 8-bit register, in canonical x86-64 numbering order.
#[derive(Debug, Clone, Copy, PartialEq, Eq, Structural)]
pub enum ByteRegister {
    Al,
    Cl,
    Dl,
    Bl,
    Ah,
    Ch,
    Dh,
    Bh,
    R8b,
    R9b,
    R10b,
    R11b,
    R12b,
    R13b,
    R14b,
    R15b,
}

/// A 64-bit register, in canonical x86-64 numbering order.
#[derive(Debug, Clone, Copy, PartialEq, Eq, Structural)]
pub enum QwordRegister {
    Rax,
    Rcx,
    Rdx,
    Rbx,
    Rsp,
    Rbp,
    Rsi,
    Rdi,
    R8,
    R9,
    R10,
    R11,
    R12,
    R13,
    R14,
    R15,
}

impl ByteRegister {
    /// The register number, 0 through 15.
    pub open spec fn value(self) -> u8 {
        match self {
            ByteRegister::Al => 0,
            ByteRegister::Cl => 1,
            ByteRegister::Dl => 2,
            ByteRegister::Bl => 3,
            ByteRegister::Ah => 4,
            ByteRegister::Ch => 5,
            ByteRegister::Dh => 6,
            ByteRegister::Bh => 7,
            ByteRegister::R8b => 8,
            ByteRegister::R9b => 9,
            ByteRegister::R10b => 10,
            ByteRegister::R11b => 11,
            ByteRegister::R12b => 12,
            ByteRegister::R13b => 13,
            ByteRegister::R14b => 14,
            ByteRegister::R15b => 15,
        }
    }

    /// The register number, 0 through 15.
    pub fn number(self) -> (n: u8)
        ensures
            n == self.value(),
    {
        match self {
            ByteRegister::Al => 0,
            ByteRegister::Cl => 1,
            ByteRegister::Dl => 2,
            ByteRegister::Bl => 3,
            ByteRegister::Ah => 4,
            ByteRegister::Ch => 5,
            ByteRegister::Dh => 6,
            ByteRegister::Bh => 7,
            ByteRegister::R8b => 8,
            ByteRegister::R9b => 9,
            ByteRegister::R10b => 10,
            ByteRegister::R11b => 11,
            ByteRegister::R12b => 12,
            ByteRegister::R13b => 13,
            ByteRegister::R14b => 14,
            ByteRegister::R15b => 15,
        }
    }
}

impl QwordRegister {
    /// The register number, 0 through 15.
    pub open spec fn value(self) -> u8 {
        match self {
            QwordRegister::Rax => 0,
            QwordRegister::Rcx => 1,
            QwordRegister::Rdx => 2,
            QwordRegister::Rbx => 3,
            QwordRegister::Rsp => 4,
            QwordRegister::Rbp => 5,
            QwordRegister::Rsi => 6,
            QwordRegister::Rdi => 7,
            QwordRegister::R8 => 8,
            QwordRegister::R9 => 9,
            QwordRegister::R10 => 10,
            QwordRegister::R11 => 11,
            QwordRegister::R12 => 12,
            QwordRegister::R13 => 13,
            QwordRegister::R14 => 14,
            QwordRegister::R15 => 15,
        }
    }

    /// The register number, 0 through 15.
    pub fn number(self) -> (n: u8)
        ensures
            n == self.value(),
    {
        match self {
            QwordRegister::Rax => 0,
            QwordRegister::Rcx => 1,
            QwordRegister::Rdx => 2,
            QwordRegister::Rbx => 3,
            QwordRegister::Rsp => 4,
            QwordRegister::Rbp => 5,
            QwordRegister::Rsi => 6,
            QwordRegister::Rdi => 7,
            QwordRegister::R8 => 8,
            QwordRegister::R9 => 9,
            QwordRegister::R10 => 10,
            QwordRegister::R11 => 11,
            QwordRegister::R12 => 12,
            QwordRegister::R13 => 13,
            QwordRegister::R14 => 14,
            QwordRegister::R15 => 15,
        }
    }
}

/// The REX prefix byte `0100WRXB` for the given flag bits.
pub open spec fn rex_value(w: bool, r: bool, x: bool, b: bool) -> u8 {
    (0x40 + (if w {
        8int
    } else {
        0int
    }) + (if r {
        4int
    } else {
        0int
    }) + (if x {
        2int
    } else {
        0int
    }) + (if b {
        1int
    } else {
        0int
    })) as u8
}

/// The REX prefix as emitted: absent when no flag bit is set.
pub open spec fn rex_bytes(w: bool, r: bool, x: bool, b: bool) -> Seq<u8> {
    if w || r || x || b {
        seq![rex_value(w, r, x, b)]
    } else {
        Seq::empty()
    }
}

/// An optional byte as emitted.
pub open spec fn opt_byte(o: Option<u8>) -> Seq<u8> {
    match o {
        Option::None => Seq::empty(),
        Option::Some(v) => seq![v],
    }
}

/// The four little-endian bytes of a 32-bit value.
pub open spec fn le32(v: u32) -> Seq<u8> {
    seq![
        (v & 0xff) as u8,
        ((v >> 8) & 0xff) as u8,
        ((v >> 16) & 0xff) as u8,
        ((v >> 24) & 0xff) as u8,
    ]
}

/// The eight little-endian bytes of a 64-bit value.
pub open spec fn le64(v: u64) -> Seq<u8> {
    seq![
        (v & 0xff) as u8,
        ((v >> 8) & 0xff) as u8,
        ((v >> 16) & 0xff) as u8,
        ((v >> 24) & 0xff) as u8,
        ((v >> 32) & 0xff) as u8,
        ((v >> 40) & 0xff) as u8,
        ((v >> 48) & 0xff) as u8,
        ((v >> 56) & 0xff) as u8,
    ]
}

/// An optional little-endian 32-bit displacement as emitted.
pub open spec fn opt_le32(o: Option<i32>) -> Seq<u8> {
    match o {
        Option::None => Seq::empty(),
        Option::Some(d) => le32(d as u32),
    }
}

/// The operand tail of an instruction: ModR/M byte, then the optional SIB
/// byte and displacement that the addressing mode calls for.
pub open spec fn mode_bytes(m: AddressingMode, reg: u8) -> Seq<u8> {
    seq![m.spec_mod_r_m(reg)] + opt_byte(m.spec_sib()) + opt_byte(m.spec_displacement8())
        + opt_le32(m.spec_displacement32())
}

impl Assembler {
    pub fn new() -> (r: Assembler)
        ensures
            r.code@ == Seq::<u8>::empty(),
    {
        Assembler { code: Vec::new() }
    }

    /// Emit the REX prefix for the given flags, or nothing when no flag is
    /// set. W selects 64-bit operands; R, X, B extend the ModR/M reg field,
    /// the SIB index, and the ModR/M r/m, SIB base or opcode register.
    fn rex(&mut self, w: bool, r: bool, x: bool, b: bool)
        ensures
            final(self).code@ == old(self).code@ + rex_bytes(w, r, x, b),
    {
        let mut rex: u8 = 0x40;
        if w {
            rex = rex + 8;
        }
        if r {
            rex = rex + 4;
        }
        if x {
            rex = rex + 2;
        }
        if b {
            rex = rex + 1;
        }
        if rex != 0x40 {
            self.code.push(rex);
        } else {
            proof {
                assert(self.code@ =~= self.code@ + Seq::<u8>::empty());
            }
        }
    }

    fn opcode(&mut self, opcode: u8)
        ensures
            final(self).code@ == old(self).code@ + seq![opcode],
    {
        self.code.push(opcode);
    }

    /// Emit the four little-endian bytes of a 32-bit value.
    fn emit_le32(&mut self, v: u32)
        ensures
            final(self).code@ == old(self).code@ + le32(v),
    {
        self.code.push(#[verifier::truncate] ((v & 0xff) as u8));
        self.code.push(#[verifier::truncate] (((v >> 8) & 0xff) as u8));
        self.code.push(#[verifier::truncate] (((v >> 16) & 0xff) as u8));
        self.code.push(#[verifier::truncate] (((v >> 24) & 0xff) as u8));
        proof {
            assert(self.code@ =~= old(self).code@ + le32(v));
        }
    }

    /// Emit the eight little-endian bytes of a 64-bit value.
    fn emit_le64(&mut self, v: u64)
        ensures
            final(self).code@ == old(self).code@ + le64(v),
    {
        self.code.push(#[verifier::truncate] ((v & 0xff) as u8));
        self.code.push(#[verifier::truncate] (((v >> 8) & 0xff) as u8));
        self.code.push(#[verifier::truncate] (((v >> 16) & 0xff) as u8));
        self.code.push(#[verifier::truncate] (((v >> 24) & 0xff) as u8));
        self.code.push(#[verifier::truncate] (((v >> 32) & 0xff) as u8));
        self.code.push(#[verifier::truncate] (((v >> 40) & 0xff) as u8));
        self.code.push(#[verifier::truncate] (((v >> 48) & 0xff) as u8));
        self.code.push(#[verifier::truncate] (((v >> 56) & 0xff) as u8));
        proof {
            assert(self.code@ =~= old(self).code@ + le64(v));
        }
    }

    /// Emit the operand tail for an addressing mode: ModR/M, optional SIB,
    /// optional displacement.
    fn emit_mode(&mut self, m: AddressingMode, reg: u8)
        requires
            m.wf(),
        ensures
            final(self).code@ == old(self).code@ + mode_bytes(m, reg),
    {
        let mrm = m.mod_r_m(reg);
        self.code.push(mrm);
        match m.sib() {
            Option::Some(b) => self.code.push(b),
            Option::None => {},
        }
        match m.displacement8() {
            Option::Some(b) => self.code.push(b),
            Option::None => {},
        }
        match m.displacement32() {
            Option::Some(d) => self.emit_le32(#[verifier::truncate] (d as u32)),
            Option::None => {},
        }
        proof {
            assert(self.code@ =~= old(self).code@ + mode_bytes(m, reg));
        }
    }

    /// PUSH r64 (opcode 50+rd).
    pub fn push_r64(&mut self, r64: QwordRegister)
        ensures
            final(self).code@ == old(self).code@ + rex_bytes(false, false, false, (r64.value() & 0x08) != 0)
                + seq![(0x50 + (r64.value() & 0x07)) as u8],
    {
        let register = r64.number();
        proof {
            assert(register & 0x07 < 8) by (bit_vector);
        }
        self.rex(false, false, false, register & 0x08 != 0);
        self.opcode(0x50 + (register & 0x07));
    }

    /// POP r64 (opcode 58+rd).
    pub fn pop_r64(&mut self, r64: QwordRegister)
        ensures
            final(self).code@ == old(self).code@ + rex_bytes(false, false, false, (r64.value() & 0x08) != 0)
                + seq![(0x58 + (r64.value() & 0x07)) as u8],
    {
        let register = r64.number();
        proof {
            assert(register & 0x07 < 8) by (bit_vector);
        }
        self.rex(false, false, false, register & 0x08 != 0);
        self.opcode(0x58 + (register & 0x07));
    }

    /// RET (opcode C3): near return.
    pub fn ret(&mut self)
        ensures
            final(self).code@ == old(self).code@ + seq![0xc3u8],
    {
        self.opcode(0xc3);
    }

    /// INC r/m8 (opcode FE /0).
    pub fn inc_rm8(&mut self, rm8: AddressingMode)
        requires
            rm8.wf(),
        ensures
            final(self).code@ == old(self).code@ + rex_bytes(false, false, rm8.spec_rex_x(), rm8.spec_rex_b())
                + seq![0xfeu8] + mode_bytes(rm8, 0),
    {
        let x = rm8.rex_x();
        let b = rm8.rex_b();
        self.rex(false, false, x, b);
        self.opcode(0xfe);
        self.emit_mode(rm8, 0);
    }

    /// DEC r/m8 (opcode FE /1).
    pub fn dec_rm8(&mut self, rm8: AddressingMode)
        requires
            rm8.wf(),
        ensures
            final(self).code@ == old(self).code@ + rex_bytes(false, false, rm8.spec_rex_x(), rm8.spec_rex_b())
                + seq![0xfeu8] + mode_bytes(rm8, 1),
    {
        let x = rm8.rex_x();
        let b = rm8.rex_b();
        self.rex(false, false, x, b);
        self.opcode(0xfe);
        self.emit_mode(rm8, 1);
    }

    /// INC r/m64 (opcode REX.W + FF /0).
    pub fn inc_rm64(&mut self, rm64: AddressingMode)
        requires
            rm64.wf(),
        ensures
            final(self).code@ == old(self).code@ + rex_bytes(true, false, rm64.spec_rex_x(), rm64.spec_rex_b())
                + seq![0xffu8] + mode_bytes(rm64, 0),
    {
        let x = rm64.rex_x();
        let b = rm64.rex_b();
        self.rex(true, false, x, b);
        self.opcode(0xff);
        self.emit_mode(rm64, 0);
    }

    /// DEC r/m64 (opcode REX.W + FF /1).
    pub fn dec_rm64(&mut self, rm64: AddressingMode)
        requires
            rm64.wf(),
        ensures
            final(self).code@ == old(self).code@ + rex_bytes(true, false, rm64.spec_rex_x(), rm64.spec_rex_b())
                + seq![0xffu8] + mode_bytes(rm64, 1),
    {
        let x = rm64.rex_x();
        let b = rm64.rex_b();
        self.rex(true, false, x, b);
        self.opcode(0xff);
        self.emit_mode(rm64, 1);
    }

    /// CALL r/m64 (opcode FF /2): near absolute indirect call.
    pub fn call_rm64(&mut self, rm64: AddressingMode)
        requires
            rm64.wf(),
        ensures
            final(self).code@ == old(self).code@ + rex_bytes(false, false, rm64.spec_rex_x(), rm64.spec_rex_b())
                + seq![0xffu8] + mode_bytes(rm64, 2),
    {
        let x = rm64.rex_x();
        let b = rm64.rex_b();
        self.rex(false, false, x, b);
        self.opcode(0xff);
        self.emit_mode(rm64, 2);
    }

    /// MOV r/m64, r64 (opcode REX.W + 89 /r).
    pub fn mov_rm64_r64(&mut self, dest: AddressingMode, src: QwordRegister)
        requires
            dest.wf(),
        ensures
            final(self).code@ == old(self).code@ + rex_bytes(
                true,
                (src.value() & 0x08) != 0,
                dest.spec_rex_x(),
                dest.spec_rex_b(),
            ) + seq![0x89u8] + mode_bytes(dest, src.value()),
    {
        let src = src.number();
        let x = dest.rex_x();
        let b = dest.rex_b();
        self.rex(true, src & 0x08 != 0, x, b);
        self.opcode(0x89);
        self.emit_mode(dest, src);
    }

    /// MOV r64, imm64 (opcode REX.W + B8+rd io).
    pub fn mov_r64_imm64(&mut self, dest: QwordRegister, src: u64)
        ensures
            final(self).code@ == old(self).code@ + rex_bytes(true, false, false, (dest.value() & 0x08) != 0)
                + seq![(0xb8 + (dest.value() & 0x07)) as u8] + le64(src),
    {
        let dest = dest.number();
        proof {
            assert(dest & 0x07 < 8) by (bit_vector);
        }
        self.rex(true, false, false, dest & 0x08 != 0);
        self.opcode(0xb8 + (dest & 0x07));
        self.emit_le64(src);
    }

    /// MOV r/m8, imm8 (opcode C6 /0 ib).
    pub fn mov_rm8_imm8(&mut self, rm8: AddressingMode, imm8: u8)
        requires
            rm8.wf(),
        ensures
            final(self).code@ == old(self).code@ + rex_bytes(false, false, rm8.spec_rex_x(), rm8.spec_rex_b())
                + seq![0xc6u8] + mode_bytes(rm8, 0) + seq![imm8],
    {
        let x = rm8.rex_x();
        let b = rm8.rex_b();
        self.rex(false, false, x, b);
        self.opcode(0xc6);
        self.emit_mode(rm8, 0);
        self.code.push(imm8);
    }

    /// MOV r8, r/m8 (opcode 8A /r).
    pub fn mov_r8_rm8(&mut self, dest: ByteRegister, src: AddressingMode)
        requires
            src.wf(),
        ensures
            final(self).code@ == old(self).code@ + rex_bytes(
                false,
                (dest.value() & 0x08) != 0,
                src.spec_rex_x(),
                src.spec_rex_b(),
            ) + seq![0x8au8] + mode_bytes(src, dest.value()),
    {
        let d = dest.number();
        let x = src.rex_x();
        let b = src.rex_b();
        self.rex(false, d & 0x08 != 0, x, b);
        self.opcode(0x8a);
        self.emit_mode(src, d);
    }

    /// MOV r/m8, r8 (opcode 88 /r).
    pub fn mov_rm8_r8(&mut self, dest: AddressingMode, src: ByteRegister)
        requires
            dest.wf(),
        ensures
            final(self).code@ == old(self).code@ + rex_bytes(
                false,
                (src.value() & 0x08) != 0,
                dest.spec_rex_x(),
                dest.spec_rex_b(),
            ) + seq![0x88u8] + mode_bytes(dest, src.value()),
    {
        let s = src.number();
        let x = dest.rex_x();
        let b = dest.rex_b();
        self.rex(false, s & 0x08 != 0, x, b);
        self.opcode(0x88);
        self.emit_mode(dest, s);
    }

    /// MOVZX r32, r/m8 (opcode 0F B6 /r): zero-extending byte load.
    pub fn movzx_r32_rm8(&mut self, dest: QwordRegister, src: AddressingMode)
        requires
            src.wf(),
        ensures
            final(self).code@ == old(self).code@ + rex_bytes(
                false,
                (dest.value() & 0x08) != 0,
                src.spec_rex_x(),
                src.spec_rex_b(),
            ) + seq![0x0fu8, 0xb6u8] + mode_bytes(src, dest.value()),
    {
        let d = dest.number();
        let x = src.rex_x();
        let b = src.rex_b();
        self.rex(false, d & 0x08 != 0, x, b);
        self.opcode(0x0f);
        self.opcode(0xb6);
        self.emit_mode(src, d);
        proof {
            assert(old(self).code@ + rex_bytes(
                false,
                (dest.value() & 0x08) != 0,
                src.spec_rex_x(),
                src.spec_rex_b(),
            ) + seq![0x0fu8] + seq![0xb6u8] + mode_bytes(src, dest.value()) =~= old(self).code@
                + rex_bytes(
                false,
                (dest.value() & 0x08) != 0,
                src.spec_rex_x(),
                src.spec_rex_b(),
            ) + seq![0x0fu8, 0xb6u8] + mode_bytes(src, dest.value()));
        }
    }

    /// CMP r/m8, imm8 (opcode 80 /7 ib).
    pub fn cmp_rm8_imm8(&mut self, rm8: AddressingMode, imm8: u8)
        requires
            rm8.wf(),
        ensures
            final(self).code@ == old(self).code@ + rex_bytes(false, false, rm8.spec_rex_x(), rm8.spec_rex_b())
                + seq![0x80u8] + mode_bytes(rm8, 7) + seq![imm8],
    {
        let x = rm8.rex_x();
        let b = rm8.rex_b();
        self.rex(false, false, x, b);
        self.opcode(0x80);
        self.emit_mode(rm8, 7);
        self.code.push(imm8);
    }

    /// JE rel8 (opcode 74 cb).
    pub fn je_rel8(&mut self, rel8: i8)
        ensures
            final(self).code@ == old(self).code@ + seq![0x74u8, rel8 as u8],
    {
        self.opcode(0x74);
        self.code.push(#[verifier::truncate] (rel8 as u8));
        proof {
            assert(self.code@ =~= old(self).code@ + seq![0x74u8, rel8 as u8]);
        }
    }

    /// JE rel32 (opcode 0F 84 cd).
    pub fn je_rel32(&mut self, rel32: i32)
        ensures
            final(self).code@ == old(self).code@ + seq![0x0fu8, 0x84u8] + le32(rel32 as u32),
    {
        self.opcode(0x0f);
        self.opcode(0x84);
        self.emit_le32(#[verifier::truncate] (rel32 as u32));
        proof {
            assert(self.code@ =~= old(self).code@ + seq![0x0fu8, 0x84u8] + le32(rel32 as u32));
        }
    }

    /// Overwrite the displacement byte of a JE rel8 previously emitted at
    /// `addr`, leaving every other byte in place.
    pub fn set_je_rel8(&mut self, addr: usize, rel8: i8)
        requires
            addr + 2 <= old(self).code@.len(),
        ensures
            final(self).code@ == old(self).code@.update(addr + 1, rel8 as u8),
    {
        let end: usize = self.code.len();
        proof {
            assert(addr + 2 <= end);
        }
        self.code[addr + 1] = #[verifier::truncate] (rel8 as u8);
    }

    /// Overwrite the four displacement bytes of a JE rel32 previously emitted
    /// at `addr`, leaving every other byte in place.
    pub fn set_je_rel32(&mut self, addr: usize, rel32: i32)
        requires
            addr + 6 <= old(self).code@.len(),
        ensures
            final(self).code@.len() == old(self).code@.len(),
            final(self).code@ == old(self).code@.subrange(0, addr + 2) + le32(rel32 as u32) + old(
                self,
            ).code@.subrange(addr + 6, old(self).code@.len() as int),
    {
        let end: usize = self.code.len();
        proof {
            assert(addr + 6 <= end);
        }
        let v = #[verifier::truncate] (rel32 as u32);
        self.code[addr + 2] = #[verifier::truncate] ((v & 0xff) as u8);
        self.code[addr + 3] = #[verifier::truncate] (((v >> 8) & 0xff) as u8);
        self.code[addr + 4] = #[verifier::truncate] (((v >> 16) & 0xff) as u8);
        self.code[addr + 5] = #[verifier::truncate] (((v >> 24) & 0xff) as u8);
        proof {
            assert(self.code@ =~= old(self).code@.subrange(0, addr + 2) + le32(rel32 as u32) + old(
                self,
            ).code@.subrange(addr + 6, old(self).code@.len() as int));
        }
    }

    /// JNE rel8 (opcode 75 cb).
    pub fn jne_rel8(&mut self, rel8: i8)
        ensures
            final(self).code@ == old(self).code@ + seq![0x75u8, rel8 as u8],
    {
        self.opcode(0x75);
        self.code.push(#[verifier::truncate] (rel8 as u8));
        proof {
            assert(self.code@ =~= old(self).code@ + seq![0x75u8, rel8 as u8]);
        }
    }

    /// JNE rel32 (opcode 0F 85 cd).
    pub fn jne_rel32(&mut self, rel32: i32)
        ensures
            final(self).code@ == old(self).code@ + seq![0x0fu8, 0x85u8] + le32(rel32 as u32),
    {
        self.opcode(0x0f);
        self.opcode(0x85);
        self.emit_le32(#[verifier::truncate] (rel32 as u32));
        proof {
            assert(self.code@ =~= old(self).code@ + seq![0x0fu8, 0x85u8] + le32(rel32 as u32));
        }
    }

    /// Overwrite the displacement byte of a JNE rel8 previously emitted at
    /// `addr`, leaving every other byte in place.
    pub fn set_jne_rel8(&mut self, addr: usize, rel8: i8)
        requires
            addr + 2 <= old(self).code@.len(),
        ensures
            final(self).code@ == old(self).code@.update(addr + 1, rel8 as u8),
    {
        let end: usize = self.code.len();
        proof {
            assert(addr + 2 <= end);
        }
        self.code[addr + 1] = #[verifier::truncate] (rel8 as u8);
    }

    /// Overwrite the four displacement bytes of a JNE rel32 previously
    /// emitted at `addr`, leaving every other byte in place.
    pub fn set_jne_rel32(&mut self, addr: usize, rel32: i32)
        requires
            addr + 6 <= old(self).code@.len(),
        ensures
            final(self).code@.len() == old(self).code@.len(),
            final(self).code@ == old(self).code@.subrange(0, addr + 2) + le32(rel32 as u32) + old(
                self,
            ).code@.subrange(addr + 6, old(self).code@.len() as int),
    {
        let end: usize = self.code.len();
        proof {
            assert(addr + 6 <= end);
        }
        let v = #[verifier::truncate] (rel32 as u32);
        self.code[addr + 2] = #[verifier::truncate] ((v & 0xff) as u8);
        self.code[addr + 3] = #[verifier::truncate] (((v >> 8) & 0xff) as u8);
        self.code[addr + 4] = #[verifier::truncate] (((v >> 16) & 0xff) as u8);
        self.code[addr + 5] = #[verifier::truncate] (((v >> 24) & 0xff) as u8);
        proof {
            assert(self.code@ =~= old(self).code@.subrange(0, addr + 2) + le32(rel32 as u32) + old(
                self,
            ).code@.subrange(addr + 6, old(self).code@.len() as int));
        }
    }

    /// ADD r/m8, imm8 (opcode 80 /0 ib).
    pub fn add_rm8_imm8(&mut self, rm8: AddressingMode, imm8: u8)
        requires
            rm8.wf(),
        ensures
            final(self).code@ == old(self).code@ + rex_bytes(false, false, rm8.spec_rex_x(), rm8.spec_rex_b())
                + seq![0x80u8] + mode_bytes(rm8, 0) + seq![imm8],
    {
        let x = rm8.rex_x();
        let b = rm8.rex_b();
        self.rex(false, false, x, b);
        self.opcode(0x80);
        self.emit_mode(rm8, 0);
        self.code.push(imm8);
    }

    /// ADD r/m64, imm8 (opcode REX.W + 83 /0 ib): sign-extended immediate.
    pub fn add_rm64_imm8(&mut self, rm64: AddressingMode, imm8: u8)
        requires
            rm64.wf(),
        ensures
            final(self).code@ == old(self).code@ + rex_bytes(true, false, rm64.spec_rex_x(), rm64.spec_rex_b())
                + seq![0x83u8] + mode_bytes(rm64, 0) + seq![imm8],
    {
        let x = rm64.rex_x();
        let b = rm64.rex_b();
        self.rex(true, false, x, b);
        self.opcode(0x83);
        self.emit_mode(rm64, 0);
        self.code.push(imm8);
    }

    /// ADD r/m8, r8 (opcode 00 /r).
    pub fn add_rm8_r8(&mut self, rm8: AddressingMode, r8: ByteRegister)
        requires
            rm8.wf(),
        ensures
            final(self).code@ == old(self).code@ + rex_bytes(
                false,
                (r8.value() & 0x08) != 0,
                rm8.spec_rex_x(),
                rm8.spec_rex_b(),
            ) + seq![0x00u8] + mode_bytes(rm8, r8.value()),
    {
        let r = r8.number();
        let x = rm8.rex_x();
        let b = rm8.rex_b();
        self.rex(false, r & 0x08 != 0, x, b);
        self.opcode(0x00);
        self.emit_mode(rm8, r);
    }

    /// SUB r/m8, imm8 (opcode 80 /5 ib).
    pub fn sub_rm8_imm8(&mut self, rm8: AddressingMode, imm8: u8)
        requires
            rm8.wf(),
        ensures
            final(self).code@ == old(self).code@ + rex_bytes(false, false, rm8.spec_rex_x(), rm8.spec_rex_b())
                + seq![0x80u8] + mode_bytes(rm8, 5) + seq![imm8],
    {
        let x = rm8.rex_x();
        let b = rm8.rex_b();
        self.rex(false, false, x, b);
        self.opcode(0x80);
        self.emit_mode(rm8, 5);
        self.code.push(imm8);
    }

    /// SUB r/m64, imm8 (opcode REX.W + 83 /5 ib): sign-extended immediate.
    pub fn sub_rm64_imm8(&mut self, rm64: AddressingMode, imm8: u8)
        requires
            rm64.wf(),
        ensures
            final(self).code@ == old(self).code@ + rex_bytes(true, false, rm64.spec_rex_x(), rm64.spec_rex_b())
                + seq![0x83u8] + mode_bytes(rm64, 5) + seq![imm8],
    {
        let x = rm64.rex_x();
        let b = rm64.rex_b();
        self.rex(true, false, x, b);
        self.opcode(0x83);
        self.emit_mode(rm64, 5);
        self.code.push(imm8);
    }

    /// SUB r/m8, r8 (opcode 28 /r).
    pub fn sub_rm8_r8(&mut self, rm8: AddressingMode, r8: ByteRegister)
        requires
            rm8.wf(),
        ensures
            final(self).code@ == old(self).code@ + rex_bytes(
                false,
                (r8.value() & 0x08) != 0,
                rm8.spec_rex_x(),
                rm8.spec_rex_b(),
            ) + seq![0x28u8] + mode_bytes(rm8, r8.value()),
    {
        let r = r8.number();
        let x = rm8.rex_x();
        let b = rm8.rex_b();
        self.rex(false, r & 0x08 != 0, x, b);
        self.opcode(0x28);
        self.emit_mode(rm8, r);
    }

    /// MUL r/m8 (opcode F6 /4): unsigned AX := AL * r/m8.
    pub fn mul_rm8(&mut self, rm8: AddressingMode)
        requires
            rm8.wf(),
        ensures
            final(self).code@ == old(self).code@ + rex_bytes(false, false, rm8.spec_rex_x(), rm8.spec_rex_b())
                + seq![0xf6u8] + mode_bytes(rm8, 4),
    {
        let x = rm8.rex_x();
        let b = rm8.rex_b();
        self.rex(false, false, x, b);
        self.opcode(0xf6);
        self.emit_mode(rm8, 4);
    }

    /// NEG r/m8 (opcode F6 /3): two's-complement negate.
    pub fn neg_rm8(&mut self, rm8: AddressingMode)
        requires
            rm8.wf(),
        ensures
            final(self).code@ == old(self).code@ + rex_bytes(false, false, rm8.spec_rex_x(), rm8.spec_rex_b())
                + seq![0xf6u8] + mode_bytes(rm8, 3),
    {
        let x = rm8.rex_x();
        let b = rm8.rex_b();
        self.rex(false, false, x, b);
        self.opcode(0xf6);
        self.emit_mode(rm8, 3);
    }
}

} // verus!
