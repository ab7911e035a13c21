//! The addressing-mode operand model: the ten r/m forms the encoder needs,
//! and the four inquiries (ModR/M, SIB, displacements) plus the two REX
//! extension bits that an addressing mode contributes to an encoding.

use vstd::prelude::*;

use crate::assembler::x86_64::QwordRegister;

verus! {

/// An x86-64 r/m operand form.
#[derive(Debug, Clone, Copy, PartialEq, Eq)]
pub enum AddressingMode {
    /// `[rax]`
    Indirect { reg: QwordRegister },
    /// `[rip + 0x12345678]`
    RipDisplacement32 { disp: i32 },
    /// `[rax + 0x12]`
    IndirectDisplacement8 { base: QwordRegister, disp: i8 },
    /// `[rax + 0x12345678]`
    IndirectDisplacement32 { base: QwordRegister, disp: i32 },
    /// `[rax + rcx * 2]`
    IndirectScaled { base: QwordRegister, index: Option<QwordRegister>, scale: AddressingScale },
    /// `[rax + rcx * 2 + 0x12]`
    IndirectScaledDisplacement8 {
        base: QwordRegister,
        index: Option<QwordRegister>,
        scale: AddressingScale,
        disp: i8,
    },
    /// `[rax + rcx * 2 + 0x12345678]`
    IndirectScaledDisplacement32 {
        base: QwordRegister,
        index: Option<QwordRegister>,
        scale: AddressingScale,
        disp: i32,
    },
    /// `[rax * 2 + 0x12345678]`
    IndirectScaledBaseDisplacement32 {
        index: Option<QwordRegister>,
        scale: AddressingScale,
        disp: i32,
    },
    /// `[rax * 2 + 0x12 + rbp]`
    IndirectScaledBaseDisplacement8Rbp {
        index: Option<QwordRegister>,
        scale: AddressingScale,
        disp: i8,
    },
    /// `[rax * 2 + 0x12345678 + rbp]`
    IndirectScaledBaseDisplacement32Rbp {
        index: Option<QwordRegister>,
        scale: AddressingScale,
        disp: i32,
    },
    /// `rax`
    Register { reg: QwordRegister },
}

/// An index scale factor in a SIB byte.
#[derive(Debug, Clone, Copy, PartialEq, Eq, Structural)]
pub enum AddressingScale {
    Scale1,
    Scale2,
    Scale4,
    Scale8,
}

impl AddressingScale {
    /// The two `ss` bits of the SIB byte.
    pub open spec fn value(self) -> u8 {
        match self {
            AddressingScale::Scale1 => 0,
            AddressingScale::Scale2 => 1,
            AddressingScale::Scale4 => 2,
            AddressingScale::Scale8 => 3,
        }
    }

    /// The two `ss` bits of the SIB byte.
    pub fn number(self) -> (n: u8)
        ensures
            n == self.value(),
    {
        match self {
            AddressingScale::Scale1 => 0,
            AddressingScale::Scale2 => 1,
            AddressingScale::Scale4 => 2,
            AddressingScale::Scale8 => 3,
        }
    }
}

/// The three low bits of a SIB index field: an absent index is encoded as
/// `rsp`'s number, which is reserved to mean "no index".
pub open spec fn spec_index_bits(index: Option<QwordRegister>) -> u8 {
    match index {
        Option::None => 4,
        Option::Some(r) => r.value() & 0x07,
    }
}

impl AddressingMode {
    /// The encoding constraints of this form; violating any of them would
    /// collide with a reserved encoding. Every encoder entry point demands
    /// them.
    pub open spec fn wf(self) -> bool {
        match self {
            AddressingMode::Indirect { reg } => reg != QwordRegister::Rsp && reg
                != QwordRegister::Rbp,
            AddressingMode::RipDisplacement32 { .. } => true,
            AddressingMode::IndirectDisplacement8 { base, .. } => base != QwordRegister::Rsp,
            AddressingMode::IndirectDisplacement32 { base, .. } => base != QwordRegister::Rsp,
            AddressingMode::IndirectScaled { base, index, .. } => index
                != Option::Some(QwordRegister::Rsp) && base != QwordRegister::Rbp,
            AddressingMode::IndirectScaledDisplacement8 { base, index, .. } => index
                != Option::Some(QwordRegister::Rsp) && base != QwordRegister::Rbp,
            AddressingMode::IndirectScaledDisplacement32 { base, index, .. } => index
                != Option::Some(QwordRegister::Rsp) && base != QwordRegister::Rbp,
            AddressingMode::IndirectScaledBaseDisplacement32 { index, scale, .. } => index
                != Option::Some(QwordRegister::Rsp) && scale != AddressingScale::Scale8,
            AddressingMode::IndirectScaledBaseDisplacement8Rbp { index, scale, .. } => index
                != Option::Some(QwordRegister::Rsp) && scale != AddressingScale::Scale8,
            AddressingMode::IndirectScaledBaseDisplacement32Rbp { index, scale, .. } => index
                != Option::Some(QwordRegister::Rsp) && scale != AddressingScale::Scale8,
            AddressingMode::Register { .. } => true,
        }
    }

    /// The two `mod` bits of the ModR/M byte.
    pub open spec fn spec_mod_bits(self) -> u8 {
        match self {
            AddressingMode::Indirect { .. } => 0,
            AddressingMode::RipDisplacement32 { .. } => 0,
            AddressingMode::IndirectScaled { .. } => 0,
            AddressingMode::IndirectScaledBaseDisplacement32 { .. } => 0,
            AddressingMode::IndirectDisplacement8 { .. } => 1,
            AddressingMode::IndirectScaledDisplacement8 { .. } => 1,
            AddressingMode::IndirectScaledBaseDisplacement8Rbp { .. } => 1,
            AddressingMode::IndirectDisplacement32 { .. } => 2,
            AddressingMode::IndirectScaledDisplacement32 { .. } => 2,
            AddressingMode::IndirectScaledBaseDisplacement32Rbp { .. } => 2,
            AddressingMode::Register { .. } => 3,
        }
    }

    /// The three `r/m` bits of the ModR/M byte.
    pub open spec fn spec_rm_bits(self) -> u8 {
        match self {
            AddressingMode::Indirect { reg } => reg.value() & 0x07,
            AddressingMode::RipDisplacement32 { .. } => 5,
            AddressingMode::IndirectDisplacement8 { base, .. } => base.value() & 0x07,
            AddressingMode::IndirectDisplacement32 { base, .. } => base.value() & 0x07,
            AddressingMode::IndirectScaled { .. } => 4,
            AddressingMode::IndirectScaledDisplacement8 { .. } => 4,
            AddressingMode::IndirectScaledDisplacement32 { .. } => 4,
            AddressingMode::IndirectScaledBaseDisplacement32 { .. } => 4,
            AddressingMode::IndirectScaledBaseDisplacement8Rbp { .. } => 4,
            AddressingMode::IndirectScaledBaseDisplacement32Rbp { .. } => 4,
            AddressingMode::Register { reg } => reg.value() & 0x07,
        }
    }

    /// The ModR/M byte, given the external `reg` field.
    pub open spec fn spec_mod_r_m(self, reg: u8) -> u8 {
        (self.spec_mod_bits() << 6) | ((reg & 0x07) << 3) | self.spec_rm_bits()
    }

    /// The SIB byte, for the forms that need one.
    pub open spec fn spec_sib(self) -> Option<u8> {
        match self {
            AddressingMode::Indirect { .. } => Option::None,
            AddressingMode::RipDisplacement32 { .. } => Option::None,
            AddressingMode::IndirectDisplacement8 { .. } => Option::None,
            AddressingMode::IndirectDisplacement32 { .. } => Option::None,
            AddressingMode::Register { .. } => Option::None,
            AddressingMode::IndirectScaled { base, index, scale } => Option::Some(
                (scale.value() << 6) | (spec_index_bits(index) << 3) | (base.value() & 0x07),
            ),
            AddressingMode::IndirectScaledDisplacement8 { base, index, scale, .. } => Option::Some(
                (scale.value() << 6) | (spec_index_bits(index) << 3) | (base.value() & 0x07),
            ),
            AddressingMode::IndirectScaledDisplacement32 { base, index, scale, .. } => Option::Some(
                (scale.value() << 6) | (spec_index_bits(index) << 3) | (base.value() & 0x07),
            ),
            AddressingMode::IndirectScaledBaseDisplacement32 { index, scale, .. } => Option::Some(
                (scale.value() << 6) | (spec_index_bits(index) << 3) | 5,
            ),
            AddressingMode::IndirectScaledBaseDisplacement8Rbp { index, scale, .. } => Option::Some(
                (scale.value() << 6) | (spec_index_bits(index) << 3) | 5,
            ),
            AddressingMode::IndirectScaledBaseDisplacement32Rbp { index, scale, .. } => Option::Some(
                (scale.value() << 6) | (spec_index_bits(index) << 3) | 5,
            ),
        }
    }

    /// The one-byte displacement, for the forms that carry one.
    pub open spec fn spec_displacement8(self) -> Option<u8> {
        match self {
            AddressingMode::IndirectDisplacement8 { disp, .. } => Option::Some(disp as u8),
            AddressingMode::IndirectScaledDisplacement8 { disp, .. } => Option::Some(disp as u8),
            AddressingMode::IndirectScaledBaseDisplacement8Rbp { disp, .. } => Option::Some(
                disp as u8,
            ),
            _ => Option::None,
        }
    }

    /// The four-byte displacement, for the forms that carry one.
    pub open spec fn spec_displacement32(self) -> Option<i32> {
        match self {
            AddressingMode::RipDisplacement32 { disp } => Option::Some(disp),
            AddressingMode::IndirectDisplacement32 { disp, .. } => Option::Some(disp),
            AddressingMode::IndirectScaledDisplacement32 { disp, .. } => Option::Some(disp),
            AddressingMode::IndirectScaledBaseDisplacement32 { disp, .. } => Option::Some(disp),
            AddressingMode::IndirectScaledBaseDisplacement32Rbp { disp, .. } => Option::Some(disp),
            _ => Option::None,
        }
    }

    /// Whether the REX `X` bit is set: an extended index register.
    pub open spec fn spec_rex_x(self) -> bool {
        match self {
            AddressingMode::IndirectScaled { index, .. } => index is Some && (index->0.value()
                & 0x08) != 0,
            AddressingMode::IndirectScaledDisplacement8 { index, .. } => index is Some && (
            index->0.value() & 0x08) != 0,
            AddressingMode::IndirectScaledDisplacement32 { index, .. } => index is Some && (
            index->0.value() & 0x08) != 0,
            AddressingMode::IndirectScaledBaseDisplacement32 { index, .. } => index is Some && (
            index->0.value() & 0x08) != 0,
            AddressingMode::IndirectScaledBaseDisplacement8Rbp { index, .. } => index is Some && (
            index->0.value() & 0x08) != 0,
            AddressingMode::IndirectScaledBaseDisplacement32Rbp { index, .. } => index is Some && (
            index->0.value() & 0x08) != 0,
            _ => false,
        }
    }

    /// Whether the REX `B` bit is set: an extended base register.
    pub open spec fn spec_rex_b(self) -> bool {
        match self {
            AddressingMode::Indirect { reg } => (reg.value() & 0x08) != 0,
            AddressingMode::IndirectDisplacement8 { base, .. } => (base.value() & 0x08) != 0,
            AddressingMode::IndirectDisplacement32 { base, .. } => (base.value() & 0x08) != 0,
            AddressingMode::Register { reg } => (reg.value() & 0x08) != 0,
            AddressingMode::IndirectScaled { base, .. } => (base.value() & 0x08) != 0,
            AddressingMode::IndirectScaledDisplacement8 { base, .. } => (base.value() & 0x08) != 0,
            AddressingMode::IndirectScaledDisplacement32 { base, .. } => (base.value() & 0x08)
                != 0,
            _ => false,
        }
    }

    /// The ModR/M byte, given the external `reg` field.
    pub fn mod_r_m(self, reg: u8) -> (r: u8)
        requires
            self.wf(),
        ensures
            r == self.spec_mod_r_m(reg),
    {
        let mod_: u8 = match self {
            AddressingMode::Indirect { .. } => 0,
            AddressingMode::RipDisplacement32 { .. } => 0,
            AddressingMode::IndirectScaled { .. } => 0,
            AddressingMode::IndirectScaledBaseDisplacement32 { .. } => 0,
            AddressingMode::IndirectDisplacement8 { .. } => 1,
            AddressingMode::IndirectScaledDisplacement8 { .. } => 1,
            AddressingMode::IndirectScaledBaseDisplacement8Rbp { .. } => 1,
            AddressingMode::IndirectDisplacement32 { .. } => 2,
            AddressingMode::IndirectScaledDisplacement32 { .. } => 2,
            AddressingMode::IndirectScaledBaseDisplacement32Rbp { .. } => 2,
            AddressingMode::Register { .. } => 3,
        };

        let r_m: u8 = match self {
            AddressingMode::Indirect { reg } => reg.number() & 0x07,
            AddressingMode::RipDisplacement32 { .. } => 5,
            AddressingMode::IndirectDisplacement8 { base, .. } => base.number() & 0x07,
            AddressingMode::IndirectDisplacement32 { base, .. } => base.number() & 0x07,
            AddressingMode::IndirectScaled { .. } => 4,
            AddressingMode::IndirectScaledDisplacement8 { .. } => 4,
            AddressingMode::IndirectScaledDisplacement32 { .. } => 4,
            AddressingMode::IndirectScaledBaseDisplacement32 { .. } => 4,
            AddressingMode::IndirectScaledBaseDisplacement8Rbp { .. } => 4,
            AddressingMode::IndirectScaledBaseDisplacement32Rbp { .. } => 4,
            AddressingMode::Register { reg } => reg.number() & 0x07,
        };

        (mod_ << 6) | ((reg & 0x07) << 3) | r_m
    }

    /// The SIB byte, for the forms that need one.
    pub fn sib(self) -> (r: Option<u8>)
        requires
            self.wf(),
        ensures
            r == self.spec_sib(),
    {
        match self {
            AddressingMode::Indirect { .. } => Option::None,
            AddressingMode::RipDisplacement32 { .. } => Option::None,
            AddressingMode::IndirectDisplacement8 { .. } => Option::None,
            AddressingMode::IndirectDisplacement32 { .. } => Option::None,
            AddressingMode::Register { .. } => Option::None,
            AddressingMode::IndirectScaled { base, index, scale } => Option::Some(
                (scale.number() << 6) | (index_bits(index) << 3) | (base.number() & 0x07),
            ),
            AddressingMode::IndirectScaledDisplacement8 { base, index, scale, .. } => Option::Some(
                (scale.number() << 6) | (index_bits(index) << 3) | (base.number() & 0x07),
            ),
            AddressingMode::IndirectScaledDisplacement32 { base, index, scale, .. } => Option::Some(
                (scale.number() << 6) | (index_bits(index) << 3) | (base.number() & 0x07),
            ),
            AddressingMode::IndirectScaledBaseDisplacement32 { index, scale, .. } => Option::Some(
                (scale.number() << 6) | (index_bits(index) << 3) | 5,
            ),
            AddressingMode::IndirectScaledBaseDisplacement8Rbp { index, scale, .. } => Option::Some(
                (scale.number() << 6) | (index_bits(index) << 3) | 5,
            ),
            AddressingMode::IndirectScaledBaseDisplacement32Rbp { index, scale, .. } => Option::Some(
                (scale.number() << 6) | (index_bits(index) << 3) | 5,
            ),
        }
    }

    /// The one-byte displacement, for the forms that carry one.
    pub fn displacement8(self) -> (r: Option<u8>)
        ensures
            r == self.spec_displacement8(),
    {
        match self {
            AddressingMode::IndirectDisplacement8 { disp, .. } => Option::Some(#[verifier::truncate] (disp as u8)),
            AddressingMode::IndirectScaledDisplacement8 { disp, .. } => Option::Some(#[verifier::truncate] (disp as u8)),
            AddressingMode::IndirectScaledBaseDisplacement8Rbp { disp, .. } => Option::Some(
                #[verifier::truncate] (disp as u8),
            ),
            _ => Option::None,
        }
    }

    /// The four-byte displacement, for the forms that carry one.
    pub fn displacement32(self) -> (r: Option<i32>)
        ensures
            r == self.spec_displacement32(),
    {
        match self {
            AddressingMode::RipDisplacement32 { disp } => Option::Some(disp),
            AddressingMode::IndirectDisplacement32 { disp, .. } => Option::Some(disp),
            AddressingMode::IndirectScaledDisplacement32 { disp, .. } => Option::Some(disp),
            AddressingMode::IndirectScaledBaseDisplacement32 { disp, .. } => Option::Some(disp),
            AddressingMode::IndirectScaledBaseDisplacement32Rbp { disp, .. } => Option::Some(disp),
            _ => Option::None,
        }
    }

    /// Whether the REX `X` bit is set: an extended index register.
    pub fn rex_x(self) -> (r: bool)
        ensures
            r == self.spec_rex_x(),
    {
        match self {
            AddressingMode::IndirectScaled { index, .. } => extended_index(index),
            AddressingMode::IndirectScaledDisplacement8 { index, .. } => extended_index(index),
            AddressingMode::IndirectScaledDisplacement32 { index, .. } => extended_index(index),
            AddressingMode::IndirectScaledBaseDisplacement32 { index, .. } => extended_index(index),
            AddressingMode::IndirectScaledBaseDisplacement8Rbp { index, .. } => extended_index(
                index,
            ),
            AddressingMode::IndirectScaledBaseDisplacement32Rbp { index, .. } => extended_index(
                index,
            ),
            _ => false,
        }
    }

    /// Whether the REX `B` bit is set: an extended base register.
    pub fn rex_b(self) -> (r: bool)
        ensures
            r == self.spec_rex_b(),
    {
        match self {
            AddressingMode::Indirect { reg } => (reg.number() & 0x08) != 0,
            AddressingMode::IndirectDisplacement8 { base, .. } => (base.number() & 0x08) != 0,
            AddressingMode::IndirectDisplacement32 { base, .. } => (base.number() & 0x08) != 0,
            AddressingMode::Register { reg } => (reg.number() & 0x08) != 0,
            AddressingMode::IndirectScaled { base, .. } => (base.number() & 0x08) != 0,
            AddressingMode::IndirectScaledDisplacement8 { base, .. } => (base.number() & 0x08)
                != 0,
            AddressingMode::IndirectScaledDisplacement32 { base, .. } => (base.number() & 0x08)
                != 0,
            _ => false,
        }
    }
}

/// Whether an optional index register is one of the REX-extended eight.
fn extended_index(index: Option<QwordRegister>) -> (r: bool)
    ensures
        r == (index is Some && (index->0.value() & 0x08) != 0),
{
    match index {
        Option::None => false,
        Option::Some(r) => (r.number() & 0x08) != 0,
    }
}

/// The three low bits of a SIB index field; an absent index is encoded as
/// `rsp`'s number.
fn index_bits(index: Option<QwordRegister>) -> (r: u8)
    ensures
        r == spec_index_bits(index),
{
    match index {
        Option::None => 4,
        Option::Some(r) => r.number() & 0x07,
    }
}

} // verus!
