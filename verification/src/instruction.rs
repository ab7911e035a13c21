//! The intermediate representation: a tree of instructions, together with its
//! mathematical image used by every contract in the crate.

use vstd::prelude::*;

verus! {

/// One instruction of the intermediate representation.
///
/// The primitive cases correspond one-to-one to the source tokens; the
/// structured cases carry an ordered body; the remaining cases are fused
/// forms synthesized by the optimizer passes.
#[derive(Debug, PartialEq, Eq)]
pub enum Instruction {
    /// `+`
    Increment,
    /// `-`
    Decrement,
    /// `>`
    PointerIncrement,
    /// `<`
    PointerDecrement,
    /// `.`
    PutChar,
    /// `,`
    GetChar,
    /// `[...]`
    Loop(Vec<Instruction>),
    /// Add a constant to the current cell.
    Add(u8),
    /// Subtract a constant from the current cell.
    Subtract(u8),
    /// Set the current cell to zero.
    SetZero,
    /// Move the tape pointer right by a constant.
    PointerAdd(usize),
    /// Move the tape pointer left by a constant.
    PointerSubtract(usize),
    /// Add the cell at the given relative offset to the current cell.
    AddValueAt(isize),
    /// Subtract the cell at the given relative offset from the current cell.
    SubtractValueAt(isize),
    /// Add the cell at the given relative offset, times a constant, to the
    /// current cell.
    AddValueMultipliedBy(u8, isize),
    /// Subtract the cell at the given relative offset, times a constant, from
    /// the current cell.
    SubtractValueMultipliedBy(u8, isize),
    /// Negate the current cell modulo 256.
    Negate,
    /// Run the body only when the current cell is not zero.
    IfNotZero(Vec<Instruction>),
}

/// The mathematical image of an [`Instruction`] tree: the same cases, with
/// bodies as `Seq` instead of `Vec`. Contracts speak of this type.
pub enum IrNode {
    Increment,
    Decrement,
    PointerIncrement,
    PointerDecrement,
    PutChar,
    GetChar,
    Loop(Seq<IrNode>),
    Add(u8),
    Subtract(u8),
    SetZero,
    PointerAdd(usize),
    PointerSubtract(usize),
    AddValueAt(isize),
    SubtractValueAt(isize),
    AddValueMultipliedBy(u8, isize),
    SubtractValueMultipliedBy(u8, isize),
    Negate,
    IfNotZero(Seq<IrNode>),
}

/// The image of a single instruction.
pub open spec fn ir_of(inst: Instruction) -> IrNode
    decreases inst,
{
    match inst {
        Instruction::Increment => IrNode::Increment,
        Instruction::Decrement => IrNode::Decrement,
        Instruction::PointerIncrement => IrNode::PointerIncrement,
        Instruction::PointerDecrement => IrNode::PointerDecrement,
        Instruction::PutChar => IrNode::PutChar,
        Instruction::GetChar => IrNode::GetChar,
        Instruction::Loop(body) => IrNode::Loop(ir_seq(body@)),
        Instruction::Add(v) => IrNode::Add(v),
        Instruction::Subtract(v) => IrNode::Subtract(v),
        Instruction::SetZero => IrNode::SetZero,
        Instruction::PointerAdd(v) => IrNode::PointerAdd(v),
        Instruction::PointerSubtract(v) => IrNode::PointerSubtract(v),
        Instruction::AddValueAt(at) => IrNode::AddValueAt(at),
        Instruction::SubtractValueAt(at) => IrNode::SubtractValueAt(at),
        Instruction::AddValueMultipliedBy(m, at) => IrNode::AddValueMultipliedBy(m, at),
        Instruction::SubtractValueMultipliedBy(m, at) => IrNode::SubtractValueMultipliedBy(m, at),
        Instruction::Negate => IrNode::Negate,
        Instruction::IfNotZero(body) => IrNode::IfNotZero(ir_seq(body@)),
    }
}

/// The image of a sequence of instructions, element by element.
pub open spec fn ir_seq(s: Seq<Instruction>) -> Seq<IrNode>
    decreases s,
{
    if s.len() == 0 {
        Seq::empty()
    } else {
        seq![ir_of(s[0])] + ir_seq(s.drop_first())
    }
}

pub broadcast proof fn lemma_ir_seq_len(s: Seq<Instruction>)
    ensures
        #[trigger] ir_seq(s).len() == s.len(),
    decreases s,
{
    if s.len() > 0 {
        lemma_ir_seq_len(s.drop_first());
    }
}

pub broadcast proof fn lemma_ir_seq_index(s: Seq<Instruction>, i: int)
    requires
        0 <= i < s.len(),
    ensures
        ir_seq(s).len() == s.len(),
        #[trigger] ir_seq(s)[i] == ir_of(s[i]),
    decreases s,
{
    lemma_ir_seq_len(s);
    if i > 0 {
        lemma_ir_seq_index(s.drop_first(), i - 1);
    }
}

pub broadcast proof fn lemma_ir_seq_push(s: Seq<Instruction>, x: Instruction)
    ensures
        #[trigger] ir_seq(s.push(x)) == ir_seq(s).push(ir_of(x)),
{
    let a = ir_seq(s.push(x));
    let b = ir_seq(s).push(ir_of(x));
    lemma_ir_seq_len(s);
    lemma_ir_seq_len(s.push(x));
    assert forall|i: int| 0 <= i < a.len() implies a[i] == b[i] by {
        lemma_ir_seq_index(s.push(x), i);
        if i < s.len() {
            lemma_ir_seq_index(s, i);
        }
    }
    assert(a =~= b);
}

impl Instruction {
    /// A structural copy of this instruction, with the same image.
    pub fn duplicate(&self) -> (r: Instruction)
        ensures
            ir_of(r) == ir_of(*self),
        decreases *self,
    {
        match self {
            Instruction::Increment => Instruction::Increment,
            Instruction::Decrement => Instruction::Decrement,
            Instruction::PointerIncrement => Instruction::PointerIncrement,
            Instruction::PointerDecrement => Instruction::PointerDecrement,
            Instruction::PutChar => Instruction::PutChar,
            Instruction::GetChar => Instruction::GetChar,
            Instruction::Loop(body) => Instruction::Loop(duplicate_all(body)),
            Instruction::Add(v) => Instruction::Add(*v),
            Instruction::Subtract(v) => Instruction::Subtract(*v),
            Instruction::SetZero => Instruction::SetZero,
            Instruction::PointerAdd(v) => Instruction::PointerAdd(*v),
            Instruction::PointerSubtract(v) => Instruction::PointerSubtract(*v),
            Instruction::AddValueAt(at) => Instruction::AddValueAt(*at),
            Instruction::SubtractValueAt(at) => Instruction::SubtractValueAt(*at),
            Instruction::AddValueMultipliedBy(m, at) => Instruction::AddValueMultipliedBy(*m, *at),
            Instruction::SubtractValueMultipliedBy(m, at) => Instruction::SubtractValueMultipliedBy(
                *m,
                *at,
            ),
            Instruction::Negate => Instruction::Negate,
            Instruction::IfNotZero(body) => Instruction::IfNotZero(duplicate_all(body)),
        }
    }
}

/// A structural copy of a whole instruction vector, with the same image.
pub fn duplicate_all(v: &Vec<Instruction>) -> (r: Vec<Instruction>)
    ensures
        ir_seq(r@) == ir_seq(v@),
    decreases v,
{
    let mut r: Vec<Instruction> = Vec::new();
    let mut i: usize = 0;
    proof {
        assert(r@ =~= v@.take(0));
    }
    while i < v.len()
        invariant
            i <= v.len(),
            ir_seq(r@) == ir_seq(v@.take(i as int)),
            r@.len() == i,
        decreases v@.len() - i,
    {
        let copy = v[i].duplicate();
        proof {
            lemma_ir_seq_push(v@.take(i as int), v[i as int]);
            assert(v@.take(i as int).push(v[i as int]) =~= v@.take(i + 1));
            lemma_ir_seq_push(r@, copy);
            lemma_ir_seq_len(r@);
        }
        r.push(copy);
        i = i + 1;
    }
    proof {
        assert(v@.take(v@.len() as int) =~= v@);
    }
    r
}

} // verus!
