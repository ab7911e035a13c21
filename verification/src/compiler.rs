//! Lowering the instruction tree to the flat virtual-machine program.
//! Structured nodes become conditional-jump pairs with absolute, resolved
//! targets; everything else is copied. The specification `compile_seq` gives
//! the emitted program exactly, resolved targets included.

pub mod x86_64;

use vstd::prelude::*;

use crate::instruction::{ir_seq, lemma_ir_seq_index, lemma_ir_seq_len, Instruction, IrNode};
use crate::runtime::vm::VMInstruction;

verus! {

/// How many flat instructions a node lowers to.
pub open spec fn node_vm_len(n: IrNode) -> nat
    decreases n,
{
    match n {
        IrNode::Loop(b) => 2 + vm_len(b),
        IrNode::IfNotZero(b) => 1 + vm_len(b),
        _ => 1,
    }
}

/// How many flat instructions a sequence of nodes lowers to.
pub open spec fn vm_len(p: Seq<IrNode>) -> nat
    decreases p,
{
    if p.len() == 0 {
        0
    } else {
        node_vm_len(p[0]) + vm_len(p.drop_first())
    }
}

/// The flat instructions for one node placed at absolute index `base`.
///
/// A loop is a leading `JumpIfZero` aimed at the index of its own closing
/// `JumpIfNotZero` (whose fall-through leaves the loop), the body, and that
/// closing jump aimed back at the leading one. A guarded block is a
/// `JumpIfZero` aimed at the last index of its body: the lowering the
/// machine expects, where the body's final instruction runs on both paths.
pub open spec fn compile_node(n: IrNode, base: int) -> Seq<VMInstruction>
    decreases n,
{
    match n {
        IrNode::Increment => seq![VMInstruction::Increment],
        IrNode::Decrement => seq![VMInstruction::Decrement],
        IrNode::PointerIncrement => seq![VMInstruction::PointerIncrement],
        IrNode::PointerDecrement => seq![VMInstruction::PointerDecrement],
        IrNode::PutChar => seq![VMInstruction::PutChar],
        IrNode::GetChar => seq![VMInstruction::GetChar],
        IrNode::Loop(b) => seq![VMInstruction::JumpIfZero((base + 1 + vm_len(b)) as usize)]
            + compile_seq(b, base + 1) + seq![VMInstruction::JumpIfNotZero(base as usize)],
        IrNode::Add(v) => seq![VMInstruction::Add(v)],
        IrNode::Subtract(v) => seq![VMInstruction::Subtract(v)],
        IrNode::SetZero => seq![VMInstruction::SetZero],
        IrNode::PointerAdd(v) => seq![VMInstruction::PointerAdd(v)],
        IrNode::PointerSubtract(v) => seq![VMInstruction::PointerSubtract(v)],
        IrNode::AddValueAt(at) => seq![VMInstruction::AddValueAt(at)],
        IrNode::SubtractValueAt(at) => seq![VMInstruction::SubtractValueAt(at)],
        IrNode::AddValueMultipliedBy(m, at) => seq![VMInstruction::AddValueMultipliedBy(m, at)],
        IrNode::SubtractValueMultipliedBy(m, at) => seq![
            VMInstruction::SubtractValueMultipliedBy(m, at),
        ],
        IrNode::Negate => seq![VMInstruction::Negate],
        IrNode::IfNotZero(b) => seq![VMInstruction::JumpIfZero((base + vm_len(b)) as usize)]
            + compile_seq(b, base + 1),
    }
}

/// The flat instructions for a sequence of nodes placed at absolute index
/// `base`.
pub open spec fn compile_seq(p: Seq<IrNode>, base: int) -> Seq<VMInstruction>
    decreases p,
{
    if p.len() == 0 {
        Seq::empty()
    } else {
        compile_node(p[0], base) + compile_seq(p.drop_first(), base + node_vm_len(p[0]))
    }
}

proof fn lemma_compile_node_len(n: IrNode, base: int)
    ensures
        compile_node(n, base).len() == node_vm_len(n),
    decreases n,
{
    match n {
        IrNode::Loop(b) => {
            lemma_compile_seq_len(b, base + 1);
        },
        IrNode::IfNotZero(b) => {
            lemma_compile_seq_len(b, base + 1);
        },
        _ => {},
    }
}

proof fn lemma_compile_seq_len(p: Seq<IrNode>, base: int)
    ensures
        compile_seq(p, base).len() == vm_len(p),
    decreases p,
{
    if p.len() > 0 {
        lemma_compile_node_len(p[0], base);
        lemma_compile_seq_len(p.drop_first(), base + node_vm_len(p[0]));
    }
}

proof fn lemma_vm_len_concat(a: Seq<IrNode>, b: Seq<IrNode>)
    ensures
        vm_len(a + b) == vm_len(a) + vm_len(b),
    decreases a,
{
    if a.len() == 0 {
        assert(a + b =~= b);
    } else {
        assert((a + b).drop_first() =~= a.drop_first() + b);
        lemma_vm_len_concat(a.drop_first(), b);
    }
}

proof fn lemma_compile_seq_concat(a: Seq<IrNode>, b: Seq<IrNode>, base: int)
    ensures
        compile_seq(a + b, base) == compile_seq(a, base) + compile_seq(b, base + vm_len(a)),
    decreases a,
{
    if a.len() == 0 {
        assert(a + b =~= b);
        assert(compile_seq(a, base) + compile_seq(b, base + vm_len(a)) =~= compile_seq(b, base));
    } else {
        assert((a + b).drop_first() =~= a.drop_first() + b);
        lemma_compile_seq_concat(a.drop_first(), b, base + node_vm_len(a[0]));
        assert(compile_seq(a, base) + compile_seq(b, base + vm_len(a)) =~= compile_node(a[0], base)
            + (compile_seq(a.drop_first(), base + node_vm_len(a[0])) + compile_seq(
            b,
            base + node_vm_len(a[0]) + vm_len(a.drop_first()),
        )));
    }
}

/// One step of the element-wise emission: one more node of `p` placed.
proof fn lemma_compile_seq_snoc(p: Seq<IrNode>, i: int, base: int)
    requires
        0 <= i < p.len(),
    ensures
        vm_len(p.take(i + 1)) == vm_len(p.take(i)) + node_vm_len(p[i]),
        compile_seq(p.take(i + 1), base) == compile_seq(p.take(i), base) + compile_node(
            p[i],
            base + vm_len(p.take(i)),
        ),
{
    let one = seq![p[i]];
    assert(p.take(i + 1) =~= p.take(i) + one);
    lemma_vm_len_concat(p.take(i), one);
    lemma_compile_seq_concat(p.take(i), one, base);
    assert(one.drop_first() =~= Seq::<IrNode>::empty());
    assert(vm_len(Seq::<IrNode>::empty()) == 0);
    assert(compile_seq(Seq::<IrNode>::empty(), base + vm_len(p.take(i)) + node_vm_len(p[i]))
        =~= Seq::<VMInstruction>::empty());
    assert(one[0] == p[i]);
    assert(vm_len(one) == node_vm_len(p[i]));
    assert(compile_seq(one, base + vm_len(p.take(i))) =~= compile_node(
        p[i],
        base + vm_len(p.take(i)),
    ));
}

/// Lower an instruction tree to a flat program with resolved jump targets.
pub fn compile(instructions: &[Instruction]) -> (r: Vec<VMInstruction>)
    ensures
        r@ == compile_seq(ir_seq(instructions@), 0),
{
    let mut compiled: Vec<VMInstruction> = Vec::new();
    do_compile(instructions, &mut compiled);
    proof {
        assert(compiled@ =~= compile_seq(ir_seq(instructions@), 0));
    }
    compiled
}

/// Append the lowering of `instructions` to `compiled`, placed at the
/// absolute index where `compiled` currently ends.
fn do_compile(instructions: &[Instruction], compiled: &mut Vec<VMInstruction>)
    ensures
        final(compiled)@ == old(compiled)@ + compile_seq(
            ir_seq(instructions@),
            old(compiled)@.len() as int,
        ),
    decreases instructions@,
{
    let ghost q = ir_seq(instructions@);
    let ghost base0 = compiled@.len() as int;
    proof {
        lemma_ir_seq_len(instructions@);
        assert(q.take(0) =~= Seq::<IrNode>::empty());
        assert(compiled@ =~= compiled@ + compile_seq(q.take(0), base0));
    }
    let mut i: usize = 0;
    while i < instructions.len()
        invariant
            i <= instructions@.len(),
            q == ir_seq(instructions@),
            q.len() == instructions@.len(),
            base0 == old(compiled)@.len(),
            compiled@ == old(compiled)@ + compile_seq(q.take(i as int), base0),
        decreases instructions@.len() - i,
    {
        proof {
            lemma_ir_seq_index(instructions@, i as int);
            lemma_compile_seq_snoc(q, i as int, base0);
            lemma_compile_seq_len(q.take(i as int), base0);
        }
        let ghost node_base = base0 + vm_len(q.take(i as int));
        proof {
            assert(compiled@.len() == node_base);
        }
        let inst = &instructions[i];
        match inst {
            Instruction::Increment => compiled.push(VMInstruction::Increment),
            Instruction::Decrement => compiled.push(VMInstruction::Decrement),
            Instruction::PointerIncrement => compiled.push(VMInstruction::PointerIncrement),
            Instruction::PointerDecrement => compiled.push(VMInstruction::PointerDecrement),
            Instruction::PutChar => compiled.push(VMInstruction::PutChar),
            Instruction::GetChar => compiled.push(VMInstruction::GetChar),
            Instruction::Loop(loop_instructions) => {
                let ghost body = ir_seq(loop_instructions@);
                let start = compiled.len();
                compiled.push(VMInstruction::JumpIfZero(0));
                do_compile(loop_instructions.as_slice(), compiled);
                let end = compiled.len();
                compiled.push(VMInstruction::JumpIfNotZero(start));
                compiled[start] = VMInstruction::JumpIfZero(end);
                proof {
                    lemma_compile_seq_len(body, start + 1);
                    assert(end == start + 1 + vm_len(body));
                    assert(compiled@ =~= old(compiled)@ + compile_seq(q.take(i as int), base0) + (
                    seq![VMInstruction::JumpIfZero((node_base + 1 + vm_len(body)) as usize)]
                        + compile_seq(body, node_base + 1) + seq![
                        VMInstruction::JumpIfNotZero(node_base as usize),
                    ]));
                }
            },
            Instruction::Add(value) => compiled.push(VMInstruction::Add(*value)),
            Instruction::Subtract(value) => compiled.push(VMInstruction::Subtract(*value)),
            Instruction::SetZero => compiled.push(VMInstruction::SetZero),
            Instruction::PointerAdd(value) => compiled.push(VMInstruction::PointerAdd(*value)),
            Instruction::PointerSubtract(value) => compiled.push(
                VMInstruction::PointerSubtract(*value),
            ),
            Instruction::AddValueAt(value) => compiled.push(VMInstruction::AddValueAt(*value)),
            Instruction::SubtractValueAt(value) => compiled.push(
                VMInstruction::SubtractValueAt(*value),
            ),
            Instruction::AddValueMultipliedBy(multiplier, offset) => compiled.push(
                VMInstruction::AddValueMultipliedBy(*multiplier, *offset),
            ),
            Instruction::SubtractValueMultipliedBy(multiplier, offset) => compiled.push(
                VMInstruction::SubtractValueMultipliedBy(*multiplier, *offset),
            ),
            Instruction::Negate => compiled.push(VMInstruction::Negate),
            Instruction::IfNotZero(if_instructions) => {
                let ghost body = ir_seq(if_instructions@);
                let start = compiled.len();
                compiled.push(VMInstruction::JumpIfZero(0));
                do_compile(if_instructions.as_slice(), compiled);
                let end = compiled.len() - 1;
                compiled[start] = VMInstruction::JumpIfZero(end);
                proof {
                    lemma_compile_seq_len(body, start + 1);
                    assert(end == start + vm_len(body));
                    assert(compiled@ =~= old(compiled)@ + compile_seq(q.take(i as int), base0) + (
                    seq![VMInstruction::JumpIfZero((node_base + vm_len(body)) as usize)]
                        + compile_seq(body, node_base + 1)));
                }
            },
        }
        proof {
            assert(compiled@ =~= old(compiled)@ + compile_seq(q.take(i + 1), base0));
        }
        i = i + 1;
    }
    proof {
        assert(q.take(i as int) =~= q);
    }
}

} // verus!
