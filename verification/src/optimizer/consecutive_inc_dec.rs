//! The run-length pass: each maximal run of two or more identical cell or
//! pointer primitives becomes one fused instruction carrying the run length.
//! Cell-run lengths are stored in eight bits and wrap silently past 255, a
//! known limitation kept from the machine's data model. Loop bodies are
//! folded recursively; runs of one are left alone.

use vstd::prelude::*;

use crate::instruction::{
    ir_of, ir_seq, lemma_ir_seq_index, lemma_ir_seq_len, lemma_ir_seq_push, Instruction, IrNode,
};

verus! {

/// The four primitives that fold into runs.
pub open spec fn fusable(n: IrNode) -> bool {
    n == IrNode::Increment || n == IrNode::Decrement || n == IrNode::PointerIncrement || n
        == IrNode::PointerDecrement
}

/// The length of the run of nodes equal to `p[i]` that starts at `i`.
pub open spec fn run_len(p: Seq<IrNode>, i: int) -> int
    decreases p.len() - i,
{
    if i < 0 || i >= p.len() {
        0
    } else if i + 1 < p.len() && p[i + 1] == p[i] {
        1 + run_len(p, i + 1)
    } else {
        1
    }
}

pub proof fn lemma_run_len_bounds(p: Seq<IrNode>, i: int)
    requires
        0 <= i < p.len(),
    ensures
        1 <= run_len(p, i) <= p.len() - i,
    decreases p.len() - i,
{
    if i + 1 < p.len() && p[i + 1] == p[i] {
        lemma_run_len_bounds(p, i + 1);
    }
}

/// The fused instruction for a run of `k` copies of a fusable primitive.
/// A cell-run length is kept modulo 256.
pub open spec fn fused(n: IrNode, k: int) -> IrNode {
    match n {
        IrNode::Increment => IrNode::Add((k % 256) as u8),
        IrNode::Decrement => IrNode::Subtract((k % 256) as u8),
        IrNode::PointerIncrement => IrNode::PointerAdd(k as usize),
        IrNode::PointerDecrement => IrNode::PointerSubtract(k as usize),
        _ => n,
    }
}

/// The folded image of `p` from position `i` on.
pub open spec fn spec_fold_from(p: Seq<IrNode>, i: int) -> Seq<IrNode>
    decreases p, p.len() - i,
        via spec_fold_from_decreases
{
    if i < 0 || i >= p.len() {
        Seq::empty()
    } else {
        let n = p[i];
        if fusable(n) {
            let k = run_len(p, i);
            if k >= 2 {
                seq![fused(n, k)] + spec_fold_from(p, i + k)
            } else {
                seq![n] + spec_fold_from(p, i + 1)
            }
        } else {
            match n {
                IrNode::Loop(b) => seq![IrNode::Loop(spec_fold(b))] + spec_fold_from(p, i + 1),
                _ => seq![n] + spec_fold_from(p, i + 1),
            }
        }
    }
}

#[via_fn]
proof fn spec_fold_from_decreases(p: Seq<IrNode>, i: int) {
    if 0 <= i < p.len() {
        lemma_run_len_bounds(p, i);
    }
}

/// The folded image of a whole sequence.
pub open spec fn spec_fold(p: Seq<IrNode>) -> Seq<IrNode>
    decreases p, p.len() + 1,
{
    spec_fold_from(p, 0)
}

/// Fold every maximal run of two or more identical primitives into its
/// fused form, recursively inside loop bodies.
pub fn optimize_consecutive_inc_dec(instructions: &[Instruction]) -> (r: Vec<Instruction>)
    ensures
        ir_seq(r@) == spec_fold(ir_seq(instructions@)),
    decreases instructions@,
{
    let ghost q = ir_seq(instructions@);
    proof {
        lemma_ir_seq_len(instructions@);
    }
    let mut i: usize = 0;
    let mut optimized: Vec<Instruction> = Vec::new();
    proof {
        assert(ir_seq(optimized@) =~= Seq::<IrNode>::empty());
        assert(spec_fold(q) =~= ir_seq(optimized@) + spec_fold_from(q, 0));
    }
    while i < instructions.len()
        invariant
            i <= instructions@.len(),
            q == ir_seq(instructions@),
            q.len() == instructions@.len(),
            spec_fold(q) == ir_seq(optimized@) + spec_fold_from(q, i as int),
        decreases instructions@.len() - i,
    {
        proof {
            lemma_ir_seq_index(instructions@, i as int);
        }
        let ghost emitted_before = ir_seq(optimized@);
        let inst = &instructions[i];
        let mut step: usize = 1;
        match inst {
            Instruction::Increment => {
                if i + 1 < instructions.len() && matches!(instructions[i + 1], Instruction::Increment) {
                    proof {
                        lemma_ir_seq_index(instructions@, i + 1);
                        lemma_run_len_bounds(q, i + 1);
                        assert(run_len(q, i as int) >= 2);
                    }
                    let (count, len) = count_run(instructions, i);
                    step = len;
                    proof {
                        lemma_ir_seq_push(optimized@, Instruction::Add(count));
                    }
                    optimized.push(Instruction::Add(count));
                } else {
                    proof {
                        if i + 1 < q.len() {
                            lemma_ir_seq_index(instructions@, i + 1);
                        }
                        assert(run_len(q, i as int) == 1);
                        lemma_ir_seq_push(optimized@, Instruction::Increment);
                    }
                    optimized.push(Instruction::Increment);
                }
            },
            Instruction::Decrement => {
                if i + 1 < instructions.len() && matches!(instructions[i + 1], Instruction::Decrement) {
                    proof {
                        lemma_ir_seq_index(instructions@, i + 1);
                        lemma_run_len_bounds(q, i + 1);
                        assert(run_len(q, i as int) >= 2);
                    }
                    let (count, len) = count_run(instructions, i);
                    step = len;
                    proof {
                        lemma_ir_seq_push(optimized@, Instruction::Subtract(count));
                    }
                    optimized.push(Instruction::Subtract(count));
                } else {
                    proof {
                        if i + 1 < q.len() {
                            lemma_ir_seq_index(instructions@, i + 1);
                        }
                        assert(run_len(q, i as int) == 1);
                        lemma_ir_seq_push(optimized@, Instruction::Decrement);
                    }
                    optimized.push(Instruction::Decrement);
                }
            },
            Instruction::PointerIncrement => {
                if i + 1 < instructions.len() && matches!(
                    instructions[i + 1],
                    Instruction::PointerIncrement,
                ) {
                    proof {
                        lemma_ir_seq_index(instructions@, i + 1);
                        lemma_run_len_bounds(q, i + 1);
                        assert(run_len(q, i as int) >= 2);
                    }
                    let (count, len) = count_pointer_run(instructions, i);
                    step = len;
                    proof {
                        lemma_ir_seq_push(optimized@, Instruction::PointerAdd(count));
                    }
                    optimized.push(Instruction::PointerAdd(count));
                } else {
                    proof {
                        if i + 1 < q.len() {
                            lemma_ir_seq_index(instructions@, i + 1);
                        }
                        assert(run_len(q, i as int) == 1);
                        lemma_ir_seq_push(optimized@, Instruction::PointerIncrement);
                    }
                    optimized.push(Instruction::PointerIncrement);
                }
            },
            Instruction::PointerDecrement => {
                if i + 1 < instructions.len() && matches!(
                    instructions[i + 1],
                    Instruction::PointerDecrement,
                ) {
                    proof {
                        lemma_ir_seq_index(instructions@, i + 1);
                        lemma_run_len_bounds(q, i + 1);
                        assert(run_len(q, i as int) >= 2);
                    }
                    let (count, len) = count_pointer_run(instructions, i);
                    step = len;
                    proof {
                        lemma_ir_seq_push(optimized@, Instruction::PointerSubtract(count));
                    }
                    optimized.push(Instruction::PointerSubtract(count));
                } else {
                    proof {
                        if i + 1 < q.len() {
                            lemma_ir_seq_index(instructions@, i + 1);
                        }
                        assert(run_len(q, i as int) == 1);
                        lemma_ir_seq_push(optimized@, Instruction::PointerDecrement);
                    }
                    optimized.push(Instruction::PointerDecrement);
                }
            },
            Instruction::Loop(loop_instructions) => {
                let optimized_loop = optimize_consecutive_inc_dec(loop_instructions.as_slice());
                proof {
                    lemma_ir_seq_push(optimized@, Instruction::Loop(optimized_loop));
                }
                optimized.push(Instruction::Loop(optimized_loop));
            },
            _ => {
                let copy = inst.duplicate();
                proof {
                    assert(!fusable(q[i as int]) && !(q[i as int] is Loop));
                    lemma_ir_seq_push(optimized@, copy);
                }
                optimized.push(copy);
            },
        }
        proof {
            assert(spec_fold(q) =~= ir_seq(optimized@) + spec_fold_from(q, i + step));
        }
        i = i + step;
    }
    proof {
        assert(spec_fold_from(q, i as int) =~= Seq::<IrNode>::empty());
        assert(spec_fold(q) =~= ir_seq(optimized@));
    }
    optimized
}

/// Count a maximal run of the primitive at `start`, which repeats at least
/// once; the count wraps at 256 as the fused payload does. Returns the
/// wrapped count and the exact run length.
fn count_run(instructions: &[Instruction], start: usize) -> (r: (u8, usize))
    requires
        start < instructions@.len(),
        fusable(ir_seq(instructions@)[start as int]),
    ensures
        r.1 == run_len(ir_seq(instructions@), start as int),
        start + r.1 <= instructions@.len(),
        r.0 == (run_len(ir_seq(instructions@), start as int) % 256) as u8,
{
    let ghost q = ir_seq(instructions@);
    proof {
        lemma_ir_seq_len(instructions@);
        lemma_run_len_bounds(q, start as int);
    }
    let mut count: u8 = 1;
    let mut j: usize = start;
    while j < instructions.len() - 1 && same_primitive(&instructions[j + 1], &instructions[start])
        invariant
            start <= j < instructions@.len(),
            q == ir_seq(instructions@),
            q.len() == instructions@.len(),
            fusable(q[start as int]),
            q[j as int] == q[start as int],
            run_len(q, start as int) == j - start + run_len(q, j as int),
            count == ((j - start + 1) % 256) as u8,
        decreases instructions@.len() - j,
    {
        proof {
            lemma_ir_seq_index(instructions@, start as int);
            lemma_ir_seq_index(instructions@, j + 1);
            assert(run_len(q, j as int) == 1 + run_len(q, j + 1));
            lemma_mod_succ(j - start + 1);
        }
        count = count.wrapping_add(1);
        j = j + 1;
    }
    proof {
        lemma_ir_seq_index(instructions@, start as int);
        if j + 1 < instructions@.len() {
            lemma_ir_seq_index(instructions@, j + 1);
        }
        assert(run_len(q, j as int) == 1);
    }
    (count, j + 1 - start)
}

/// Count a maximal run of the pointer primitive at `start`; the count is
/// exact.
fn count_pointer_run(instructions: &[Instruction], start: usize) -> (r: (usize, usize))
    requires
        start < instructions@.len(),
        fusable(ir_seq(instructions@)[start as int]),
    ensures
        r.1 == run_len(ir_seq(instructions@), start as int),
        start + r.1 <= instructions@.len(),
        r.0 == r.1,
{
    let ghost q = ir_seq(instructions@);
    proof {
        lemma_ir_seq_len(instructions@);
        lemma_run_len_bounds(q, start as int);
    }
    let mut j: usize = start;
    while j < instructions.len() - 1 && same_primitive(&instructions[j + 1], &instructions[start])
        invariant
            start <= j < instructions@.len(),
            q == ir_seq(instructions@),
            q.len() == instructions@.len(),
            fusable(q[start as int]),
            q[j as int] == q[start as int],
            run_len(q, start as int) == j - start + run_len(q, j as int),
        decreases instructions@.len() - j,
    {
        proof {
            lemma_ir_seq_index(instructions@, start as int);
            lemma_ir_seq_index(instructions@, j + 1);
            assert(run_len(q, j as int) == 1 + run_len(q, j + 1));
        }
        j = j + 1;
    }
    proof {
        lemma_ir_seq_index(instructions@, start as int);
        if j + 1 < instructions@.len() {
            lemma_ir_seq_index(instructions@, j + 1);
        }
        assert(run_len(q, j as int) == 1);
    }
    (j + 1 - start, j + 1 - start)
}

/// Whether two instructions are the same dataless primitive.
fn same_primitive(a: &Instruction, b: &Instruction) -> (r: bool)
    ensures
        r == ({
            let n = ir_of(*b);
            fusable(n) && ir_of(*a) == n
        }),
{
    match (a, b) {
        (Instruction::Increment, Instruction::Increment) => true,
        (Instruction::Decrement, Instruction::Decrement) => true,
        (Instruction::PointerIncrement, Instruction::PointerIncrement) => true,
        (Instruction::PointerDecrement, Instruction::PointerDecrement) => true,
        _ => false,
    }
}

proof fn lemma_mod_succ(a: int)
    requires
        a >= 0,
    ensures
        ((a + 1) % 256) as u8 == ({
            let c = (a % 256) as u8;
            if c + 1 > 255 {
                (c + 1 - 256) as u8
            } else {
                (c + 1) as u8
            }
        }),
{
    assert(a % 256 == (a + 1) % 256 - 1 || (a % 256 == 255 && (a + 1) % 256 == 0)) by (nonlinear_arith);
}

} // verus!
