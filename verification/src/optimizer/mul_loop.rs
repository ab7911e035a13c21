//! The multiply-loop pass. An inner loop whose body is free of I/O, nested
//! loops and already-synthesized forms is abstractly interpreted over a
//! 1024-cell window centered at 512. When the interpretation ends back on
//! the control cell with a net stride of +1 or 255 (that is, -1), the loop
//! runs a predictable number of times and is replaced by a straight-line
//! multiply-add block guarded by `IfNotZero`; every other loop passes
//! through unchanged.

use vstd::prelude::*;

use crate::instruction::{
    ir_of, ir_seq, lemma_ir_seq_index, lemma_ir_seq_len, lemma_ir_seq_push, Instruction, IrNode,
};
use vstd::wrapping::u8_specs;

verus! {

/// The width of the simulation window.
pub const MEMORY_SIZE: usize = 1024;

/// The window cell the control cell sits on.
pub const MEMORY_OFFSET: usize = 512;

/// A simulation state: the window and the absolute window position.
pub struct SimState {
    pub mem: Seq<u8>,
    pub ptr: int,
}

/// The state a simulation starts from: an all-zero window, positioned on
/// the control cell.
pub open spec fn init_sim_state() -> SimState {
    SimState { mem: Seq::new(MEMORY_SIZE as nat, |i: int| 0u8), ptr: MEMORY_OFFSET as int }
}

/// One instruction of a candidate body applied to a simulation state.
/// `None` makes the loop ineligible: the window was left, or the
/// instruction is one the analysis does not admit (I/O, a nested loop, or
/// an already-synthesized form).
pub open spec fn sim_step(st: SimState, n: IrNode) -> Option<SimState> {
    match n {
        IrNode::Increment => Option::Some(
            SimState { mem: st.mem.update(st.ptr, u8_specs::wrapping_add(st.mem[st.ptr], 1)), ..st },
        ),
        IrNode::Decrement => Option::Some(
            SimState { mem: st.mem.update(st.ptr, u8_specs::wrapping_sub(st.mem[st.ptr], 1)), ..st },
        ),
        IrNode::PointerIncrement => {
            if st.ptr == MEMORY_SIZE - 1 {
                Option::None
            } else {
                Option::Some(SimState { ptr: st.ptr + 1, ..st })
            }
        },
        IrNode::PointerDecrement => {
            if st.ptr == 0 {
                Option::None
            } else {
                Option::Some(SimState { ptr: st.ptr - 1, ..st })
            }
        },
        IrNode::Add(v) => Option::Some(
            SimState { mem: st.mem.update(st.ptr, u8_specs::wrapping_add(st.mem[st.ptr], v)), ..st },
        ),
        IrNode::Subtract(v) => Option::Some(
            SimState { mem: st.mem.update(st.ptr, u8_specs::wrapping_sub(st.mem[st.ptr], v)), ..st },
        ),
        IrNode::PointerAdd(v) => {
            if st.ptr + v >= MEMORY_SIZE {
                Option::None
            } else {
                Option::Some(SimState { ptr: st.ptr + v, ..st })
            }
        },
        IrNode::PointerSubtract(v) => {
            if st.ptr < v {
                Option::None
            } else {
                Option::Some(SimState { ptr: st.ptr - v, ..st })
            }
        },
        _ => Option::None,
    }
}

/// The simulation state after the first `n` instructions of a body.
pub open spec fn sim_upto(p: Seq<IrNode>, n: int) -> Option<SimState>
    decreases n,
{
    if n <= 0 {
        Option::Some(init_sim_state())
    } else if n > p.len() {
        Option::None
    } else {
        match sim_upto(p, n - 1) {
            Option::None => Option::None,
            Option::Some(st) => sim_step(st, p[n - 1]),
        }
    }
}

/// The net effect of a whole candidate body on the window, when the
/// analysis admits it.
pub open spec fn spec_sim(p: Seq<IrNode>) -> Option<SimState> {
    sim_upto(p, p.len() as int)
}

/// A successful prefix stays within the window.
pub proof fn lemma_sim_valid(p: Seq<IrNode>, n: int)
    requires
        sim_upto(p, n) is Some,
    ensures
        sim_upto(p, n)->0.mem.len() == MEMORY_SIZE,
        0 <= sim_upto(p, n)->0.ptr < MEMORY_SIZE,
    decreases n,
{
    if n > 0 {
        lemma_sim_valid(p, n - 1);
    }
}

/// A successful simulation has successful prefixes.
pub proof fn lemma_sim_prefix(p: Seq<IrNode>, i: int, j: int)
    requires
        0 <= i <= j,
        sim_upto(p, j) is Some,
    ensures
        sim_upto(p, i) is Some,
    decreases j - i,
{
    if i < j {
        assert(sim_upto(p, j - 1) is Some);
        lemma_sim_prefix(p, i, j - 1);
    }
}

/// A failed prefix fails the whole simulation.
pub proof fn lemma_sim_none(p: Seq<IrNode>, i: int, j: int)
    requires
        0 <= i <= j,
        sim_upto(p, i) is None,
    ensures
        sim_upto(p, j) is None,
    decreases j - i,
{
    if i < j {
        lemma_sim_none(p, i, j - 1);
    }
}

/// The displacement from the control cell after one replayed instruction.
pub open spec fn offset_after(n: IrNode, off: int) -> int {
    match n {
        IrNode::PointerIncrement => off + 1,
        IrNode::PointerDecrement => off - 1,
        IrNode::PointerAdd(v) => off + v,
        IrNode::PointerSubtract(v) => off - v,
        _ => off,
    }
}

/// What one instruction of an admitted body becomes in the rewritten
/// block, at displacement `off` from the control cell. A change to the
/// control cell itself by a bare primitive is the stride and is omitted;
/// pointer moves are kept so that the block ends where the loop did.
pub open spec fn rewrite_one(n: IrNode, off: int) -> Seq<IrNode> {
    match n {
        IrNode::Increment => if off != 0 {
            seq![IrNode::AddValueAt((-off) as isize)]
        } else {
            Seq::empty()
        },
        IrNode::Decrement => if off != 0 {
            seq![IrNode::SubtractValueAt((-off) as isize)]
        } else {
            Seq::empty()
        },
        IrNode::PointerIncrement => seq![IrNode::PointerIncrement],
        IrNode::PointerDecrement => seq![IrNode::PointerDecrement],
        IrNode::Add(v) => seq![IrNode::AddValueMultipliedBy(v, (-off) as isize)],
        IrNode::Subtract(v) => seq![IrNode::SubtractValueMultipliedBy(v, (-off) as isize)],
        IrNode::SetZero => seq![IrNode::SetZero],
        IrNode::PointerAdd(v) => seq![IrNode::PointerAdd(v)],
        IrNode::PointerSubtract(v) => seq![IrNode::PointerSubtract(v)],
        _ => Seq::empty(),
    }
}

/// The replay of an admitted body from position `i`, at displacement
/// `off`.
pub open spec fn rewrite_from(p: Seq<IrNode>, i: int, off: int) -> Seq<IrNode>
    decreases p.len() - i,
{
    if i < 0 || i >= p.len() {
        Seq::empty()
    } else {
        rewrite_one(p[i], off) + rewrite_from(p, i + 1, offset_after(p[i], off))
    }
}

/// The straight-line replacement for an eligible loop: an optional leading
/// `Negate` when the stride is +1, the replayed body, the `SetZero` that
/// matches the loop's net effect on the control cell, and a redundant
/// second `SetZero` the emitter also appends, all guarded by `IfNotZero`.
pub open spec fn rewritten_loop(b: Seq<IrNode>, negate: bool) -> IrNode {
    IrNode::IfNotZero(
        (if negate {
            seq![IrNode::Negate]
        } else {
            Seq::<IrNode>::empty()
        }) + rewrite_from(b, 0, 0) + seq![IrNode::SetZero, IrNode::SetZero],
    )
}

/// The image of one node under the pass, with whether the node is
/// admissible inside a candidate body (no I/O, no loop).
pub open spec fn spec_mul_one(n: IrNode) -> (IrNode, bool)
    decreases n,
{
    match n {
        IrNode::PutChar => (n, false),
        IrNode::GetChar => (n, false),
        IrNode::Loop(b) => {
            let r = spec_mul_seq(b);
            if !r.1 {
                (IrNode::Loop(r.0), false)
            } else {
                match spec_sim(r.0) {
                    Option::None => (IrNode::Loop(r.0), false),
                    Option::Some(st) => {
                        if st.ptr != MEMORY_OFFSET {
                            (IrNode::Loop(r.0), false)
                        } else if st.mem[MEMORY_OFFSET as int] == 1 {
                            (rewritten_loop(r.0, true), false)
                        } else if st.mem[MEMORY_OFFSET as int] == 255 {
                            (rewritten_loop(r.0, false), false)
                        } else {
                            (IrNode::Loop(r.0), false)
                        }
                    },
                }
            }
        },
        _ => (n, true),
    }
}

/// The image of a sequence under the pass, with whether the whole sequence
/// is admissible as a candidate body.
pub open spec fn spec_mul_seq(p: Seq<IrNode>) -> (Seq<IrNode>, bool)
    decreases p,
{
    if p.len() == 0 {
        (Seq::empty(), true)
    } else {
        let head = spec_mul_one(p[0]);
        let rest = spec_mul_seq(p.drop_first());
        (seq![head.0] + rest.0, head.1 && rest.1)
    }
}

/// Replace every eligible multiply loop, recursively.
pub fn optimize_mul_loop(instructions: &[Instruction]) -> (r: Vec<Instruction>)
    ensures
        ir_seq(r@) == spec_mul_seq(ir_seq(instructions@)).0,
{
    let (optimized, _) = do_optimize_mul_loop(instructions);
    optimized
}

/// The net window effect of a candidate body: the window contents and the
/// signed displacement from the control cell.
struct SimulationResult {
    memory: Vec<u8>,
    pointer_offset: isize,
}

/// Abstractly interpret a candidate body over the window; `None` is an
/// ineligible body.
fn simulate(instructions: &[Instruction]) -> (r: Option<SimulationResult>)
    ensures
        match r {
            Option::Some(sr) => spec_sim(ir_seq(instructions@)) is Some && sr.memory@ == spec_sim(
                ir_seq(instructions@),
            )->0.mem && sr.memory@.len() == MEMORY_SIZE && sr.pointer_offset == spec_sim(
                ir_seq(instructions@),
            )->0.ptr - MEMORY_OFFSET,
            Option::None => spec_sim(ir_seq(instructions@)) is None,
        },
{
    let ghost q = ir_seq(instructions@);
    proof {
        lemma_ir_seq_len(instructions@);
    }
    let mut memory: Vec<u8> = vec![0u8; MEMORY_SIZE];
    let mut pointer: usize = MEMORY_OFFSET;
    proof {
        assert(memory@ =~= init_sim_state().mem);
    }
    let mut i: usize = 0;
    while i < instructions.len()
        invariant
            i <= instructions@.len(),
            q == ir_seq(instructions@),
            q.len() == instructions@.len(),
            memory@.len() == MEMORY_SIZE,
            pointer < MEMORY_SIZE,
            sim_upto(q, i as int) == Option::Some(
                SimState { mem: memory@, ptr: pointer as int },
            ),
        decreases instructions@.len() - i,
    {
        proof {
            lemma_ir_seq_index(instructions@, i as int);
        }
        let ghost st = SimState { mem: memory@, ptr: pointer as int };
        let inst = &instructions[i];
        let mut failed: bool = false;
        match inst {
            Instruction::Increment => {
                memory[pointer] = memory[pointer].wrapping_add(1);
            },
            Instruction::Decrement => {
                memory[pointer] = memory[pointer].wrapping_sub(1);
            },
            Instruction::PointerIncrement => {
                if pointer == MEMORY_SIZE - 1 {
                    failed = true;
                } else {
                    pointer = pointer + 1;
                }
            },
            Instruction::PointerDecrement => {
                if pointer == 0 {
                    failed = true;
                } else {
                    pointer = pointer - 1;
                }
            },
            Instruction::Add(value) => {
                memory[pointer] = memory[pointer].wrapping_add(*value);
            },
            Instruction::Subtract(value) => {
                memory[pointer] = memory[pointer].wrapping_sub(*value);
            },
            Instruction::PointerAdd(value) => {
                if *value >= MEMORY_SIZE - pointer {
                    failed = true;
                } else {
                    pointer = pointer + *value;
                }
            },
            Instruction::PointerSubtract(value) => {
                if pointer < *value {
                    failed = true;
                } else {
                    pointer = pointer - *value;
                }
            },
            _ => {
                failed = true;
            },
        }
        if failed {
            proof {
                assert(sim_upto(q, i + 1) is None);
                lemma_sim_none(q, i + 1, q.len() as int);
            }
            return Option::None;
        }
        i = i + 1;
    }
    Option::Some(SimulationResult { memory, pointer_offset: pointer as isize - MEMORY_OFFSET as isize })
}

/// The pass over one sequence: the rewritten sequence, and whether it is
/// admissible inside an enclosing candidate body.
fn do_optimize_mul_loop(instructions: &[Instruction]) -> (r: (Vec<Instruction>, bool))
    ensures
        ir_seq(r.0@) == spec_mul_seq(ir_seq(instructions@)).0,
        r.1 == spec_mul_seq(ir_seq(instructions@)).1,
    decreases instructions@,
{
    let ghost q = ir_seq(instructions@);
    proof {
        lemma_ir_seq_len(instructions@);
        assert(q.skip(0) =~= q);
    }
    let mut optimized: Vec<Instruction> = Vec::new();
    let mut can_be_calculated: bool = true;
    let mut i: usize = 0;
    while i < instructions.len()
        invariant
            i <= instructions@.len(),
            q == ir_seq(instructions@),
            q.len() == instructions@.len(),
            spec_mul_seq(q).0 == ir_seq(optimized@) + spec_mul_seq(q.skip(i as int)).0,
            spec_mul_seq(q).1 == (can_be_calculated && spec_mul_seq(q.skip(i as int)).1),
        decreases instructions@.len() - i,
    {
        proof {
            lemma_ir_seq_index(instructions@, i as int);
            assert(q.skip(i as int).drop_first() =~= q.skip(i + 1));
            assert(q.skip(i as int)[0] == q[i as int]);
        }
        let inst = &instructions[i];
        match inst {
            Instruction::PutChar => {
                can_be_calculated = false;
                proof {
                    lemma_ir_seq_push(optimized@, Instruction::PutChar);
                }
                optimized.push(Instruction::PutChar);
            },
            Instruction::GetChar => {
                can_be_calculated = false;
                proof {
                    lemma_ir_seq_push(optimized@, Instruction::GetChar);
                }
                optimized.push(Instruction::GetChar);
            },
            Instruction::Loop(loop_instructions) => {
                can_be_calculated = false;
                let (new_body, body_pure) = do_optimize_mul_loop(loop_instructions.as_slice());
                let ghost b2 = ir_seq(new_body@);
                let replacement: Instruction = if body_pure {
                    match simulate(new_body.as_slice()) {
                        Option::Some(sr) => {
                            if sr.pointer_offset == 0 {
                                let delta = sr.memory[MEMORY_OFFSET];
                                if delta == 1 || delta == 255 {
                                    rewrite_eligible_loop(new_body, delta == 1)
                                } else {
                                    Instruction::Loop(new_body)
                                }
                            } else {
                                Instruction::Loop(new_body)
                            }
                        },
                        Option::None => Instruction::Loop(new_body),
                    }
                } else {
                    Instruction::Loop(new_body)
                };
                proof {
                    assert(ir_of(replacement) == spec_mul_one(q[i as int]).0);
                    lemma_ir_seq_push(optimized@, replacement);
                }
                optimized.push(replacement);
            },
            _ => {
                let copy = inst.duplicate();
                proof {
                    lemma_ir_seq_push(optimized@, copy);
                }
                optimized.push(copy);
            },
        }
        proof {
            assert(spec_mul_seq(q).0 =~= ir_seq(optimized@) + spec_mul_seq(q.skip(i + 1)).0);
        }
        i = i + 1;
    }
    proof {
        assert(q.skip(i as int) =~= Seq::<IrNode>::empty());
        assert(spec_mul_seq(q).0 =~= ir_seq(optimized@));
    }
    (optimized, can_be_calculated)
}

/// Build the guarded straight-line replacement for an eligible loop body.
fn rewrite_eligible_loop(body: Vec<Instruction>, negate: bool) -> (r: Instruction)
    requires
        spec_sim(ir_seq(body@)) is Some,
    ensures
        ir_of(r) == rewritten_loop(ir_seq(body@), negate),
{
    let ghost b = ir_seq(body@);
    proof {
        lemma_ir_seq_len(body@);
    }
    let mut optimized_loop: Vec<Instruction> = Vec::new();
    if negate {
        proof {
            lemma_ir_seq_push(optimized_loop@, Instruction::Negate);
        }
        optimized_loop.push(Instruction::Negate);
    }
    let ghost prefix = ir_seq(optimized_loop@);
    proof {
        assert(prefix =~= (if negate {
            seq![IrNode::Negate]
        } else {
            Seq::<IrNode>::empty()
        }));
    }
    let mut offset: isize = 0;
    let mut j: usize = 0;
    while j < body.len()
        invariant
            j <= body@.len(),
            b == ir_seq(body@),
            b.len() == body@.len(),
            spec_sim(b) is Some,
            sim_upto(b, j as int) is Some,
            sim_upto(b, j as int)->0.ptr == MEMORY_OFFSET + offset,
            prefix + rewrite_from(b, 0, 0) == ir_seq(optimized_loop@) + rewrite_from(
                b,
                j as int,
                offset as int,
            ),
        decreases body@.len() - j,
    {
        proof {
            lemma_ir_seq_index(body@, j as int);
            lemma_sim_prefix(b, j + 1, b.len() as int);
            lemma_sim_valid(b, j as int);
            lemma_sim_valid(b, j + 1);
            assert(sim_upto(b, j + 1) == sim_step(sim_upto(b, j as int)->0, b[j as int]));
        }
        let ghost emitted = ir_seq(optimized_loop@);
        let inst = &body[j];
        match inst {
            Instruction::Increment => {
                if offset != 0 {
                    let pushed = Instruction::AddValueAt(-offset);
                    proof {
                        lemma_ir_seq_push(optimized_loop@, pushed);
                    }
                    optimized_loop.push(pushed);
                }
            },
            Instruction::Decrement => {
                if offset != 0 {
                    let pushed = Instruction::SubtractValueAt(-offset);
                    proof {
                        lemma_ir_seq_push(optimized_loop@, pushed);
                    }
                    optimized_loop.push(pushed);
                }
            },
            Instruction::PointerIncrement => {
                offset = offset + 1;
                proof {
                    lemma_ir_seq_push(optimized_loop@, Instruction::PointerIncrement);
                }
                optimized_loop.push(Instruction::PointerIncrement);
            },
            Instruction::PointerDecrement => {
                offset = offset - 1;
                proof {
                    lemma_ir_seq_push(optimized_loop@, Instruction::PointerDecrement);
                }
                optimized_loop.push(Instruction::PointerDecrement);
            },
            Instruction::Add(value) => {
                let pushed = Instruction::AddValueMultipliedBy(*value, -offset);
                proof {
                    lemma_ir_seq_push(optimized_loop@, pushed);
                }
                optimized_loop.push(pushed);
            },
            Instruction::Subtract(value) => {
                let pushed = Instruction::SubtractValueMultipliedBy(*value, -offset);
                proof {
                    lemma_ir_seq_push(optimized_loop@, pushed);
                }
                optimized_loop.push(pushed);
            },
            Instruction::SetZero => {
                proof {
                    lemma_ir_seq_push(optimized_loop@, Instruction::SetZero);
                }
                optimized_loop.push(Instruction::SetZero);
            },
            Instruction::PointerAdd(value) => {
                offset = offset + (*value as isize);
                proof {
                    lemma_ir_seq_push(optimized_loop@, Instruction::PointerAdd(*value));
                }
                optimized_loop.push(Instruction::PointerAdd(*value));
            },
            Instruction::PointerSubtract(value) => {
                offset = offset - (*value as isize);
                proof {
                    lemma_ir_seq_push(optimized_loop@, Instruction::PointerSubtract(*value));
                }
                optimized_loop.push(Instruction::PointerSubtract(*value));
            },
            _ => {},
        }
        proof {
            assert(prefix + rewrite_from(b, 0, 0) =~= ir_seq(optimized_loop@) + rewrite_from(
                b,
                j + 1,
                offset as int,
            ));
        }
        j = j + 1;
    }
    proof {
        assert(rewrite_from(b, j as int, offset as int) =~= Seq::<IrNode>::empty());
        assert(ir_seq(optimized_loop@) =~= prefix + rewrite_from(b, 0, 0));
    }
    proof {
        lemma_ir_seq_push(optimized_loop@, Instruction::SetZero);
    }
    optimized_loop.push(Instruction::SetZero);
    proof {
        lemma_ir_seq_push(optimized_loop@, Instruction::SetZero);
    }
    optimized_loop.push(Instruction::SetZero);
    proof {
        assert(ir_seq(optimized_loop@) =~= prefix + rewrite_from(b, 0, 0) + seq![
            IrNode::SetZero,
            IrNode::SetZero,
        ]);
    }
    Instruction::IfNotZero(optimized_loop)
}

/// Whether no fused `Add` or `Subtract` of a candidate body falls on the
/// control cell. The rewritten block for such a body never writes the
/// control cell before its trailing `SetZero`, so every transfer in it
/// reads the value the loop started from.
pub open spec fn no_control_folds(b: Seq<IrNode>) -> bool {
    forall|i: int|
        0 <= i < b.len() && (b[i] is Add || b[i] is Subtract) ==> !(sim_upto(b, i) is Some
            && sim_upto(b, i)->0.ptr == MEMORY_OFFSET)
}

/// The pass rewrites a loop only when its body is admissible and the

/// abstract interpretation of the optimized body succeeds, ends with the
/// window position back on the control cell, and finds a net control-cell
/// stride of +1 or 255 there; every other loop passes through as a loop,
/// with only its body optimized.
pub proof fn lemma_rewrites_only_unit_stride(b: Seq<IrNode>)
    ensures
        ({
            let body = spec_mul_seq(b).0;
            let pure = spec_mul_seq(b).1;
            let sim = spec_sim(body);
            &&& ((!pure || sim is None || sim->0.ptr != MEMORY_OFFSET || (sim->0.mem[
                MEMORY_OFFSET as int
            ] != 1 && sim->0.mem[MEMORY_OFFSET as int] != 255)) ==> spec_mul_one(
                IrNode::Loop(b),
            ).0 == IrNode::Loop(body))
            &&& (pure && sim is Some && sim->0.ptr == MEMORY_OFFSET && sim->0.mem[
                MEMORY_OFFSET as int
            ] == 1 ==> spec_mul_one(IrNode::Loop(b)).0 == rewritten_loop(body, true))
            &&& (pure && sim is Some && sim->0.ptr == MEMORY_OFFSET && sim->0.mem[
                MEMORY_OFFSET as int
            ] == 255 ==> spec_mul_one(IrNode::Loop(b)).0 == rewritten_loop(body, false))
        }),
{
}

} // verus!
