//! Big-step semantics of the instruction tree, and the proof that the
//! run-length pass preserves it. A machine state is a tape of 8-bit cells, a
//! tape position, the count of consumed input bytes, and the output written
//! so far. Execution is fuel-bounded: fuel is spent only on loop
//! iterations, so a program and its run-length-folded image consume fuel
//! identically.

use vstd::prelude::*;

use crate::instruction::IrNode;
use crate::optimizer::consecutive_inc_dec::{
    fusable, fused, lemma_run_len_bounds, run_len, spec_fold, spec_fold_from,
};
use vstd::wrapping::u8_specs;

verus! {

/// A machine state as the semantics sees it.
pub struct MachineState {
    pub tape: Seq<u8>,
    pub ptr: int,
    pub pos: int,
    pub output: Seq<u8>,
}

/// Whether the tape position is on the tape.
pub open spec fn on_tape(st: MachineState) -> bool {
    0 <= st.ptr < st.tape.len()
}

/// One flat (loop-free) node applied to a state. `None` is the undefined
/// territory: the position left the tape, or a relative access missed it.
pub open spec fn step_basic(n: IrNode, input: Seq<u8>, st: MachineState) -> Option<MachineState> {
    if !on_tape(st) {
        Option::None
    } else {
        let cell = st.tape[st.ptr];
        match n {
            IrNode::Increment => Option::Some(
                MachineState { tape: st.tape.update(st.ptr, u8_specs::wrapping_add(cell, 1)), ..st },
            ),
            IrNode::Decrement => Option::Some(
                MachineState { tape: st.tape.update(st.ptr, u8_specs::wrapping_sub(cell, 1)), ..st },
            ),
            IrNode::PointerIncrement => {
                if st.ptr + 1 < st.tape.len() {
                    Option::Some(MachineState { ptr: st.ptr + 1, ..st })
                } else {
                    Option::None
                }
            },
            IrNode::PointerDecrement => {
                if st.ptr - 1 >= 0 {
                    Option::Some(MachineState { ptr: st.ptr - 1, ..st })
                } else {
                    Option::None
                }
            },
            IrNode::PutChar => Option::Some(MachineState { output: st.output.push(cell), ..st }),
            IrNode::GetChar => {
                if st.pos < input.len() {
                    Option::Some(
                        MachineState {
                            tape: st.tape.update(st.ptr, input[st.pos]),
                            pos: st.pos + 1,
                            ..st
                        },
                    )
                } else {
                    Option::Some(MachineState { tape: st.tape.update(st.ptr, 0), ..st })
                }
            },
            IrNode::Add(v) => Option::Some(
                MachineState { tape: st.tape.update(st.ptr, u8_specs::wrapping_add(cell, v)), ..st },
            ),
            IrNode::Subtract(v) => Option::Some(
                MachineState { tape: st.tape.update(st.ptr, u8_specs::wrapping_sub(cell, v)), ..st },
            ),
            IrNode::SetZero => Option::Some(MachineState { tape: st.tape.update(st.ptr, 0), ..st }),
            IrNode::PointerAdd(v) => {
                if st.ptr + v < st.tape.len() {
                    Option::Some(MachineState { ptr: st.ptr + v, ..st })
                } else {
                    Option::None
                }
            },
            IrNode::PointerSubtract(v) => {
                if st.ptr - v >= 0 {
                    Option::Some(MachineState { ptr: st.ptr - v, ..st })
                } else {
                    Option::None
                }
            },
            IrNode::AddValueAt(at) => {
                if 0 <= st.ptr + at < st.tape.len() {
                    Option::Some(
                        MachineState {
                            tape: st.tape.update(
                                st.ptr,
                                u8_specs::wrapping_add(cell, st.tape[st.ptr + at]),
                            ),
                            ..st
                        },
                    )
                } else {
                    Option::None
                }
            },
            IrNode::SubtractValueAt(at) => {
                if 0 <= st.ptr + at < st.tape.len() {
                    Option::Some(
                        MachineState {
                            tape: st.tape.update(
                                st.ptr,
                                u8_specs::wrapping_sub(cell, st.tape[st.ptr + at]),
                            ),
                            ..st
                        },
                    )
                } else {
                    Option::None
                }
            },
            IrNode::AddValueMultipliedBy(m, at) => {
                if 0 <= st.ptr + at < st.tape.len() {
                    Option::Some(
                        MachineState {
                            tape: st.tape.update(
                                st.ptr,
                                u8_specs::wrapping_add(
                                    cell,
                                    u8_specs::wrapping_mul(m, st.tape[st.ptr + at]),
                                ),
                            ),
                            ..st
                        },
                    )
                } else {
                    Option::None
                }
            },
            IrNode::SubtractValueMultipliedBy(m, at) => {
                if 0 <= st.ptr + at < st.tape.len() {
                    Option::Some(
                        MachineState {
                            tape: st.tape.update(
                                st.ptr,
                                u8_specs::wrapping_sub(
                                    cell,
                                    u8_specs::wrapping_mul(m, st.tape[st.ptr + at]),
                                ),
                            ),
                            ..st
                        },
                    )
                } else {
                    Option::None
                }
            },
            IrNode::Negate => Option::Some(
                MachineState { tape: st.tape.update(st.ptr, u8_specs::wrapping_sub(0, cell)), ..st },
            ),
            IrNode::Loop(_) => Option::None,
            IrNode::IfNotZero(_) => Option::None,
        }
    }
}

/// One node applied to a state, structured nodes included. A loop spends
/// one unit of fuel per iteration; running out of fuel is `None`.
pub open spec fn run_node(n: IrNode, input: Seq<u8>, st: MachineState, fuel: nat) -> Option<
    MachineState,
>
    decreases fuel, n, 1int,
{
    match n {
        IrNode::Loop(body) => {
            if !on_tape(st) {
                Option::None
            } else if st.tape[st.ptr] == 0 {
                Option::Some(st)
            } else if fuel == 0 {
                Option::None
            } else {
                match run_body(body, input, st, fuel) {
                    Option::None => Option::None,
                    Option::Some(st2) => run_node(
                        IrNode::Loop(body),
                        input,
                        st2,
                        (fuel - 1) as nat,
                    ),
                }
            }
        },
        IrNode::IfNotZero(body) => {
            if !on_tape(st) {
                Option::None
            } else if st.tape[st.ptr] == 0 {
                Option::Some(st)
            } else {
                run_body(body, input, st, fuel)
            }
        },
        _ => step_basic(n, input, st),
    }
}

/// A sequence of nodes applied to a state, in order.
pub open spec fn run_body(p: Seq<IrNode>, input: Seq<u8>, st: MachineState, fuel: nat) -> Option<
    MachineState,
>
    decreases fuel, p, 0int,
{
    if p.len() == 0 {
        Option::Some(st)
    } else {
        match run_node(p[0], input, st, fuel) {
            Option::None => Option::None,
            Option::Some(st2) => run_body(p.drop_first(), input, st2, fuel),
        }
    }
}

/// Whether a node's nested bodies all have machine-representable lengths.
pub open spec fn node_bounded(n: IrNode) -> bool
    decreases n,
{
    match n {
        IrNode::Loop(b) => ir_bounded(b),
        IrNode::IfNotZero(b) => ir_bounded(b),
        _ => true,
    }
}

/// Whether a program and all its nested bodies have machine-representable
/// lengths, as every tree built from vectors does.
pub open spec fn ir_bounded(p: Seq<IrNode>) -> bool
    decreases p,
{
    p.len() <= usize::MAX && (p.len() == 0 || (node_bounded(p[0]) && ir_bounded(p.drop_first())))
}

proof fn lemma_ir_bounded_index(p: Seq<IrNode>, i: int)
    requires
        ir_bounded(p),
        0 <= i < p.len(),
    ensures
        node_bounded(p[i]),
    decreases i,
{
    if i > 0 {
        lemma_ir_bounded_index(p.drop_first(), i - 1);
    }
}

/// Running a concatenation runs the parts in order.
pub proof fn lemma_run_body_concat(
    a: Seq<IrNode>,
    b: Seq<IrNode>,
    input: Seq<u8>,
    st: MachineState,
    fuel: nat,
)
    ensures
        run_body(a + b, input, st, fuel) == (match run_body(a, input, st, fuel) {
            Option::None => Option::None::<MachineState>,
            Option::Some(mid) => run_body(b, input, mid, fuel),
        }),
    decreases a,
{
    if a.len() == 0 {
        assert(a + b =~= b);
    } else {
        assert((a + b).drop_first() =~= a.drop_first() + b);
        match run_node(a[0], input, st, fuel) {
            Option::None => {},
            Option::Some(st2) => {
                lemma_run_body_concat(a.drop_first(), b, input, st2, fuel);
            },
        }
    }
}

/// Wrapping cell arithmetic is arithmetic modulo 256.
pub proof fn lemma_wrap_is_mod(c: u8, v: u8)
    ensures
        u8_specs::wrapping_add(c, v) == ((c + v) % 256) as u8,
        u8_specs::wrapping_sub(c, v) == ((c - v) % 256) as u8,
{
    assert((c + v) % 256 == (if c + v > 255 {
        c + v - 256
    } else {
        c + v
    }) && (c - v) % 256 == (if c - v < 0 {
        c - v + 256
    } else {
        c - v
    })) by (nonlinear_arith);
}

/// Adding a value congruent modulo 256 leaves the cell the same.
proof fn lemma_mod_cell(c: u8, k: int)
    requires
        k >= 0,
    ensures
        ((c + (k % 256)) % 256) as u8 == ((c + k) % 256) as u8,
        ((c - (k % 256)) % 256) as u8 == ((c - k) % 256) as u8,
{
    assert(((c + (k % 256)) % 256) == ((c + k) % 256) && ((c - (k % 256)) % 256) == ((c - k)
        % 256)) by (nonlinear_arith);
}

/// The effect of a run of `k` identical primitives, as one statement per
/// primitive: cell runs add or subtract `k` modulo 256; pointer runs move
/// by `k` and succeed exactly when the final position is on the tape.
proof fn lemma_run_exec(
    s: Seq<IrNode>,
    n: IrNode,
    input: Seq<u8>,
    st: MachineState,
    fuel: nat,
)
    requires
        fusable(n),
        s.len() >= 1,
        forall|j: int| 0 <= j < s.len() ==> s[j] == n,
    ensures
        n == IrNode::Increment ==> run_body(s, input, st, fuel) == (if on_tape(st) {
            Option::Some(
                MachineState {
                    tape: st.tape.update(
                        st.ptr,
                        ((st.tape[st.ptr] + s.len()) % 256) as u8,
                    ),
                    ..st
                },
            )
        } else {
            Option::None::<MachineState>
        }),
        n == IrNode::Decrement ==> run_body(s, input, st, fuel) == (if on_tape(st) {
            Option::Some(
                MachineState {
                    tape: st.tape.update(
                        st.ptr,
                        ((st.tape[st.ptr] - s.len()) % 256) as u8,
                    ),
                    ..st
                },
            )
        } else {
            Option::None::<MachineState>
        }),
        n == IrNode::PointerIncrement ==> run_body(s, input, st, fuel) == (if on_tape(st)
            && st.ptr + s.len() < st.tape.len() {
            Option::Some(MachineState { ptr: st.ptr + s.len(), ..st })
        } else {
            Option::None::<MachineState>
        }),
        n == IrNode::PointerDecrement ==> run_body(s, input, st, fuel) == (if on_tape(st)
            && st.ptr - s.len() >= 0 {
            Option::Some(MachineState { ptr: st.ptr - s.len(), ..st })
        } else {
            Option::None::<MachineState>
        }),
    decreases s.len(),
{
    assert(s[0] == n);
    if s.len() == 1 {
        assert(s.drop_first() =~= Seq::<IrNode>::empty());
        if on_tape(st) {
            lemma_wrap_is_mod(st.tape[st.ptr], 1);
        }
    } else {
        match run_node(n, input, st, fuel) {
            Option::None => {
                assert(run_body(s, input, st, fuel) is None);
            },
            Option::Some(st2) => {
                lemma_run_exec(s.drop_first(), n, input, st2, fuel);
                if n == IrNode::Increment && on_tape(st) {
                    lemma_wrap_is_mod(st.tape[st.ptr], 1);
                    assert(((st2.tape[st.ptr] + (s.len() - 1)) % 256) == ((st.tape[st.ptr]
                        + s.len()) % 256)) by (nonlinear_arith)
                        requires
                            st2.tape[st.ptr] == ((st.tape[st.ptr] + 1) % 256),
                            s.len() >= 2,
                    ;
                    assert(st2.tape.update(st.ptr, ((st2.tape[st.ptr] + (s.len() - 1))
                        % 256) as u8) =~= st.tape.update(st.ptr, ((st.tape[st.ptr] + s.len())
                        % 256) as u8));
                }
                if n == IrNode::Decrement && on_tape(st) {
                    lemma_wrap_is_mod(st.tape[st.ptr], 1);
                    assert(((st2.tape[st.ptr] - (s.len() - 1)) % 256) == ((st.tape[st.ptr]
                        - s.len()) % 256)) by (nonlinear_arith)
                        requires
                            st2.tape[st.ptr] == ((st.tape[st.ptr] - 1) % 256),
                            s.len() >= 2,
                    ;
                    assert(st2.tape.update(st.ptr, ((st2.tape[st.ptr] - (s.len() - 1))
                        % 256) as u8) =~= st.tape.update(st.ptr, ((st.tape[st.ptr] - s.len())
                        % 256) as u8));
                }
            },
        }
    }
}

/// Every node of a run equals its first node.
proof fn lemma_run_len_all(p: Seq<IrNode>, i: int)
    requires
        0 <= i < p.len(),
    ensures
        forall|j: int| i <= j < i + run_len(p, i) ==> p[j] == p[i],
    decreases p.len() - i,
{
    if i + 1 < p.len() && p[i + 1] == p[i] {
        lemma_run_len_all(p, i + 1);
    }
}

/// Folding preserves execution, from position `i` on.
proof fn lemma_fold_from_preserves(
    p: Seq<IrNode>,
    i: int,
    input: Seq<u8>,
    st: MachineState,
    fuel: nat,
)
    requires
        0 <= i <= p.len(),
        ir_bounded(p),
    ensures
        run_body(spec_fold_from(p, i), input, st, fuel) == run_body(p.skip(i), input, st, fuel),
    decreases p, fuel, p.len() - i,
{
    if i < p.len() {
        let n = p[i];
        assert(p.skip(i)[0] == n);
        assert(p.skip(i).drop_first() =~= p.skip(i + 1));
        if fusable(n) && run_len(p, i) >= 2 {
            let k = run_len(p, i);
            lemma_run_len_bounds(p, i);
            lemma_run_len_all(p, i);
            let seg = p.subrange(i, i + k);
            assert(p.skip(i) =~= seg + p.skip(i + k));
            lemma_run_body_concat(seg, p.skip(i + k), input, st, fuel);
            lemma_run_exec(seg, n, input, st, fuel);
            assert(spec_fold_from(p, i) == seq![fused(n, k)] + spec_fold_from(p, i + k));
            assert(seq![fused(n, k)].drop_first() =~= Seq::<IrNode>::empty());
            lemma_run_body_concat(
                seq![fused(n, k)],
                spec_fold_from(p, i + k),
                input,
                st,
                fuel,
            );
            let one_step = run_node(fused(n, k), input, st, fuel);
            assert(seq![fused(n, k)][0] == fused(n, k));
            match one_step {
                Option::None => {
                    assert(run_body(seq![fused(n, k)], input, st, fuel) is None);
                },
                Option::Some(m) => {
                    assert(run_body(Seq::<IrNode>::empty(), input, m, fuel) == Option::Some(m));
                    assert(run_body(seq![fused(n, k)], input, st, fuel) == Option::Some(m));
                },
            }
            assert(run_body(seq![fused(n, k)], input, st, fuel) == one_step);
            if on_tape(st) {
                let cell = st.tape[st.ptr];
                if n == IrNode::Increment || n == IrNode::Decrement {
                    lemma_wrap_is_mod(cell, (k % 256) as u8);
                    lemma_mod_cell(cell, k);
                    assert((k % 256) as u8 == k % 256) by (nonlinear_arith);
                    assert(u8_specs::wrapping_add(cell, (k % 256) as u8) == ((cell + k)
                        % 256) as u8);
                    assert(u8_specs::wrapping_sub(cell, (k % 256) as u8) == ((cell - k)
                        % 256) as u8);
                }
            }
            assert(one_step == run_body(seg, input, st, fuel));
            match one_step {
                Option::None => {},
                Option::Some(mid) => {
                    lemma_fold_from_preserves(p, i + k, input, mid, fuel);
                },
            }
        } else {
            match n {
                IrNode::Loop(b) => {
                    assert(spec_fold_from(p, i) == seq![IrNode::Loop(spec_fold(b))]
                        + spec_fold_from(p, i + 1));
                    assert(seq![IrNode::Loop(spec_fold(b))].drop_first()
                        =~= Seq::<IrNode>::empty());
                    lemma_run_body_concat(
                        seq![IrNode::Loop(spec_fold(b))],
                        spec_fold_from(p, i + 1),
                        input,
                        st,
                        fuel,
                    );
                    lemma_ir_bounded_index(p, i);
                    lemma_fold_loop_preserves(b, input, st, fuel);
                    match run_node(IrNode::Loop(b), input, st, fuel) {
                        Option::None => {},
                        Option::Some(mid) => {
                            lemma_fold_from_preserves(p, i + 1, input, mid, fuel);
                        },
                    }
                },
                _ => {
                    assert(spec_fold_from(p, i) == seq![n] + spec_fold_from(p, i + 1));
                    assert((seq![n] + spec_fold_from(p, i + 1)).drop_first()
                        =~= spec_fold_from(p, i + 1));
                    match run_node(n, input, st, fuel) {
                        Option::None => {},
                        Option::Some(mid) => {
                            lemma_fold_from_preserves(p, i + 1, input, mid, fuel);
                        },
                    }
                },
            }
        }
    } else {
        assert(p.skip(i) =~= Seq::<IrNode>::empty());
        assert(spec_fold_from(p, i) =~= Seq::<IrNode>::empty());
    }
}

/// A folded loop runs as the original loop does, for any fuel.
proof fn lemma_fold_loop_preserves(
    b: Seq<IrNode>,
    input: Seq<u8>,
    st: MachineState,
    fuel: nat,
)
    requires
        ir_bounded(b),
    ensures
        run_node(IrNode::Loop(spec_fold(b)), input, st, fuel) == run_node(
            IrNode::Loop(b),
            input,
            st,
            fuel,
        ),
    decreases b, fuel, b.len() + 1,
{
    if on_tape(st) && st.tape[st.ptr] != 0 && fuel > 0 {
        lemma_fold_from_preserves(b, 0, input, st, fuel);
        assert(b.skip(0) =~= b);
        match run_body(b, input, st, fuel) {
            Option::None => {},
            Option::Some(st2) => {
                lemma_fold_loop_preserves(b, input, st2, (fuel - 1) as nat);
            },
        }
    }
}

/// Run-length folding preserves observable behavior: for every input, every
/// starting state and every fuel bound, the folded program and the original
/// reach the same outcome, output included.
pub proof fn lemma_fold_preserves_execution(
    p: Seq<IrNode>,
    input: Seq<u8>,
    st: MachineState,
    fuel: nat,
)
    requires
        ir_bounded(p),
    ensures
        run_body(spec_fold(p), input, st, fuel) == run_body(p, input, st, fuel),
{
    lemma_fold_from_preserves(p, 0, input, st, fuel);
    assert(p.skip(0) =~= p);
}

} // verus!
