//! Soundness of the multiply-loop rewrite. A loop whose body the analysis
//! admits, whose simulation ends back on the control cell with a unit
//! stride, and whose replay never writes the control cell, runs exactly as
//! its straight-line replacement does, whenever it runs at all. The proof
//! walks the simulation: the body's effect on the tape is the simulated
//! window, one copy per iteration, and the replayed block applies all the
//! copies at once.

use vstd::prelude::*;

use crate::instruction::IrNode;
use crate::optimizer::mul_loop::{
    lemma_sim_prefix, lemma_sim_valid, no_control_folds, offset_after, rewrite_from, rewrite_one,
    rewritten_loop, sim_step, sim_upto, spec_mul_one, spec_mul_seq, spec_sim, MEMORY_OFFSET,
    MEMORY_SIZE,
};
use crate::optimizer::{enables, spec_optimize, Optimization};
use crate::optimizer::consecutive_inc_dec::spec_fold;
use crate::semantics::{
    ir_bounded, lemma_fold_preserves_execution, lemma_run_body_concat, lemma_wrap_is_mod, on_tape,
    run_body, run_node, MachineState,
};
use vstd::wrapping::u8_specs;

verus! {

/// The window position after `i` simulated steps of a candidate body.
pub open spec fn sim_pos(b: Seq<IrNode>, i: int) -> int {
    sim_upto(b, i)->0.ptr
}

/// A cell with `m` copies of a window delta added, modulo 256.
pub open spec fn mixed_cell(tv: u8, m: int, wv: u8) -> u8 {
    ((tv + m * wv) % 256) as u8
}

/// The tape with `m` copies of the simulated window deltas added, the
/// window aligned so that its center sits on `ctl`.
#[verifier::opaque]
pub open spec fn tape_apply(t: Seq<u8>, ctl: int, w: Seq<u8>, m: int) -> Seq<u8> {
    Seq::new(
        t.len(),
        |x: int|
            if ctl - MEMORY_OFFSET <= x < ctl - MEMORY_OFFSET + w.len() {
                mixed_cell(t[x], m, w[x - ctl + MEMORY_OFFSET])
            } else {
                t[x]
            },
    )
}

#[verifier::spinoff_prover]
proof fn lemma_tape_apply_len(t: Seq<u8>, ctl: int, w: Seq<u8>, m: int)
    ensures
        tape_apply(t, ctl, w, m).len() == t.len(),
{
    reveal(tape_apply);
}

#[verifier::spinoff_prover]
proof fn lemma_tape_apply_at(t: Seq<u8>, ctl: int, w: Seq<u8>, m: int, x: int)
    requires
        0 <= x < t.len(),
    ensures
        tape_apply(t, ctl, w, m)[x] == (if ctl - MEMORY_OFFSET <= x < ctl - MEMORY_OFFSET
            + w.len() {
            mixed_cell(t[x], m, w[x - ctl + MEMORY_OFFSET])
        } else {
            t[x]
        }),
{
    reveal(tape_apply);
}

/// Applying the all-zero window changes nothing.
#[verifier::spinoff_prover]
proof fn lemma_tape_apply_init(t: Seq<u8>, ctl: int, m: int)
    ensures
        tape_apply(t, ctl, Seq::new(MEMORY_SIZE as nat, |i: int| 0u8), m) == t,
{
    let w = Seq::new(MEMORY_SIZE as nat, |i: int| 0u8);
    lemma_tape_apply_len(t, ctl, w, m);
    assert forall|x: int| 0 <= x < t.len() implies tape_apply(t, ctl, w, m)[x] == t[x] by {
        lemma_tape_apply_at(t, ctl, w, m, x);
        if ctl - MEMORY_OFFSET <= x < ctl - MEMORY_OFFSET + w.len() {
            assert(w[x - ctl + MEMORY_OFFSET] == 0);
            assert(m * 0 == 0) by (nonlinear_arith);
        }
    }
    assert(tape_apply(t, ctl, w, m) =~= t);
}

/// Modular bookkeeping for one window update applied to a cell that
/// already carries `m` copies of the window value.
#[verifier::spinoff_prover]
proof fn lemma_mod_mul_add(t: int, w: int, m: int, v: int)
    ensures
        (((t + m * w) % 256) + ((v * m) % 256)) % 256 == (t + m * ((w + v) % 256)) % 256,
        (((t + m * w) % 256) - ((v * m) % 256)) % 256 == (t + m * ((w - v) % 256)) % 256,
{
    let a = t + m * w;
    let b = v * m;
    assert((t + m * w) + v * m == t + m * (w + v) && (t + m * w) - v * m == t + m * (w - v))
        by (nonlinear_arith);
    vstd::arithmetic::div_mod::lemma_add_mod_noop(a, b, 256);
    vstd::arithmetic::div_mod::lemma_sub_mod_noop(a, b, 256);
    vstd::arithmetic::div_mod::lemma_add_mod_noop_right(t, m * ((w + v) % 256), 256);
    vstd::arithmetic::div_mod::lemma_mul_mod_noop_right(m, w + v, 256);
    vstd::arithmetic::div_mod::lemma_add_mod_noop_right(t, m * (w + v), 256);
    vstd::arithmetic::div_mod::lemma_add_mod_noop_right(t, m * ((w - v) % 256), 256);
    vstd::arithmetic::div_mod::lemma_mul_mod_noop_right(m, w - v, 256);
    vstd::arithmetic::div_mod::lemma_add_mod_noop_right(t, m * (w - v), 256);
}

/// Updating one window cell by `v` corresponds, on the applied tape, to
/// updating the matching tape cell by `v` times the multiplier.
#[verifier::spinoff_prover]
proof fn lemma_apply_update(
    t: Seq<u8>,
    ctl: int,
    w: Seq<u8>,
    m: int,
    wi: int,
    v: u8,
    d: u8,
    add: bool,
)
    requires
        0 <= wi < w.len(),
        0 <= ctl - MEMORY_OFFSET + wi < t.len(),
        d == ((v * m) % 256) as u8,
    ensures
        ({
            let applied = tape_apply(t, ctl, w, m);
            let nw = if add {
                u8_specs::wrapping_add(w[wi], v)
            } else {
                u8_specs::wrapping_sub(w[wi], v)
            };
            let nc = if add {
                u8_specs::wrapping_add(applied[ctl - MEMORY_OFFSET + wi], d)
            } else {
                u8_specs::wrapping_sub(applied[ctl - MEMORY_OFFSET + wi], d)
            };
            tape_apply(t, ctl, w.update(wi, nw), m) == applied.update(
                ctl - MEMORY_OFFSET + wi,
                nc,
            )
        }),
{
    let applied = tape_apply(t, ctl, w, m);
    let p = ctl - MEMORY_OFFSET + wi;
    let nw = if add {
        u8_specs::wrapping_add(w[wi], v)
    } else {
        u8_specs::wrapping_sub(w[wi], v)
    };
    let nc = if add {
        u8_specs::wrapping_add(applied[p], d)
    } else {
        u8_specs::wrapping_sub(applied[p], d)
    };
    lemma_tape_apply_len(t, ctl, w, m);
    lemma_tape_apply_len(t, ctl, w.update(wi, nw), m);
    lemma_tape_apply_at(t, ctl, w, m, p);
    lemma_wrap_is_mod(w[wi], v);
    lemma_wrap_is_mod(applied[p], d);
    assert forall|x: int| 0 <= x < t.len() implies tape_apply(t, ctl, w.update(wi, nw), m)[x]
        == applied.update(p, nc)[x] by {
        lemma_tape_apply_at(t, ctl, w.update(wi, nw), m, x);
        lemma_tape_apply_at(t, ctl, w, m, x);
        if x == p {
            lemma_mod_mul_add(t[x] as int, w[wi] as int, m, v as int);
            assert(nw == ((w[wi] + v) % 256) as u8 || nw == ((w[wi] - v) % 256) as u8);
            assert(mixed_cell(t[x], m, nw) == nc);
        }
    }
    assert(tape_apply(t, ctl, w.update(wi, nw), m) =~= applied.update(p, nc));
}

/// The state reached after the first `i` instructions of a candidate body,
/// expressed through the simulation.
pub open spec fn body_mid(b: Seq<IrNode>, i: int, st0: MachineState) -> MachineState {
    MachineState {
        ptr: st0.ptr + sim_pos(b, i) - MEMORY_OFFSET,
        tape: tape_apply(st0.tape, st0.ptr, sim_upto(b, i)->0.mem, 1),
        pos: st0.pos,
        output: st0.output,
    }
}

/// Whether every tape position the body walks over from `i` on is on the
/// tape.
pub open spec fn walk_from(b: Seq<IrNode>, i: int, st0: MachineState) -> bool {
    i == b.len() || (forall|j: int|
        #![trigger sim_pos(b, j)]
        i <= j <= b.len() ==> 0 <= st0.ptr + sim_pos(b, j) - MEMORY_OFFSET < st0.tape.len())
}

/// One instruction of a candidate body behaves as its simulation step
/// says: it succeeds exactly when the positions it touches are on the
/// tape, and moves the state from one simulated midpoint to the next.
#[verifier::spinoff_prover]
proof fn lemma_body_step(b: Seq<IrNode>, i: int, input: Seq<u8>, st0: MachineState, fuel: nat)
    requires
        spec_sim(b) is Some,
        0 <= i < b.len(),
    ensures
        run_node(b[i], input, body_mid(b, i, st0), fuel) == (if 0 <= st0.ptr + sim_pos(b, i)
            - MEMORY_OFFSET < st0.tape.len() && 0 <= st0.ptr + sim_pos(b, i + 1) - MEMORY_OFFSET
            < st0.tape.len() {
            Option::Some(body_mid(b, i + 1, st0))
        } else {
            Option::None::<MachineState>
        }),
{
    lemma_sim_prefix(b, i + 1, b.len() as int);
    lemma_sim_prefix(b, i, i + 1);
    lemma_sim_valid(b, i);
    lemma_sim_valid(b, i + 1);
    let smi = sim_upto(b, i)->0;
    assert(sim_upto(b, i + 1) == sim_step(smi, b[i]));
    let mid = body_mid(b, i, st0);
    let p = st0.ptr + smi.ptr - MEMORY_OFFSET;
    lemma_tape_apply_len(st0.tape, st0.ptr, smi.mem, 1);
    if 0 <= p < st0.tape.len() {
        lemma_tape_apply_at(st0.tape, st0.ptr, smi.mem, 1, p);
        assert(1 * smi.mem[smi.ptr] == smi.mem[smi.ptr]) by (nonlinear_arith);
        match b[i] {
            IrNode::Increment => {
                lemma_apply_update(st0.tape, st0.ptr, smi.mem, 1, smi.ptr, 1, 1, true);
                assert(((1 * 1) % 256) as u8 == 1u8);
            },
            IrNode::Decrement => {
                lemma_apply_update(st0.tape, st0.ptr, smi.mem, 1, smi.ptr, 1, 1, false);
                assert(((1 * 1) % 256) as u8 == 1u8);
            },
            IrNode::Add(v) => {
                assert(((v * 1) % 256) as u8 == v) by (nonlinear_arith);
                lemma_apply_update(st0.tape, st0.ptr, smi.mem, 1, smi.ptr, v, v, true);
            },
            IrNode::Subtract(v) => {
                assert(((v * 1) % 256) as u8 == v) by (nonlinear_arith);
                lemma_apply_update(st0.tape, st0.ptr, smi.mem, 1, smi.ptr, v, v, false);
            },
            IrNode::PointerIncrement => {},
            IrNode::PointerDecrement => {},
            IrNode::PointerAdd(v) => {},
            IrNode::PointerSubtract(v) => {},
            _ => {
                assert(false);
            },
        }
    }
}

/// A candidate body runs as its simulation says: from any starting state
/// whose walked positions are on the tape, it ends at the simulated
/// endpoint; if the walk leaves the tape, it faults.
#[verifier::spinoff_prover]
proof fn lemma_body_runs(b: Seq<IrNode>, i: int, input: Seq<u8>, st0: MachineState, fuel: nat)
    requires
        spec_sim(b) is Some,
        0 <= i <= b.len(),
    ensures
        run_body(b.skip(i), input, body_mid(b, i, st0), fuel) == (if walk_from(b, i, st0) {
            Option::Some(body_mid(b, b.len() as int, st0))
        } else {
            Option::None::<MachineState>
        }),
    decreases b.len() - i,
{
    if i == b.len() {
        assert(b.skip(i) =~= Seq::<IrNode>::empty());
    } else {
        assert(b.skip(i)[0] == b[i]);
        assert(b.skip(i).drop_first() =~= b.skip(i + 1));
        lemma_body_step(b, i, input, st0, fuel);
        lemma_body_runs(b, i + 1, input, st0, fuel);
        if walk_from(b, i, st0) {
            assert(0 <= st0.ptr + sim_pos(b, i) - MEMORY_OFFSET < st0.tape.len());
            assert(0 <= st0.ptr + sim_pos(b, i + 1) - MEMORY_OFFSET < st0.tape.len());
            assert(walk_from(b, i + 1, st0));
        } else {
            if 0 <= st0.ptr + sim_pos(b, i) - MEMORY_OFFSET < st0.tape.len() && 0 <= st0.ptr
                + sim_pos(b, i + 1) - MEMORY_OFFSET < st0.tape.len() {
                assert(!walk_from(b, i + 1, st0)) by {
                    if walk_from(b, i + 1, st0) {
                        assert forall|j: int|
                            #![trigger sim_pos(b, j)]
                            i <= j <= b.len() implies 0 <= st0.ptr + sim_pos(b, j) - MEMORY_OFFSET
                            < st0.tape.len() by {
                            if j > i && i + 1 < b.len() {
                                assert(0 <= st0.ptr + sim_pos(b, j) - MEMORY_OFFSET
                                    < st0.tape.len());
                            }
                        }
                        assert(walk_from(b, i, st0));
                    }
                }
            }
        }
    }
}

/// Applying zero copies of a window changes nothing.
#[verifier::spinoff_prover]
proof fn lemma_tape_apply_m0(t: Seq<u8>, ctl: int, w: Seq<u8>)
    ensures
        tape_apply(t, ctl, w, 0) == t,
{
    lemma_tape_apply_len(t, ctl, w, 0);
    assert forall|x: int| 0 <= x < t.len() implies tape_apply(t, ctl, w, 0)[x] == t[x] by {
        lemma_tape_apply_at(t, ctl, w, 0, x);
        if ctl - MEMORY_OFFSET <= x < ctl - MEMORY_OFFSET + w.len() {
            assert(0 * w[x - ctl + MEMORY_OFFSET] == 0) by (nonlinear_arith);
        }
    }
    assert(tape_apply(t, ctl, w, 0) =~= t);
}

/// One more copy of the window folds into the count.
#[verifier::spinoff_prover]
proof fn lemma_tape_apply_iterate(t: Seq<u8>, ctl: int, w: Seq<u8>, k: int)
    requires
        k >= 1,
    ensures
        tape_apply(tape_apply(t, ctl, w, 1), ctl, w, k - 1) == tape_apply(t, ctl, w, k),
{
    let t1 = tape_apply(t, ctl, w, 1);
    lemma_tape_apply_len(t, ctl, w, 1);
    lemma_tape_apply_len(t1, ctl, w, k - 1);
    lemma_tape_apply_len(t, ctl, w, k);
    assert forall|x: int| 0 <= x < t.len() implies tape_apply(t1, ctl, w, k - 1)[x] == tape_apply(
        t,
        ctl,
        w,
        k,
    )[x] by {
        lemma_tape_apply_at(t1, ctl, w, k - 1, x);
        lemma_tape_apply_at(t, ctl, w, 1, x);
        lemma_tape_apply_at(t, ctl, w, k, x);
        if ctl - MEMORY_OFFSET <= x < ctl - MEMORY_OFFSET + w.len() {
            let a = t[x] as int;
            let d = w[x - ctl + MEMORY_OFFSET] as int;
            assert(1 * d == d && (k - 1) * d + (a + d) == a + k * d) by (nonlinear_arith);
            vstd::arithmetic::div_mod::lemma_add_mod_noop_right(
                (k - 1) * d,
                a + d,
                256,
            );
            assert(((a + d) % 256 + (k - 1) * d) % 256 == (a + k * d) % 256);
        }
    }
    assert(tape_apply(t1, ctl, w, k - 1) =~= tape_apply(t, ctl, w, k));
}

/// How many iterations a unit-stride loop makes, from a control value.
pub open spec fn iter_count(delta: u8, c: u8) -> nat {
    if delta == 255 {
        c as nat
    } else {
        ((256 - c) % 256) as nat
    }
}

/// The state a unit-stride loop leaves behind: the walked window applied
/// once per iteration; the control cell comes out at zero.
pub open spec fn loop_final(b: Seq<IrNode>, st0: MachineState, k: int) -> MachineState {
    MachineState {
        ptr: st0.ptr,
        tape: tape_apply(st0.tape, st0.ptr, spec_sim(b)->0.mem, k),
        pos: st0.pos,
        output: st0.output,
    }
}

/// A unit-stride loop whose walk stays on the tape runs its body once per
/// count of the control cell, when the fuel suffices, and runs out of fuel
/// otherwise.
#[verifier::spinoff_prover]
proof fn lemma_loop_runs(b: Seq<IrNode>, input: Seq<u8>, st0: MachineState, fuel: nat)
    requires
        spec_sim(b) is Some,
        sim_pos(b, b.len() as int) == MEMORY_OFFSET,
        spec_sim(b)->0.mem[MEMORY_OFFSET as int] == 1 || spec_sim(b)->0.mem[
            MEMORY_OFFSET as int
        ] == 255,
        0 <= st0.ptr < st0.tape.len(),
        walk_from(b, 0, st0),
    ensures
        ({
            let delta = spec_sim(b)->0.mem[MEMORY_OFFSET as int];
            let k = iter_count(delta, st0.tape[st0.ptr]);
            run_node(IrNode::Loop(b), input, st0, fuel) == (if fuel >= k {
                Option::Some(loop_final(b, st0, k as int))
            } else {
                Option::None::<MachineState>
            })
        }),
    decreases iter_count(
        spec_sim(b)->0.mem[MEMORY_OFFSET as int],
        st0.tape[st0.ptr],
    ),
{
    let w = spec_sim(b)->0.mem;
    let delta = w[MEMORY_OFFSET as int];
    let ctl = st0.ptr;
    let c = st0.tape[ctl];
    let k = iter_count(delta, c);
    lemma_sim_valid(b, b.len() as int);
    if c == 0 {
        assert(k == 0);
        lemma_tape_apply_m0(st0.tape, ctl, w);
        assert(loop_final(b, st0, 0) == st0);
    } else {
        assert(k >= 1);
        if fuel == 0 {
            assert(run_node(IrNode::Loop(b), input, st0, fuel) is None);
        } else {
            lemma_sim_prefix(b, 0, b.len() as int);
            lemma_tape_apply_init(st0.tape, ctl, 1);
            assert(body_mid(b, 0, st0) == st0);
            lemma_body_runs(b, 0, input, st0, fuel);
            assert(b.skip(0) =~= b);
            let st1 = body_mid(b, b.len() as int, st0);
            assert(run_body(b, input, st0, fuel) == Option::Some(st1));
            assert(st1.ptr == ctl);
            lemma_tape_apply_len(st0.tape, ctl, w, 1);
            lemma_tape_apply_at(st0.tape, ctl, w, 1, ctl);
            assert(st1.tape[ctl] == mixed_cell(c, 1, delta));
            assert(1 * delta == delta) by (nonlinear_arith);
            let c1 = st1.tape[ctl];
            assert(c1 == ((c + delta) % 256) as u8);
            assert(iter_count(delta, c1) == k - 1);
            assert(walk_from(b, 0, st1)) by {
                assert(st1.tape.len() == st0.tape.len());
            }
            lemma_loop_runs(b, input, st1, (fuel - 1) as nat);
            lemma_tape_apply_iterate(st0.tape, ctl, w, k as int);
            assert(loop_final(b, st1, k - 1) == loop_final(b, st0, k as int));
        }
    }
}

/// The state reached after the first `i` replayed instructions: the window
/// applied once per unit of the control value, which itself is untouched.
pub open spec fn replay_mid(b: Seq<IrNode>, i: int, st1: MachineState) -> MachineState {
    MachineState {
        ptr: st1.ptr + sim_pos(b, i) - MEMORY_OFFSET,
        tape: tape_apply(
            st1.tape,
            st1.ptr,
            sim_upto(b, i)->0.mem,
            st1.tape[st1.ptr] as int,
        ).update(st1.ptr, st1.tape[st1.ptr]),
        pos: st1.pos,
        output: st1.output,
    }
}

/// The replayed block walks and writes as the body does, only with every
/// contribution scaled by the control value, and the control cell kept.
#[verifier::spinoff_prover]
proof fn lemma_replay_runs(b: Seq<IrNode>, i: int, input: Seq<u8>, st1: MachineState, fuel: nat)
    requires
        spec_sim(b) is Some,
        no_control_folds(b),
        0 <= i <= b.len(),
        0 <= st1.ptr < st1.tape.len(),
    ensures
        run_body(
            rewrite_from(b, i, sim_pos(b, i) - MEMORY_OFFSET),
            input,
            replay_mid(b, i, st1),
            fuel,
        ) == (if walk_from(b, i, st1) {
            Option::Some(replay_mid(b, b.len() as int, st1))
        } else {
            Option::None::<MachineState>
        }),
    decreases b.len() - i,
{
    let m = st1.tape[st1.ptr];
    let ctl = st1.ptr;
    lemma_tape_apply_len(st1.tape, ctl, sim_upto(b, i)->0.mem, m as int);
    if i == b.len() {
    } else {
        lemma_sim_prefix(b, i + 1, b.len() as int);
        lemma_sim_prefix(b, i, i + 1);
        lemma_sim_valid(b, i);
        lemma_sim_valid(b, i + 1);
        let smi = sim_upto(b, i)->0;
        let smi1 = sim_upto(b, i + 1)->0;
        assert(sim_upto(b, i + 1) == sim_step(smi, b[i]));
        let off = smi.ptr - MEMORY_OFFSET;
        let mid = replay_mid(b, i, st1);
        let mid1 = replay_mid(b, i + 1, st1);
        lemma_tape_apply_at(st1.tape, ctl, smi.mem, m as int, ctl);
        assert(mid.tape.len() == st1.tape.len());
        assert(mid.tape[ctl] == m);
        lemma_replay_runs(b, i + 1, input, st1, fuel);
        let emitted = rewrite_one(b[i], off);
        let rest = rewrite_from(b, i + 1, smi1.ptr - MEMORY_OFFSET);
        assert(offset_after(b[i], off) == smi1.ptr - MEMORY_OFFSET);
        assert(rewrite_from(b, i, off) == emitted + rest);
        lemma_run_body_concat(emitted, rest, input, mid, fuel);
        let ok = 0 <= st1.ptr + sim_pos(b, i) - MEMORY_OFFSET < st1.tape.len() && 0 <= st1.ptr
            + sim_pos(b, i + 1) - MEMORY_OFFSET < st1.tape.len();
        if ok {
            assert(run_body(emitted, input, mid, fuel) == Option::Some(mid1)) by {
                lemma_replay_step(b, i, input, st1, fuel);
            }
            if walk_from(b, i, st1) {
                assert(walk_from(b, i + 1, st1));
            } else {
                assert(!walk_from(b, i + 1, st1)) by {
                    if walk_from(b, i + 1, st1) {
                        assert forall|j: int|
                            #![trigger sim_pos(b, j)]
                            i <= j <= b.len() implies 0 <= st1.ptr + sim_pos(b, j) - MEMORY_OFFSET
                            < st1.tape.len() by {
                            if j > i && i + 1 < b.len() {
                                assert(0 <= st1.ptr + sim_pos(b, j) - MEMORY_OFFSET
                                    < st1.tape.len());
                            }
                        }
                        assert(walk_from(b, i, st1));
                    }
                }
            }
        } else {
            assert(run_body(emitted, input, mid, fuel) is None) by {
                lemma_replay_step(b, i, input, st1, fuel);
            }
            assert(!walk_from(b, i, st1));
        }
    }
}

/// One replayed instruction: scaled write, or a kept pointer move.
#[verifier::spinoff_prover]
proof fn lemma_replay_step(b: Seq<IrNode>, i: int, input: Seq<u8>, st1: MachineState, fuel: nat)
    requires
        spec_sim(b) is Some,
        no_control_folds(b),
        0 <= i < b.len(),
        0 <= st1.ptr < st1.tape.len(),
    ensures
        run_body(
            rewrite_one(b[i], sim_pos(b, i) - MEMORY_OFFSET),
            input,
            replay_mid(b, i, st1),
            fuel,
        ) == (if 0 <= st1.ptr + sim_pos(b, i) - MEMORY_OFFSET < st1.tape.len() && 0 <= st1.ptr
            + sim_pos(b, i + 1) - MEMORY_OFFSET < st1.tape.len() {
            Option::Some(replay_mid(b, i + 1, st1))
        } else {
            Option::None::<MachineState>
        }),
{
    let m = st1.tape[st1.ptr];
    let ctl = st1.ptr;
    lemma_sim_prefix(b, i + 1, b.len() as int);
    lemma_sim_prefix(b, i, i + 1);
    lemma_sim_valid(b, i);
    lemma_sim_valid(b, i + 1);
    let smi = sim_upto(b, i)->0;
    assert(sim_upto(b, i + 1) == sim_step(smi, b[i]));
    let off = smi.ptr - MEMORY_OFFSET;
    let mid = replay_mid(b, i, st1);
    let mid1 = replay_mid(b, i + 1, st1);
    let p = ctl + off;
    let applied = tape_apply(st1.tape, ctl, smi.mem, m as int);
    lemma_tape_apply_len(st1.tape, ctl, smi.mem, m as int);
    lemma_tape_apply_at(st1.tape, ctl, smi.mem, m as int, ctl);
    assert(mid.tape.len() == st1.tape.len());
    assert(mid.tape[ctl] == m);
    let emitted = rewrite_one(b[i], off);
    if 0 <= p < st1.tape.len() {
        assert(mid.ptr == p);
        match b[i] {
            IrNode::Increment => {
                if off == 0 {
                    assert(emitted =~= Seq::<IrNode>::empty());
                    lemma_keep_center_update(st1, smi.mem, 1, true);
                } else {
                    lemma_replay_write(b, i, st1, 1, m, true);
                    assert(run_body(emitted, input, mid, fuel) == run_node(
                        emitted[0],
                        input,
                        mid,
                        fuel,
                    )) by {
                        lemma_single(emitted, input, mid, fuel);
                    }
                }
            },
            IrNode::Decrement => {
                if off == 0 {
                    assert(emitted =~= Seq::<IrNode>::empty());
                    lemma_keep_center_update(st1, smi.mem, 1, false);
                } else {
                    lemma_replay_write(b, i, st1, 1, m, false);
                    lemma_single(emitted, input, mid, fuel);
                }
            },
            IrNode::Add(v) => {
                assert(off != 0);
                lemma_replay_write(b, i, st1, v, u8_specs::wrapping_mul(v, m), true);
                lemma_single(emitted, input, mid, fuel);
            },
            IrNode::Subtract(v) => {
                assert(off != 0);
                lemma_replay_write(b, i, st1, v, u8_specs::wrapping_mul(v, m), false);
                lemma_single(emitted, input, mid, fuel);
            },
            IrNode::PointerIncrement => {
                lemma_single(emitted, input, mid, fuel);
            },
            IrNode::PointerDecrement => {
                lemma_single(emitted, input, mid, fuel);
            },
            IrNode::PointerAdd(v) => {
                lemma_single(emitted, input, mid, fuel);
            },
            IrNode::PointerSubtract(v) => {
                lemma_single(emitted, input, mid, fuel);
            },
            _ => {
                assert(false);
            },
        }
    }
}

/// A singleton block runs as its one instruction does.
proof fn lemma_single(s: Seq<IrNode>, input: Seq<u8>, st: MachineState, fuel: nat)
    requires
        s.len() == 1,
    ensures
        run_body(s, input, st, fuel) == (match run_node(s[0], input, st, fuel) {
            Option::None => Option::None::<MachineState>,
            Option::Some(st2) => Option::Some(st2),
        }),
{
    assert(s.drop_first() =~= Seq::<IrNode>::empty());
    match run_node(s[0], input, st, fuel) {
        Option::None => {},
        Option::Some(st2) => {
            assert(run_body(s.drop_first(), input, st2, fuel) == Option::Some(st2));
        },
    }
}

/// A bare control-cell step of the body changes nothing in the replay: the
/// kept control cell hides the window's center.
proof fn lemma_keep_center_update(st1: MachineState, w: Seq<u8>, v: u8, add: bool)
    requires
        0 <= st1.ptr < st1.tape.len(),
        w.len() == MEMORY_SIZE,
    ensures
        ({
            let m = st1.tape[st1.ptr] as int;
            let nw = if add {
                u8_specs::wrapping_add(w[MEMORY_OFFSET as int], v)
            } else {
                u8_specs::wrapping_sub(w[MEMORY_OFFSET as int], v)
            };
            tape_apply(st1.tape, st1.ptr, w.update(MEMORY_OFFSET as int, nw), m).update(
                st1.ptr,
                st1.tape[st1.ptr],
            ) == tape_apply(st1.tape, st1.ptr, w, m).update(st1.ptr, st1.tape[st1.ptr])
        }),
{
    let m = st1.tape[st1.ptr] as int;
    let nw = if add {
        u8_specs::wrapping_add(w[MEMORY_OFFSET as int], v)
    } else {
        u8_specs::wrapping_sub(w[MEMORY_OFFSET as int], v)
    };
    let d = ((v * m) % 256) as u8;
    lemma_apply_update(st1.tape, st1.ptr, w, m, MEMORY_OFFSET as int, v, d, add);
    lemma_tape_apply_len(st1.tape, st1.ptr, w, m);
    assert(tape_apply(st1.tape, st1.ptr, w.update(MEMORY_OFFSET as int, nw), m).update(
        st1.ptr,
        st1.tape[st1.ptr],
    ) =~= tape_apply(st1.tape, st1.ptr, w, m).update(st1.ptr, st1.tape[st1.ptr]));
}

/// One scaled write of the replay matches one window update of the body.
proof fn lemma_replay_write(b: Seq<IrNode>, i: int, st1: MachineState, v: u8, d: u8, add: bool)
    requires
        spec_sim(b) is Some,
        0 <= i < b.len(),
        0 <= st1.ptr < st1.tape.len(),
        sim_upto(b, i) is Some,
        sim_upto(b, i + 1) is Some,
        d == ((v * st1.tape[st1.ptr]) % 256) as u8,
        sim_pos(b, i) != MEMORY_OFFSET,
        0 <= st1.ptr + sim_pos(b, i) - MEMORY_OFFSET < st1.tape.len(),
        sim_upto(b, i + 1)->0.mem == sim_upto(b, i)->0.mem.update(
            sim_pos(b, i),
            if add {
                u8_specs::wrapping_add(sim_upto(b, i)->0.mem[sim_pos(b, i)], v)
            } else {
                u8_specs::wrapping_sub(sim_upto(b, i)->0.mem[sim_pos(b, i)], v)
            },
        ),
        sim_upto(b, i + 1)->0.ptr == sim_pos(b, i),
    ensures
        ({
            let m = st1.tape[st1.ptr] as int;
            let p = st1.ptr + sim_pos(b, i) - MEMORY_OFFSET;
            let mid_tape = tape_apply(st1.tape, st1.ptr, sim_upto(b, i)->0.mem, m).update(
                st1.ptr,
                st1.tape[st1.ptr],
            );
            let nc = if add {
                u8_specs::wrapping_add(mid_tape[p], d)
            } else {
                u8_specs::wrapping_sub(mid_tape[p], d)
            };
            mid_tape.update(p, nc) == tape_apply(
                st1.tape,
                st1.ptr,
                sim_upto(b, i + 1)->0.mem,
                m,
            ).update(st1.ptr, st1.tape[st1.ptr])
        }),
{
    lemma_sim_valid(b, i);
    let m = st1.tape[st1.ptr] as int;
    let w = sim_upto(b, i)->0.mem;
    let wi = sim_pos(b, i);
    let p = st1.ptr + wi - MEMORY_OFFSET;
    let applied = tape_apply(st1.tape, st1.ptr, w, m);
    lemma_tape_apply_len(st1.tape, st1.ptr, w, m);
    lemma_apply_update(st1.tape, st1.ptr, w, m, wi, v, d, add);
    let mid_tape = applied.update(st1.ptr, st1.tape[st1.ptr]);
    assert(mid_tape[p] == applied[p]);
    let nc = if add {
        u8_specs::wrapping_add(mid_tape[p], d)
    } else {
        u8_specs::wrapping_sub(mid_tape[p], d)
    };
    assert(mid_tape.update(p, nc) =~= tape_apply(
        st1.tape,
        st1.ptr,
        sim_upto(b, i + 1)->0.mem,
        m,
    ).update(st1.ptr, st1.tape[st1.ptr]));
}

/// A unit-stride control cell comes out at zero after its iteration count.
#[verifier::spinoff_prover]
proof fn lemma_iter_zero(delta: u8, c: u8)
    requires
        delta == 1 || delta == 255,
    ensures
        (c + iter_count(delta, c) * delta) % 256 == 0,
{
    let k = iter_count(delta, c);
    if delta == 255 {
        assert(c + (k as int) * (delta as int) == 256 * (c as int)) by (nonlinear_arith)
            requires
                k == c as nat,
                delta == 255,
        ;
        vstd::arithmetic::div_mod::lemma_mod_multiples_basic(c as int, 256);
    } else {
        assert((k as int) * (delta as int) == k) by (nonlinear_arith)
            requires
                delta == 1,
        ;
        if c == 0 {
        } else {
            assert(c + k == 256);
        }
    }
}

/// Clearing the control cell of the replayed result gives exactly the
/// loop's final tape.
#[verifier::spinoff_prover]
proof fn lemma_final_tape(b: Seq<IrNode>, st: MachineState, st1: MachineState, k: nat)
    requires
        spec_sim(b) is Some,
        0 <= st.ptr < st.tape.len(),
        st1.tape.len() == st.tape.len(),
        st1.tape[st.ptr] as nat == k,
        forall|x: int| 0 <= x < st.tape.len() && x != st.ptr ==> st1.tape[x] == st.tape[x],
        (st.tape[st.ptr] + k * spec_sim(b)->0.mem[MEMORY_OFFSET as int]) % 256 == 0,
    ensures
        tape_apply(st1.tape, st.ptr, spec_sim(b)->0.mem, k as int).update(st.ptr, 0) == tape_apply(
            st.tape,
            st.ptr,
            spec_sim(b)->0.mem,
            k as int,
        ),
{
    let ctl = st.ptr;
    let w = spec_sim(b)->0.mem;
    lemma_sim_valid(b, b.len() as int);
    lemma_tape_apply_len(st1.tape, ctl, w, k as int);
    lemma_tape_apply_len(st.tape, ctl, w, k as int);
    assert forall|x: int| 0 <= x < st.tape.len() implies tape_apply(
        st1.tape,
        ctl,
        w,
        k as int,
    ).update(ctl, 0)[x] == tape_apply(st.tape, ctl, w, k as int)[x] by {
        lemma_tape_apply_at(st.tape, ctl, w, k as int, x);
        if x == ctl {
            assert(tape_apply(st.tape, ctl, w, k as int)[ctl] == mixed_cell(st.tape[ctl], k as int, w[MEMORY_OFFSET as int]));
        } else {
            lemma_tape_apply_at(st1.tape, ctl, w, k as int, x);
        }
    }
    assert(tape_apply(st1.tape, ctl, w, k as int).update(ctl, 0) =~= tape_apply(
        st.tape,
        ctl,
        w,
        k as int,
    ));
}

/// The rewritten block runs, from a nonzero control cell, to the replayed
/// tape with the control cell cleared.
#[verifier::rlimit(100)]
#[verifier::spinoff_prover]
proof fn lemma_rewritten_runs(
    b: Seq<IrNode>,
    input: Seq<u8>,
    st: MachineState,
    fuel: nat,
    negate: bool,
)
    requires
        spec_sim(b) is Some,
        sim_pos(b, b.len() as int) == MEMORY_OFFSET,
        no_control_folds(b),
        0 <= st.ptr < st.tape.len(),
        st.tape[st.ptr] != 0,
        walk_from(b, 0, st),
    ensures
        ({
            let st1 = if negate {
                MachineState {
                    tape: st.tape.update(st.ptr, u8_specs::wrapping_sub(0, st.tape[st.ptr])),
                    ..st
                }
            } else {
                st
            };
            let m = st1.tape[st.ptr];
            run_node(rewritten_loop(b, negate), input, st, fuel) == Option::Some(
                MachineState {
                    ptr: st.ptr,
                    tape: tape_apply(st1.tape, st.ptr, spec_sim(b)->0.mem, m as int).update(
                        st.ptr,
                        0,
                    ),
                    pos: st.pos,
                    output: st.output,
                },
            )
        }),
{
    let w = spec_sim(b)->0.mem;
    let ctl = st.ptr;
    let c = st.tape[ctl];
    lemma_sim_valid(b, b.len() as int);
    let neg_seq = if negate {
        seq![IrNode::Negate]
    } else {
        Seq::<IrNode>::empty()
    };
    let sz = seq![IrNode::SetZero, IrNode::SetZero];
    let guard_body = neg_seq + rewrite_from(b, 0, 0) + sz;
    assert(rewritten_loop(b, negate) == IrNode::IfNotZero(guard_body));
    let st1 = if negate {
        MachineState { tape: st.tape.update(ctl, u8_specs::wrapping_sub(0, c)), ..st }
    } else {
        st
    };
    let m = st1.tape[ctl];
    assert(st1.tape.len() == st.tape.len());
    assert(run_body(neg_seq, input, st, fuel) == Option::Some(st1)) by {
        if negate {
            lemma_single(neg_seq, input, st, fuel);
        }
    }
    lemma_tape_apply_init(st1.tape, ctl, m as int);
    assert(replay_mid(b, 0, st1) == st1) by {
        assert(st1.tape.update(ctl, st1.tape[ctl]) =~= st1.tape);
    }
    assert(walk_from(b, 0, st1));
    lemma_replay_runs(b, 0, input, st1, fuel);
    let r_end = replay_mid(b, b.len() as int, st1);
    assert(run_body(rewrite_from(b, 0, 0), input, st1, fuel) == Option::Some(r_end));
    assert(r_end.ptr == ctl);
    lemma_tape_apply_len(st1.tape, ctl, w, m as int);
    assert(r_end.tape.len() == st.tape.len());
    let zeroed = MachineState { tape: r_end.tape.update(ctl, 0), ..r_end };
    assert(run_body(sz, input, r_end, fuel) == Option::Some(zeroed)) by {
        assert(sz.drop_first() =~= seq![IrNode::SetZero]);
        let mid_sz = MachineState { tape: r_end.tape.update(ctl, 0), ..r_end };
        assert(sz[0] == IrNode::SetZero);
        assert(run_node(IrNode::SetZero, input, r_end, fuel) == Option::Some(mid_sz));
        lemma_single(seq![IrNode::SetZero], input, mid_sz, fuel);
        assert(seq![IrNode::SetZero][0] == IrNode::SetZero);
        let z2 = MachineState { tape: mid_sz.tape.update(ctl, 0), ..mid_sz };
        assert(run_node(IrNode::SetZero, input, mid_sz, fuel) == Option::Some(z2));
        assert(z2.tape =~= zeroed.tape);
        assert(run_body(sz, input, r_end, fuel) == run_body(
            sz.drop_first(),
            input,
            mid_sz,
            fuel,
        ));
    }
    assert(guard_body =~= neg_seq + (rewrite_from(b, 0, 0) + sz));
    lemma_run_body_concat(neg_seq, rewrite_from(b, 0, 0) + sz, input, st, fuel);
    lemma_run_body_concat(rewrite_from(b, 0, 0), sz, input, st1, fuel);
    assert(run_body(guard_body, input, st, fuel) == Option::Some(zeroed));
    assert(zeroed.tape =~= tape_apply(st1.tape, ctl, w, m as int).update(ctl, 0));
}

/// The multiply-loop rewrite preserves execution. For a loop body the
/// analysis admits — simulation succeeds, ends back on the control cell
/// with a net stride of +1 or 255, and no fused `Add` or `Subtract` falls
/// on the control cell — the guarded straight-line replacement reaches
/// exactly the state the loop reaches, output included, whenever the loop
/// terminates within the fuel bound.
#[verifier::rlimit(100)]
#[verifier::spinoff_prover]
pub proof fn lemma_rewrite_preserves_loop(
    b: Seq<IrNode>,
    input: Seq<u8>,
    st: MachineState,
    fuel: nat,
)
    requires
        spec_sim(b) is Some,
        spec_sim(b)->0.ptr == MEMORY_OFFSET,
        spec_sim(b)->0.mem[MEMORY_OFFSET as int] == 1 || spec_sim(b)->0.mem[
            MEMORY_OFFSET as int
        ] == 255,
        no_control_folds(b),
        run_node(IrNode::Loop(b), input, st, fuel) is Some,
    ensures
        run_node(
            rewritten_loop(b, spec_sim(b)->0.mem[MEMORY_OFFSET as int] == 1),
            input,
            st,
            fuel,
        ) == run_node(IrNode::Loop(b), input, st, fuel),
{
    let w = spec_sim(b)->0.mem;
    let delta = w[MEMORY_OFFSET as int];
    let negate = delta == 1;
    assert(on_tape(st));
    let ctl = st.ptr;
    let c = st.tape[ctl];
    lemma_sim_valid(b, b.len() as int);
    if c == 0 {
        assert(run_node(IrNode::Loop(b), input, st, fuel) == Option::Some(st));
        assert(run_node(rewritten_loop(b, negate), input, st, fuel) == Option::Some(st));
    } else {
        assert(fuel > 0);
        lemma_sim_prefix(b, 0, b.len() as int);
        lemma_tape_apply_init(st.tape, ctl, 1);
        assert(body_mid(b, 0, st) == st);
        lemma_body_runs(b, 0, input, st, fuel);
        assert(b.skip(0) =~= b);
        assert(walk_from(b, 0, st));
        lemma_loop_runs(b, input, st, fuel);
        let k = iter_count(delta, c);
        assert(fuel >= k);
        let fin = loop_final(b, st, k as int);
        assert(run_node(IrNode::Loop(b), input, st, fuel) == Option::Some(fin));

        lemma_rewritten_runs(b, input, st, fuel, negate);
        let st1 = if negate {
            MachineState { tape: st.tape.update(ctl, u8_specs::wrapping_sub(0, c)), ..st }
        } else {
            st
        };
        let m = st1.tape[ctl];
        lemma_wrap_is_mod(0, c);
        assert(m as int == k);
        lemma_iter_zero(delta, c);
        lemma_final_tape(b, st, st1, k);
        assert(run_node(rewritten_loop(b, negate), input, st, fuel) == Option::Some(fin));
    }
}

/// Whether the pass rewrites a loop with this body: the body is
/// admissible, and its simulation ends back on the control cell with a
/// unit stride.
pub open spec fn loop_rewritten(b: Seq<IrNode>) -> bool {
    let r = spec_mul_seq(b);
    r.1 && spec_sim(r.0) is Some && spec_sim(r.0)->0.ptr == MEMORY_OFFSET && (spec_sim(
        r.0,
    )->0.mem[MEMORY_OFFSET as int] == 1 || spec_sim(r.0)->0.mem[MEMORY_OFFSET as int] == 255)
}

/// Whether every loop the pass rewrites in this node keeps its fused
/// arithmetic off the control cell; on such programs the rewrite is
/// behavior-preserving.
pub open spec fn node_rewrite_safe(n: IrNode) -> bool
    decreases n,
{
    match n {
        IrNode::Loop(b) => seq_rewrite_safe(b) && (loop_rewritten(b) ==> no_control_folds(
            spec_mul_seq(b).0,
        )),
        _ => true,
    }
}

/// `node_rewrite_safe`, over a whole sequence.
pub open spec fn seq_rewrite_safe(p: Seq<IrNode>) -> bool
    decreases p,
{
    p.len() == 0 || (node_rewrite_safe(p[0]) && seq_rewrite_safe(p.drop_first()))
}

/// The pass preserves one node, whenever the original run terminates.
proof fn lemma_mul_node_preserves(n: IrNode, input: Seq<u8>, st: MachineState, fuel: nat)
    requires
        node_rewrite_safe(n),
        run_node(n, input, st, fuel) is Some,
    ensures
        run_node(spec_mul_one(n).0, input, st, fuel) == run_node(n, input, st, fuel),
    decreases n, fuel, 1int,
{
    match n {
        IrNode::Loop(b) => {
            let r = spec_mul_seq(b);
            lemma_mul_loop_preserves(b, input, st, fuel);
            if loop_rewritten(b) {
                lemma_rewrite_preserves_loop(r.0, input, st, fuel);
            }
        },
        _ => {},
    }
}

/// The pass preserves a loop node whose body it only optimizes.
proof fn lemma_mul_loop_preserves(b: Seq<IrNode>, input: Seq<u8>, st: MachineState, fuel: nat)
    requires
        seq_rewrite_safe(b),
        run_node(IrNode::Loop(b), input, st, fuel) is Some,
    ensures
        run_node(IrNode::Loop(spec_mul_seq(b).0), input, st, fuel) == run_node(
            IrNode::Loop(b),
            input,
            st,
            fuel,
        ),
    decreases b, fuel, 2int,
{
    if on_tape(st) && st.tape[st.ptr] != 0 && fuel > 0 {
        match run_body(b, input, st, fuel) {
            Option::None => {},
            Option::Some(st2) => {
                lemma_mul_body_preserves(b, input, st, fuel);
                lemma_mul_loop_preserves(b, input, st2, (fuel - 1) as nat);
            },
        }
    }
}

/// The pass preserves a whole sequence, whenever the original run
/// terminates.
proof fn lemma_mul_body_preserves(p: Seq<IrNode>, input: Seq<u8>, st: MachineState, fuel: nat)
    requires
        seq_rewrite_safe(p),
        run_body(p, input, st, fuel) is Some,
    ensures
        run_body(spec_mul_seq(p).0, input, st, fuel) == run_body(p, input, st, fuel),
    decreases p, fuel, 0int,
{
    if p.len() > 0 {
        let one = spec_mul_one(p[0]).0;
        let rest = spec_mul_seq(p.drop_first()).0;
        assert(spec_mul_seq(p).0 == seq![one] + rest);
        match run_node(p[0], input, st, fuel) {
            Option::None => {
                assert(false);
            },
            Option::Some(st2) => {
                lemma_mul_node_preserves(p[0], input, st, fuel);
                lemma_mul_body_preserves(p.drop_first(), input, st2, fuel);
                lemma_run_body_concat(seq![one], rest, input, st, fuel);
                lemma_single(seq![one], input, st, fuel);
                assert(seq![one][0] == one);
            },
        }
    }
}

/// The multiply-loop pass preserves observable behavior: on a program
/// whose rewritten loops keep their fused arithmetic off the control cell,
/// the optimized program reaches exactly the state the original reaches —
/// output included — whenever the original terminates within the fuel
/// bound.
pub proof fn lemma_mul_pass_preserves_execution(
    p: Seq<IrNode>,
    input: Seq<u8>,
    st: MachineState,
    fuel: nat,
)
    requires
        seq_rewrite_safe(p),
        run_body(p, input, st, fuel) is Some,
    ensures
        run_body(spec_mul_seq(p).0, input, st, fuel) == run_body(p, input, st, fuel),
{
    lemma_mul_body_preserves(p, input, st, fuel);
}

/// The whole optimizer preserves observable behavior, for every option
/// set: whenever the original program terminates within the fuel bound,
/// the optimized program reaches exactly the same state. When the
/// multiply-loop pass is selected, its rewritten loops must keep their
/// fused arithmetic off the control cell.
pub proof fn lemma_optimize_preserves_execution(
    p: Seq<IrNode>,
    options: Seq<Optimization>,
    input: Seq<u8>,
    st: MachineState,
    fuel: nat,
)
    requires
        ir_bounded(p),
        enables(options, Optimization::MulLoop) ==> seq_rewrite_safe(
            if enables(options, Optimization::ConsecutiveIncDec) {
                spec_fold(p)
            } else {
                p
            },
        ),
        run_body(p, input, st, fuel) is Some,
    ensures
        run_body(spec_optimize(p, options), input, st, fuel) == run_body(p, input, st, fuel),
{
    let folded = if enables(options, Optimization::ConsecutiveIncDec) {
        spec_fold(p)
    } else {
        p
    };
    if enables(options, Optimization::ConsecutiveIncDec) {
        lemma_fold_preserves_execution(p, input, st, fuel);
    }
    if enables(options, Optimization::MulLoop) {
        lemma_mul_pass_preserves_execution(folded, input, st, fuel);
    }
}

} // verus!
