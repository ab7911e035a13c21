//! The virtual machine: a flat instruction set with absolute jump targets,
//! and a pure interpreter over a 30,000-cell tape. Input is a byte sequence
//! (a read past its end yields zero, as end-of-file does); output is the byte
//! sequence the program wrote. A fuel bound makes the interpreter total; the
//! small-step specification `vm_run` pins the whole outcome.

use vstd::prelude::*;

use vstd::wrapping::u8_specs;

verus! {

/// The number of cells on the tape.
pub const TAPE_LEN: usize = 30000;

/// One flat virtual-machine instruction.
#[derive(Debug, Clone, Copy, PartialEq, Eq, Structural)]
pub enum VMInstruction {
    Increment,
    Decrement,
    PointerIncrement,
    PointerDecrement,
    PutChar,
    GetChar,
    /// Jump to the absolute index when the current cell is zero.
    JumpIfZero(usize),
    /// Jump to the absolute index when the current cell is not zero.
    JumpIfNotZero(usize),
    Add(u8),
    Subtract(u8),
    SetZero,
    PointerAdd(usize),
    PointerSubtract(usize),
    AddValueAt(isize),
    SubtractValueAt(isize),
    AddValueMultipliedBy(u8, isize),
    SubtractValueMultipliedBy(u8, isize),
    Negate,
}

/// How a run ended.
#[derive(Debug, Clone, Copy, PartialEq, Eq, Structural)]
pub enum RunStatus {
    /// The instruction pointer left the program: the program returned.
    Finished,
    /// The fuel bound was reached first.
    OutOfFuel,
    /// The program left the tape or addressed a cell outside it; the
    /// machine's behavior is undefined there, so the interpreter stops.
    Fault,
}

/// A machine configuration: instruction pointer, tape, tape pointer, count
/// of consumed input bytes, and the output written so far.
pub struct VmState {
    pub ip: int,
    pub tape: Seq<u8>,
    pub ptr: int,
    pub pos: int,
    pub output: Seq<u8>,
}

/// The configuration a run starts from.
pub open spec fn init_vm_state() -> VmState {
    VmState {
        ip: 0,
        tape: Seq::new(TAPE_LEN as nat, |i: int| 0u8),
        ptr: 0,
        pos: 0,
        output: Seq::empty(),
    }
}

/// Whether `p` addresses a cell of `tape`.
pub open spec fn tape_has(tape: Seq<u8>, p: int) -> bool {
    0 <= p < tape.len()
}

/// One instruction applied to a configuration. `None` is a fault. The
/// instruction pointer advance is included: a taken jump to `j` continues at
/// `j + 1`, exactly as the dispatch loop's uniform post-instruction advance
/// leaves it.
pub open spec fn vm_step(inst: VMInstruction, input: Seq<u8>, s: VmState) -> Option<VmState> {
    if !tape_has(s.tape, s.ptr) {
        Option::None
    } else {
        let cell = s.tape[s.ptr];
        match inst {
            VMInstruction::Increment => Option::Some(
                VmState { ip: s.ip + 1, tape: s.tape.update(s.ptr, u8_specs::wrapping_add(cell, 1)), ..s },
            ),
            VMInstruction::Decrement => Option::Some(
                VmState { ip: s.ip + 1, tape: s.tape.update(s.ptr, u8_specs::wrapping_sub(cell, 1)), ..s },
            ),
            VMInstruction::PointerIncrement => {
                if tape_has(s.tape, s.ptr + 1) {
                    Option::Some(VmState { ip: s.ip + 1, ptr: s.ptr + 1, ..s })
                } else {
                    Option::None
                }
            },
            VMInstruction::PointerDecrement => {
                if tape_has(s.tape, s.ptr - 1) {
                    Option::Some(VmState { ip: s.ip + 1, ptr: s.ptr - 1, ..s })
                } else {
                    Option::None
                }
            },
            VMInstruction::PutChar => Option::Some(
                VmState { ip: s.ip + 1, output: s.output.push(cell), ..s },
            ),
            VMInstruction::GetChar => {
                if s.pos < input.len() {
                    Option::Some(
                        VmState {
                            ip: s.ip + 1,
                            tape: s.tape.update(s.ptr, input[s.pos]),
                            pos: s.pos + 1,
                            ..s
                        },
                    )
                } else {
                    Option::Some(VmState { ip: s.ip + 1, tape: s.tape.update(s.ptr, 0), ..s })
                }
            },
            VMInstruction::JumpIfZero(j) => {
                if cell == 0 {
                    Option::Some(VmState { ip: j + 1, ..s })
                } else {
                    Option::Some(VmState { ip: s.ip + 1, ..s })
                }
            },
            VMInstruction::JumpIfNotZero(j) => {
                if cell != 0 {
                    Option::Some(VmState { ip: j + 1, ..s })
                } else {
                    Option::Some(VmState { ip: s.ip + 1, ..s })
                }
            },
            VMInstruction::Add(v) => Option::Some(
                VmState { ip: s.ip + 1, tape: s.tape.update(s.ptr, u8_specs::wrapping_add(cell, v)), ..s },
            ),
            VMInstruction::Subtract(v) => Option::Some(
                VmState { ip: s.ip + 1, tape: s.tape.update(s.ptr, u8_specs::wrapping_sub(cell, v)), ..s },
            ),
            VMInstruction::SetZero => Option::Some(
                VmState { ip: s.ip + 1, tape: s.tape.update(s.ptr, 0), ..s },
            ),
            VMInstruction::PointerAdd(v) => {
                if tape_has(s.tape, s.ptr + v) {
                    Option::Some(VmState { ip: s.ip + 1, ptr: s.ptr + v, ..s })
                } else {
                    Option::None
                }
            },
            VMInstruction::PointerSubtract(v) => {
                if tape_has(s.tape, s.ptr - v) {
                    Option::Some(VmState { ip: s.ip + 1, ptr: s.ptr - v, ..s })
                } else {
                    Option::None
                }
            },
            VMInstruction::AddValueAt(at) => {
                if tape_has(s.tape, s.ptr + at) {
                    Option::Some(
                        VmState {
                            ip: s.ip + 1,
                            tape: s.tape.update(
                                s.ptr,
                                u8_specs::wrapping_add(cell, s.tape[s.ptr + at]),
                            ),
                            ..s
                        },
                    )
                } else {
                    Option::None
                }
            },
            VMInstruction::SubtractValueAt(at) => {
                if tape_has(s.tape, s.ptr + at) {
                    Option::Some(
                        VmState {
                            ip: s.ip + 1,
                            tape: s.tape.update(
                                s.ptr,
                                u8_specs::wrapping_sub(cell, s.tape[s.ptr + at]),
                            ),
                            ..s
                        },
                    )
                } else {
                    Option::None
                }
            },
            VMInstruction::AddValueMultipliedBy(m, at) => {
                if tape_has(s.tape, s.ptr + at) {
                    Option::Some(
                        VmState {
                            ip: s.ip + 1,
                            tape: s.tape.update(
                                s.ptr,
                                u8_specs::wrapping_add(
                                    cell,
                                    u8_specs::wrapping_mul(m, s.tape[s.ptr + at]),
                                ),
                            ),
                            ..s
                        },
                    )
                } else {
                    Option::None
                }
            },
            VMInstruction::SubtractValueMultipliedBy(m, at) => {
                if tape_has(s.tape, s.ptr + at) {
                    Option::Some(
                        VmState {
                            ip: s.ip + 1,
                            tape: s.tape.update(
                                s.ptr,
                                u8_specs::wrapping_sub(
                                    cell,
                                    u8_specs::wrapping_mul(m, s.tape[s.ptr + at]),
                                ),
                            ),
                            ..s
                        },
                    )
                } else {
                    Option::None
                }
            },
            VMInstruction::Negate => Option::Some(
                VmState { ip: s.ip + 1, tape: s.tape.update(s.ptr, u8_specs::wrapping_sub(0, cell)), ..s },
            ),
        }
    }
}

/// The dispatch loop: fetch, execute, advance, until the instruction
/// pointer leaves the program, a fault occurs, or the fuel runs out.
pub open spec fn vm_run(prog: Seq<VMInstruction>, input: Seq<u8>, s: VmState, fuel: nat) -> (
    VmState,
    RunStatus,
)
    decreases fuel,
{
    if !(0 <= s.ip < prog.len()) {
        (s, RunStatus::Finished)
    } else if fuel == 0 {
        (s, RunStatus::OutOfFuel)
    } else {
        match vm_step(prog[s.ip], input, s) {
            Option::None => (s, RunStatus::Fault),
            Option::Some(s2) => vm_run(prog, input, s2, (fuel - 1) as nat),
        }
    }
}

/// Run a program on the given input with a fuel bound; the result is the
/// output the program wrote and how the run ended, exactly as `vm_run` says.
pub fn run(instructions: &[VMInstruction], input: &[u8], fuel: u64) -> (r: (Vec<u8>, RunStatus))
    ensures
        r.0@ == vm_run(instructions@, input@, init_vm_state(), fuel as nat).0.output,
        r.1 == vm_run(instructions@, input@, init_vm_state(), fuel as nat).1,
{
    let ghost prog = instructions@;
    let ghost goal = vm_run(prog, input@, init_vm_state(), fuel as nat);

    let mut tape: Vec<u8> = vec![0u8; TAPE_LEN];
    let mut ptr: usize = 0;
    let mut pos: usize = 0;
    let mut out: Vec<u8> = Vec::new();
    let mut ip: usize = 0;
    let mut fuel_left: u64 = fuel;
    let mut halted: Option<RunStatus> = Option::None;

    proof {
        assert(tape@ =~= init_vm_state().tape);
        assert(out@ =~= init_vm_state().output);
        assert(VmState { ip: ip as int, tape: tape@, ptr: ptr as int, pos: pos as int, output: out@ }
            == init_vm_state());
    }

    while halted.is_none() && ip < instructions.len() && fuel_left > 0
        invariant
            tape@.len() == TAPE_LEN,
            ptr < TAPE_LEN,
            halted is None ==> vm_run(
                prog,
                input@,
                VmState {
                    ip: ip as int,
                    tape: tape@,
                    ptr: ptr as int,
                    pos: pos as int,
                    output: out@,
                },
                fuel_left as nat,
            ) == goal,
            halted is Some ==> goal.1 == halted->0 && goal.0.output == out@,
            prog == instructions@,
        decreases fuel_left, (if halted is None { 1int } else { 0int }),
    {
        let ghost s = VmState {
            ip: ip as int,
            tape: tape@,
            ptr: ptr as int,
            pos: pos as int,
            output: out@,
        };
        let inst = instructions[ip];
        proof {
            assert(vm_step(prog[s.ip], input@, s) == vm_step(inst, input@, s));
        }
        let next_fuel: u64 = fuel_left - 1;
        match inst {
            VMInstruction::Increment => {
                tape[ptr] = tape[ptr].wrapping_add(1);
                ip = ip + 1;
            },
            VMInstruction::Decrement => {
                tape[ptr] = tape[ptr].wrapping_sub(1);
                ip = ip + 1;
            },
            VMInstruction::PointerIncrement => {
                if ptr < TAPE_LEN - 1 {
                    ptr = ptr + 1;
                    ip = ip + 1;
                } else {
                    halted = Option::Some(RunStatus::Fault);
                }
            },
            VMInstruction::PointerDecrement => {
                if ptr > 0 {
                    ptr = ptr - 1;
                    ip = ip + 1;
                } else {
                    halted = Option::Some(RunStatus::Fault);
                }
            },
            VMInstruction::PutChar => {
                out.push(tape[ptr]);
                ip = ip + 1;
            },
            VMInstruction::GetChar => {
                if pos < input.len() {
                    tape[ptr] = input[pos];
                    pos = pos + 1;
                } else {
                    tape[ptr] = 0;
                }
                ip = ip + 1;
            },
            VMInstruction::JumpIfZero(j) => {
                if tape[ptr] == 0 {
                    if j < usize::MAX {
                        ip = j + 1;
                    } else {
                        // The next configuration sits past every possible
                        // program, so the run finishes there.
                        proof {
                            let s2 = VmState { ip: j + 1, ..s };
                            assert(vm_run(prog, input@, s2, next_fuel as nat) == (
                                s2,
                                RunStatus::Finished,
                            ));
                        }
                        halted = Option::Some(RunStatus::Finished);
                    }
                } else {
                    ip = ip + 1;
                }
            },
            VMInstruction::JumpIfNotZero(j) => {
                if tape[ptr] != 0 {
                    if j < usize::MAX {
                        ip = j + 1;
                    } else {
                        proof {
                            let s2 = VmState { ip: j + 1, ..s };
                            assert(vm_run(prog, input@, s2, next_fuel as nat) == (
                                s2,
                                RunStatus::Finished,
                            ));
                        }
                        halted = Option::Some(RunStatus::Finished);
                    }
                } else {
                    ip = ip + 1;
                }
            },
            VMInstruction::Add(v) => {
                tape[ptr] = tape[ptr].wrapping_add(v);
                ip = ip + 1;
            },
            VMInstruction::Subtract(v) => {
                tape[ptr] = tape[ptr].wrapping_sub(v);
                ip = ip + 1;
            },
            VMInstruction::SetZero => {
                tape[ptr] = 0;
                ip = ip + 1;
            },
            VMInstruction::PointerAdd(v) => {
                if v <= TAPE_LEN - 1 - ptr {
                    ptr = ptr + v;
                    ip = ip + 1;
                } else {
                    halted = Option::Some(RunStatus::Fault);
                }
            },
            VMInstruction::PointerSubtract(v) => {
                if v <= ptr {
                    ptr = ptr - v;
                    ip = ip + 1;
                } else {
                    halted = Option::Some(RunStatus::Fault);
                }
            },
            VMInstruction::AddValueAt(at) => {
                match cell_index(ptr, at) {
                    Option::Some(t) => {
                        tape[ptr] = tape[ptr].wrapping_add(tape[t]);
                        ip = ip + 1;
                    },
                    Option::None => {
                        halted = Option::Some(RunStatus::Fault);
                    },
                }
            },
            VMInstruction::SubtractValueAt(at) => {
                match cell_index(ptr, at) {
                    Option::Some(t) => {
                        tape[ptr] = tape[ptr].wrapping_sub(tape[t]);
                        ip = ip + 1;
                    },
                    Option::None => {
                        halted = Option::Some(RunStatus::Fault);
                    },
                }
            },
            VMInstruction::AddValueMultipliedBy(m, at) => {
                match cell_index(ptr, at) {
                    Option::Some(t) => {
                        tape[ptr] = tape[ptr].wrapping_add(m.wrapping_mul(tape[t]));
                        ip = ip + 1;
                    },
                    Option::None => {
                        halted = Option::Some(RunStatus::Fault);
                    },
                }
            },
            VMInstruction::SubtractValueMultipliedBy(m, at) => {
                match cell_index(ptr, at) {
                    Option::Some(t) => {
                        tape[ptr] = tape[ptr].wrapping_sub(m.wrapping_mul(tape[t]));
                        ip = ip + 1;
                    },
                    Option::None => {
                        halted = Option::Some(RunStatus::Fault);
                    },
                }
            },
            VMInstruction::Negate => {
                tape[ptr] = (0u8).wrapping_sub(tape[ptr]);
                ip = ip + 1;
            },
        }
        if halted.is_none() {
            fuel_left = next_fuel;
        } else {
            proof {
                if halted == Option::<RunStatus>::Some(RunStatus::Fault) {
                    assert(vm_step(prog[s.ip], input@, s) is None);
                    assert(vm_run(prog, input@, s, fuel_left as nat) == (s, RunStatus::Fault));
                }
            }
        }
    }
    let status = match halted {
        Option::Some(st) => st,
        Option::None => {
            if ip >= instructions.len() {
                RunStatus::Finished
            } else {
                RunStatus::OutOfFuel
            }
        },
    };
    (out, status)
}

/// The tape index `base + at`, when it is on the tape.
fn cell_index(base: usize, at: isize) -> (r: Option<usize>)
    requires
        base < TAPE_LEN,
    ensures
        match r {
            Option::Some(t) => t == base + at && t < TAPE_LEN,
            Option::None => !(0 <= base + at < TAPE_LEN),
        },
{
    if at >= 0 {
        let off: usize = at as usize;
        if off <= TAPE_LEN - 1 - base {
            Option::Some(base + off)
        } else {
            Option::None
        }
    } else {
        let mag: u128 = (-(at as i128)) as u128;
        if mag <= base as u128 {
            Option::Some(base - (mag as usize))
        } else {
            Option::None
        }
    }
}

} // verus!
