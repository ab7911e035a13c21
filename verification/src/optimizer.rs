//! The optimizer: composable passes selected by an option set. The passes
//! run in a fixed order, run-length folding first, then the multiply-loop
//! rewrite; a pass that is not selected is the identity.

pub mod consecutive_inc_dec;
pub mod mul_loop;
pub mod mul_loop_sound;

use vstd::prelude::*;

use crate::instruction::{ir_seq, Instruction, IrNode};
use crate::optimizer::consecutive_inc_dec::{optimize_consecutive_inc_dec, spec_fold};
use crate::optimizer::mul_loop::{optimize_mul_loop, spec_mul_seq};

verus! {

/// One selectable optimization; `All` selects every pass.
#[derive(Debug, Clone, Copy, PartialEq, Eq, Structural)]
pub enum Optimization {
    All,
    ConsecutiveIncDec,
    MulLoop,
}

/// Whether the option set turns a pass on.
pub open spec fn enables(options: Seq<Optimization>, o: Optimization) -> bool {
    options.contains(Optimization::All) || options.contains(o)
}

/// The image of the whole optimizer for a given option set: the selected
/// passes, in the fixed order.
pub open spec fn spec_optimize(p: Seq<IrNode>, options: Seq<Optimization>) -> Seq<IrNode> {
    let folded = if enables(options, Optimization::ConsecutiveIncDec) {
        spec_fold(p)
    } else {
        p
    };
    if enables(options, Optimization::MulLoop) {
        spec_mul_seq(folded).0
    } else {
        folded
    }
}

/// Run the selected passes, in the fixed order.
pub fn optimize(instructions: Vec<Instruction>, options: &[Optimization]) -> (r: Vec<Instruction>)
    ensures
        ir_seq(r@) == spec_optimize(ir_seq(instructions@), options@),
{
    let all = contains_option(options, Optimization::All);
    let mut instructions = instructions;
    if all || contains_option(options, Optimization::ConsecutiveIncDec) {
        instructions = optimize_consecutive_inc_dec(instructions.as_slice());
    }
    if all || contains_option(options, Optimization::MulLoop) {
        instructions = optimize_mul_loop(instructions.as_slice());
    }
    instructions
}

/// Whether the option set names the given option.
fn contains_option(options: &[Optimization], o: Optimization) -> (r: bool)
    ensures
        r == options@.contains(o),
{
    let mut i: usize = 0;
    while i < options.len()
        invariant
            i <= options@.len(),
            forall|j: int| 0 <= j < i ==> options@[j] != o,
        decreases options@.len() - i,
    {
        if options[i] == o {
            return true;
        }
        i = i + 1;
    }
    false
}

} // verus!
