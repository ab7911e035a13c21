//! The parser: the eight tokens become an instruction tree, every other byte
//! is a comment. The specification runs a stack of open bodies over the
//! input, one byte at a time; parsing fails exactly when the brackets are
//! unbalanced.

use vstd::prelude::*;

use crate::instruction::{
    ir_of, ir_seq, lemma_ir_seq_push, Instruction, IrNode,
};
use vstd::string::StringSliceAdditionalSpecFns;

verus! {

/// Parse failure: the brackets of the input are unbalanced, by a stray `]`
/// or an unclosed `[`.
#[derive(Debug, Clone, Copy, PartialEq, Eq, Structural)]
pub enum ParseError {
    Unbalanced,
}

/// The node for a non-bracket token byte, or `None` for a comment byte.
pub open spec fn token_node(b: u8) -> Option<IrNode> {
    if b == 43 {  // '+'
        Option::Some(IrNode::Increment)
    } else if b == 45 {  // '-'
        Option::Some(IrNode::Decrement)
    } else if b == 62 {  // '>'
        Option::Some(IrNode::PointerIncrement)
    } else if b == 60 {  // '<'
        Option::Some(IrNode::PointerDecrement)
    } else if b == 46 {  // '.'
        Option::Some(IrNode::PutChar)
    } else if b == 44 {  // ','
        Option::Some(IrNode::GetChar)
    } else {
        Option::None
    }
}

/// One byte applied to the parser state: a stack of open bodies, the
/// outermost at the bottom. `None` is a failed parse.
pub open spec fn parse_step(stack: Seq<Seq<IrNode>>, b: u8) -> Option<Seq<Seq<IrNode>>> {
    if stack.len() == 0 {
        Option::None
    } else if b == 91 {  // '['
        Option::Some(stack.push(Seq::empty()))
    } else if b == 93 {  // ']'
        if stack.len() < 2 {
            Option::None
        } else {
            let body = stack.last();
            let popped = stack.drop_last();
            Option::Some(
                popped.update(popped.len() - 1, popped.last().push(IrNode::Loop(body))),
            )
        }
    } else {
        match token_node(b) {
            Option::Some(n) => Option::Some(
                stack.update(stack.len() - 1, stack.last().push(n)),
            ),
            Option::None => Option::Some(stack),
        }
    }
}

/// The parser state after the whole byte sequence, starting from one open
/// (outermost) body.
pub open spec fn parse_stack(s: Seq<u8>) -> Option<Seq<Seq<IrNode>>>
    decreases s.len(),
{
    if s.len() == 0 {
        Option::Some(seq![Seq::<IrNode>::empty()])
    } else {
        match parse_stack(s.drop_last()) {
            Option::None => Option::None,
            Option::Some(st) => parse_step(st, s.last()),
        }
    }
}

/// What a byte sequence parses to: the outermost body, provided every `[`
/// was closed and no `]` was stray.
pub open spec fn spec_parse(s: Seq<u8>) -> Option<Seq<IrNode>> {
    match parse_stack(s) {
        Option::None => Option::None,
        Option::Some(st) => if st.len() == 1 {
            Option::Some(st[0])
        } else {
            Option::None
        },
    }
}

/// Unfolds `parse_stack` one byte forward.
proof fn lemma_parse_stack_snoc(s: Seq<u8>, i: int)
    requires
        0 <= i < s.len(),
    ensures
        parse_stack(s.take(i + 1)) == (match parse_stack(s.take(i)) {
            Option::None => Option::None::<Seq<Seq<IrNode>>>,
            Option::Some(st) => parse_step(st, s[i]),
        }),
{
    let t = s.take(i + 1);
    assert(t.drop_last() =~= s.take(i));
    assert(t.last() == s[i]);
}

/// A failed prefix makes the whole parse fail.
proof fn lemma_parse_stack_none(s: Seq<u8>, i: int, j: int)
    requires
        0 <= i <= j <= s.len(),
        parse_stack(s.take(i)) is None,
    ensures
        parse_stack(s.take(j)) is None,
    decreases j - i,
{
    if j > i {
        lemma_parse_stack_none(s, i, j - 1);
        lemma_parse_stack_snoc(s, j - 1);
    }
}

/// The image of an exec parser stack.
pub open spec fn stack_view(s: Seq<Vec<Instruction>>) -> Seq<Seq<IrNode>>
    decreases s.len(),
{
    if s.len() == 0 {
        Seq::empty()
    } else {
        stack_view(s.drop_last()).push(ir_seq(s.last()@))
    }
}

proof fn lemma_stack_view_len(s: Seq<Vec<Instruction>>)
    ensures
        stack_view(s).len() == s.len(),
    decreases s.len(),
{
    if s.len() > 0 {
        lemma_stack_view_len(s.drop_last());
    }
}

/// Parse a source text. Every byte other than the eight tokens is ignored;
/// the result is the instruction tree, or the unbalanced-brackets error
/// exactly when no tree exists.
pub fn parse(input: &str) -> (r: Result<Vec<Instruction>, ParseError>)
    ensures
        match r {
            Result::Ok(prog) => spec_parse(input.spec_bytes()) == Option::Some(ir_seq(prog@)),
            Result::Err(e) => spec_parse(input.spec_bytes()) is None && e == ParseError::Unbalanced,
        },
{
    do_parse(input.as_bytes())
}

/// The worker behind [`parse`], over the raw bytes.
fn do_parse(bytes: &[u8]) -> (r: Result<Vec<Instruction>, ParseError>)
    ensures
        match r {
            Result::Ok(prog) => spec_parse(bytes@) == Option::Some(ir_seq(prog@)),
            Result::Err(e) => spec_parse(bytes@) is None && e == ParseError::Unbalanced,
        },
{
    let mut stack: Vec<Vec<Instruction>> = Vec::new();
    stack.push(Vec::new());
    proof {
        assert(stack@.drop_last() =~= Seq::<Vec<Instruction>>::empty());
        assert(bytes@.take(0) =~= Seq::<u8>::empty());
        assert(ir_seq(stack@.last()@) =~= Seq::<IrNode>::empty());
        assert(stack_view(Seq::<Vec<Instruction>>::empty()) =~= Seq::<Seq<IrNode>>::empty());
        assert(stack_view(stack@) =~~= seq![Seq::<IrNode>::empty()]);
        assert(parse_stack(bytes@.take(0)) == Option::Some(stack_view(stack@)));
    }
    let mut i: usize = 0;
    while i < bytes.len()
        invariant
            i <= bytes@.len(),
            stack@.len() >= 1,
            parse_stack(bytes@.take(i as int)) == Option::Some(stack_view(stack@)),
        decreases bytes@.len() - i,
    {
        let ghost prev_stack = stack@;
        let ghost prev_view = stack_view(stack@);
        proof {
            lemma_stack_view_len(stack@);
            lemma_parse_stack_snoc(bytes@, i as int);
        }
        let c = bytes[i];
        if c == 91 {  // '['
            stack.push(Vec::new());
            proof {
                assert(stack@.drop_last() =~= prev_stack);
                assert(stack_view(stack@) == prev_view.push(Seq::<IrNode>::empty()));
            }
        } else if c == 93 {  // ']'
            if stack.len() == 1 {
                proof {
                    lemma_parse_stack_none(bytes@, i + 1, bytes@.len() as int);
                    assert(bytes@.take(bytes@.len() as int) =~= bytes@);
                }
                return Result::Err(ParseError::Unbalanced);
            }
            let body = stack.pop().unwrap();
            let mut top = stack.pop().unwrap();
            proof {
                assert(prev_stack.drop_last().drop_last() =~= stack@);
                lemma_ir_seq_push(top@, Instruction::Loop(body));
            }
            top.push(Instruction::Loop(body));
            stack.push(top);
            proof {
                assert(stack@.drop_last() =~= prev_stack.drop_last().drop_last());
                let spec_next = parse_step(prev_view, bytes@[i as int]);
                let popped = prev_view.drop_last();
                lemma_stack_view_len(prev_stack.drop_last());
                assert(stack_view(prev_stack.drop_last()) =~= popped);
                assert(stack_view(stack@) =~= popped.update(
                    popped.len() - 1,
                    popped.last().push(IrNode::Loop(prev_view.last())),
                ));
                assert(spec_next == Option::Some(stack_view(stack@)));
            }
        } else {
            let node = match c {
                43u8 => Option::Some(Instruction::Increment),
                45u8 => Option::Some(Instruction::Decrement),
                62u8 => Option::Some(Instruction::PointerIncrement),
                60u8 => Option::Some(Instruction::PointerDecrement),
                46u8 => Option::Some(Instruction::PutChar),
                44u8 => Option::Some(Instruction::GetChar),
                _ => Option::None,
            };
            match node {
                Option::Some(inst) => {
                    proof {
                        assert(token_node(bytes@[i as int]) == Option::Some(ir_of(inst)));
                    }
                    let mut top = stack.pop().unwrap();
                    proof {
                        lemma_ir_seq_push(top@, inst);
                    }
                    top.push(inst);
                    stack.push(top);
                    proof {
                        assert(stack@.drop_last() =~= prev_stack.drop_last());
                        let popped = prev_view.drop_last();
                        lemma_stack_view_len(prev_stack.drop_last());
                        assert(stack_view(prev_stack.drop_last()) =~= popped);
                        assert(stack_view(stack@) =~= prev_view.update(
                            prev_view.len() - 1,
                            prev_view.last().push(ir_of(inst)),
                        ));
                    }
                },
                Option::None => {
                    proof {
                        assert(token_node(bytes@[i as int]) is None);
                    }
                },
            }
        }
        i = i + 1;
    }
    proof {
        assert(bytes@.take(i as int) =~= bytes@);
        lemma_stack_view_len(stack@);
    }
    if stack.len() == 1 {
        let ghost st0 = stack@;
        let prog = stack.pop().unwrap();
        proof {
            assert(stack_view(st0.drop_last()) =~= Seq::<Seq<IrNode>>::empty());
            assert(stack_view(st0)[0] == ir_seq(prog@));
        }
        Result::Ok(prog)
    } else {
        Result::Err(ParseError::Unbalanced)
    }
}

} // verus!
