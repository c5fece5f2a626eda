//! The execution engine: the fetch-decode-execute loop that drives a script
//! against a stack and maps each opcode to a stack mutation or a failure.
//!
//! Dispatch is a total mapping from opcode identity to a handler: a
//! constant push, the immediate abort, a binary arithmetic or comparison
//! operation, or a classified `UnsupportedOpcode` failure. An unsupported
//! or malformed opcode must only invalidate the script, never fault the
//! process: scripts are adversarial input.

use vstd::prelude::*;

use crate::instruction::{decode_script, decoded_instructions, instr_view, instrs_view, Instruction};
use crate::scriptnum::{lemma_scriptnum_value_bound, spec_decode_scriptnum, spec_encode_scriptnum};
use crate::stack::{stack_truthy, Stack};
use crate::ExecutionError;

verus! {

/// The empty-push opcode: pushes the empty item (canonical false / zero).
pub const OP_PUSHBYTES_0: u8 = 0x00;

/// Pushes the scriptnum encoding of -1.
pub const OP_PUSHNUM_NEG1: u8 = 0x4f;

/// Pushes the scriptnum encoding of 1; the opcodes through `OP_PUSHNUM_16`
/// push their offset from `OP_PUSHNUM_1` plus one.
pub const OP_PUSHNUM_1: u8 = 0x51;

/// Pushes the scriptnum encoding of 16.
pub const OP_PUSHNUM_16: u8 = 0x60;

/// The immediate-abort opcode: always fails the script.
pub const OP_RETURN: u8 = 0x6a;

/// Pops two items and pushes whether they are numerically equal.
pub const OP_EQUAL: u8 = 0x87;

/// Pops two numbers and pushes their sum.
pub const OP_ADD: u8 = 0x93;

/// Whether an opcode pushes a small integer constant (-1 or 1 through 16).
pub open spec fn is_pushnum(op: u8) -> bool {
    op == OP_PUSHNUM_NEG1 || (OP_PUSHNUM_1 <= op && op <= OP_PUSHNUM_16)
}

/// The small integer constant an `is_pushnum` opcode pushes.
pub open spec fn pushnum_value(op: u8) -> int {
    if op == OP_PUSHNUM_NEG1 {
        -1
    } else {
        op - (OP_PUSHNUM_1 - 1)
    }
}

/// Whether this engine has a handler for an opcode. The immediate abort
/// counts as handled: its handler fails the script deliberately.
pub open spec fn op_supported(op: u8) -> bool {
    op == OP_RETURN || op == OP_PUSHBYTES_0 || is_pushnum(op) || op == OP_ADD || op == OP_EQUAL
}

/// Popping a number: the top item and the remaining stack, or the failure.
pub open spec fn spec_pop_num(stack: Seq<Seq<u8>>) -> Result<(int, Seq<Seq<u8>>), ExecutionError> {
    if stack.len() == 0 {
        Err(ExecutionError::StackUnderflow)
    } else {
        match spec_decode_scriptnum(stack.last(), false) {
            Some(n) => Ok((n, stack.drop_last())),
            None => Err(ExecutionError::InvalidNumericEncoding),
        }
    }
}

/// The stack after the add opcode: pops two numbers, pushes the scriptnum
/// encoding of their sum.
pub open spec fn spec_add(stack: Seq<Seq<u8>>) -> Result<Seq<Seq<u8>>, ExecutionError> {
    match spec_pop_num(stack) {
        Err(e) => Err(e),
        Ok((a, rest)) => match spec_pop_num(rest) {
            Err(e) => Err(e),
            Ok((b, rest2)) => Ok(rest2.push(spec_encode_scriptnum(a + b))),
        },
    }
}

/// The stack after the equal opcode: pops two items, compares them as
/// numbers (so `0x00` and the empty string are equal), and pushes the
/// canonical boolean encoding of the outcome.
pub open spec fn spec_equal(stack: Seq<Seq<u8>>) -> Result<Seq<Seq<u8>>, ExecutionError> {
    match spec_pop_num(stack) {
        Err(e) => Err(e),
        Ok((a, rest)) => match spec_pop_num(rest) {
            Err(e) => Err(e),
            Ok((b, rest2)) => Ok(
                rest2.push(
                    if a == b {
                        seq![1u8]
                    } else {
                        Seq::<u8>::empty()
                    },
                ),
            ),
        },
    }
}

/// The stack after one opcode, or the failure that stops execution.
pub open spec fn spec_op_result(stack: Seq<Seq<u8>>, op: u8) -> Result<
    Seq<Seq<u8>>,
    ExecutionError,
> {
    if op == OP_RETURN {
        Err(ExecutionError::ExplicitAbort)
    } else if op == OP_PUSHBYTES_0 {
        Ok(stack.push(Seq::empty()))
    } else if is_pushnum(op) {
        Ok(stack.push(spec_encode_scriptnum(pushnum_value(op))))
    } else if op == OP_ADD {
        spec_add(stack)
    } else if op == OP_EQUAL {
        spec_equal(stack)
    } else {
        Err(ExecutionError::UnsupportedOpcode)
    }
}

/// The stack after one instruction, or the failure that stops execution.
pub open spec fn spec_step(stack: Seq<Seq<u8>>, instr: Instruction<Seq<u8>>) -> Result<
    Seq<Seq<u8>>,
    ExecutionError,
> {
    match instr {
        Instruction::PushBytes(bytes) => Ok(stack.push(bytes)),
        Instruction::Op(op) => spec_op_result(stack, op),
    }
}

/// Runs an instruction stream left to right from a starting stack: the
/// final stack, or the first failure (execution stops at it).
pub open spec fn spec_run_from(instrs: Seq<Instruction<Seq<u8>>>, stack: Seq<Seq<u8>>) -> Result<
    Seq<Seq<u8>>,
    ExecutionError,
>
    decreases instrs.len(),
{
    if instrs.len() == 0 {
        Ok(stack)
    } else {
        match spec_step(stack, instrs.first()) {
            Ok(next) => spec_run_from(instrs.drop_first(), next),
            Err(e) => Err(e),
        }
    }
}

/// The verdict of executing an instruction stream on an initially empty
/// stack: whether the final stack reads as true, or the first failure.
pub open spec fn spec_run(instrs: Seq<Instruction<Seq<u8>>>) -> Result<bool, ExecutionError> {
    match spec_run_from(instrs, Seq::empty()) {
        Ok(stack) => Ok(stack_truthy(stack)),
        Err(e) => Err(e),
    }
}

/// The verdict of a script's bytes, run from a given stack: decode, then
/// execute.
pub open spec fn spec_execute_from(script: Seq<u8>, stack: Seq<Seq<u8>>) -> Result<
    bool,
    ExecutionError,
> {
    match decoded_instructions(script) {
        Some(instrs) => match spec_run_from(instrs, stack) {
            Ok(final_stack) => Ok(stack_truthy(final_stack)),
            Err(e) => Err(e),
        },
        None => Err(ExecutionError::DecodeError),
    }
}

/// The verdict of a script's bytes, run from an empty stack.
pub open spec fn spec_execute(script: Seq<u8>) -> Result<bool, ExecutionError> {
    spec_execute_from(script, Seq::empty())
}

proof fn lemma_failing_op_run(
    instrs: Seq<Instruction<Seq<u8>>>,
    i: int,
    op: u8,
    stack: Seq<Seq<u8>>,
)
    requires
        0 <= i < instrs.len(),
        instrs[i] == Instruction::<Seq<u8>>::Op(op),
        op == OP_RETURN || !op_supported(op),
    ensures
        spec_run_from(instrs, stack) is Err,
        spec_run_from(instrs.take(i), stack) is Ok ==> spec_run_from(instrs, stack) == Err::<
            Seq<Seq<u8>>,
            ExecutionError,
        >(
            if op == OP_RETURN {
                ExecutionError::ExplicitAbort
            } else {
                ExecutionError::UnsupportedOpcode
            },
        ),
    decreases i,
{
    if i == 0 {
        assert(instrs.first() == instrs[0]);
    } else {
        assert(instrs.take(i)[0] == instrs[0]);
        assert(instrs.first() == instrs[0]);
        match spec_step(stack, instrs.first()) {
            Ok(next) => {
                assert(instrs.drop_first()[i - 1] == instrs[i]);
                assert(instrs.take(i).drop_first() =~= instrs.drop_first().take(i - 1));
                lemma_failing_op_run(instrs.drop_first(), i - 1, op, next);
            },
            Err(_) => {},
        }
    }
}

/// Law: the immediate-abort opcode always fails the script. Whatever
/// instructions surround it, an instruction stream that contains it never
/// executes to a verdict, so the script is never valid; when everything
/// before it executes, the failure is `ExplicitAbort`.
pub proof fn lemma_abort_always_fails(instrs: Seq<Instruction<Seq<u8>>>, i: int)
    requires
        0 <= i < instrs.len(),
        instrs[i] == Instruction::<Seq<u8>>::Op(OP_RETURN),
    ensures
        spec_run(instrs) is Err,
        spec_run(instrs) != Ok::<bool, ExecutionError>(true),
        spec_run_from(instrs.take(i), Seq::empty()) is Ok ==> spec_run(instrs) == Err::<
            bool,
            ExecutionError,
        >(ExecutionError::ExplicitAbort),
{
    lemma_failing_op_run(instrs, i, OP_RETURN, Seq::empty());
}

/// Law: an unsupported opcode anywhere in the stream fails the script, it
/// never faults the engine; when everything before it executes, the failure
/// is `UnsupportedOpcode`.
pub proof fn lemma_unsupported_opcode_fails(instrs: Seq<Instruction<Seq<u8>>>, i: int, op: u8)
    requires
        0 <= i < instrs.len(),
        instrs[i] == Instruction::<Seq<u8>>::Op(op),
        !op_supported(op),
    ensures
        spec_run(instrs) is Err,
        spec_run(instrs) != Ok::<bool, ExecutionError>(true),
        spec_run_from(instrs.take(i), Seq::empty()) is Ok ==> spec_run(instrs) == Err::<
            bool,
            ExecutionError,
        >(ExecutionError::UnsupportedOpcode),
{
    lemma_failing_op_run(instrs, i, op, Seq::empty());
}

/// Law: a script whose decoded instruction stream contains the
/// immediate-abort opcode, with or without trailing data, never executes to
/// a verdict and is never valid.
pub proof fn lemma_abort_script_never_valid(script: Seq<u8>, i: int)
    requires
        decoded_instructions(script) is Some,
        0 <= i < decoded_instructions(script).unwrap().len(),
        decoded_instructions(script).unwrap()[i] == Instruction::<Seq<u8>>::Op(OP_RETURN),
    ensures
        spec_execute(script) is Err,
        spec_execute(script) != Ok::<bool, ExecutionError>(true),
{
    lemma_abort_always_fails(decoded_instructions(script).unwrap(), i);
}

/// Law: addition commutes. Swapping the two operands on top of the stack
/// changes neither the stack the add opcode leaves nor the failure it
/// reports.
pub proof fn lemma_add_commutes(stack: Seq<Seq<u8>>, x: Seq<u8>, y: Seq<u8>)
    ensures
        spec_op_result(stack.push(x).push(y), OP_ADD) == spec_op_result(
            stack.push(y).push(x),
            OP_ADD,
        ),
{
    assert(stack.push(x).push(y).drop_last() =~= stack.push(x));
    assert(stack.push(y).push(x).drop_last() =~= stack.push(y));
    assert(stack.push(x).drop_last() =~= stack);
    assert(stack.push(y).drop_last() =~= stack);
}

/// Law: a binary opcode on a stack with fewer than two items reports
/// `StackUnderflow` (provided a lone top item decodes as a number: an
/// undecodable top item is reported as `InvalidNumericEncoding` first,
/// since the top is popped before the second operand is asked for).
pub proof fn lemma_binary_op_underflow(stack: Seq<Seq<u8>>, op: u8)
    requires
        op == OP_ADD || op == OP_EQUAL,
        stack.len() < 2,
        stack.len() == 1 ==> spec_decode_scriptnum(stack.last(), false) is Some,
    ensures
        spec_op_result(stack, op) == Err::<Seq<Seq<u8>>, ExecutionError>(
            ExecutionError::StackUnderflow,
        ),
{
}

/// Executes one script against one stack, in a single pass.
pub struct Interpreter {
    /// The stack used during script execution.
    pub stack: Stack,
    /// The script to interpret, as its raw bytes.
    pub script: Vec<u8>,
}

impl Interpreter {
    /// Creates a new script interpreter with an empty stack.
    pub fn new(script: Vec<u8>) -> (r: Self)
        ensures
            r.script@ == script@,
            r.stack@ == Seq::<Seq<u8>>::empty(),
    {
        Self { stack: Stack::new(), script }
    }

    /// Checks if the script is valid: nothing in it triggers failure and
    /// the top stack item reads as true when the script exits. Total: every
    /// failure collapses to `false`.
    pub fn script_is_valid(&mut self) -> (r: bool)
        ensures
            final(self).script@ == old(self).script@,
            r == (spec_execute_from(old(self).script@, old(self).stack@) == Ok::<
                bool,
                ExecutionError,
            >(true)),
    {
        match self.execute_script() {
            Ok(res) => res,
            Err(_) => false,
        }
    }

    /// Executes the current script: decodes its bytes and runs every
    /// instruction left to right. Returns the final `is_true` reading of
    /// the stack, or the first failure, at which execution stops.
    pub fn execute_script(&mut self) -> (r: Result<bool, ExecutionError>)
        ensures
            final(self).script@ == old(self).script@,
            r == spec_execute_from(old(self).script@, old(self).stack@),
            old(self).stack@ == Seq::<Seq<u8>>::empty() ==> r == spec_execute(old(self).script@),
    {
        let instrs = match decode_script(self.script.as_slice()) {
            Ok(instrs) => instrs,
            Err(e) => {
                return Err(e);
            },
        };
        self.run_instructions(&instrs)
    }

    /// Runs a decoded instruction stream against the current stack and
    /// reads the verdict off the final stack.
    pub fn run_instructions(&mut self, instrs: &Vec<Instruction<Vec<u8>>>) -> (r: Result<
        bool,
        ExecutionError,
    >)
        ensures
            final(self).script@ == old(self).script@,
            match spec_run_from(instrs_view(instrs@), old(self).stack@) {
                Ok(final_stack) => r == Ok::<bool, ExecutionError>(stack_truthy(final_stack))
                    && final(self).stack@ == final_stack,
                Err(e) => r == Err::<bool, ExecutionError>(e),
            },
    {
        let ghost all = instrs_view(instrs@);
        proof {
            assert(all.skip(0) =~= all);
        }
        let mut i: usize = 0;
        while i < instrs.len()
            invariant
                i <= instrs.len(),
                all == instrs_view(instrs@),
                spec_run_from(all, old(self).stack@) == spec_run_from(
                    all.skip(i as int),
                    self.stack@,
                ),
                self.script@ == old(self).script@,
            decreases instrs.len() - i,
        {
            let ghost rest = all.skip(i as int);
            let ghost stack_before = self.stack@;
            proof {
                assert(rest.first() == instr_view(instrs@[i as int]));
                assert(rest.drop_first() =~= all.skip(i as int + 1));
            }
            match &instrs[i] {
                Instruction::PushBytes(bytes) => {
                    self.stack.push(bytes.as_slice());
                },
                Instruction::Op(op) => {
                    let op = *op;
                    if op == OP_RETURN {
                        return Err(ExecutionError::ExplicitAbort);
                    } else if op == OP_PUSHBYTES_0 {
                        let empty: Vec<u8> = Vec::new();
                        self.stack.push(empty.as_slice());
                    } else if op == OP_PUSHNUM_NEG1 {
                        self.stack.push_num(-1);
                    } else if OP_PUSHNUM_1 <= op && op <= OP_PUSHNUM_16 {
                        self.stack.push_num((op - (OP_PUSHNUM_1 - 1)) as i64);
                    } else if op == OP_ADD {
                        match self.add() {
                            Ok(()) => (),
                            Err(e) => {
                                return Err(e);
                            },
                        }
                    } else if op == OP_EQUAL {
                        match self.equal() {
                            Ok(()) => (),
                            Err(e) => {
                                return Err(e);
                            },
                        }
                    } else {
                        return Err(ExecutionError::UnsupportedOpcode);
                    }
                },
            }
            proof {
                assert(spec_step(stack_before, rest.first()) == Ok::<
                    Seq<Seq<u8>>,
                    ExecutionError,
                >(self.stack@));
            }
            i += 1;
        }
        proof {
            assert(all.skip(i as int) =~= Seq::<Instruction<Seq<u8>>>::empty());
        }
        Ok(self.stack.is_true())
    }

    /// Removes the top two stack items, adds them together as scriptnums,
    /// and pushes the encoded sum back onto the stack.
    fn add(&mut self) -> (r: Result<(), ExecutionError>)
        ensures
            final(self).script@ == old(self).script@,
            match spec_add(old(self).stack@) {
                Ok(new_stack) => r is Ok && final(self).stack@ == new_stack,
                Err(e) => r == Err::<(), ExecutionError>(e),
            },
    {
        let a = match self.stack.pop_num() {
            Ok(x) => x,
            Err(e) => {
                return Err(e);
            },
        };
        let b = match self.stack.pop_num() {
            Ok(x) => x,
            Err(e) => {
                return Err(e);
            },
        };
        proof {
            lemma_scriptnum_value_bound(old(self).stack@.last());
            lemma_scriptnum_value_bound(old(self).stack@.drop_last().last());
        }
        let res = a + b;
        self.stack.push_num(res);
        Ok(())
    }

    /// Removes the top two stack items, compares them as scriptnums, and
    /// pushes the boolean outcome back onto the stack.
    fn equal(&mut self) -> (r: Result<(), ExecutionError>)
        ensures
            final(self).script@ == old(self).script@,
            match spec_equal(old(self).stack@) {
                Ok(new_stack) => r is Ok && final(self).stack@ == new_stack,
                Err(e) => r == Err::<(), ExecutionError>(e),
            },
    {
        let a = match self.stack.pop_num() {
            Ok(x) => x,
            Err(e) => {
                return Err(e);
            },
        };
        let b = match self.stack.pop_num() {
            Ok(x) => x,
            Err(e) => {
                return Err(e);
            },
        };
        let res = a == b;
        self.stack.push_bool(res);
        Ok(())
    }
}

} // verus!
