//! A Bitcoin-style Script interpreter.
//!
//! A script program (the concatenation of an unlocking script and a locking
//! script) is evaluated against a stack machine; the program is valid when
//! execution finishes without a fault and the top stack item reads as
//! boolean true.

use vstd::prelude::*;

pub mod instruction;
pub mod interpreter;
pub mod scriptnum;
pub mod stack;

use crate::interpreter::{spec_execute, Interpreter};

verus! {

/// The ways a script execution can fail.
///
/// Every failure is fatal to the current execution; `is_valid` collapses
/// them all to `false`.
#[derive(Clone, Copy, Debug, PartialEq, Eq, Structural)]
pub enum ExecutionError {
    /// The instruction stream could not be parsed.
    DecodeError,
    /// An operation required more stack items than were present.
    StackUnderflow,
    /// A popped item could not be decoded as a scriptnum.
    InvalidNumericEncoding,
    /// The immediate-failure opcode was executed.
    ExplicitAbort,
    /// An opcode this engine does not implement was encountered.
    UnsupportedOpcode,
}

/// Executes the script `script_sig | script_pubkey`.
///
/// A script is valid if after execution the stack is non-empty and its top
/// item reads as true.
///
/// Returns `Ok(top_of_stack)` if the script terminated successfully, and
/// the typed failure the moment any instruction cannot be completed.
pub fn execute(script_sig: Vec<u8>, script_pubkey: Vec<u8>) -> (r: Result<bool, ExecutionError>)
    ensures
        r == spec_execute(script_sig@ + script_pubkey@),
{
    let script = join_parts(script_sig, script_pubkey);
    let mut interpreter = Interpreter::new(script);
    interpreter.execute_script()
}

/// Checks if the script `script_sig | script_pubkey` is valid.
///
/// Total: any failure mode, and any run that ends with a false top item,
/// is equally "invalid".
pub fn is_valid(script_sig: Vec<u8>, script_pubkey: Vec<u8>) -> (r: bool)
    ensures
        r == (spec_execute(script_sig@ + script_pubkey@) == Ok::<bool, ExecutionError>(true)),
{
    let script = join_parts(script_sig, script_pubkey);
    let mut interpreter = Interpreter::new(script);
    interpreter.script_is_valid()
}

/// Joins the script sig and script pubkey together into a single script
/// ready for execution: exactly the bytes of one then the other, with no
/// separator.
fn join_parts(script_sig: Vec<u8>, script_pubkey: Vec<u8>) -> (r: Vec<u8>)
    ensures
        r@ == script_sig@ + script_pubkey@,
{
    let mut script = script_sig;
    let mut tail = script_pubkey;
    script.append(&mut tail);
    script
}

} // verus!
