//! Script instructions.
//!
//! A script is an already-assembled byte sequence; an external decoder turns
//! it into a finite sequence of instructions, each either "push these
//! literal bytes" or "execute this opcode". The decoder is consumed, not
//! reimplemented: its result is only named, and everything that happens
//! after it is verified.

use vstd::prelude::*;

use crate::ExecutionError;

verus! {

/// One decoded script instruction. The byte-string payload of a data push
/// is a `Vec<u8>` in executable code and a `Seq<u8>` in specifications.
#[derive(Debug)]
pub enum Instruction<Bytes> {
    /// Push the literal payload onto the stack.
    PushBytes(Bytes),
    /// Execute the opcode with this byte value.
    Op(u8),
}

/// The specification-level reading of a decoded instruction.
pub open spec fn instr_view(i: Instruction<Vec<u8>>) -> Instruction<Seq<u8>> {
    match i {
        Instruction::PushBytes(bytes) => Instruction::PushBytes(bytes@),
        Instruction::Op(op) => Instruction::Op(op),
    }
}

/// The specification-level reading of a decoded instruction stream.
pub open spec fn instrs_view(s: Seq<Instruction<Vec<u8>>>) -> Seq<Instruction<Seq<u8>>> {
    s.map_values(|i: Instruction<Vec<u8>>| instr_view(i))
}

/// What the external decoder yields for a script's bytes: its instruction
/// stream, or `None` when the byte string is malformed (for instance a push
/// whose declared length exceeds the remaining bytes).
pub uninterp spec fn decoded_instructions(s: Seq<u8>) -> Option<Seq<Instruction<Seq<u8>>>>;

/// Relies on `bitcoin::Script::instructions`: decodes a script's bytes into
/// data-push and opcode instructions, or reports the first malformed one.
/// The result depends on the bytes alone.
#[verifier::external_body]
pub(crate) fn decode_script(bytes: &[u8]) -> (r: Result<Vec<Instruction<Vec<u8>>>, ExecutionError>)
    ensures
        match decoded_instructions(bytes@) {
            Some(instrs) => (r matches Ok(v) && instrs_view(v@) == instrs),
            None => r == Err::<Vec<Instruction<Vec<u8>>>, ExecutionError>(
                ExecutionError::DecodeError,
            ),
        },
{
    let script = bitcoin::script::Script::from_bytes(bytes);
    let mut out = Vec::new();
    for ins in script.instructions() {
        match ins {
            Ok(bitcoin::script::Instruction::PushBytes(push)) => {
                out.push(Instruction::PushBytes(push.as_bytes().to_vec()))
            },
            Ok(bitcoin::script::Instruction::Op(op)) => out.push(Instruction::Op(op.to_u8())),
            Err(_) => {
                return Err(ExecutionError::DecodeError);
            },
        }
    }
    Ok(out)
}

} // verus!
