//! Script-level tests: whole byte streams built with the `bitcoin` script
//! builder, decoded and executed by the interpreter.

use bitcoin::opcodes::all::{
    OP_ADD, OP_EQUAL, OP_PUSHBYTES_0, OP_PUSHNUM_1, OP_PUSHNUM_16, OP_PUSHNUM_NEG1, OP_RETURN,
    OP_SUB,
};
use bitcoin::script::Builder;
use script_interpreter::interpreter::Interpreter;
use script_interpreter::{execute, is_valid, ExecutionError};

#[test]
fn op_return_false_no_data() {
    let script = Builder::new().push_opcode(OP_RETURN).into_script();
    assert!(Interpreter::new(script.clone().into_bytes()).execute_script().is_err());
    assert!(!Interpreter::new(script.into_bytes()).script_is_valid());
}

#[test]
fn op_return_false_with_data() {
    let script = Builder::new()
        .push_opcode(OP_RETURN)
        .push_slice(&[0xab, 32]) // Just push some nonsense.
        .into_script();

    assert!(Interpreter::new(script.clone().into_bytes()).execute_script().is_err());
    assert!(!Interpreter::new(script.into_bytes()).script_is_valid());
}

#[test]
fn add() {
    let script = Builder::new()
        .push_int(5)
        .push_int(2)
        .push_int(3)
        .push_opcode(OP_ADD)
        .push_opcode(OP_EQUAL)
        .into_script();

    assert!(Interpreter::new(script.into_bytes()).script_is_valid());
}

#[test]
fn add_swapped_operands() {
    // 3 + 2 equals 2 + 3: swapping the pushed operands keeps the verdict.
    let script = Builder::new()
        .push_int(5)
        .push_int(3)
        .push_int(2)
        .push_opcode(OP_ADD)
        .push_opcode(OP_EQUAL)
        .into_script();

    assert_eq!(execute(Vec::new(), script.into_bytes()), Ok(true));
}

#[test]
fn abort_exact_error() {
    let script = Builder::new().push_int(7).push_opcode(OP_RETURN).push_int(3).into_script();
    assert_eq!(
        execute(Vec::new(), script.into_bytes()),
        Err(ExecutionError::ExplicitAbort)
    );
}

#[test]
fn equal_mismatch_is_invalid() {
    let script =
        Builder::new().push_int(1).push_int(2).push_opcode(OP_EQUAL).into_script();
    // EQUAL itself succeeds: it pushes the canonical false item, so the
    // script executes to a false verdict rather than an error.
    assert_eq!(execute(Vec::new(), script.clone().into_bytes()), Ok(false));
    assert!(!is_valid(Vec::new(), script.into_bytes()));
}

#[test]
fn equal_compares_numerically() {
    // The empty item and 0x00 both decode to zero, so EQUAL accepts them.
    let script = Builder::new()
        .push_opcode(OP_PUSHBYTES_0)
        .push_slice(&[0x00])
        .push_opcode(OP_EQUAL)
        .into_script();
    assert!(is_valid(Vec::new(), script.into_bytes()));
}

#[test]
fn pushnum_constants() {
    // -1 + 1 reads as zero, which the empty push also encodes.
    let script = Builder::new()
        .push_opcode(OP_PUSHNUM_NEG1)
        .push_opcode(OP_PUSHNUM_1)
        .push_opcode(OP_ADD)
        .push_opcode(OP_PUSHBYTES_0)
        .push_opcode(OP_EQUAL)
        .into_script();
    assert!(is_valid(Vec::new(), script.clone().into_bytes()));

    let sixteen = Builder::new()
        .push_opcode(OP_PUSHNUM_16)
        .push_slice(&[0x10])
        .push_opcode(OP_EQUAL)
        .into_script();
    assert!(is_valid(Vec::new(), sixteen.into_bytes()));
}

#[test]
fn unsupported_opcode_fails() {
    let script = Builder::new()
        .push_int(1)
        .push_int(1)
        .push_opcode(OP_SUB)
        .into_script();
    assert_eq!(
        execute(Vec::new(), script.clone().into_bytes()),
        Err(ExecutionError::UnsupportedOpcode)
    );
    assert!(!is_valid(Vec::new(), script.into_bytes()));
}

#[test]
fn random_opcode_bytes_never_crash() {
    // Adversarial single-byte scripts: every opcode byte must yield a
    // verdict or a typed error, never a fault.
    let mut byte: u8 = 0;
    loop {
        let verdict = is_valid(Vec::new(), vec![byte]);
        let outcome = execute(Vec::new(), vec![byte]);
        assert_eq!(verdict, outcome == Ok(true));
        if byte == 255 {
            break;
        }
        byte += 1;
    }
}

#[test]
fn stack_underflow_add() {
    let lone = Builder::new().push_opcode(OP_ADD).into_script();
    assert_eq!(
        execute(Vec::new(), lone.into_bytes()),
        Err(ExecutionError::StackUnderflow)
    );

    let one_operand = Builder::new().push_int(1).push_opcode(OP_ADD).into_script();
    assert_eq!(
        execute(Vec::new(), one_operand.into_bytes()),
        Err(ExecutionError::StackUnderflow)
    );
}

#[test]
fn stack_underflow_equal() {
    let one_operand = Builder::new().push_int(1).push_opcode(OP_EQUAL).into_script();
    assert_eq!(
        execute(Vec::new(), one_operand.into_bytes()),
        Err(ExecutionError::StackUnderflow)
    );
}

#[test]
fn oversized_operand_is_invalid_numeric() {
    let script = Builder::new()
        .push_slice(&[1, 2, 3, 4, 5])
        .push_int(1)
        .push_opcode(OP_ADD)
        .into_script();
    assert_eq!(
        execute(Vec::new(), script.into_bytes()),
        Err(ExecutionError::InvalidNumericEncoding)
    );
}

#[test]
fn malformed_push_is_decode_error() {
    // 0x05 declares a five-byte push but only one byte follows.
    assert_eq!(
        execute(Vec::new(), vec![0x05, 0x01]),
        Err(ExecutionError::DecodeError)
    );
    assert!(!is_valid(Vec::new(), vec![0x05, 0x01]));
}

#[test]
fn empty_script_is_invalid() {
    assert_eq!(execute(Vec::new(), Vec::new()), Ok(false));
    assert!(!is_valid(Vec::new(), Vec::new()));
}

#[test]
fn concatenation_spans_the_join() {
    // Unlocking pushes the operands, locking checks the sum.
    let unlocking = Builder::new().push_int(2).push_int(3).into_script();
    let locking = Builder::new()
        .push_opcode(OP_ADD)
        .push_int(5)
        .push_opcode(OP_EQUAL)
        .into_script();
    assert!(is_valid(unlocking.clone().into_bytes(), locking.clone().into_bytes()));
    assert_eq!(execute(unlocking.into_bytes(), locking.into_bytes()), Ok(true));
}
