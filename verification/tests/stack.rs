//! Stack and codec tests: LIFO access, the scriptnum round trip, and the
//! boolean reading of stack items.

use script_interpreter::instruction::Instruction;
use script_interpreter::interpreter::Interpreter;
use script_interpreter::scriptnum::{decode_scriptnum, encode_scriptnum};
use script_interpreter::stack::Stack;
use script_interpreter::ExecutionError;

#[test]
fn push_pop_top_len() {
    let mut stack = Stack::new();
    assert!(stack.is_empty());
    assert_eq!(stack.len(), 0);
    assert_eq!(stack.pop(), None);
    assert_eq!(stack.top(), None);

    stack.push(&[0x0a]);
    stack.push(&[0x0b, 0x0c]);
    assert!(!stack.is_empty());
    assert_eq!(stack.len(), 2);
    assert_eq!(stack.top(), Some(&vec![0x0b, 0x0c]));
    assert_eq!(stack.pop(), Some(vec![0x0b, 0x0c]));
    assert_eq!(stack.pop(), Some(vec![0x0a]));
    assert_eq!(stack.pop(), None);
}

#[test]
fn is_true_on_empty_stack() {
    let stack = Stack::new();
    assert!(!stack.is_true());
}

#[test]
fn is_true_readings() {
    let mut stack = Stack::new();
    stack.push(&[]);
    assert!(!stack.is_true());
    stack.push(&[0x00]);
    assert!(!stack.is_true());
    stack.push(&[0x80]); // negative zero
    assert!(!stack.is_true());
    stack.push(&[0x01]);
    assert!(stack.is_true());
    stack.push(&[0x00, 0x00, 0x80]); // longer negative zero
    assert!(!stack.is_true());
    stack.push(&[0x80, 0x00]); // 128: the 0x80 byte is not final here
    assert!(stack.is_true());
}

#[test]
fn push_bool_canonical_encodings() {
    let mut stack = Stack::new();
    stack.push_bool(true);
    assert_eq!(stack.pop(), Some(vec![0x01]));
    stack.push_bool(false);
    assert_eq!(stack.pop(), Some(Vec::new()));
}

#[test]
fn push_num_minimal_encodings() {
    let cases: Vec<(i64, Vec<u8>)> = vec![
        (0, vec![]),
        (1, vec![0x01]),
        (-1, vec![0x81]),
        (16, vec![0x10]),
        (127, vec![0x7f]),
        (128, vec![0x80, 0x00]),
        (-128, vec![0x80, 0x80]),
        (255, vec![0xff, 0x00]),
        (-255, vec![0xff, 0x80]),
        (256, vec![0x00, 0x01]),
        (0x7fffffff, vec![0xff, 0xff, 0xff, 0x7f]),
        (-0x7fffffff, vec![0xff, 0xff, 0xff, 0xff]),
        (0x80000000, vec![0x00, 0x00, 0x00, 0x80, 0x00]),
    ];
    for (value, encoding) in cases {
        let mut stack = Stack::new();
        stack.push_num(value);
        assert_eq!(stack.pop(), Some(encoding.clone()));
        assert_eq!(encode_scriptnum(value), encoding);
    }
}

#[test]
fn scriptnum_round_trip() {
    let values: Vec<i64> = vec![
        0, 1, -1, 2, 16, 17, 127, 128, -127, -128, 255, -255, 256, 0xffff, 0x10000, 0x7fffffff,
        -0x7fffffff,
    ];
    for value in values {
        let encoded = encode_scriptnum(value);
        assert_eq!(decode_scriptnum(&encoded, false), Ok(value));
        assert_eq!(decode_scriptnum(&encoded, true), Ok(value));
    }
}

#[test]
fn scriptnum_beyond_four_bytes_does_not_round_trip() {
    // 2^31 needs a fifth byte, so it is no longer readable as a number.
    let encoded = encode_scriptnum(0x80000000);
    assert_eq!(encoded.len(), 5);
    assert_eq!(
        decode_scriptnum(&encoded, false),
        Err(ExecutionError::InvalidNumericEncoding)
    );
}

#[test]
fn decode_accepts_non_minimal_by_default() {
    assert_eq!(decode_scriptnum(&[0x01, 0x00], false), Ok(1));
    assert_eq!(decode_scriptnum(&[0x00], false), Ok(0));
    assert_eq!(decode_scriptnum(&[0x80], false), Ok(0)); // negative zero
    assert_eq!(decode_scriptnum(&[], false), Ok(0));
    assert_eq!(decode_scriptnum(&[0x01, 0x00, 0x80], false), Ok(-1));
}

#[test]
fn decode_minimal_mode_rejects_padding() {
    assert_eq!(
        decode_scriptnum(&[0x01, 0x00], true),
        Err(ExecutionError::InvalidNumericEncoding)
    );
    assert_eq!(
        decode_scriptnum(&[0x00], true),
        Err(ExecutionError::InvalidNumericEncoding)
    );
    assert_eq!(
        decode_scriptnum(&[0x80], true),
        Err(ExecutionError::InvalidNumericEncoding)
    );
    // A final byte that only carries the sign is minimal when the byte
    // before it needs its top bit for the magnitude.
    assert_eq!(decode_scriptnum(&[0xff, 0x00], true), Ok(255));
    assert_eq!(decode_scriptnum(&[0xff, 0x80], true), Ok(-255));
    assert_eq!(decode_scriptnum(&[], true), Ok(0));
}

#[test]
fn pop_num_decodes_the_top_item() {
    let mut stack = Stack::new();
    assert_eq!(stack.pop_num(), Err(ExecutionError::StackUnderflow));

    stack.push(&[0x01, 0x00]); // non-minimal one is accepted
    assert_eq!(stack.pop_num(), Ok(1));

    stack.push(&[1, 2, 3, 4, 5]);
    assert_eq!(stack.pop_num(), Err(ExecutionError::InvalidNumericEncoding));
    assert!(stack.is_empty());
}

#[test]
fn run_instructions_directly() {
    // The dispatch logic, fed an already-decoded stream.
    let instrs = vec![
        Instruction::PushBytes(vec![0x05]),
        Instruction::PushBytes(vec![0x02]),
        Instruction::PushBytes(vec![0x03]),
        Instruction::Op(0x93), // add
        Instruction::Op(0x87), // equal
    ];
    let mut interpreter = Interpreter::new(Vec::new());
    assert_eq!(interpreter.run_instructions(&instrs), Ok(true));
}

#[test]
fn run_instructions_exact_errors() {
    let abort: Vec<Instruction<Vec<u8>>> = vec![Instruction::Op(0x6a)];
    assert_eq!(
        Interpreter::new(Vec::new()).run_instructions(&abort),
        Err(ExecutionError::ExplicitAbort)
    );

    let unsupported = vec![Instruction::PushBytes(vec![0x01]), Instruction::Op(0x94)];
    assert_eq!(
        Interpreter::new(Vec::new()).run_instructions(&unsupported),
        Err(ExecutionError::UnsupportedOpcode)
    );

    let underflow: Vec<Instruction<Vec<u8>>> = vec![Instruction::Op(0x93)];
    assert_eq!(
        Interpreter::new(Vec::new()).run_instructions(&underflow),
        Err(ExecutionError::StackUnderflow)
    );
}
