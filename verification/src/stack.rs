//! The stack used during script execution: an ordered sequence of byte
//! strings with LIFO access, together with the numeric and boolean readings
//! of its items.
//!
//! No item carries a type tag: each is at once a raw byte string, a
//! potential scriptnum and a potential boolean, and only the opcode that
//! consumes it decides the interpretation.

use vstd::prelude::*;

use crate::scriptnum::{
    decode_scriptbool, decode_scriptnum, encode_scriptnum, scriptbool_value, spec_decode_scriptnum,
    spec_encode_scriptnum,
};
use crate::ExecutionError;

verus! {

/// The stack used during script execution.
pub struct Stack {
    items: Vec<Vec<u8>>,
}

impl View for Stack {
    type V = Seq<Seq<u8>>;

    closed spec fn view(&self) -> Seq<Seq<u8>> {
        self.items@.map_values(|item: Vec<u8>| item@)
    }
}

/// Whether a stack reads as true: it is non-empty and its top item has a
/// truthy boolean reading. This exact predicate decides overall script
/// validity; it is not "is the stack non-empty".
pub open spec fn stack_truthy(s: Seq<Seq<u8>>) -> bool {
    s.len() > 0 && scriptbool_value(s.last())
}

/// Law: a stack with no items never reads as true.
pub proof fn lemma_empty_stack_is_false(s: Seq<Seq<u8>>)
    requires
        s.len() == 0,
    ensures
        !stack_truthy(s),
{
}

impl Stack {
    /// Creates a new empty stack.
    pub fn new() -> (s: Self)
        ensures
            s@ == Seq::<Seq<u8>>::empty(),
    {
        let s = Self { items: Vec::new() };
        proof {
            assert(s@ =~= Seq::<Seq<u8>>::empty());
        }
        s
    }

    /// Pushes bytes onto the stack.
    pub fn push(&mut self, bytes: &[u8])
        ensures
            final(self)@ == old(self)@.push(bytes@),
    {
        self.items.push(vstd::slice::slice_to_vec(bytes));
        proof {
            assert(self@ =~= old(self)@.push(bytes@));
        }
    }

    /// Pushes the minimal scriptnum encoding of a number onto the stack.
    pub fn push_num(&mut self, x: i64)
        ensures
            final(self)@ == old(self)@.push(spec_encode_scriptnum(x as int)),
    {
        let encoded = encode_scriptnum(x);
        self.items.push(encoded);
        proof {
            assert(self@ =~= old(self)@.push(spec_encode_scriptnum(x as int)));
        }
    }

    /// Pushes a boolean onto the stack: the canonical true encoding is the
    /// single byte 1, the canonical false encoding is the empty byte string.
    pub fn push_bool(&mut self, x: bool)
        ensures
            final(self)@ == old(self)@.push(
                if x {
                    seq![1u8]
                } else {
                    Seq::<u8>::empty()
                },
            ),
    {
        let mut item: Vec<u8> = Vec::new();
        if x {
            item.push(0x01);
            proof {
                assert(item@ =~= seq![1u8]);
            }
        } else {
            proof {
                assert(item@ =~= Seq::<u8>::empty());
            }
        }
        self.items.push(item);
        proof {
            assert(self@ =~= old(self)@.push(item@));
        }
    }

    /// Pops the top item from the stack, or `None` if the stack is empty.
    pub fn pop(&mut self) -> (r: Option<Vec<u8>>)
        ensures
            old(self)@.len() == 0 ==> r is None && final(self)@ == old(self)@,
            old(self)@.len() > 0 ==> (r matches Some(item) && item@ == old(self)@.last())
                && final(self)@ == old(self)@.drop_last(),
    {
        let r = self.items.pop();
        proof {
            if old(self)@.len() > 0 {
                assert(self@ =~= old(self)@.drop_last());
            }
        }
        r
    }

    /// Pops the top item and decodes it as a scriptnum, accepting
    /// non-minimal encodings.
    ///
    /// Fails with `StackUnderflow` on an empty stack (which it leaves
    /// unchanged), and with `InvalidNumericEncoding` when the popped item is
    /// more than four bytes long.
    pub fn pop_num(&mut self) -> (r: Result<i64, ExecutionError>)
        ensures
            old(self)@.len() == 0 ==> r == Err::<i64, ExecutionError>(
                ExecutionError::StackUnderflow,
            ) && final(self)@ == old(self)@,
            old(self)@.len() > 0 ==> final(self)@ == old(self)@.drop_last() && (match
                spec_decode_scriptnum(old(self)@.last(), false) {
                Some(n) => r matches Ok(x) && x as int == n,
                None => r == Err::<i64, ExecutionError>(ExecutionError::InvalidNumericEncoding),
            }),
    {
        let item = match self.pop() {
            Some(item) => item,
            None => {
                return Err(ExecutionError::StackUnderflow);
            },
        };
        decode_scriptnum(item.as_slice(), false)
    }

    /// Returns the number of items on the stack.
    pub fn len(&self) -> (n: usize)
        ensures
            n == self@.len(),
    {
        self.items.len()
    }

    /// Returns true if the stack is empty.
    pub fn is_empty(&self) -> (r: bool)
        ensures
            r == (self@.len() == 0),
    {
        self.items.is_empty()
    }

    /// Peeks at the top item without removing it.
    pub fn top(&self) -> (r: Option<&Vec<u8>>)
        ensures
            self@.len() == 0 ==> r is None,
            self@.len() > 0 ==> (r matches Some(item) && item@ == self@.last()),
    {
        if self.items.len() == 0 {
            None
        } else {
            Some(&self.items[self.items.len() - 1])
        }
    }

    /// Returns true if the stack is non-empty and its top item reads as a
    /// true boolean. This is the validity verdict of a script after
    /// execution.
    pub fn is_true(&self) -> (r: bool)
        ensures
            r == stack_truthy(self@),
    {
        match self.top() {
            Some(top) => decode_scriptbool(top.as_slice()),
            None => false,
        }
    }
}

impl Default for Stack {
    /// An empty stack.
    fn default() -> (s: Self)
        ensures
            s@ == Seq::<Seq<u8>>::empty(),
    {
        Self::new()
    }
}

} // verus!
