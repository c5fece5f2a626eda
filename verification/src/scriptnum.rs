//! The scriptnum codec: the sign-magnitude, little-endian, variable-length
//! integer encoding used for numeric values on the stack, and the boolean
//! reading of a stack item.
//!
//! Zero encodes as the empty byte string. The encoder always emits the
//! minimal representation: no redundant trailing zero byte, and the sign bit
//! moves to an extra byte only when it would collide with the magnitude's
//! top bit. The decoder offers two modes: the default accepts any valid
//! sign-magnitude byte string, a stricter mode rejects non-minimal padding.
//! Decoding rejects byte strings longer than four bytes rather than
//! truncating them.

use vstd::prelude::*;

use crate::ExecutionError;

verus! {

/// 256 to the power `k`: the place value of the byte at index `k` of a
/// little-endian magnitude.
pub open spec fn pow256(k: nat) -> nat
    decreases k,
{
    if k == 0 {
        1
    } else {
        256 * pow256((k - 1) as nat)
    }
}

/// The magnitude denoted by little-endian base-256 digits.
pub open spec fn le_value(s: Seq<u8>) -> nat
    decreases s.len(),
{
    if s.len() == 0 {
        0
    } else {
        (s[0] + 256 * le_value(s.drop_first())) as nat
    }
}

/// The minimal little-endian base-256 digits of a magnitude.
pub open spec fn le_bytes(m: nat) -> Seq<u8>
    decreases m,
{
    if m == 0 {
        Seq::empty()
    } else {
        seq![(m % 256) as u8] + le_bytes(m / 256)
    }
}

/// The absolute value of an integer.
pub open spec fn int_abs(n: int) -> nat {
    if n < 0 {
        (-n) as nat
    } else {
        n as nat
    }
}

/// The integer denoted by a sign-magnitude byte string: a little-endian
/// magnitude whose final byte carries the sign in its top bit.
pub open spec fn scriptnum_value(s: Seq<u8>) -> int {
    if s.len() == 0 {
        0
    } else {
        let mag = le_value(s.drop_last()) + ((s.last() % 0x80) as nat) * pow256((s.len() - 1) as nat);
        if s.last() >= 0x80 {
            -(mag as int)
        } else {
            mag as int
        }
    }
}

/// Whether a byte string is the minimal encoding of its value: no redundant
/// trailing zero byte (a final byte that adds nothing but a clear sign bit
/// is allowed only when the byte before it needs its top bit for the
/// magnitude).
pub open spec fn is_minimal_scriptnum(s: Seq<u8>) -> bool {
    s.len() == 0 || s.last() % 0x80 != 0 || (s.len() >= 2 && s[s.len() - 2] >= 0x80)
}

/// What decoding a scriptnum returns: `None` when the byte string is longer
/// than four bytes, or, in the strict mode, not minimally encoded.
pub open spec fn spec_decode_scriptnum(s: Seq<u8>, require_minimal: bool) -> Option<int> {
    if s.len() > 4 {
        None
    } else if require_minimal && !is_minimal_scriptnum(s) {
        None
    } else {
        Some(scriptnum_value(s))
    }
}

/// The minimal scriptnum encoding of an integer.
pub open spec fn spec_encode_scriptnum(n: int) -> Seq<u8> {
    if n == 0 {
        Seq::empty()
    } else {
        let mag = le_bytes(int_abs(n));
        if mag.last() >= 0x80 {
            mag.push(if n < 0 { 0x80u8 } else { 0x00u8 })
        } else if n < 0 {
            mag.drop_last().push((mag.last() + 0x80) as u8)
        } else {
            mag
        }
    }
}

/// The boolean reading of a stack item: true unless every byte is zero,
/// where the final byte may instead be `0x80` (negative zero).
pub open spec fn scriptbool_value(s: Seq<u8>) -> bool {
    exists|i: int| 0 <= i < s.len() && s[i] != 0 && !(i == s.len() - 1 && s[i] == 0x80)
}

proof fn lemma_pow256_values()
    ensures
        pow256(0) == 1,
        pow256(1) == 0x100,
        pow256(2) == 0x10000,
        pow256(3) == 0x1000000,
        pow256(4) == 0x100000000,
{
    assert(pow256(0) == 1);
    assert(pow256(1) == 0x100);
    assert(pow256(2) == 0x10000);
    assert(pow256(3) == 0x1000000);
    assert(pow256(4) == 0x100000000);
}

proof fn lemma_pow256_pos(k: nat)
    ensures
        pow256(k) >= 1,
    decreases k,
{
    if k > 0 {
        lemma_pow256_pos((k - 1) as nat);
    }
}

proof fn lemma_le_value_zero(s: Seq<u8>)
    ensures
        (le_value(s) == 0) <==> (forall|j: int| 0 <= j < s.len() ==> s[j] == 0),
    decreases s.len(),
{
    if s.len() > 0 {
        lemma_le_value_zero(s.drop_first());
        if le_value(s) == 0 {
            assert forall|j: int| 0 <= j < s.len() implies s[j] == 0 by {
                if j > 0 {
                    assert(s.drop_first()[j - 1] == s[j]);
                }
            }
        } else {
            if s[0] == 0 {
                let j = choose|j: int| 0 <= j < s.drop_first().len() && s.drop_first()[j] != 0;
                assert(s[j + 1] != 0);
            }
        }
    }
}

proof fn lemma_le_value_bound(s: Seq<u8>)
    ensures
        le_value(s) < pow256(s.len()),
    decreases s.len(),
{
    if s.len() > 0 {
        lemma_le_value_bound(s.drop_first());
    }
}

proof fn lemma_le_value_push(s: Seq<u8>, b: u8)
    ensures
        le_value(s.push(b)) == le_value(s) + (b as nat) * pow256(s.len()),
    decreases s.len(),
{
    if s.len() == 0 {
        assert(s.push(b).drop_first() =~= Seq::<u8>::empty());
        assert(le_value(s.push(b)) == s.push(b)[0] + 256 * le_value(s.push(b).drop_first()));
        assert(s.push(b)[0] == b);
        assert(le_value(s) == 0);
        assert(pow256(s.len()) == 1);
    } else {
        let t = s.drop_first();
        assert(s.push(b).drop_first() =~= t.push(b));
        lemma_le_value_push(t, b);
        assert(le_value(s.push(b)) == s.push(b)[0] + 256 * le_value(s.push(b).drop_first()));
        assert(s.push(b)[0] == s[0]);
        assert(le_value(s.push(b)) == s[0] + 256 * (le_value(t) + (b as nat) * pow256(t.len())));
        assert(256 * (le_value(t) + (b as nat) * pow256(t.len()))
            == 256 * le_value(t) + (b as nat) * (256 * pow256(t.len()))) by (nonlinear_arith);
        assert(le_value(s) == s[0] + 256 * le_value(t));
        assert(pow256(s.len()) == 256 * pow256((s.len() - 1) as nat));
        assert(t.len() == s.len() - 1);
        assert((b as nat) * (256 * pow256(t.len())) == (b as nat) * pow256(s.len()));
        assert(le_value(s.push(b)) == le_value(s) + (b as nat) * pow256(s.len()));
    }
}

proof fn lemma_le_value_split_last(s: Seq<u8>)
    requires
        s.len() > 0,
    ensures
        le_value(s) == le_value(s.drop_last()) + (s.last() as nat) * pow256((s.len() - 1) as nat),
{
    assert(s =~= s.drop_last().push(s.last()));
    lemma_le_value_push(s.drop_last(), s.last());
}

proof fn lemma_le_bytes_value(m: nat)
    ensures
        le_value(le_bytes(m)) == m,
    decreases m,
{
    if m > 0 {
        lemma_le_bytes_value(m / 256);
        assert((seq![(m % 256) as u8] + le_bytes(m / 256)).drop_first() =~= le_bytes(m / 256));
    }
}

proof fn lemma_le_bytes_len(m: nat, k: nat)
    requires
        m < pow256(k),
    ensures
        le_bytes(m).len() <= k,
    decreases k,
{
    if m > 0 {
        if k == 0 {
        } else {
            assert(m / 256 < pow256((k - 1) as nat)) by (nonlinear_arith)
                requires
                    m < 256 * pow256((k - 1) as nat),
            ;
            lemma_le_bytes_len(m / 256, (k - 1) as nat);
        }
    }
}

proof fn lemma_le_bytes_last_nonzero(m: nat)
    requires
        m > 0,
    ensures
        le_bytes(m).len() > 0,
        le_bytes(m).last() != 0,
    decreases m,
{
    if m < 256 {
        assert(le_bytes(m / 256) =~= Seq::<u8>::empty());
    } else {
        lemma_le_bytes_last_nonzero(m / 256);
        assert(le_bytes(m).last() == le_bytes(m / 256).last());
    }
}

/// Law: decoding re-reads what the encoder wrote. For every integer that
/// fits in four sign-magnitude bytes, decoding its minimal encoding gives
/// the integer back, in the strict mode as well as in the permissive one.
/// (The converse direction does not hold: a non-minimal input re-encodes to
/// its minimal form, not to itself.)
pub proof fn lemma_scriptnum_round_trip(n: int)
    requires
        -0x7fffffff <= n <= 0x7fffffff,
    ensures
        spec_decode_scriptnum(spec_encode_scriptnum(n), false) == Some(n),
        spec_decode_scriptnum(spec_encode_scriptnum(n), true) == Some(n),
{
    lemma_encode_scriptnum_minimal(n);
    if n != 0 {
        let m = int_abs(n);
        let mag = le_bytes(m);
        lemma_le_bytes_value(m);
        lemma_le_bytes_last_nonzero(m);
        lemma_pow256_values();
        lemma_le_bytes_len(m, 4);
        lemma_le_value_split_last(mag);
        if mag.last() >= 0x80 {
            // The sign bit moves to an extra byte; the magnitude needs at
            // most three bytes, else it would exceed the four-byte range.
            if mag.len() == 4 {
                assert((mag.last() as nat) * pow256(3) >= 0x80 * 0x1000000) by (nonlinear_arith)
                    requires
                        mag.last() >= 0x80,
                        pow256(3) == 0x1000000,
                ;
            }
            let s = spec_encode_scriptnum(n);
            assert(s.drop_last() =~= mag);
            assert((s.last() % 0x80) == 0);
            assert(scriptnum_value(s) == if n < 0 { -(m as int) } else { m as int });
        } else if n < 0 {
            let s = mag.drop_last().push((mag.last() + 0x80) as u8);
            assert(s.last() == mag.last() + 0x80);
            assert(s.drop_last() =~= mag.drop_last());
            assert(scriptnum_value(s) == -(m as int));
        } else {
            assert(scriptnum_value(mag) == m as int);
        }
    }
}

/// Any value read back from at most four sign-magnitude bytes is strictly
/// within the 32-bit signed range.
pub proof fn lemma_scriptnum_value_bound(s: Seq<u8>)
    requires
        s.len() <= 4,
    ensures
        -0x80000000 < scriptnum_value(s) < 0x80000000,
{
    if s.len() > 0 {
        lemma_pow256_values();
        lemma_le_value_bound(s.drop_last());
        let p = pow256((s.len() - 1) as nat);
        assert(p <= 0x1000000);
        assert(((s.last() % 0x80) as nat) * p <= 127 * p) by (nonlinear_arith)
            requires
                s.last() % 0x80 <= 127,
        ;
    }
}

/// Law: the encoder always emits the minimal representation.
pub proof fn lemma_encode_scriptnum_minimal(n: int)
    ensures
        is_minimal_scriptnum(spec_encode_scriptnum(n)),
{
    if n != 0 {
        let m = int_abs(n);
        let mag = le_bytes(m);
        lemma_le_bytes_last_nonzero(m);
        if mag.last() >= 0x80 {
            let s = mag.push(if n < 0 { 0x80u8 } else { 0x00u8 });
            assert(s[s.len() - 2] == mag.last());
        } else if n < 0 {
            let s = mag.drop_last().push((mag.last() + 0x80) as u8);
            assert(s.last() % 0x80 == mag.last() % 0x80);
            assert(mag.last() % 0x80 == mag.last());
        } else {
            assert(mag.last() % 0x80 == mag.last());
        }
    }
}

/// Law: the boolean reading of an item is derived from the numeric one. An
/// item reads as false exactly when it denotes numeric zero — including
/// negative zero and every padded form of zero — whatever its length.
pub proof fn lemma_scriptbool_matches_zero(s: Seq<u8>)
    ensures
        scriptbool_value(s) <==> scriptnum_value(s) != 0,
{
    if s.len() > 0 {
        let t = s.drop_last();
        let p = pow256((s.len() - 1) as nat);
        lemma_pow256_pos((s.len() - 1) as nat);
        lemma_le_value_zero(t);
        if scriptbool_value(s) {
            let i = choose|i: int|
                0 <= i < s.len() && s[i] != 0 && !(i == s.len() - 1 && s[i] == 0x80);
            if i < s.len() - 1 {
                assert(t[i] != 0);
                assert(le_value(t) != 0);
            } else {
                assert(((s.last() % 0x80) as nat) * p >= 1 * p) by (nonlinear_arith)
                    requires
                        s.last() % 0x80 >= 1 && p >= 0,
                ;
            }
        } else {
            assert forall|j: int| 0 <= j < t.len() implies t[j] == 0 by {
                assert(!(s[j] != 0 && !(j == s.len() - 1 && s[j] == 0x80)));
            }
            assert(s.last() == 0 || s.last() == 0x80);
        }
    }
}

/// Encodes an integer as a minimal sign-magnitude scriptnum.
pub fn encode_scriptnum(n: i64) -> (r: Vec<u8>)
    ensures
        r@ == spec_encode_scriptnum(n as int),
{
    let mut out: Vec<u8> = Vec::new();
    if n == 0 {
        return out;
    }
    let neg = n < 0;
    let mut m: u64 = if neg {
        (-(n as i128)) as u64
    } else {
        n as u64
    };
    let ghost m0: nat = m as nat;
    assert(m0 == int_abs(n as int));
    while m > 0
        invariant
            le_bytes(m0) == out@ + le_bytes(m as nat),
        decreases m,
    {
        let ghost m_prev: nat = m as nat;
        let ghost out_prev: Seq<u8> = out@;
        let b = (m % 256) as u8;
        out.push(b);
        m = m / 256;
        proof {
            assert(le_bytes(m_prev) == seq![b] + le_bytes(m as nat));
            assert(out_prev + (seq![b] + le_bytes(m as nat)) =~= out@ + le_bytes(m as nat));
        }
    }
    proof {
        assert(out@ + le_bytes(0) =~= out@);
        assert(out@ == le_bytes(m0));
        assert(le_bytes(m0).len() > 0);
    }
    let last = out[out.len() - 1];
    if last >= 0x80 {
        out.push(if neg { 0x80 } else { 0x00 });
    } else if neg {
        out.pop();
        out.push(last + 0x80);
        proof {
            assert(le_bytes(m0).subrange(0, le_bytes(m0).len() - 1) =~= le_bytes(m0).drop_last());
        }
    }
    out
}

/// Decodes a sign-magnitude scriptnum of at most four bytes; in the strict
/// mode, rejects non-minimal encodings.
pub fn decode_scriptnum(v: &[u8], require_minimal: bool) -> (r: Result<i64, ExecutionError>)
    ensures
        match spec_decode_scriptnum(v@, require_minimal) {
            Some(n) => r matches Ok(x) && x as int == n,
            None => r == Err::<i64, ExecutionError>(ExecutionError::InvalidNumericEncoding),
        },
{
    let len = v.len();
    if len > 4 {
        return Err(ExecutionError::InvalidNumericEncoding);
    }
    if len == 0 {
        return Ok(0);
    }
    let last = v[len - 1];
    if require_minimal && last % 0x80 == 0 && !(len >= 2 && v[len - 2] >= 0x80) {
        return Err(ExecutionError::InvalidNumericEncoding);
    }
    proof {
        lemma_pow256_values();
    }
    let mut acc: u64 = 0;
    let mut mult: u64 = 1;
    let mut i: usize = 0;
    while i < len - 1
        invariant
            v@.len() == len,
            1 <= len <= 4,
            i <= len - 1,
            mult == pow256(i as nat),
            acc == le_value(v@.take(i as int)),
            pow256(0) == 1 && pow256(1) == 0x100 && pow256(2) == 0x10000 && pow256(3)
                == 0x1000000,
        decreases len - 1 - i,
    {
        proof {
            lemma_le_value_bound(v@.take(i as int));
            lemma_le_value_push(v@.take(i as int), v@[i as int]);
            assert(v@.take(i + 1) =~= v@.take(i as int).push(v@[i as int]));
            if i == 0 {
                assert(mult == 1);
            } else if i == 1 {
                assert(mult == 0x100);
            } else {
                assert(i == 2);
                assert(mult == 0x10000);
            }
            assert((v@[i as int] as u64) * mult <= 255 * 0x10000) by (nonlinear_arith)
                requires
                    v@[i as int] <= 255 && mult <= 0x10000,
            ;
        }
        acc = acc + (v[i] as u64) * mult;
        mult = mult * 256;
        i += 1;
    }
    proof {
        lemma_le_value_bound(v@.take(i as int));
        assert(v@.take(len - 1) =~= v@.drop_last());
        if i == 0 {
            assert(mult == 1);
        } else if i == 1 {
            assert(mult == 0x100);
        } else if i == 2 {
            assert(mult == 0x10000);
        } else {
            assert(i == 3);
            assert(mult == 0x1000000);
        }
        assert(((last % 0x80) as u64) * mult <= 127 * 0x1000000) by (nonlinear_arith)
            requires
                last % 0x80 <= 127 && mult <= 0x1000000,
        ;
    }
    let mag: u64 = acc + ((last % 0x80) as u64) * mult;
    let val: i64 = if last >= 0x80 {
        -(mag as i64)
    } else {
        mag as i64
    };
    Ok(val)
}

/// Reads a stack item as a boolean.
pub fn decode_scriptbool(v: &[u8]) -> (r: bool)
    ensures
        r == scriptbool_value(v@),
{
    let len = v.len();
    if len == 0 {
        return false;
    }
    let last = v[len - 1];
    if last != 0 && last != 0x80 {
        return true;
    }
    let mut i: usize = 0;
    while i < len - 1
        invariant
            v@.len() == len,
            len >= 1,
            i <= len - 1,
            forall|j: int| 0 <= j < i ==> v@[j] == 0,
            v@[len - 1] == 0 || v@[len - 1] == 0x80,
        decreases len - 1 - i,
    {
        if v[i] != 0 {
            return true;
        }
        i += 1;
    }
    false
}

} // verus!
