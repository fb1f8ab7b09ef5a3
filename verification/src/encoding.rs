//! The encoding that the number decoder inverts.
//!
//! The decoder never writes a number. This module says which bytes stand for
//! a number, and proves that decoding those bytes gives the number back,
//! whatever surrounds them in the stream.

use crate::defs::MAGICNUMCHAR;
use crate::error::EixError;
use crate::format::{be_fold, escape_run, spec_num, spec_num_wide};
use vstd::arithmetic::div_mod::lemma_small_mod;
use vstd::prelude::*;

verus! {

/// The base-256 digits of `v`, most significant first, without leading
/// zeros.
pub open spec fn digits(v: nat) -> Seq<u8>
    decreases v,
{
    if v == 0 {
        Seq::empty()
    } else {
        digits(v / 256).push((v % 256) as u8)
    }
}

/// `n` escape bytes.
pub open spec fn escapes(n: nat) -> Seq<u8> {
    Seq::new(n, |i: int| MAGICNUMCHAR)
}

/// The bytes that stand for the number `v`.
///
/// A number below 255 is one byte. Any other number is its digits behind as
/// many escape bytes as it has digits after the first. Where the first digit
/// is itself 255, one more escape byte and a zero byte take its place.
pub open spec fn encode_num(v: nat) -> Seq<u8> {
    if v < 255 {
        seq![v as u8]
    } else if digits(v)[0] == MAGICNUMCHAR {
        escapes(digits(v).len()) + seq![0u8] + digits(v).skip(1)
    } else {
        escapes((digits(v).len() - 1) as nat) + digits(v)
    }
}

/// A number other than zero has a first digit, which is not zero, and a
/// number of two digits or more is at least 256.
proof fn lemma_digits_shape(v: nat)
    requires
        v > 0,
    ensures
        digits(v).len() >= 1,
        digits(v)[0] != 0,
        v < 256 ==> digits(v) == seq![v as u8],
        v >= 256 ==> digits(v).len() >= 2,
    decreases v,
{
    if v >= 256 {
        lemma_digits_shape(v / 256);
    } else {
        assert(digits(v / 256) =~= Seq::<u8>::empty());
        assert(digits(v) =~= seq![v as u8]);
    }
}

/// A run of escape bytes that a different byte ends has the length it seems
/// to have.
proof fn lemma_escape_run_exact(s: Seq<u8>, pos: int, n: nat)
    requires
        0 <= pos,
        pos + n < s.len(),
        forall|i: int| pos <= i < pos + n ==> s[i] == MAGICNUMCHAR,
        s[pos + n] != MAGICNUMCHAR,
    ensures
        escape_run(s, pos) == n,
    decreases n,
{
    if n > 0 {
        lemma_escape_run_exact(s, pos + 1, (n - 1) as nat);
    }
}

/// Folding the digits of a number behind its first digit gives the number.
proof fn lemma_be_fold_digits(s: Seq<u8>, pos: int, v: nat)
    requires
        v > 0,
        0 <= pos,
        pos + digits(v).len() - 1 <= s.len(),
        forall|i: int| 1 <= i < digits(v).len() ==> s[pos + i - 1] == digits(v)[i],
    ensures
        be_fold(s, pos, (digits(v).len() - 1) as nat, digits(v)[0] as nat) == v,
    decreases v,
{
    lemma_digits_shape(v);
    if v >= 256 {
        let shorter = digits(v / 256);
        lemma_digits_shape(v / 256);
        assert forall|i: int| 1 <= i < shorter.len() implies s[pos + i - 1] == shorter[i] by {
            assert(digits(v)[i] == shorter[i]);
        }
        lemma_be_fold_digits(s, pos, v / 256);
        assert(digits(v)[0] == shorter[0]);
        assert(s[pos + shorter.len() - 1] == digits(v)[shorter.len() as int]);
    }
}

/// Decoding the bytes that stand for a number gives the number back, and
/// stops behind them, wherever in a stream they are.
pub proof fn lemma_num_round_trip(before: Seq<u8>, v: nat, after: Seq<u8>)
    ensures
        spec_num_wide(before + encode_num(v) + after, before.len() as int) == Ok::<_, EixError>(
            (v, (before.len() + encode_num(v).len()) as int),
        ),
        v <= u64::MAX ==> spec_num(before + encode_num(v) + after, before.len() as int) == Ok::<
            _,
            EixError,
        >((v as u64, (before.len() + encode_num(v).len()) as int)),
{
    reveal(spec_num_wide);
    let code = encode_num(v);
    let s = before + code + after;
    let pos = before.len() as int;
    if v <= u64::MAX {
        lemma_small_mod(v, 0x1_0000_0000_0000_0000);
    }
    if v < 255 {
        assert(s[pos] == code[0]);
    } else {
        let d = digits(v);
        lemma_digits_shape(v);
        let n = d.len() as int;
        assert forall|i: int| 0 <= i < code.len() implies s[pos + i] == code[i] by {}
        if d[0] == MAGICNUMCHAR {
            // n escape bytes, a zero byte, the digits behind the first
            assert(code.len() == 2 * n);
            assert forall|i: int| pos + 1 <= i < pos + n implies s[i] == MAGICNUMCHAR by {
                assert(s[i] == code[i - pos]);
            }
            assert(s[pos] == code[0]);
            assert(s[pos + n] == code[n]);
            lemma_escape_run_exact(s, pos + 1, (n - 1) as nat);
            assert forall|i: int| 1 <= i < n implies s[pos + n + 1 + i - 1] == d[i] by {
                assert(s[pos + n + i] == code[n + i]);
            }
            lemma_be_fold_digits(s, pos + n + 1, v);
        } else {
            // n - 1 escape bytes, then all the digits
            assert(n >= 2);
            assert(code.len() == 2 * n - 1);
            assert forall|i: int| pos + 1 <= i < pos + n - 1 implies s[i] == MAGICNUMCHAR by {
                assert(s[i] == code[i - pos]);
            }
            assert(s[pos] == code[0]);
            assert(s[pos + n - 1] == code[n - 1]);
            lemma_escape_run_exact(s, pos + 1, (n - 2) as nat);
            assert forall|i: int| 1 <= i < n implies s[pos + n + i - 1] == d[i] by {
                assert(s[pos + n - 1 + i] == code[n - 1 + i]);
            }
            lemma_be_fold_digits(s, pos + n, v);
        }
    }
}

} // verus!
