//! Derivation junctions and the chain codes that path segments stand for.

use vstd::prelude::*;
use crate::hashing::blake2_256;
use crate::hashing::blake2b_digest;
use crate::scale::encode_prefixed;
use crate::scale::le_bytes;
use crate::scale::prefixed;
use crate::scale::u64_le_bytes;
use crate::scale::MAX_PREFIXED_LEN;

verus! {

/// The number of bytes in a chain code.
pub const JUNCTION_ID_LEN: usize = 32;

/// One step of a derivation path, with its chain code.
#[derive(Clone, Copy, PartialEq, Eq, Debug)]
pub enum DeriveJunction {
    /// A step that keeps an algebraic relation to the parent's public key.
    Soft([u8; 32]),
    /// A step computed from secret material; it cannot be undone.
    Hard([u8; 32]),
}

/// What a junction is in contracts: whether it is hard, and its chain code.
pub struct JunctionView {
    pub hard: bool,
    pub chain_code: Seq<u8>,
}

impl View for DeriveJunction {
    type V = JunctionView;

    open spec fn view(&self) -> JunctionView {
        match *self {
            DeriveJunction::Soft(cc) => JunctionView { hard: false, chain_code: cc@ },
            DeriveJunction::Hard(cc) => JunctionView { hard: true, chain_code: cc@ },
        }
    }
}

/// The number that the decimal digits of `digits` spell.
pub open spec fn decimal_value(digits: Seq<u8>) -> nat
    decreases digits.len(),
{
    if digits.len() == 0 {
        0
    } else {
        decimal_value(digits.drop_last()) * 10 + (digits.last() - 0x30) as nat
    }
}

/// Whether `code` is one or more ASCII decimal digits.
pub open spec fn is_decimal(code: Seq<u8>) -> bool {
    &&& code.len() > 0
    &&& forall|i: int| 0 <= i < code.len() ==> 0x30 <= #[trigger] code[i] <= 0x39
}

/// The index that `code` writes, where it is a decimal number that fits in 64
/// bits.
pub open spec fn index_of_code(code: Seq<u8>) -> Option<u64> {
    if is_decimal(code) && decimal_value(code) <= u64::MAX {
        Some(decimal_value(code) as u64)
    } else {
        None
    }
}

/// The chain code of an index: its eight bytes, lowest first, then zeros.
pub open spec fn index_chain_code(index: u64) -> Seq<u8> {
    le_bytes(index as nat, 8) + Seq::new(24, |i: int| 0u8)
}

/// The chain code of a text: the 32-byte digest of the length-prefixed text.
pub open spec fn text_chain_code(code: Seq<u8>) -> Seq<u8> {
    blake2b_digest(32, prefixed(code))
}

/// The chain code that the segment `code` of a path stands for.
pub open spec fn chain_code_of(code: Seq<u8>) -> Seq<u8> {
    match index_of_code(code) {
        Some(index) => index_chain_code(index),
        None => text_chain_code(code),
    }
}

/// A decimal number extended by digits is no smaller.
pub proof fn lemma_decimal_prefix(digits: Seq<u8>, n: int)
    requires
        0 <= n <= digits.len(),
    ensures
        decimal_value(digits.subrange(0, n)) <= decimal_value(digits),
    decreases digits.len(),
{
    if n == digits.len() {
        assert(digits.subrange(0, n) =~= digits);
    } else {
        lemma_decimal_prefix(digits.drop_last(), n);
        assert(digits.drop_last().subrange(0, n) =~= digits.subrange(0, n));
    }
}

/// Reads `code` as a decimal index.
pub fn parse_index(code: &[u8]) -> (index: Option<u64>)
    ensures
        index == index_of_code(code@),
{
    if code.len() == 0 {
        return None;
    }
    let mut value: u64 = 0;
    let mut i: usize = 0;
    while i < code.len()
        invariant
            i <= code@.len(),
            value == decimal_value(code@.subrange(0, i as int)),
            forall|j: int| 0 <= j < i ==> 0x30 <= #[trigger] code@[j] <= 0x39,
        decreases code@.len() - i,
    {
        let c = code[i];
        if c < 0x30 || c > 0x39 {
            return None;
        }
        let ghost next = code@.subrange(0, i + 1);
        proof {
            assert(next.drop_last() =~= code@.subrange(0, i as int));
            assert(next.last() == c);
            lemma_decimal_prefix(code@, i + 1);
        }
        let digit: u64 = (c - 0x30) as u64;
        if value > (u64::MAX - digit) / 10 {
            assert(decimal_value(next) > u64::MAX);
            return None;
        }
        value = value * 10 + digit;
        i += 1;
    }
    assert(code@.subrange(0, i as int) =~= code@);
    Some(value)
}

impl DeriveJunction {
    /// A soft junction for `index`.
    pub fn soft(index: u64) -> (junction: DeriveJunction)
        ensures
            junction@ == (JunctionView { hard: false, chain_code: index_chain_code(index) }),
    {
        DeriveJunction::Soft(index_code(index))
    }

    /// A hard junction for `index`.
    pub fn hard(index: u64) -> (junction: DeriveJunction)
        ensures
            junction@ == (JunctionView { hard: true, chain_code: index_chain_code(index) }),
    {
        DeriveJunction::Hard(index_code(index))
    }

    /// The junction that a path segment stands for: the index it writes, or
    /// else the digest of its text.
    pub fn from_code(code: &[u8], hard: bool) -> (junction: DeriveJunction)
        requires
            code@.len() <= MAX_PREFIXED_LEN,
        ensures
            junction@ == (JunctionView { hard, chain_code: chain_code_of(code@) }),
    {
        let cc = match parse_index(code) {
            Some(index) => index_code(index),
            None => {
                let framed = encode_prefixed(code);
                blake2_256(framed.as_slice())
            },
        };
        if hard {
            DeriveJunction::Hard(cc)
        } else {
            DeriveJunction::Soft(cc)
        }
    }

    /// The same chain code as a soft junction.
    pub fn soften(self) -> (junction: DeriveJunction)
        ensures
            junction@ == (JunctionView { hard: false, chain_code: self@.chain_code }),
    {
        DeriveJunction::Soft(self.unwrap_inner())
    }

    /// The same chain code as a hard junction.
    pub fn harden(self) -> (junction: DeriveJunction)
        ensures
            junction@ == (JunctionView { hard: true, chain_code: self@.chain_code }),
    {
        DeriveJunction::Hard(self.unwrap_inner())
    }

    /// The chain code.
    pub fn unwrap_inner(self) -> (cc: [u8; 32])
        ensures
            cc@ == self@.chain_code,
    {
        match self {
            DeriveJunction::Soft(cc) => cc,
            DeriveJunction::Hard(cc) => cc,
        }
    }

    /// Whether the junction is soft.
    pub fn is_soft(&self) -> (soft: bool)
        ensures
            soft == !self@.hard,
    {
        match self {
            DeriveJunction::Soft(_) => true,
            DeriveJunction::Hard(_) => false,
        }
    }

    /// Whether the junction is hard.
    pub fn is_hard(&self) -> (hard: bool)
        ensures
            hard == self@.hard,
    {
        match self {
            DeriveJunction::Soft(_) => false,
            DeriveJunction::Hard(_) => true,
        }
    }
}

/// The chain code of `index`.
pub fn index_code(index: u64) -> (cc: [u8; 32])
    ensures
        cc@ == index_chain_code(index),
{
    let low = u64_le_bytes(index);
    let mut cc = [0u8; 32];
    let mut i: usize = 0;
    while i < 8
        invariant
            i <= 8,
            cc@.len() == 32,
            low@.len() == 8,
            forall|j: int| 0 <= j < i ==> cc@[j] == low@[j],
            forall|j: int| i <= j < 32 ==> cc@[j] == 0,
        decreases 8 - i,
    {
        cc[i] = low[i];
        i += 1;
    }
    assert(cc@ =~= index_chain_code(index));
    cc
}

} // verus!
